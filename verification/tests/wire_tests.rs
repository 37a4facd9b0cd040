use xous_hosted::wire::{decode_header, encode_syscall, SYSCALL_WORDS};

const W: usize = core::mem::size_of::<usize>();

#[test]
fn request_layout() {
    let args = [1usize, 2, 3, 4, 5, 6, 7, 0x0102];
    let pkt = encode_syscall(0x0a0b, &args, None);
    assert_eq!(pkt.len(), (SYSCALL_WORDS + 1) * W);
    assert_eq!(&pkt[0..W], &0x0a0busize.to_le_bytes()[..]);
    assert_eq!(pkt[0], 0x0b);
    assert_eq!(pkt[1], 0x0a);
    assert_eq!(pkt[W], 1);
    assert_eq!(pkt[8 * W], 0x02);
    assert_eq!(pkt[8 * W + 1], 0x01);
}

#[test]
fn request_carries_memory_after_header() {
    let args = [9usize; 8];
    let mem = [0xaau8, 0xbb, 0xcc];
    let pkt = encode_syscall(3, &args, Some(&mem[..]));
    assert_eq!(pkt.len(), 9 * W + 3);
    assert_eq!(&pkt[9 * W..], &mem[..]);
}

#[test]
fn header_is_read_back() {
    let args = [usize::MAX, 0, 1, 2, 3, 0x1234, 5, 6];
    let pkt = encode_syscall(17, &args, Some(&[1u8, 2, 3][..]));
    let (tid, words) = decode_header(&pkt[..9 * W]);
    assert_eq!(tid, 17);
    assert_eq!(words, args);
}

#[test]
fn header_words_are_little_endian() {
    let mut raw = vec![0u8; 9 * W];
    raw[0] = 5;
    raw[W] = 0x34;
    raw[W + 1] = 0x12;
    raw[8 * W] = 0xff;
    let (tid, words) = decode_header(&raw);
    assert_eq!(tid, 5);
    assert_eq!(words[0], 0x1234);
    assert_eq!(words[7], 0xff);
    assert_eq!(&words[1..7], &[0usize; 6]);
}
