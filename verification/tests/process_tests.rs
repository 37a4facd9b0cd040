use xous_hosted::error::Error;
use xous_hosted::process::{args_to_process, process_to_args, ProcessArgs, ProcessInit, ProcessKey};

fn sample_key() -> ProcessKey {
    let mut bytes = [0u8; 16];
    for (i, b) in bytes.iter_mut().enumerate() {
        *b = (i as u8) * 17 + 1;
    }
    ProcessKey::new(bytes)
}

#[test]
fn key_keeps_its_bytes() {
    let bytes = [9u8; 16];
    assert_eq!(ProcessKey::new(bytes).bytes(), bytes);
}

#[test]
fn process_to_args_packs_little_endian_words() {
    let init = ProcessInit { key: ProcessKey::new([1, 2, 3, 4, 5, 6, 7, 8, 9, 10, 11, 12, 13, 14, 15, 16]) };
    let args = process_to_args(0x2a, &init);
    assert_eq!(args, [0x2a, 0x04030201, 0x08070605, 0x0c0b0a09, 0x100f0e0d, 0, 0, 0]);
}

#[test]
fn args_to_process_unpacks_little_endian_words() {
    let init = args_to_process(0x04030201, 0x08070605, 0x0c0b0a09, 0x100f0e0d, 7, 8, 9).unwrap();
    assert_eq!(init.key.bytes(), [1, 2, 3, 4, 5, 6, 7, 8, 9, 10, 11, 12, 13, 14, 15, 16]);
}

#[test]
fn args_to_process_keeps_low_32_bits_only() {
    let wide: usize = if usize::BITS == 64 { (0xdead_usize << 32) | 0x44332211 } else { 0x44332211 };
    let init = args_to_process(wide, 0, 0, 0xffff_ffff, 0, 0, 0).unwrap();
    let b = init.key.bytes();
    assert_eq!(&b[0..4], &[0x11, 0x22, 0x33, 0x44]);
    assert_eq!(&b[4..8], &[0, 0, 0, 0]);
    assert_eq!(&b[12..16], &[0xff, 0xff, 0xff, 0xff]);
}

#[test]
fn args_to_process_never_fails() {
    let r: Result<ProcessInit, Error> = args_to_process(usize::MAX, usize::MAX, 0, 1, usize::MAX, 3, 4);
    assert!(r.is_ok());
}

#[test]
fn key_survives_args_roundtrip() {
    let init = ProcessInit { key: sample_key() };
    let a = process_to_args(5, &init);
    let back = args_to_process(a[1], a[2], a[3], a[4], a[5], a[6], a[7]).unwrap();
    assert_eq!(back, init);
}

#[test]
fn words_survive_key_roundtrip() {
    let init = args_to_process(0x12345678, 0x9abcdef0, 1, 0xffffffff, 0, 0, 0).unwrap();
    let a = process_to_args(77, &init);
    assert_eq!(a, [77, 0x12345678, 0x9abcdef0, 1, 0xffffffff, 0, 0, 0]);
}

#[test]
fn process_args_keep_name_and_command() {
    let args = ProcessArgs::new("shell", "echo hi".to_string());
    assert_eq!(args.name(), "shell");
    assert_eq!(args.command(), "echo hi");
}
