//! The framing of syscalls on the link to the hosted kernel.
//!
//! A request is the calling thread's ID, then the eight argument words of
//! the call, each a little-endian machine word, then the bytes of any
//! memory the call lends or moves. A response starts with a header of the
//! same shape: a thread ID and eight words.
use crate::le::{
    byte_base, le_bytes, le_value, lemma_le_bytes_len, lemma_le_roundtrip_small, lemma_word_base,
    lemma_words_le_layout, usize_from_le, usize_to_le, word_bytes, word_len, words_le,
};
use vstd::prelude::*;

verus! {

/// Number of argument words in a syscall.
pub const SYSCALL_WORDS: usize = 8;

/// The bytes of a syscall request from thread `tid` with arguments `args`
/// and attached memory `memory`.
pub open spec fn spec_packet(tid: usize, args: Seq<usize>, memory: Seq<u8>) -> Seq<u8> {
    le_bytes(tid as nat, word_len()) + words_le(args) + memory
}

/// The `i`-th machine word of a header (word 0 is the thread ID, words 1
/// to 8 the message words).
pub open spec fn header_word(raw: Seq<u8>, i: int) -> nat {
    le_value(raw.subrange(i * word_len(), (i + 1) * word_len()))
}

/// Number of bytes in a header: nine machine words.
pub open spec fn header_len() -> nat {
    9 * word_len()
}

/// Frames a syscall request: the thread ID, the argument words, then the
/// bytes of the attached memory, if any.
pub fn encode_syscall(tid: usize, args: &[usize; 8], memory: Option<&[u8]>) -> (pkt: Vec<u8>)
    requires
        memory matches Some(m) ==> m@.len() + header_len() <= usize::MAX,
    ensures
        pkt@ == spec_packet(
            tid,
            args@,
            match memory {
                Some(m) => m@,
                None => Seq::empty(),
            },
        ),
        pkt@.len() == header_len() + (match memory {
            Some(m) => m@.len(),
            None => 0,
        }),
        pkt@.subrange(0, word_len() as int) == le_bytes(tid as nat, word_len()),
        forall|i: int|
            0 <= i < 8 ==> #[trigger] pkt@.subrange((i + 1) * word_len(), (i + 2) * word_len())
                == le_bytes(args@[i] as nat, word_len()),
        pkt@.subrange(header_len() as int, pkt@.len() as int) == (match memory {
            Some(m) => m@,
            None => Seq::empty(),
        }),
{
    proof {
        let ghost tail = match memory {
            Some(m) => m@,
            None => Seq::<u8>::empty(),
        };
        lemma_packet_layout(tid, args@, tail);
    }
    let w = word_bytes();
    let mut capacity: usize = SYSCALL_WORDS * w + w;
    if let Some(mem) = memory {
        capacity = capacity + mem.len();
    }
    let mut pkt: Vec<u8> = Vec::with_capacity(capacity);
    let tid_bytes = usize_to_le(tid);
    pkt.extend_from_slice(tid_bytes.as_slice());
    assert(pkt@ =~= le_bytes(tid as nat, word_len()));
    let mut i: usize = 0;
    while i < SYSCALL_WORDS
        invariant
            i <= 8,
            pkt@ == le_bytes(tid as nat, word_len()) + words_le(args@.take(i as int)),
        decreases 8 - i,
    {
        let word = usize_to_le(args[i]);
        pkt.extend_from_slice(word.as_slice());
        proof {
            let next = args@.take(i + 1);
            assert(next.drop_last() =~= args@.take(i as int));
            assert(next.last() == args@[i as int]);
            assert(pkt@ =~= le_bytes(tid as nat, word_len()) + words_le(next));
        }
        i = i + 1;
    }
    assert(args@.take(8) =~= args@);
    if let Some(mem) = memory {
        pkt.extend_from_slice(mem);
    }
    let ghost tail = match memory {
        Some(m) => m@,
        None => Seq::<u8>::empty(),
    };
    assert(pkt@ =~= spec_packet(tid, args@, tail));
    pkt
}

/// Reads the header at the start of a response: the thread ID it answers,
/// and the eight message words.
pub fn decode_header(raw: &[u8]) -> (res: (usize, [usize; 8]))
    requires
        raw@.len() == header_len(),
    ensures
        res.0 as nat == header_word(raw@, 0),
        forall|i: int| 0 <= i < 8 ==> #[trigger] res.1@[i] as nat == header_word(raw@, i + 1),
        res.0 as nat == le_value(raw@.subrange(0, word_len() as int)),
        forall|i: int|
            0 <= i < 8 ==> #[trigger] res.1@[i] as nat == le_value(
                raw@.subrange((i + 1) * word_len(), (i + 2) * word_len()),
            ),
{
    let w = word_bytes();
    let tid = usize_from_le(vstd::slice::slice_subrange(raw, 0, w));
    assert(0 * word_len() == 0 && 1 * word_len() == word_len());
    let mut pkt = [0usize; 8];
    let mut i: usize = 0;
    while i < 8
        invariant
            i <= 8,
            w as nat == word_len(),
            w == 4 || w == 8,
            raw@.len() == 9 * w,
            forall|j: int| 0 <= j < i ==> #[trigger] pkt@[j] as nat == header_word(raw@, j + 1),
        decreases 8 - i,
    {
        let start = (i + 1) * w;
        assert((i + 1) * w + w <= 9 * w) by (nonlinear_arith)
            requires
                i < 8,
        {
        }
        let chunk = vstd::slice::slice_subrange(raw, start, start + w);
        assert((i as int + 1) * word_len() == start && (i as int + 2) * word_len() == start + w)
            by (nonlinear_arith)
            requires
                start == (i + 1) * w,
                w as nat == word_len(),
        {
        }
        pkt[i] = usize_from_le(chunk);
        i = i + 1;
    }
    proof {
        lemma_header_word_slot(raw@, 0);
        assert forall|i: int| 0 <= i < 8 implies #[trigger] pkt@[i] as nat == le_value(
            raw@.subrange((i + 1) * word_len(), (i + 2) * word_len()),
        ) by {
            lemma_header_word_slot(raw@, i + 1);
            assert((i + 1 + 1) * word_len() == (i + 2) * word_len()) by (nonlinear_arith);
        }
    }
    (tid, pkt)
}

/// Header word `i` is the little-endian value of bytes
/// `i * w .. (i + 1) * w`, where `w` is the length of a machine word.
pub proof fn lemma_header_word_slot(raw: Seq<u8>, i: int)
    ensures
        header_word(raw, i) == le_value(raw.subrange(i * word_len(), (i + 1) * word_len())),
        i == 0 ==> header_word(raw, i) == le_value(raw.subrange(0, word_len() as int)),
{
}

/// A request is laid out in order: the thread ID in the first machine word,
/// argument `i` in machine word `i + 1` for each `i` in `0..8`, then the
/// attached memory.
pub proof fn lemma_packet_layout(tid: usize, args: Seq<usize>, memory: Seq<u8>)
    requires
        args.len() == 8,
    ensures
        spec_packet(tid, args, memory).len() == header_len() + memory.len(),
        spec_packet(tid, args, memory).subrange(0, word_len() as int) == le_bytes(
            tid as nat,
            word_len(),
        ),
        forall|i: int|
            0 <= i < 8 ==> #[trigger] spec_packet(tid, args, memory).subrange(
                (i + 1) * word_len(),
                (i + 2) * word_len(),
            ) == le_bytes(args[i] as nat, word_len()),
        spec_packet(tid, args, memory).subrange(
            header_len() as int,
            spec_packet(tid, args, memory).len() as int,
        ) == memory,
{
    let w = word_len();
    let p = spec_packet(tid, args, memory);
    let head = le_bytes(tid as nat, w);
    let body = words_le(args);
    lemma_le_bytes_len(tid as nat, w);
    lemma_words_le_layout(args);
    assert(8 * w + w == header_len());
    assert(p.subrange(0, w as int) =~= head);
    assert forall|i: int| 0 <= i < 8 implies #[trigger] p.subrange((i + 1) * w, (i + 2) * w)
        == le_bytes(args[i] as nat, w) by {
        assert((i + 1) * w == w + i * w && (i + 2) * w == w + (i + 1) * w) by (nonlinear_arith);
        assert(0 <= i * w && (i + 1) * w <= 8 * w) by (nonlinear_arith)
            requires
                0 <= i < 8,
                w >= 0,
        {
        }
        assert(p.subrange((i + 1) * w, (i + 2) * w) =~= body.subrange(i * w, (i + 1) * w));
        assert(args[i] == args[i]);
    }
    assert(p.subrange(header_len() as int, p.len() as int) =~= memory);
}

/// A request's header reads back as the thread ID and arguments it was
/// framed with, and the attached memory follows the header unchanged.
pub proof fn lemma_packet_header_roundtrip(tid: usize, args: Seq<usize>, memory: Seq<u8>)
    requires
        args.len() == 8,
    ensures
        spec_packet(tid, args, memory).len() == header_len() + memory.len(),
        header_word(spec_packet(tid, args, memory), 0) == tid as nat,
        forall|i: int|
            0 <= i < 8 ==> #[trigger] header_word(spec_packet(tid, args, memory), i + 1)
                == args[i] as nat,
        spec_packet(tid, args, memory).subrange(
            header_len() as int,
            spec_packet(tid, args, memory).len() as int,
        ) == memory,
{
    let w = word_len();
    let p = spec_packet(tid, args, memory);
    let head = le_bytes(tid as nat, w);
    let body = words_le(args);
    lemma_word_base();
    lemma_le_bytes_len(tid as nat, w);
    lemma_words_le_layout(args);
    assert(8 * w + w == header_len());
    assert(p.subrange(0 * (w as int), 1 * (w as int)) =~= head);
    lemma_le_roundtrip_small(tid as nat, w);
    assert forall|i: int| 0 <= i < 8 implies #[trigger] header_word(p, i + 1) == args[i] as nat by {
        assert((i + 1) * w == w + i * w && (i + 2) * w == w + (i + 1) * w) by (nonlinear_arith);
        assert(0 <= i * w && (i + 1) * w <= 8 * w) by (nonlinear_arith)
            requires
                0 <= i < 8,
                w >= 0,
        {
        }
        assert(p.subrange((i + 1) * w, (i + 2) * w) =~= body.subrange(i * w, (i + 1) * w));
        assert(args[i] == args[i]);
        lemma_le_roundtrip_small(args[i] as nat, w);
    }
    assert(p.subrange(header_len() as int, p.len() as int) =~= memory);
}

} // verus!
