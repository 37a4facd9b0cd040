//! Little-endian byte encodings of unsigned integers, as the hosted kernel
//! link writes them: the mathematical model, its laws, and the std
//! conversions that produce and read such bytes.
use vstd::prelude::*;

verus! {

/// `256` raised to the power `n`: the number of values that `n` bytes hold.
pub open spec fn byte_base(n: nat) -> nat
    decreases n,
{
    if n == 0 {
        1
    } else {
        256 * byte_base((n - 1) as nat)
    }
}

/// The `n` least significant bytes of `x`, least significant first.
pub open spec fn le_bytes(x: nat, n: nat) -> Seq<u8>
    decreases n,
{
    if n == 0 {
        Seq::empty()
    } else {
        seq![(x % 256) as u8] + le_bytes(x / 256, (n - 1) as nat)
    }
}

/// The number that a little-endian byte sequence denotes.
pub open spec fn le_value(s: Seq<u8>) -> nat
    decreases s.len(),
{
    if s.len() == 0 {
        0
    } else {
        s[0] as nat + 256 * le_value(s.drop_first())
    }
}

/// Number of bytes in a machine word (`usize`).
pub open spec fn word_len() -> nat {
    (usize::BITS / 8) as nat
}

/// The little-endian bytes of each word of `ws`, one after the other.
pub open spec fn words_le(ws: Seq<usize>) -> Seq<u8>
    decreases ws.len(),
{
    if ws.len() == 0 {
        Seq::empty()
    } else {
        words_le(ws.drop_last()) + le_bytes(ws.last() as nat, word_len())
    }
}

pub proof fn lemma_byte_base_positive(n: nat)
    ensures
        byte_base(n) >= 1,
    decreases n,
{
    if n > 0 {
        lemma_byte_base_positive((n - 1) as nat);
    }
}

pub proof fn lemma_le_bytes_len(x: nat, n: nat)
    ensures
        le_bytes(x, n).len() == n,
    decreases n,
{
    if n > 0 {
        lemma_le_bytes_len(x / 256, (n - 1) as nat);
    }
}

/// A sequence of `n` bytes denotes a number below `256^n`.
pub proof fn lemma_le_value_bound(s: Seq<u8>)
    ensures
        le_value(s) < byte_base(s.len()),
    decreases s.len(),
{
    if s.len() > 0 {
        lemma_le_value_bound(s.drop_first());
    }
}

/// Reading back the `n` bytes of `x` gives `x` modulo `256^n`.
pub proof fn lemma_le_value_of_bytes(x: nat, n: nat)
    ensures
        le_value(le_bytes(x, n)) == x % byte_base(n),
    decreases n,
{
    if n > 0 {
        let rest = le_bytes(x / 256, (n - 1) as nat);
        let s = le_bytes(x, n);
        assert(s.drop_first() =~= rest);
        lemma_le_value_of_bytes(x / 256, (n - 1) as nat);
        lemma_byte_base_positive((n - 1) as nat);
        let b = byte_base((n - 1) as nat);
        assert((x % 256) + 256 * ((x / 256) % b) == x % (256 * b)) by (nonlinear_arith)
            requires
                b >= 1,
        {
            vstd::arithmetic::div_mod::lemma_breakdown(x as int, 256, b as int);
        }
    }
}

/// Writing out the number that `s` denotes, in `s.len()` bytes, gives `s` back.
pub proof fn lemma_le_bytes_of_value(s: Seq<u8>)
    ensures
        le_bytes(le_value(s), s.len()) == s,
    decreases s.len(),
{
    if s.len() > 0 {
        let v = le_value(s);
        let t = s.drop_first();
        lemma_le_bytes_of_value(t);
        assert(v % 256 == s[0] as nat && v / 256 == le_value(t)) by (nonlinear_arith)
            requires
                v == s[0] as nat + 256 * le_value(t),
                s[0] < 256,
        {
        }
        assert(le_bytes(v, s.len()) =~= seq![s[0]] + t);
        assert(seq![s[0]] + t =~= s);
    }
}

/// A value below `256^n` survives a trip through `n` bytes.
pub proof fn lemma_le_roundtrip_small(x: nat, n: nat)
    requires
        x < byte_base(n),
    ensures
        le_value(le_bytes(x, n)) == x,
{
    lemma_le_value_of_bytes(x, n);
    vstd::arithmetic::div_mod::lemma_small_mod(x, byte_base(n));
}

/// `256^(bytes in a word)` is one more than the largest `usize`.
pub proof fn lemma_word_base()
    ensures
        byte_base(word_len()) == usize::MAX as nat + 1,
        word_len() == 4 || word_len() == 8,
{
    reveal_with_fuel(byte_base, 9);
    assert(byte_base(4) == 0x1_0000_0000);
    assert(byte_base(8) == 0x1_0000_0000_0000_0000);
}

/// `256^4` is one more than the largest `u32`.
pub proof fn lemma_u32_base()
    ensures
        byte_base(4) == u32::MAX as nat + 1,
{
    reveal_with_fuel(byte_base, 5);
    assert(byte_base(4) == 0x1_0000_0000);
}

/// Length and layout of `words_le`: word `i` occupies bytes
/// `[i * word_len(), (i + 1) * word_len())`.
pub proof fn lemma_words_le_layout(ws: Seq<usize>)
    ensures
        words_le(ws).len() == ws.len() * word_len(),
        forall|i: int|
            #![trigger ws[i]]
            0 <= i < ws.len() ==> words_le(ws).subrange(i * word_len(), (i + 1) * word_len())
                == le_bytes(ws[i] as nat, word_len()),
    decreases ws.len(),
{
    let w = word_len();
    if ws.len() > 0 {
        let init = ws.drop_last();
        lemma_words_le_layout(init);
        lemma_le_bytes_len(ws.last() as nat, w);
        let n = init.len();
        assert(words_le(ws).len() == ws.len() * w) by (nonlinear_arith)
            requires
                words_le(ws).len() == n * w + w,
                ws.len() == n + 1,
        {
        }
        assert forall|i: int| #![trigger ws[i]] 0 <= i < ws.len() implies words_le(ws).subrange(
            i * w,
            (i + 1) * w,
        ) == le_bytes(ws[i] as nat, w) by {
            let whole = words_le(ws);
            let front = words_le(init);
            assert(whole == front + le_bytes(ws.last() as nat, w));
            if i < n {
                assert(init[i] == ws[i]);
                assert((i + 1) * w <= n * w) by (nonlinear_arith)
                    requires
                        i + 1 <= n,
                        w >= 0,
                {
                }
                assert(0 <= i * w) by (nonlinear_arith)
                    requires
                        0 <= i,
                        w >= 0,
                {
                }
                assert((i + 1) * w == i * w + w) by (nonlinear_arith);
                assert(whole.subrange(i * w, (i + 1) * w) =~= front.subrange(i * w, (i + 1) * w));
            } else {
                assert(i == n);
                assert((i + 1) * w == i * w + w) by (nonlinear_arith);
                assert(i * w == n * w);
                assert(whole.subrange(i * w, (i + 1) * w) =~= le_bytes(ws.last() as nat, w));
            }
        }
    }
}

/// `u32::to_le_bytes`: the four bytes of `x`, least significant first.
#[verifier::external_body]
pub(crate) fn u32_to_le(x: u32) -> (bytes: [u8; 4])
    ensures
        bytes@ == le_bytes(x as nat, 4),
{
    x.to_le_bytes()
}

/// `u32::from_le_bytes`: the number that four little-endian bytes denote.
#[verifier::external_body]
pub(crate) fn u32_from_le(bytes: [u8; 4]) -> (x: u32)
    ensures
        x as nat == le_value(bytes@),
{
    u32::from_le_bytes(bytes)
}

/// `usize::to_le_bytes`: the bytes of a machine word, least significant first.
#[verifier::external_body]
pub(crate) fn usize_to_le(x: usize) -> (bytes: Vec<u8>)
    ensures
        bytes@ == le_bytes(x as nat, word_len()),
{
    x.to_le_bytes().to_vec()
}

/// `usize::from_le_bytes`: the machine word that `word_len()` little-endian
/// bytes denote.
#[verifier::external_body]
pub(crate) fn usize_from_le(bytes: &[u8]) -> (x: usize)
    requires
        bytes@.len() == word_len(),
    ensures
        x as nat == le_value(bytes@),
{
    usize::from_le_bytes(bytes.try_into().unwrap())
}

/// Number of bytes in a machine word.
pub fn word_bytes() -> (n: usize)
    ensures
        n as nat == word_len(),
        n == 4 || n == 8,
{
    (usize::BITS / 8) as usize
}

} // verus!
