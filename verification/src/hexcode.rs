//! Hexadecimal text for binary keys: how a parent hands a process key to
//! its child through the environment, and how the child reads it back.
use vstd::prelude::*;

verus! {

/// Why a hexadecimal string could not be decoded.
#[derive(Copy, Clone, Debug, PartialEq, Eq, Structural)]
pub enum HexError {
    /// The byte at `index` (shown as `c`) is not one of `0-9`, `a-f`, `A-F`.
    InvalidHexCharacter { c: char, index: usize },
    /// The string has an odd number of digits.
    OddLength,
    /// The string does not hold exactly two digits per output byte.
    InvalidStringLength,
}

/// The ASCII code of the lowercase hexadecimal digit for `n` (`n < 16`).
pub open spec fn hex_digit(n: nat) -> u8 {
    if n < 10 {
        (48 + n) as u8
    } else {
        (87 + n) as u8
    }
}

/// Lowercase hexadecimal text (as ASCII codes) for `bytes`: two digits per
/// byte, high nibble first.
pub open spec fn hex_encoded(bytes: Seq<u8>) -> Seq<u8> {
    Seq::new(
        2 * bytes.len(),
        |i: int|
            if i % 2 == 0 {
                hex_digit(bytes[i / 2] as nat / 16)
            } else {
                hex_digit(bytes[i / 2] as nat % 16)
            },
    )
}

/// The characters of `codes`, each ASCII code taken as a `char`.
pub open spec fn ascii_chars(codes: Seq<u8>) -> Seq<char> {
    codes.map_values(|b: u8| b as char)
}

/// The value of a hexadecimal digit in either case, or `None` for any other
/// byte.
pub open spec fn hex_value(c: u8) -> Option<nat> {
    if 48 <= c <= 57 {
        Some((c - 48) as nat)
    } else if 97 <= c <= 102 {
        Some((c - 87) as nat)
    } else if 65 <= c <= 70 {
        Some((c - 55) as nat)
    } else {
        None
    }
}

pub open spec fn all_hex_digits(data: Seq<u8>) -> bool {
    forall|j: int| 0 <= j < data.len() ==> (#[trigger] hex_value(data[j])) is Some
}

/// The bytes that hexadecimal text denotes, two digits per byte.
pub open spec fn hex_decoded(data: Seq<u8>) -> Seq<u8> {
    Seq::new(
        data.len() / 2,
        |i: int|
            (hex_value(data[2 * i])->0 * 16 + hex_value(data[2 * i + 1])->0) as u8,
    )
}

/// `hex::encode`: lowercase hexadecimal text for `data`, two digits per byte.
#[verifier::external_body]
pub(crate) fn hex_encode(data: &[u8]) -> (s: String)
    ensures
        s@ == ascii_chars(hex_encoded(data@)),
{
    hex::encode(data)
}

/// Index of the first byte of `data` that is no hexadecimal digit
/// (`data.len()` when there is none).
pub open spec fn first_non_digit(data: Seq<u8>) -> nat
    decreases data.len(),
{
    if data.len() == 0 {
        0
    } else if hex_value(data[0]) is None {
        0
    } else {
        1 + first_non_digit(data.drop_first())
    }
}

/// Whether `data` decodes into exactly `n` bytes: an even number of
/// digits, two per output byte, and nothing but digits.
pub open spec fn hex_decode_succeeds(data: Seq<u8>, n: nat) -> bool {
    data.len() % 2 == 0 && data.len() / 2 == n && all_hex_digits(data)
}

/// The error that decoding `data` into `n` bytes reports when it fails:
/// the length checks come first, then the first byte that is no digit.
pub open spec fn hex_decode_error(data: Seq<u8>, n: nat) -> HexError {
    if data.len() % 2 != 0 {
        HexError::OddLength
    } else if data.len() / 2 != n {
        HexError::InvalidStringLength
    } else {
        let k = first_non_digit(data);
        HexError::InvalidHexCharacter { c: data[k as int] as char, index: k as usize }
    }
}

/// The first non-digit is where the digits end: everything before it is a
/// digit, and when some byte is no digit, it is one.
pub proof fn lemma_first_non_digit(data: Seq<u8>)
    ensures
        first_non_digit(data) <= data.len(),
        forall|j: int| 0 <= j < first_non_digit(data) ==> (#[trigger] hex_value(data[j])) is Some,
        !all_hex_digits(data) ==> first_non_digit(data) < data.len() && hex_value(
            data[first_non_digit(data) as int],
        ) is None,
    decreases data.len(),
{
    if data.len() > 0 && hex_value(data[0]) is Some {
        let t = data.drop_first();
        lemma_first_non_digit(t);
        assert forall|j: int| 0 <= j < first_non_digit(data) implies (#[trigger] hex_value(
            data[j],
        )) is Some by {
            if j > 0 {
                assert(data[j] == t[j - 1]);
            }
        }
        if !all_hex_digits(data) {
            let bad = choose|j: int| 0 <= j < data.len() && (#[trigger] hex_value(data[j])) is None;
            assert(bad > 0);
            assert(t[bad - 1] == data[bad]);
            assert(!all_hex_digits(t));
        }
    }
}

/// `hex::decode_to_slice`: fills `out` with the bytes that `data` denotes.
/// It fails with `OddLength` on an odd number of digits, then with
/// `InvalidStringLength` unless there are two digits per byte of `out`,
/// then with `InvalidHexCharacter` at the first byte that is no digit.
/// What `out` holds after a failure is not stated.
#[verifier::external_body]
pub(crate) fn hex_decode_to_slice(data: &[u8], out: &mut [u8]) -> (res: Result<(), HexError>)
    ensures
        final(out)@.len() == old(out)@.len(),
        res is Ok <==> hex_decode_succeeds(data@, old(out)@.len()),
        res is Ok ==> final(out)@ == hex_decoded(data@),
        res matches Err(e) ==> e == hex_decode_error(data@, old(out)@.len()),
{
    match hex::decode_to_slice(data, out) {
        Ok(()) => Ok(()),
        Err(hex::FromHexError::InvalidHexCharacter { c, index }) => Err(
            HexError::InvalidHexCharacter { c, index },
        ),
        Err(hex::FromHexError::OddLength) => Err(HexError::OddLength),
        Err(hex::FromHexError::InvalidStringLength) => Err(HexError::InvalidStringLength),
    }
}

/// Decoding the hexadecimal text of any bytes gives those bytes back, and
/// the text consists of digits only, two per byte.
pub proof fn lemma_hex_roundtrip(bytes: Seq<u8>)
    ensures
        hex_encoded(bytes).len() == 2 * bytes.len(),
        all_hex_digits(hex_encoded(bytes)),
        hex_decoded(hex_encoded(bytes)) == bytes,
        hex_decode_succeeds(hex_encoded(bytes), bytes.len()),
{
    let e = hex_encoded(bytes);
    assert forall|j: int| 0 <= j < e.len() implies (#[trigger] hex_value(e[j])) is Some && (
    hex_value(e[j])->0 == if j % 2 == 0 {
        bytes[j / 2] as nat / 16
    } else {
        bytes[j / 2] as nat % 16
    }) by {
        let b = bytes[j / 2] as nat;
        assert(b / 16 < 16);
    }
    assert forall|i: int| 0 <= i < bytes.len() implies #[trigger] hex_decoded(e)[i] == bytes[i] by {
        assert((2 * i) / 2 == i);
        assert((2 * i + 1) / 2 == i);
        assert((2 * i) % 2 == 0);
        assert((2 * i + 1) % 2 == 1);
        let b = bytes[i] as nat;
        assert(hex_value(e[2 * i]) is Some);
        assert(hex_value(e[2 * i + 1]) is Some);
        assert((b / 16) * 16 + b % 16 == b);
    }
    assert(hex_decoded(e) =~= bytes);
}

} // verus!
