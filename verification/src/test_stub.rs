//! A test client that periodically lends a page of patterned bytes to the
//! USB test server.
use vstd::prelude::*;

verus! {

/// Length of each test pattern.
pub const PATTERN_LEN: usize = 2048;

/// Length of the page lent to the server.
pub const PAGE_LEN: usize = 4096;

/// Requests the test client sends itself.
#[derive(Copy, Clone, Debug, PartialEq, Eq, Structural)]
pub enum Opcode {
    DoTest,
}

impl Opcode {
    /// The request that a message number stands for, if any.
    pub fn from_usize(n: usize) -> (op: Option<Opcode>)
        ensures
            op is Some <==> n == 0,
    {
        if n == 0 {
            Some(Opcode::DoTest)
        } else {
            None
        }
    }

    /// The message number of this request.
    pub fn to_usize(&self) -> (n: usize)
        ensures
            n == 0,
    {
        0
    }
}

/// A page of bytes, as lent to the server.
#[derive(Debug)]
pub struct RawData {
    pub raw: [u8; 4096],
}

/// The first test pattern: byte `i` is `i * 13 % 11`.
pub fn first_pattern() -> (buf: [u8; 2048])
    ensures
        forall|i: int| 0 <= i < 2048 ==> #[trigger] buf@[i] == (i * 13 % 11) as u8,
{
    let mut buf = [0u8; 2048];
    let mut i: usize = 0;
    while i < PATTERN_LEN
        invariant
            i <= 2048,
            buf@.len() == 2048,
            forall|j: int| 0 <= j < i ==> #[trigger] buf@[j] == (j * 13 % 11) as u8,
        decreases 2048 - i,
    {
        buf[i] = (i * 13 % 11) as u8;
        i = i + 1;
    }
    buf
}

/// The second test pattern: sixteen zeros, then byte `i` is `i * 11 % 7`.
pub fn second_pattern() -> (buf: [u8; 2048])
    ensures
        forall|i: int| 0 <= i < 16 ==> #[trigger] buf@[i] == 0,
        forall|i: int| 16 <= i < 2048 ==> #[trigger] buf@[i] == (i * 11 % 7) as u8,
{
    let mut buf = [0u8; 2048];
    let mut i: usize = 16;
    while i < PATTERN_LEN
        invariant
            16 <= i <= 2048,
            buf@.len() == 2048,
            forall|j: int| 0 <= j < 16 ==> #[trigger] buf@[j] == 0,
            forall|j: int| 16 <= j < i ==> #[trigger] buf@[j] == (j * 11 % 7) as u8,
            forall|j: int| i <= j < 2048 ==> #[trigger] buf@[j] == 0,
        decreases 2048 - i,
    {
        buf[i] = (i * 11 % 7) as u8;
        i = i + 1;
    }
    buf
}

/// The page lent to the server: the pattern at the start, zeros after it.
pub fn request_page(pattern: &[u8; 2048]) -> (page: RawData)
    ensures
        forall|i: int| 0 <= i < 2048 ==> #[trigger] page.raw@[i] == pattern@[i],
        forall|i: int| 2048 <= i < 4096 ==> #[trigger] page.raw@[i] == 0,
{
    let mut request = RawData { raw: [0u8; 4096] };
    let mut i: usize = 0;
    while i < PATTERN_LEN
        invariant
            i <= 2048,
            request.raw@.len() == 4096,
            forall|j: int| 0 <= j < i ==> #[trigger] request.raw@[j] == pattern@[j],
            forall|j: int| i <= j < 4096 ==> #[trigger] request.raw@[j] == 0,
        decreases 2048 - i,
    {
        request.raw[i] = pattern[i];
        i = i + 1;
    }
    request
}

} // verus!
