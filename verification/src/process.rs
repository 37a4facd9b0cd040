//! Process identity on the hosted platform: the 16-byte key that a child
//! presents to the kernel, how it travels in syscall argument words, and
//! what a new process is launched with.
use crate::error::Error;
use crate::le::{
    le_bytes, le_value, lemma_le_bytes_len, lemma_le_bytes_of_value, lemma_le_roundtrip_small,
    lemma_le_value_bound, lemma_u32_base, u32_from_le, u32_to_le,
};
use vstd::prelude::*;

verus! {

/// A 16-byte random nonce that identifies a process to the kernel.
#[derive(Copy, Clone, Debug, PartialEq)]
pub struct ProcessKey([u8; 16]);

impl View for ProcessKey {
    type V = Seq<u8>;

    closed spec fn view(&self) -> Seq<u8> {
        self.0@
    }
}

impl ProcessKey {
    /// Wraps the sixteen key bytes.
    pub fn new(key: [u8; 16]) -> (k: ProcessKey)
        ensures
            k@ == key@,
    {
        ProcessKey(key)
    }

    /// The sixteen key bytes.
    pub fn bytes(&self) -> (b: [u8; 16])
        ensures
            b@ == self@,
    {
        self.0
    }

    /// Every key holds exactly sixteen bytes.
    pub proof fn lemma_len(&self)
        ensures
            self@.len() == 16,
    {
    }
}

/// Everything that is required to start a new process on this platform.
#[derive(Copy, Clone, Debug, PartialEq)]
pub struct ProcessInit {
    pub key: ProcessKey,
}

/// What a process is launched with: the shell command that starts it and
/// the name it is known by.
pub struct ProcessArgs {
    command: String,
    name: String,
}

impl ProcessArgs {
    /// The shell command that starts the process.
    pub closed spec fn command_view(&self) -> Seq<char> {
        self.command@
    }

    /// The name the process is known by.
    pub closed spec fn name_view(&self) -> Seq<char> {
        self.name@
    }

    pub fn new(name: &str, command: String) -> (args: ProcessArgs)
        ensures
            args.name_view() == name@,
            args.command_view() == command@,
    {
        ProcessArgs { command, name: name.to_owned() }
    }

    /// The process name, as a fresh string.
    pub fn name(&self) -> (n: String)
        ensures
            n@ == self.name_view(),
    {
        self.name.clone()
    }

    /// The shell command, as a fresh string.
    pub fn command(&self) -> (c: String)
        ensures
            c@ == self.command_view(),
    {
        self.command.clone()
    }
}

/// The `i`-th four-byte group of a key, read as a little-endian `u32`.
pub open spec fn key_word(key: Seq<u8>, i: int) -> nat {
    le_value(key.subrange(4 * i, 4 * i + 4))
}

/// The eight syscall argument words that carry a process key: the call
/// number, the key as four little-endian `u32` words, and three zeros.
pub open spec fn spec_process_words(call: usize, key: Seq<u8>) -> Seq<usize> {
    seq![
        call,
        key_word(key, 0) as usize,
        key_word(key, 1) as usize,
        key_word(key, 2) as usize,
        key_word(key, 3) as usize,
        0usize,
        0usize,
        0usize,
    ]
}

/// The key that four argument words carry: the low 32 bits of each word,
/// little-endian, one after the other.
pub open spec fn spec_key_from_words(a1: usize, a2: usize, a3: usize, a4: usize) -> Seq<u8> {
    le_bytes((a1 as u32) as nat, 4) + le_bytes((a2 as u32) as nat, 4) + le_bytes(
        (a3 as u32) as nat,
        4,
    ) + le_bytes((a4 as u32) as nat, 4)
}

fn key_group(key: &[u8; 16], i: usize) -> (w: usize)
    requires
        i < 4,
    ensures
        w as nat == key_word(key@, i as int),
{
    let b = [key[4 * i], key[4 * i + 1], key[4 * i + 2], key[4 * i + 3]];
    assert(b@ =~= key@.subrange(4 * i as int, 4 * i as int + 4));
    u32_from_le(b) as usize
}

/// Packs a process key into syscall argument words.
pub fn process_to_args(call: usize, init: &ProcessInit) -> (args: [usize; 8])
    ensures
        args@ == spec_process_words(call, init.key@),
        args[0] == call,
        forall|i: int|
            0 <= i < 4 ==> #[trigger] args@[1 + i] as nat == le_value(
                init.key@.subrange(4 * i, 4 * i + 4),
            ),
        args[5] == 0 && args[6] == 0 && args[7] == 0,
{
    proof {
        init.key.lemma_len();
        lemma_process_words_layout(call, init.key@);
    }
    let key = init.key.bytes();
    let args = [
        call,
        key_group(&key, 0),
        key_group(&key, 1),
        key_group(&key, 2),
        key_group(&key, 3),
        0,
        0,
        0,
    ];
    assert(args@ =~= spec_process_words(call, init.key@));
    args
}

/// Unpacks a process key from syscall argument words: the low 32 bits of
/// `a1` to `a4`, little-endian. The remaining words are ignored, and every
/// input is accepted.
pub fn args_to_process(
    a1: usize,
    a2: usize,
    a3: usize,
    a4: usize,
    _a5: usize,
    _a6: usize,
    _a7: usize,
) -> (res: Result<ProcessInit, Error>)
    ensures
        res is Ok,
        res matches Ok(init) && init.key@ == spec_key_from_words(a1, a2, a3, a4),
        res matches Ok(init) && init.key@.len() == 16
            && init.key@.subrange(0, 4) == le_bytes((a1 as u32) as nat, 4)
            && init.key@.subrange(4, 8) == le_bytes((a2 as u32) as nat, 4)
            && init.key@.subrange(8, 12) == le_bytes((a3 as u32) as nat, 4)
            && init.key@.subrange(12, 16) == le_bytes((a4 as u32) as nat, 4),
{
    proof {
        lemma_key_from_words_layout(a1, a2, a3, a4);
    }
    let mut v: Vec<u8> = Vec::new();
    v.extend_from_slice(&u32_to_le(a1 as u32));
    v.extend_from_slice(&u32_to_le(a2 as u32));
    v.extend_from_slice(&u32_to_le(a3 as u32));
    v.extend_from_slice(&u32_to_le(a4 as u32));
    proof {
        lemma_le_bytes_len((a1 as u32) as nat, 4);
        lemma_le_bytes_len((a2 as u32) as nat, 4);
        lemma_le_bytes_len((a3 as u32) as nat, 4);
        lemma_le_bytes_len((a4 as u32) as nat, 4);
        assert(v@ =~= spec_key_from_words(a1, a2, a3, a4));
    }
    let mut key = [0u8; 16];
    let mut i: usize = 0;
    while i < 16
        invariant
            i <= 16,
            v@.len() == 16,
            forall|j: int| 0 <= j < i ==> key@[j] == v@[j],
        decreases 16 - i,
    {
        key[i] = v[i];
        i = i + 1;
    }
    assert(key@ =~= v@);
    Ok(ProcessInit { key: ProcessKey::new(key) })
}

proof fn lemma_chunk_survives(key: Seq<u8>, i: int)
    requires
        key.len() == 16,
        0 <= i < 4,
    ensures
        le_bytes(((key_word(key, i) as usize) as u32) as nat, 4) == key.subrange(4 * i, 4 * i + 4),
{
    let chunk = key.subrange(4 * i, 4 * i + 4);
    lemma_u32_base();
    lemma_le_value_bound(chunk);
    lemma_le_bytes_of_value(chunk);
}

/// Packing a key puts the call number first, then for each `i` in `0..4`
/// the little-endian `u32` value of key bytes `4i..4i+4` (and nothing
/// else), then three zeros.
pub proof fn lemma_process_words_layout(call: usize, key: Seq<u8>)
    requires
        key.len() == 16,
    ensures
        spec_process_words(call, key).len() == 8,
        spec_process_words(call, key)[0] == call,
        forall|i: int|
            0 <= i < 4 ==> #[trigger] spec_process_words(call, key)[1 + i] as nat == le_value(
                key.subrange(4 * i, 4 * i + 4),
            ),
        spec_process_words(call, key)[5] == 0,
        spec_process_words(call, key)[6] == 0,
        spec_process_words(call, key)[7] == 0,
{
    let w = spec_process_words(call, key);
    lemma_u32_base();
    lemma_le_value_bound(key.subrange(0, 4));
    lemma_le_value_bound(key.subrange(4, 8));
    lemma_le_value_bound(key.subrange(8, 12));
    lemma_le_value_bound(key.subrange(12, 16));
    assert forall|i: int| 0 <= i < 4 implies #[trigger] w[1 + i] as nat == le_value(
        key.subrange(4 * i, 4 * i + 4),
    ) by {
        if i == 0 {
            assert(w[1] as nat == le_value(key.subrange(0, 4)));
        } else if i == 1 {
            assert(w[2] as nat == le_value(key.subrange(4, 8)));
        } else if i == 2 {
            assert(w[3] as nat == le_value(key.subrange(8, 12)));
        } else {
            assert(w[4] as nat == le_value(key.subrange(12, 16)));
        }
    }
}

/// Unpacking four words gives a sixteen-byte key whose bytes `4i..4i+4`
/// are the little-endian bytes of the low 32 bits of word `i + 1`, in order.
pub proof fn lemma_key_from_words_layout(a1: usize, a2: usize, a3: usize, a4: usize)
    ensures
        spec_key_from_words(a1, a2, a3, a4).len() == 16,
        spec_key_from_words(a1, a2, a3, a4).subrange(0, 4) == le_bytes((a1 as u32) as nat, 4),
        spec_key_from_words(a1, a2, a3, a4).subrange(4, 8) == le_bytes((a2 as u32) as nat, 4),
        spec_key_from_words(a1, a2, a3, a4).subrange(8, 12) == le_bytes((a3 as u32) as nat, 4),
        spec_key_from_words(a1, a2, a3, a4).subrange(12, 16) == le_bytes((a4 as u32) as nat, 4),
{
    let k = spec_key_from_words(a1, a2, a3, a4);
    lemma_le_bytes_len((a1 as u32) as nat, 4);
    lemma_le_bytes_len((a2 as u32) as nat, 4);
    lemma_le_bytes_len((a3 as u32) as nat, 4);
    lemma_le_bytes_len((a4 as u32) as nat, 4);
    assert(k.subrange(0, 4) =~= le_bytes((a1 as u32) as nat, 4));
    assert(k.subrange(4, 8) =~= le_bytes((a2 as u32) as nat, 4));
    assert(k.subrange(8, 12) =~= le_bytes((a3 as u32) as nat, 4));
    assert(k.subrange(12, 16) =~= le_bytes((a4 as u32) as nat, 4));
}

/// Unpacking the argument words that a key was packed into gives the key
/// back.
pub proof fn lemma_key_survives_args(call: usize, key: Seq<u8>)
    requires
        key.len() == 16,
    ensures
        ({
            let w = spec_process_words(call, key);
            spec_key_from_words(w[1], w[2], w[3], w[4]) == key
        }),
{
    let w = spec_process_words(call, key);
    lemma_chunk_survives(key, 0);
    lemma_chunk_survives(key, 1);
    lemma_chunk_survives(key, 2);
    lemma_chunk_survives(key, 3);
    let k = spec_key_from_words(w[1], w[2], w[3], w[4]);
    assert(k =~= key.subrange(0, 4) + key.subrange(4, 8) + key.subrange(8, 12) + key.subrange(
        12,
        16,
    ));
    assert(k =~= key);
}

/// Packing the key that four words carry gives back the call number, the
/// low 32 bits of each of the four words, and zeros.
pub proof fn lemma_words_survive_key(call: usize, a1: usize, a2: usize, a3: usize, a4: usize)
    ensures
        spec_process_words(call, spec_key_from_words(a1, a2, a3, a4)) == seq![
            call,
            (a1 as u32) as usize,
            (a2 as u32) as usize,
            (a3 as u32) as usize,
            (a4 as u32) as usize,
            0usize,
            0usize,
            0usize,
        ],
{
    let key = spec_key_from_words(a1, a2, a3, a4);
    let parts = seq![a1, a2, a3, a4];
    lemma_u32_base();
    assert forall|i: int| 0 <= i < 4 implies key_word(key, i) == ((parts[i] as u32) as nat) by {
        let x = (parts[i] as u32) as nat;
        lemma_le_bytes_len((a1 as u32) as nat, 4);
        lemma_le_bytes_len((a2 as u32) as nat, 4);
        lemma_le_bytes_len((a3 as u32) as nat, 4);
        lemma_le_bytes_len((a4 as u32) as nat, 4);
        assert(key.subrange(4 * i, 4 * i + 4) =~= le_bytes(x, 4));
        lemma_le_roundtrip_small(x, 4);
    }
    assert(key_word(key, 0) == (a1 as u32) as nat);
    assert(key_word(key, 1) == (a2 as u32) as nat);
    assert(key_word(key, 2) == (a3 as u32) as nat);
    assert(key_word(key, 3) == (a4 as u32) as nat);
    assert(spec_process_words(call, key) =~= seq![
        call,
        (a1 as u32) as usize,
        (a2 as u32) as usize,
        (a3 as u32) as usize,
        (a4 as u32) as usize,
        0usize,
        0usize,
        0usize,
    ]);
}

} // verus!
