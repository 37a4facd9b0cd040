//! Launching a child process on the hosted platform: the environment it is
//! started with, the shell that runs its command, how its key is read
//! back on the child's side, and what waiting for it reports.
use crate::error::Error;
use crate::hexcode::{
    ascii_chars, hex_decode_error, hex_decode_succeeds, hex_decode_to_slice, hex_decoded,
    hex_encode, hex_encoded, lemma_hex_roundtrip,
};
use crate::process::{ProcessArgs, ProcessInit, ProcessKey};
use vstd::prelude::*;
use vstd::string::StringSliceAdditionalSpecFns;

verus! {

/// Environment variable holding the kernel's network address.
pub const SERVER_VAR: &'static str = "XOUS_SERVER";

/// Environment variable holding the child's process ID.
pub const PID_VAR: &'static str = "XOUS_PID";

/// Environment variable holding the child's process name.
pub const PROCESS_NAME_VAR: &'static str = "XOUS_PROCESS_NAME";

/// Environment variable holding the child's process key, in hexadecimal.
pub const PROCESS_KEY_VAR: &'static str = "XOUS_PROCESS_KEY";

/// The ASCII codes of the decimal representation of `n`, without sign or
/// leading zeros.
pub open spec fn decimal_codes(n: nat) -> Seq<u8>
    decreases n,
{
    if n < 10 {
        seq![(48 + n) as u8]
    } else {
        decimal_codes(n / 10).push((48 + n % 10) as u8)
    }
}

/// The decimal representation of `n`, without sign or leading zeros.
pub open spec fn decimal_text(n: nat) -> Seq<char> {
    ascii_chars(decimal_codes(n))
}

/// `u8::to_string`: the decimal text of `n`.
#[verifier::external_body]
fn u8_to_decimal(n: u8) -> (s: String)
    ensures
        s@ == decimal_text(n as nat),
{
    n.to_string()
}

/// The values a child process finds in its environment.
pub struct ChildEnvironment {
    /// Value of `XOUS_SERVER`.
    pub server: String,
    /// Value of `XOUS_PID`.
    pub pid: String,
    /// Value of `XOUS_PROCESS_NAME`.
    pub name: String,
    /// Value of `XOUS_PROCESS_KEY`.
    pub key: String,
}

/// The environment of a child process: the kernel address it connects to
/// (as text), its process ID in decimal, its name, and its key as
/// lowercase hexadecimal text.
pub fn child_environment(server_address: String, pid: u8, args: &ProcessArgs, init: &ProcessInit) -> (env: ChildEnvironment)
    ensures
        env.server@ == server_address@,
        env.pid@ == decimal_text(pid as nat),
        env.name@ == args.name_view(),
        env.key@ == ascii_chars(hex_encoded(init.key@)),
{
    let pid_text = u8_to_decimal(pid);
    let name = args.name();
    let key = encode_process_key(&init.key);
    ChildEnvironment { server: server_address, pid: pid_text, name, key }
}

/// A process key as lowercase hexadecimal text, two digits per byte.
pub fn encode_process_key(key: &ProcessKey) -> (text: String)
    ensures
        text@ == ascii_chars(hex_encoded(key@)),
{
    let bytes = key.bytes();
    hex_encode(&bytes)
}

/// Whether a key is all zeros, which is what a process without a key
/// holds.
pub fn key_is_unset(key: &ProcessKey) -> (unset: bool)
    ensures
        unset <==> key@ == Seq::new(16, |i: int| 0u8),
{
    let bytes = key.bytes();
    proof {
        key.lemma_len();
    }
    let mut i: usize = 0;
    while i < 16
        invariant
            i <= 16,
            bytes@ == key@,
            key@.len() == 16,
            forall|j: int| 0 <= j < i ==> key@[j] == 0u8,
        decreases 16 - i,
    {
        if bytes[i] != 0 {
            assert(key@[i as int] != Seq::new(16, |k: int| 0u8)[i as int]);
            return false;
        }
        i = i + 1;
    }
    assert(key@ =~= Seq::new(16, |k: int| 0u8));
    true
}

/// The key a process runs with, from the value of its `XOUS_PROCESS_KEY`
/// variable: all zeros when the variable is not set, otherwise the sixteen
/// bytes that its hexadecimal text denotes.
pub fn process_key_from_env(value: Option<&str>) -> (res: Result<ProcessKey, crate::hexcode::HexError>)
    ensures
        value is None ==> (res matches Ok(k) && k@ == Seq::new(16, |i: int| 0u8)),
        value matches Some(text) ==> {
            &&& res is Ok <==> hex_decode_succeeds(text.spec_bytes(), 16)
            &&& res matches Ok(k) ==> k@ == hex_decoded(text.spec_bytes())
            &&& res matches Err(e) ==> e == hex_decode_error(text.spec_bytes(), 16)
        },
{
    let mut base = [0u8; 16];
    match value {
        None => {
            let k = ProcessKey::new(base);
            assert(k@ =~= Seq::new(16, |i: int| 0u8));
            Ok(k)
        },
        Some(text) => {
            let bytes = text.as_bytes();
            match hex_decode_to_slice(bytes, &mut base) {
                Ok(()) => Ok(ProcessKey::new(base)),
                Err(e) => Err(e),
            }
        },
    }
}

/// The text a parent writes into `XOUS_PROCESS_KEY` is read back by the
/// child as the same key.
pub proof fn lemma_key_text_roundtrip(key: ProcessKey, text: &str)
    requires
        text@ == ascii_chars(hex_encoded(key@)),
    ensures
        hex_decode_succeeds(text.spec_bytes(), 16),
        hex_decoded(text.spec_bytes()) == key@,
{
    key.lemma_len();
    lemma_hex_roundtrip(key@);
    let codes = hex_encoded(key@);
    assert forall|i: int| 0 <= i < text@.len() implies '\0' <= #[trigger] text@[i] <= '\u{7f}' by {
        assert(codes[i] < 128) by {
            let b = key@[i / 2] as nat;
            assert(b / 16 < 16);
        }
    }
    assert(vstd::string::is_ascii(text));
    vstd::string::is_ascii_spec_bytes(text);
    assert(text.spec_bytes() =~= codes);
}

/// Whether every byte of `s` is an ASCII decimal digit.
pub open spec fn all_decimal_digits(s: Seq<u8>) -> bool {
    forall|i: int| 0 <= i < s.len() ==> 48 <= #[trigger] s[i] <= 57
}

/// The number that ASCII decimal digits denote, most significant first.
pub open spec fn decimal_value(s: Seq<u8>) -> nat
    decreases s.len(),
{
    if s.len() == 0 {
        0
    } else {
        decimal_value(s.drop_last()) * 10 + (s.last() - 48) as nat
    }
}

/// The process ID that text denotes: an optional `+`, then one or more
/// decimal digits, for a value from 1 to 255. Anything else denotes none.
pub open spec fn spec_parse_pid(text: Seq<u8>) -> Option<u8> {
    let digits = if text.len() > 0 && text[0] == 43 {
        text.drop_first()
    } else {
        text
    };
    if digits.len() > 0 && all_decimal_digits(digits) && 1 <= decimal_value(digits) <= 255 {
        Some(decimal_value(digits) as u8)
    } else {
        None
    }
}

/// Reads a process ID from the text of the `XOUS_PID` variable.
pub fn parse_pid(text: &str) -> (pid: Option<u8>)
    ensures
        pid == spec_parse_pid(text.spec_bytes()),
{
    let bytes = text.as_bytes();
    let ghost b = bytes@;
    let mut start: usize = 0;
    if bytes.len() > 0 && bytes[0] == 43 {
        start = 1;
    }
    let ghost digits = if b.len() > 0 && b[0] == 43 {
        b.drop_first()
    } else {
        b
    };
    assert(digits =~= b.subrange(start as int, b.len() as int));
    if start == bytes.len() {
        return None;
    }
    let mut value: u32 = 0;
    let mut i: usize = start;
    while i < bytes.len()
        invariant
            start <= i <= b.len(),
            bytes@ == b,
            b == text.spec_bytes(),
            digits == (if b.len() > 0 && b[0] == 43 {
                b.drop_first()
            } else {
                b
            }),
            digits =~= b.subrange(start as int, b.len() as int),
            all_decimal_digits(b.subrange(start as int, i as int)),
            value <= 255 ==> value == decimal_value(b.subrange(start as int, i as int)),
            value > 255 ==> value == 256 && decimal_value(b.subrange(start as int, i as int)) > 255,
        decreases b.len() - i,
    {
        let c = bytes[i];
        let ghost prefix = b.subrange(start as int, i as int);
        let ghost next = b.subrange(start as int, i + 1);
        assert(next.drop_last() =~= prefix);
        if c < 48 || c > 57 {
            assert(!all_decimal_digits(digits)) by {
                assert(digits[i - start] == c);
            }
            assert(spec_parse_pid(b) is None);
            return None;
        }
        assert(all_decimal_digits(next)) by {
            assert forall|j: int| 0 <= j < next.len() implies 48 <= #[trigger] next[j] <= 57 by {
                if j < prefix.len() {
                    assert(next[j] == prefix[j]);
                }
            }
        }
        if value <= 255 {
            let v = value * 10 + (c - 48) as u32;
            if v > 255 {
                value = 256;
            } else {
                value = v;
            }
        }
        i = i + 1;
    }
    assert(b.subrange(start as int, b.len() as int) =~= digits);
    if value == 0 || value > 255 {
        None
    } else {
        Some(value as u8)
    }
}

proof fn lemma_decimal_codes(n: nat)
    ensures
        decimal_codes(n).len() > 0,
        all_decimal_digits(decimal_codes(n)),
        decimal_value(decimal_codes(n)) == n,
        decimal_codes(n)[0] != 43,
    decreases n,
{
    if n < 10 {
        assert(decimal_codes(n).drop_last() =~= Seq::<u8>::empty());
        assert(decimal_value(Seq::<u8>::empty()) == 0);
    } else {
        lemma_decimal_codes(n / 10);
        let front = decimal_codes(n / 10);
        assert(decimal_codes(n).drop_last() =~= front);
        assert(decimal_codes(n).last() == (48 + n % 10) as u8);
        assert(n == (n / 10) * 10 + n % 10);
        assert(decimal_codes(n)[0] == front[0]);
        assert forall|i: int| 0 <= i < decimal_codes(n).len() implies 48 <= #[trigger] decimal_codes(
            n,
        )[i] <= 57 by {
            if i < front.len() {
                assert(decimal_codes(n)[i] == front[i]);
            }
        }
    }
}

/// The text a parent writes into `XOUS_PID` is read back by the child as
/// the same process ID.
pub proof fn lemma_pid_text_roundtrip(pid: u8, text: &str)
    requires
        pid != 0,
        text@ == decimal_text(pid as nat),
    ensures
        spec_parse_pid(text.spec_bytes()) == Some(pid),
{
    lemma_decimal_codes(pid as nat);
    let codes = decimal_codes(pid as nat);
    assert forall|i: int| 0 <= i < text@.len() implies '\0' <= #[trigger] text@[i] <= '\u{7f}' by {
        assert(48 <= codes[i] <= 57);
    }
    assert(vstd::string::is_ascii(text));
    vstd::string::is_ascii_spec_bytes(text);
    assert(text.spec_bytes() =~= decimal_codes(pid as nat));
}

/// Which kind of host the processes run on, as far as launching a shell
/// command is concerned.
#[derive(Copy, Clone, Debug, PartialEq, Eq, Structural)]
pub enum HostFamily {
    Windows,
    Unix,
    /// Any other host: no shell is known.
    Other,
}

/// How a child's command is handed to the host's shell.
pub struct ShellInvocation {
    /// The shell program.
    pub program: &'static str,
    /// The flag that makes the shell run one command.
    pub flag: &'static str,
    /// The command itself.
    pub command: String,
}

/// The shell invocation that runs a child's command: `cmd /C` on Windows,
/// `sh -c` on Unix. No other host is supported.
pub fn shell_invocation(family: HostFamily, args: &ProcessArgs) -> (inv: ShellInvocation)
    requires
        family != HostFamily::Other,
    ensures
        family == HostFamily::Windows ==> inv.program@ == "cmd"@ && inv.flag@ == "/C"@,
        family == HostFamily::Unix ==> inv.program@ == "sh"@ && inv.flag@ == "-c"@,
        inv.command@ == args.command_view(),
{
    let command = args.command();
    match family {
        HostFamily::Windows => ShellInvocation { program: "cmd", flag: "/C", command },
        _ => ShellInvocation { program: "sh", flag: "-c", command },
    }
}

/// What waiting for a child reports: `None` when the wait itself failed
/// (an internal error), otherwise whether the child exited successfully;
/// an unsuccessful exit is an unknown error.
pub fn wait_outcome(exit_success: Option<bool>) -> (res: Result<(), Error>)
    ensures
        exit_success is None ==> res == Err::<(), Error>(Error::InternalError),
        exit_success == Some(true) ==> res is Ok,
        exit_success == Some(false) ==> res == Err::<(), Error>(Error::UnknownError),
{
    match exit_success {
        None => Err(Error::InternalError),
        Some(true) => Ok(()),
        Some(false) => Err(Error::UnknownError),
    }
}

} // verus!
