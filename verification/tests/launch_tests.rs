use xous_hosted::error::Error;
use xous_hosted::hexcode::HexError;
use xous_hosted::launch::{
    child_environment, encode_process_key, key_is_unset, parse_pid, process_key_from_env,
    shell_invocation, wait_outcome, HostFamily, PID_VAR, PROCESS_KEY_VAR, PROCESS_NAME_VAR,
    SERVER_VAR,
};
use xous_hosted::process::{ProcessArgs, ProcessInit, ProcessKey};

fn sample_key() -> ProcessKey {
    ProcessKey::new([0x00, 0x01, 0x0f, 0x10, 0xab, 0xcd, 0xef, 0xff, 0x12, 0x34, 0x56, 0x78, 0x9a, 0xbc, 0xde, 0x7f])
}

#[test]
fn variable_names() {
    assert_eq!(SERVER_VAR, "XOUS_SERVER");
    assert_eq!(PID_VAR, "XOUS_PID");
    assert_eq!(PROCESS_NAME_VAR, "XOUS_PROCESS_NAME");
    assert_eq!(PROCESS_KEY_VAR, "XOUS_PROCESS_KEY");
}

#[test]
fn key_is_written_as_lowercase_hex() {
    assert_eq!(encode_process_key(&sample_key()), "00010f10abcdefff123456789abcde7f");
}

#[test]
fn missing_key_variable_gives_zero_key() {
    let k = process_key_from_env(None).unwrap();
    assert_eq!(k.bytes(), [0u8; 16]);
    assert!(key_is_unset(&k));
}

#[test]
fn key_is_read_back_from_hex() {
    let k = process_key_from_env(Some("00010f10abcdefff123456789abcde7f")).unwrap();
    assert_eq!(k, sample_key());
    assert!(!key_is_unset(&k));
}

#[test]
fn key_hex_accepts_uppercase() {
    let k = process_key_from_env(Some("00010F10ABCDEFFF123456789ABCDE7F")).unwrap();
    assert_eq!(k, sample_key());
}

#[test]
fn key_text_roundtrip() {
    let text = encode_process_key(&sample_key());
    assert_eq!(process_key_from_env(Some(&text)).unwrap(), sample_key());
}

#[test]
fn key_hex_odd_length() {
    assert_eq!(process_key_from_env(Some("abc")), Err(HexError::OddLength));
}

#[test]
fn key_hex_wrong_length() {
    assert_eq!(process_key_from_env(Some("abcd")), Err(HexError::InvalidStringLength));
}

#[test]
fn key_hex_bad_character_reports_first() {
    let r = process_key_from_env(Some("0001zz10abcdefff123456789abcdeg0"));
    assert_eq!(r, Err(HexError::InvalidHexCharacter { c: 'z', index: 4 }));
}

#[test]
fn child_environment_values() {
    let args = ProcessArgs::new("tester", "run me".to_string());
    let init = ProcessInit { key: sample_key() };
    let env = child_environment("127.0.0.1:1234".to_string(), 42, &args, &init);
    assert_eq!(env.server, "127.0.0.1:1234");
    assert_eq!(env.pid, "42");
    assert_eq!(env.name, "tester");
    assert_eq!(env.key, "00010f10abcdefff123456789abcde7f");
}

#[test]
fn pid_text_forms() {
    assert_eq!(parse_pid("7"), Some(7));
    assert_eq!(parse_pid("255"), Some(255));
    assert_eq!(parse_pid("+12"), Some(12));
    assert_eq!(parse_pid("007"), Some(7));
    assert_eq!(parse_pid("0"), None);
    assert_eq!(parse_pid("256"), None);
    assert_eq!(parse_pid("99999999999"), None);
    assert_eq!(parse_pid(""), None);
    assert_eq!(parse_pid("+"), None);
    assert_eq!(parse_pid("-1"), None);
    assert_eq!(parse_pid(" 5"), None);
    assert_eq!(parse_pid("5a"), None);
}

#[test]
fn pid_text_roundtrip() {
    for pid in 1u8..=255 {
        let args = ProcessArgs::new("p", String::new());
        let init = ProcessInit { key: sample_key() };
        let env = child_environment(String::new(), pid, &args, &init);
        assert_eq!(parse_pid(&env.pid), Some(pid));
    }
}

#[test]
fn shell_per_host() {
    let args = ProcessArgs::new("p", "ls -l".to_string());
    let w = shell_invocation(HostFamily::Windows, &args);
    assert_eq!((w.program, w.flag, w.command.as_str()), ("cmd", "/C", "ls -l"));
    let u = shell_invocation(HostFamily::Unix, &args);
    assert_eq!((u.program, u.flag, u.command.as_str()), ("sh", "-c", "ls -l"));
}

#[test]
fn wait_outcomes() {
    assert_eq!(wait_outcome(None), Err(Error::InternalError));
    assert_eq!(wait_outcome(Some(true)), Ok(()));
    assert_eq!(wait_outcome(Some(false)), Err(Error::UnknownError));
}
