use pinentry_windows::codec::{percent_decode, percent_decode_bytes, percent_encode};
use pinentry_windows::error::{
    gpg_error_string, AssuanError, GPG_ERR_ASS_GENERAL, GPG_ERR_ASS_UNKNOWN_CMD, GPG_ERR_CANCELED,
    GPG_ERR_NOT_CONFIRMED,
};
use pinentry_windows::protocol::{
    data_line, err_line, handle_confirm, handle_getinfo, handle_getpin, handle_line,
    handle_message, handle_option, handle_pid, ok_line, response_line, wipe_responses, wipe_text,
    Response, Step, VERSION,
};
use pinentry_windows::state::PinentryState;

/// The process id that GETINFO pid answers with in these sessions.
const TEST_PID: u32 = 4242;

/// Runs a whole session over `input` the way the program's loop does, for
/// commands that need no dialog; returns everything written.
fn drive(input: &str, state: &mut PinentryState) -> String {
    let mut out = String::new();
    out.push_str(&ok_line("Pleased to meet you"));
    out.push('\n');
    for line in input.split_inclusive('\n') {
        match handle_line(state, line) {
            Step::Respond(rs) => {
                for r in rs.iter() {
                    out.push_str(&response_line(r));
                    out.push('\n');
                }
            }
            Step::Bye => {
                out.push_str(&ok_line(""));
                out.push('\n');
                break;
            }
            Step::GetInfoPid => {
                for r in handle_pid(TEST_PID).iter() {
                    out.push_str(&response_line(r));
                    out.push('\n');
                }
            }
            Step::GetPin | Step::Confirm | Step::Message(_) => panic!("no dialog in this session"),
        }
    }
    out
}

fn lines_of(rs: &[Response]) -> Vec<String> {
    rs.iter().map(response_line).collect()
}

#[test]
fn test_percent_encode_passthrough() {
    assert_eq!(percent_encode("hello world"), "hello world");
}

#[test]
fn test_percent_encode_special() {
    assert_eq!(percent_encode("a%b\nc\rd"), "a%25b%0Ac%0Dd");
}

#[test]
fn test_percent_decode_basic() {
    assert_eq!(percent_decode("hello%20world"), "hello world");
}

#[test]
fn test_percent_decode_percent() {
    assert_eq!(percent_decode("100%25"), "100%");
}

#[test]
fn test_percent_decode_crlf() {
    assert_eq!(percent_decode("a%0Ab"), "a\nb");
    assert_eq!(percent_decode("a%0Db"), "a\rb");
}

#[test]
fn test_percent_decode_uppercase_hex() {
    assert_eq!(percent_decode("%41"), "A"); // 0x41 = 'A'
}

#[test]
fn test_percent_decode_incomplete_sequence() {
    // Incomplete %X at end of string — pass through literally.
    assert_eq!(percent_decode("hello%2"), "hello%2");
    assert_eq!(percent_decode("hello%"), "hello%");
}

#[test]
fn test_run_loop_bye() {
    let mut state = PinentryState::default();
    let s = drive("BYE\n", &mut state);
    assert!(s.starts_with("OK Pleased to meet you\n"), "got: {s:?}");
    assert!(s.contains("OK\n"), "BYE should be ACKed: {s:?}");
}

#[test]
fn test_run_loop_nop_reset() {
    let mut state = PinentryState::default();
    let s = drive("NOP\nRESET\nBYE\n", &mut state);
    // Should see greeting + 3 OKs (NOP, RESET, BYE)
    assert_eq!(s.matches("OK").count(), 4);
}

#[test]
fn test_run_loop_unknown_cmd() {
    let mut state = PinentryState::default();
    let s = drive("FROBNICATEXYZ\nBYE\n", &mut state);
    assert!(s.contains("ERR"), "unknown cmd should produce ERR: {s:?}");
}

#[test]
fn test_run_loop_setdesc_percent_decode() {
    let mut state = PinentryState::default();
    drive("SETDESC My%20Secret%20Key\nBYE\n", &mut state);
    assert_eq!(state.desc, "My Secret Key");
}

#[test]
fn test_run_loop_option_unknown_succeeds() {
    // gpg-agent probes unknown options; they must succeed (not ERR).
    let mut state = PinentryState::default();
    let s = drive("OPTION unknown-option=value\nBYE\n", &mut state);
    assert!(!s.contains("ERR"), "unknown OPTION must not ERR: {s:?}");
}

#[test]
fn test_getinfo_version() {
    let mut state = PinentryState::default();
    let s = drive("GETINFO version\nBYE\n", &mut state);
    assert!(s.contains(&format!("D {VERSION}")), "version in D line: {s:?}");
}

#[test]
fn getinfo_pid_answers_with_the_given_id() {
    let mut state = PinentryState::default();
    let s = drive("GETINFO pid\nBYE\n", &mut state);
    assert!(s.contains(&format!("D {TEST_PID}\nOK\n")), "pid in D line: {s:?}");
}

// ---------------------------------------------------------------------------
// Further cases
// ---------------------------------------------------------------------------

#[test]
fn percent_decode_lowercase_hex_and_plus() {
    assert_eq!(percent_decode("%3a%3A"), "::");
    assert_eq!(percent_decode("a+b"), "a+b");
    assert_eq!(percent_decode("%zz%4"), "%zz%4");
}

#[test]
fn percent_decode_invalid_utf8_is_replaced() {
    assert_eq!(percent_decode_bytes(b"%FF%41"), vec![0xFFu8, 0x41]);
    assert_eq!(percent_decode("%FFA"), "\u{FFFD}A");
    assert_eq!(percent_decode("%C3%A9"), "\u{e9}");
}

#[test]
fn percent_encode_keeps_non_ascii_characters() {
    assert_eq!(percent_encode("\u{e9}"), "\u{e9}");
    assert_eq!(percent_encode("\u{e9}t\u{e9}%\n\u{1F600}"), "\u{e9}t\u{e9}%25%0A\u{1F600}");
    assert_eq!(percent_encode(""), "");
}

#[test]
fn percent_roundtrip() {
    for s in ["", "plain", "100% sure\r\n", "%25 is a percent", "tab\tend%", "p\u{e4}ss%w\u{f6}rd\u{1F511}"] {
        assert_eq!(percent_decode(&percent_encode(s)), s);
    }
    let bytes: Vec<u8> = (0u8..=255).collect();
    let mut encoded = Vec::new();
    for b in bytes.iter() {
        match b {
            b'%' => encoded.extend_from_slice(b"%25"),
            b'\r' => encoded.extend_from_slice(b"%0D"),
            b'\n' => encoded.extend_from_slice(b"%0A"),
            _ => encoded.push(*b),
        }
    }
    assert_eq!(percent_decode_bytes(&encoded), bytes);
}

#[test]
fn percent_encode_output_is_one_line() {
    let e = percent_encode("a\nb\rc\r\n");
    assert!(!e.contains('\n') && !e.contains('\r'));
    assert_eq!(e, "a%0Ab%0Dc%0D%0A");
}

#[test]
fn error_strings_and_constructors() {
    assert_eq!(gpg_error_string(GPG_ERR_CANCELED), "canceled");
    assert_eq!(gpg_error_string(GPG_ERR_NOT_CONFIRMED), "not confirmed");
    assert_eq!(gpg_error_string(GPG_ERR_ASS_UNKNOWN_CMD), "unknown IPC command");
    assert_eq!(gpg_error_string(GPG_ERR_ASS_GENERAL), "general IPC error");
    assert_eq!(gpg_error_string(7), "general error");
    let e = AssuanError::canceled();
    assert_eq!((e.code, e.message.as_str()), (83886179, "canceled"));
    let e = AssuanError::not_confirmed();
    assert_eq!((e.code, e.message.as_str()), (83886194, "not confirmed"));
    let e = AssuanError::unknown_cmd();
    assert_eq!((e.code, e.message.as_str()), (67109139, "unknown IPC command"));
    let e = AssuanError::new(5, "boom");
    assert_eq!((e.code, e.message.as_str()), (5, "boom"));
    assert_eq!(e.describe(), "GPG error 5: boom");
}

#[test]
fn wire_lines() {
    assert_eq!(ok_line(""), "OK");
    assert_eq!(ok_line("Pleased to meet you"), "OK Pleased to meet you");
    assert_eq!(err_line(67109139, "unknown IPC command"), "ERR 67109139 unknown IPC command");
    assert_eq!(err_line(0, "x"), "ERR 0 x");
    assert_eq!(data_line("50%\n"), "D 50%25%0A");
    assert_eq!(response_line(&Response::Success), "OK");
}

#[test]
fn unknown_command_gets_exact_err_line() {
    let mut state = PinentryState::default();
    let s = drive("FROBNICATEXYZ\nBYE\n", &mut state);
    assert_eq!(s, "OK Pleased to meet you\nERR 67109139 unknown IPC command\nOK\n");
}

#[test]
fn blank_comment_and_long_lines() {
    let mut state = PinentryState::default();
    let long = format!("SETDESC {}\n", "x".repeat(993));
    let s = drive(&format!("\n# a comment\r\n{long}BYE\n"), &mut state);
    assert_eq!(s, "OK Pleased to meet you\nERR 83886337 line too long\nOK\n");
    assert_eq!(state.desc, "");
    // Exactly at the limit is accepted.
    let ok = format!("SETDESC {}\n", "x".repeat(992));
    let s = drive(&ok, &mut state);
    assert_eq!(s, "OK Pleased to meet you\nOK\n");
    assert_eq!(state.desc.len(), 992);
}

#[test]
fn verbs_ignore_case_and_args_are_trimmed() {
    let mut state = PinentryState::default();
    drive("setPrompt   Passphrase:  \r\nSetTitle\tT\nSETKEYINFO\n", &mut state);
    assert_eq!(state.prompt, "Passphrase:");
    // No space after the verb: the whole line is the verb.
    assert_eq!(state.title, "");
    assert_eq!(state.keyinfo, "");
    let s = drive("SETTITLE My%20Title\nSETERROR Bad\nSETOK _Yes\nSETCANCEL _No\n", &mut state);
    assert_eq!(s.matches("OK").count(), 5);
    assert_eq!(state.title_str(), "My Title");
    assert_eq!(state.error_str(), Some("Bad"));
    assert_eq!(state.ok_str(), "_Yes");
    assert_eq!(state.cancel_str(), "_No");
}

#[test]
fn setnotok_and_setrepeatok_set_flags() {
    let mut state = PinentryState::default();
    drive("SETNOTOK Maybe\nSETREPEATOK Again\n", &mut state);
    assert!(state.notok_set && state.repeat_ok);
    assert_eq!(state.notok_str(), "Maybe");
}

#[test]
fn reset_keeps_options() {
    let mut state = PinentryState::new();
    drive("OPTION grab\nOPTION ttyname=/dev/tty1\nSETDESC d\nSETNOTOK n\nRESET\n", &mut state);
    assert!(state.grab);
    assert_eq!(state.options, vec![("ttyname".to_string(), "/dev/tty1".to_string())]);
    assert_eq!(state.desc, "");
    assert!(!state.notok_set);
    assert_eq!(state.desc_str(), None);
}

#[test]
fn options_replace_and_split() {
    let mut state = PinentryState::new();
    assert!(handle_option(&mut state, "lc-ctype=C").is_ok());
    assert!(handle_option(&mut state, "lc-ctype en_US.UTF-8").is_ok());
    assert!(handle_option(&mut state, "allow-external-password-cache").is_ok());
    assert!(handle_option(&mut state, "a=b=c").is_ok());
    assert_eq!(
        state.options,
        vec![
            ("lc-ctype".to_string(), "en_US.UTF-8".to_string()),
            ("allow-external-password-cache".to_string(), String::new()),
            ("a".to_string(), "b=c".to_string()),
        ]
    );
    assert!(handle_option(&mut state, "no-grab").is_ok());
    assert!(state.no_grab && !state.grab);
}

#[test]
fn default_labels_fill_only_unset_fields() {
    let mut state = PinentryState::new();
    assert!(state.apply_option("default-ok", Some("_OK")).is_ok());
    assert!(state.apply_option("default-yes", Some("Yes")).is_ok());
    assert!(state.apply_option("default-cancel", None).is_ok());
    assert!(state.apply_option("default-no", Some("No way")).is_ok());
    assert!(state.apply_option("default-prompt", Some("PIN?")).is_ok());
    assert_eq!(state.ok_button, "_OK");
    assert_eq!(state.cancel_button, "No way");
    assert_eq!(state.prompt, "PIN?");
    assert!(state.options.is_empty());
}

#[test]
fn display_fallbacks() {
    let state = PinentryState::new();
    assert_eq!(state.title_str(), "Enter Passphrase");
    assert_eq!(state.prompt_str(), "PIN:");
    assert_eq!(state.ok_str(), "OK");
    assert_eq!(state.cancel_str(), "Cancel");
    assert_eq!(state.notok_str(), "No");
    assert_eq!(state.desc_str(), None);
    assert_eq!(state.error_str(), None);
}

#[test]
fn dialog_steps_and_answers() {
    let mut state = PinentryState::new();
    assert!(matches!(handle_line(&mut state, "GETPIN\n"), Step::GetPin));
    assert!(matches!(handle_line(&mut state, "CONFIRM\n"), Step::Confirm));
    assert!(!state.one_button);
    assert!(matches!(handle_line(&mut state, "confirm  --one-button \n"), Step::Confirm));
    assert!(state.one_button);
    state.one_button = false;
    assert!(matches!(handle_line(&mut state, "MESSAGE\n"), Step::Message(false)));
    assert!(state.one_button);
    let rs = handle_message(&mut state, false, Ok(true));
    assert!(!state.one_button);
    assert_eq!(lines_of(&rs), vec!["OK"]);
    assert_eq!(
        lines_of(&handle_message(&mut state, true, Err(GPG_ERR_NOT_CONFIRMED))),
        vec!["ERR 83886194 not confirmed"]
    );
    assert!(state.one_button);

    assert_eq!(lines_of(&handle_getpin(Ok("p%ss\n"))), vec!["D p%25ss%0A", "OK"]);
    assert_eq!(lines_of(&handle_getpin(Ok(""))), vec!["D ", "OK"]);
    assert_eq!(lines_of(&handle_getpin(Err(GPG_ERR_CANCELED))), vec!["ERR 83886179 canceled"]);
    assert_eq!(lines_of(&handle_confirm(Ok(true))), vec!["OK"]);
    assert_eq!(lines_of(&handle_confirm(Ok(false))), vec!["ERR 83886179 canceled"]);
    assert_eq!(lines_of(&handle_confirm(Err(42))), vec!["ERR 42 general error"]);
    assert_eq!(lines_of(&handle_pid(1234)), vec!["D 1234", "OK"]);
}

#[test]
fn getinfo_subcommands() {
    let chars = |s: &str| s.chars().collect::<Vec<char>>();
    let lines = |s: &str| match handle_getinfo(&chars(s)) {
        Step::Respond(rs) => lines_of(&rs),
        _ => vec!["<dialog>".to_string()],
    };
    assert_eq!(lines("Flavor"), vec!["D windows", "OK"]);
    assert_eq!(lines("ttyinfo"), vec!["D - - - - - -", "OK"]);
    assert_eq!(lines("features"), vec!["D ", "OK"]);
    assert_eq!(lines("version:extra"), vec!["D 1.0.0", "OK"]);
    assert_eq!(lines("nosuch"), vec!["ERR 67109139 unknown IPC command"]);
    assert!(matches!(handle_getinfo(&chars("PID")), Step::GetInfoPid));
    let mut state = PinentryState::new();
    let s = drive("GETINFO\nCANCEL\nBYE\nNOP\n", &mut state);
    assert_eq!(s, "OK Pleased to meet you\nERR 67109139 unknown IPC command\nOK\nOK\n");
}

#[test]
fn readme_commands_are_acknowledged() {
    let mut state = PinentryState::default();
    let s = drive("SETREPEAT Repeat:\nCLEARPASSPHRASE x\nSETQUALITYBAR\nBYE\n", &mut state);
    assert_eq!(s, "OK Pleased to meet you\nOK\nOK\nOK\nOK\n");
    assert!(state.repeat_ok);
}

#[test]
fn error_code_values() {
    assert_eq!(GPG_ERR_CANCELED, (5 << 24) | 99);
    assert_eq!(GPG_ERR_NOT_CONFIRMED, (5 << 24) | 114);
    assert_eq!(GPG_ERR_ASS_UNKNOWN_CMD, (4 << 24) | 275);
    assert_eq!(GPG_ERR_ASS_GENERAL, (5 << 24) | 257);
}

#[test]
fn secrets_can_be_wiped() {
    let mut rs = handle_getpin(Ok("s3cr\u{e9}t"));
    let mut line = response_line(&rs[0]);
    assert_eq!(line, "D s3cr\u{e9}t");
    wipe_text(&mut line);
    assert_eq!(line, "");
    wipe_responses(&mut rs);
    assert!(rs.is_empty());
}
