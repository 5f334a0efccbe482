use bootty::wire::{
    after_keyboard_read, after_keyboard_write, after_pty_read, after_pty_send, after_stdin_read,
    after_stdin_send, array_command, handle_client_message, handle_client_text,
    handle_host_message, handle_host_text, read_command, session_outcome, term_size_message,
    ClientAction, HostAction, JsonItem, MessageError, PumpStep, ReadOutcome, TypeOutcome,
};

fn host(text: &str) -> HostAction {
    handle_host_message(true, text.as_bytes()).unwrap()
}

#[test]
fn host_hears_the_end() {
    assert!(matches!(host("quit"), HostAction::Quit));
    assert!(matches!(host("quit "), HostAction::Ignore));
    assert!(matches!(host(""), HostAction::Ignore));
}

#[test]
fn host_types_bytes_and_texts() {
    match handle_host_message(false, b"quit\xff").unwrap() {
        HostAction::Write(bytes) => assert_eq!(bytes, b"quit\xff"),
        other => panic!("{other:?}"),
    }
    match host("[\"stdin\",\"l\\u0073 \u{e9}\\n\"]") {
        HostAction::Write(bytes) => assert_eq!(bytes, "ls \u{e9}\n".as_bytes()),
        other => panic!("{other:?}"),
    }
    assert!(matches!(host("[\"stdin\",1]"), HostAction::Ignore));
    assert!(matches!(host("[\"stdin\"]"), HostAction::Ignore));
}

#[test]
fn host_resizes() {
    let size = |text: &str| match host(text) {
        HostAction::Resize { rows, cols } => (rows, cols),
        other => panic!("{other:?}"),
    };
    assert_eq!(size("[\"set_size\",30,100]"), (30, 100));
    assert_eq!(size("[\"set_size\"]"), (24, 80));
    assert_eq!(size("[\"set_size\",-1,1.5]"), (24, 80));
    assert_eq!(size("[\"set_size\",\"9\",65537]"), (24, 1));
    assert_eq!(size("[\"set_size\",18446744073709551615,65536]"), (65535, 0));
    for (rows, cols) in [(0u16, 0u16), (24, 80), (65535, 1)] {
        let message = term_size_message(rows, cols);
        assert_eq!(size(&message), (rows, cols));
    }
    assert_eq!(term_size_message(30, 100), "[\"set_size\",30,100]");
}

#[test]
fn host_ignores_what_it_does_not_know() {
    assert!(matches!(host("[\"beep\",1]"), HostAction::Ignore));
    assert!(matches!(host("[1,\"stdin\"]"), HostAction::Ignore));
    assert!(matches!(host(" [\"stdin\",\"x\"]"), HostAction::Ignore));
    assert!(matches!(host("hello"), HostAction::Ignore));
}

#[test]
fn host_cannot_read_broken_json() {
    let e = handle_host_message(true, b"[\"stdin\",").unwrap_err();
    assert_eq!(e.message(), "EOF while parsing a value at line 1 column 9");
    let e = handle_host_message(true, b"[\"stdin\"] x").unwrap_err();
    assert_eq!(e.message(), "trailing characters at line 1 column 11");
    let e = read_command(Err("why".to_string())).unwrap_err();
    assert_eq!(e, MessageError::NotJson("why".to_string()));
    assert!(matches!(read_command(Ok(None)), Ok(HostAction::Ignore)));
}

#[test]
fn arrays_are_commands() {
    assert!(matches!(array_command(&vec![]), HostAction::Ignore));
    assert!(matches!(array_command(&vec![JsonItem::Other]), HostAction::Ignore));
    let items = vec![
        JsonItem::Text("set_size".to_string()),
        JsonItem::Other,
        JsonItem::Whole(65536 + 7),
    ];
    assert!(matches!(array_command(&items), HostAction::Resize { rows: 24, cols: 7 }));
}

#[test]
fn texts_are_understood_by_both_sides() {
    assert!(matches!(handle_host_text("quit").unwrap(), HostAction::Quit));
    assert!(matches!(handle_host_text("[\"x\"]").unwrap(), HostAction::Ignore));
    assert!(handle_host_text("[\"").is_err());
    assert!(matches!(handle_client_text("quit".to_string()), ClientAction::Quit));
    assert!(matches!(handle_client_text("x".to_string()), ClientAction::Unmatched(_)));
}

#[test]
fn client_shows_bytes() {
    match handle_client_message(false, b"abc\xff") {
        ClientAction::Print(bytes) => assert_eq!(bytes, b"abc\xff"),
        other => panic!("{other:?}"),
    }
    assert!(matches!(handle_client_message(true, b"quit"), ClientAction::Quit));
    match handle_client_message(true, b"a\xffb") {
        ClientAction::Unmatched(text) => assert_eq!(text, "a\u{fffd}b"),
        other => panic!("{other:?}"),
    }
}

fn reason(step: PumpStep) -> Option<String> {
    match step {
        PumpStep::Stop(reason) => reason,
        other => panic!("{other:?}"),
    }
}

fn handed_on(step: PumpStep) -> Vec<u8> {
    match step {
        PumpStep::Send(bytes) => bytes,
        other => panic!("{other:?}"),
    }
}

#[test]
fn pumps_hand_on_what_they_read() {
    let data = || ReadOutcome::Data(b"ls\n".to_vec());
    assert_eq!(handed_on(after_pty_read(data())), b"ls\n");
    assert_eq!(handed_on(after_stdin_read(data())), b"ls\n");
    assert_eq!(handed_on(after_keyboard_read(data())), b"ls\n");
    assert!(matches!(after_pty_send(Ok(())), PumpStep::Read));
    assert!(matches!(after_stdin_send(Ok(())), PumpStep::Read));
    assert!(matches!(after_keyboard_write(TypeOutcome::Typed), PumpStep::Read));
    assert!(matches!(after_keyboard_write(TypeOutcome::NotReady), PumpStep::Read));
}

#[test]
fn pumps_stop_with_a_reason() {
    let failed = || ReadOutcome::Failed("io".to_string());
    let unsent = || Err("gone".to_string());
    assert_eq!(reason(after_pty_read(ReadOutcome::End)), Some("pty eof".to_string()));
    assert_eq!(reason(after_pty_read(failed())), Some("pty read error: io".to_string()));
    assert_eq!(reason(after_pty_send(unsent())), Some("dc send error: gone".to_string()));
    assert_eq!(reason(after_stdin_read(ReadOutcome::End)), None);
    assert_eq!(reason(after_stdin_read(failed())), Some("stdin read error: io".to_string()));
    assert_eq!(reason(after_stdin_send(unsent())), Some("stdin send error: gone".to_string()));
    assert_eq!(reason(after_keyboard_read(ReadOutcome::End)), None);
    assert_eq!(reason(after_keyboard_read(failed())), None);
    assert_eq!(reason(after_keyboard_write(TypeOutcome::Failed)), None);
}

#[test]
fn typed_texts_arrive_as_typed() {
    for typed in ["", "ls\n", "\"\\\u{0}\u{1f}\u{e9}\u{1f600}]", "[\"stdin\",\"x\"]"] {
        let message = format!("[\"stdin\",{}]", serde_json::to_string(typed).unwrap());
        match host(&message) {
            HostAction::Write(bytes) => assert_eq!(bytes, typed.as_bytes()),
            other => panic!("{other:?}"),
        }
    }
}

#[test]
fn sessions_end_well_or_badly() {
    assert_eq!(session_outcome(None), Ok(()));
    assert_eq!(session_outcome(Some(None)), Ok(()));
    assert_eq!(session_outcome(Some(Some("x".to_string()))), Err("x".to_string()));
}
