use bootty::cli::{extract_cmd, is_non_interactive};
use bootty::dates::{format_unix_secs, time_or_number};
use bootty::random::write_token;
use bootty::json::{split_parts, write_object};
use bootty::page::asset_type;
use bootty::pty::{pty_command, LocalShare};
use bootty::table::Table;
use bootty::ten_kb_site::{
    create_10kb_file, download_url, drawn_file_name, poll_for_response, rand_seq, upload_url, PollStep,
};
use bootty::text::{decimal_text, join, same_text, starts_with, trim};

fn texts(words: &[&str]) -> Vec<String> {
    words.iter().map(|w| w.to_string()).collect()
}

#[test]
fn command_is_parted_from_the_arguments() {
    let (cmd, rest) = extract_cmd(texts(&["bootty", "-o", "-cmd", "top", "-cmd", "x"]));
    assert_eq!(cmd, texts(&["top", "-cmd", "x"]));
    assert_eq!(rest, texts(&["bootty", "-o"]));
    let (cmd, rest) = extract_cmd(texts(&["bootty", "-cmd"]));
    assert!(cmd.is_empty());
    assert_eq!(rest, texts(&["bootty"]));
    let (cmd, rest) = extract_cmd(texts(&["bootty", "cmd", "--cmd"]));
    assert_eq!(cmd, texts(&["bash", "-l"]));
    assert_eq!(rest, texts(&["bootty", "cmd", "--cmd"]));
}

#[test]
fn server_is_never_interactive() {
    assert!(!is_non_interactive(false, false, None));
    assert!(is_non_interactive(true, false, None));
    assert!(is_non_interactive(false, true, None));
    assert!(is_non_interactive(false, false, Some(1)));
}

#[test]
fn terminals_run_commands() {
    let c = pty_command(&vec![]);
    assert_eq!((c.program.as_str(), c.args), ("bash", texts(&["-l"])));
    let c = pty_command(&texts(&["vi", "a", "b"]));
    assert_eq!((c.program.as_str(), c.args), ("vi", texts(&["a", "b"])));
}

#[test]
fn local_terminals_take_part() {
    let quiet = LocalShare { stdin: false, raw: false, stdout: false };
    assert_eq!(LocalShare::host(true, true), quiet);
    assert_eq!(
        LocalShare::host(false, false),
        LocalShare { stdin: false, raw: false, stdout: true }
    );
    assert_eq!(
        LocalShare::host(false, true),
        LocalShare { stdin: true, raw: true, stdout: true }
    );
    assert_eq!(LocalShare::server(true), quiet);
    assert_eq!(
        LocalShare::server(false),
        LocalShare { stdin: true, raw: false, stdout: false }
    );
}

#[test]
fn page_files_have_types() {
    assert_eq!(asset_type("xterm.min.css"), Some("text/css; charset=utf-8"));
    assert_eq!(asset_type("xterm.min.js"), Some("application/javascript; charset=utf-8"));
    assert_eq!(asset_type("addon-fit.min.js"), Some("application/javascript; charset=utf-8"));
    assert_eq!(asset_type("../secret"), None);
}

#[test]
fn relay_addresses() {
    assert_eq!(upload_url("abc"), "https://up.10kb.site/abc");
    assert_eq!(download_url("abc"), "https://www.10kb.site/abc");
}

#[test]
fn relay_replies() {
    assert!(create_10kb_file(201, "ignored").is_ok());
    assert_eq!(create_10kb_file(200, "no").unwrap_err(), "10kb.site error: no");
    match poll_for_response(200, "200 OK", "body".to_string()) {
        PollStep::Done(body) => assert_eq!(body, "body"),
        other => panic!("{other:?}"),
    }
    assert!(matches!(
        poll_for_response(404, "404 Not Found", String::new()),
        PollStep::Wait
    ));
    match poll_for_response(500, "500 Internal Server Error", String::new()) {
        PollStep::Failed(e) => {
            assert_eq!(e, "Unexpected 10kb.site status: 500 Internal Server Error")
        }
        other => panic!("{other:?}"),
    }
}

#[test]
fn file_names_are_random() {
    assert_eq!(drawn_file_name(&vec![0, 10, 36, 61]), "0aAZ");
    assert_eq!(rand_seq(0), "");
    let name = rand_seq(100);
    assert_eq!(name.len(), 100);
    assert!(name.chars().all(|c| c.is_ascii_alphanumeric()));
    assert_ne!(name, rand_seq(100));
}

#[test]
fn points_in_time_are_written() {
    let text = format_unix_secs(1_700_000_000);
    assert_eq!(text.len(), 19);
    assert!(text.starts_with("2023-11-1"));
    assert_eq!(&text[10..11], " ");
    assert_eq!(format_unix_secs(8_210_266_876_800), "8210266876800");
    assert_ne!(format_unix_secs(8_210_266_876_799), "8210266876799");
    assert_eq!(format_unix_secs(i64::MAX as u64), "9223372036854775807");
    assert!(format_unix_secs(u64::MAX).starts_with("19"));
    assert_eq!(time_or_number(5, None), "5");
    assert_eq!(time_or_number(5, Some("then".to_string())), "then");
}

#[test]
fn texts_are_handled() {
    assert!(same_text("a\u{e9}", "a\u{e9}"));
    assert!(!same_text("a", "ab"));
    assert_eq!(trim("\u{a0}\t a b\r\n\u{3000}"), "a b");
    assert_eq!(trim(" \n"), "");
    assert_eq!(join(&texts(&["a", "", "b"]), ", "), "a, , b");
    assert_eq!(join(&vec![], ","), "");
    assert!(starts_with("abc", "ab") && starts_with("abc", "") && !starts_with("a", "ab"));
    assert_eq!(decimal_text(0), "0");
    assert_eq!(decimal_text(u64::MAX), "18446744073709551615");
}

#[test]
fn tables_hold_one_value_for_a_name() {
    let mut t: Table<u8> = Table::new();
    t.insert("a", 1);
    t.insert("b", 2);
    t.insert("a", 3);
    assert_eq!(t.len(), 2);
    assert_eq!(t.get("a"), Some(&3));
    assert_eq!(t.get("c"), None);
    assert!(t.contains_key("b"));
    assert_eq!(t.remove("b"), Some(2));
    assert_eq!(t.remove("b"), None);
    assert_eq!(t.keys(), texts(&["a"]));
}

#[test]
fn objects_fall_apart_into_their_members() {
    let fields = vec![
        ("a".to_string(), "x,\"}".to_string()),
        ("b".to_string(), String::new()),
    ];
    let json = write_object(&fields).unwrap();
    assert_eq!(json, b"{\"a\":\"x,\\\"}\",\"b\":\"\"}");
    let split = split_parts(&json);
    assert_eq!(split.parts.len(), 4);
    assert_eq!(split.parts[1], b"\"x,\\\"}\"");
}

#[test]
fn numbers_are_written_as_tokens() {
    assert_eq!(write_token(0, 3), "000");
    assert_eq!(write_token(61, 3), "00Z");
    assert_eq!(write_token(62, 3), "010");
    assert_eq!(write_token(10, 0), "");
}
