use axum::http::{HeaderMap, HeaderValue};
use bootty::config::{hash_password, ServeMode};
use bootty::page::index_page;
use bootty::serve::{
    bind_address, check_admin_token, check_public_auth, ensure_admin_token, ensure_public_auth,
    internal_error, new_admin_token, non_empty, preview_command, read_header_value,
    validate_launch_options, LaunchError, ServeAuthRuntime, ServeLaunchOptions, Status,
};

fn options(mode: ServeMode, host: &str, auth: ServeAuthRuntime) -> ServeLaunchOptions {
    ServeLaunchOptions {
        host: host.to_string(),
        port: 2234,
        cmd: vec![],
        non_interactive: true,
        stun_servers: vec!["stun:a".to_string()],
        max_sessions: 2,
        mode,
        auth,
    }
}

fn pin() -> ServeAuthRuntime {
    ServeAuthRuntime::Pin("123456".to_string())
}

fn headers(name: &'static str, value: &[u8]) -> HeaderMap {
    let mut map = HeaderMap::new();
    map.insert(name, HeaderValue::from_bytes(value).unwrap());
    map
}

#[test]
fn launch_options_that_pass() {
    for host in ["127.0.0.1", "localhost"] {
        let o = options(ServeMode::Local, host, ServeAuthRuntime::NoAuth);
        assert!(validate_launch_options(&o).is_ok());
    }
    let o = options(ServeMode::LanOpen, "0.0.0.0", ServeAuthRuntime::NoAuth);
    assert!(validate_launch_options(&o).is_ok());
    assert!(validate_launch_options(&options(ServeMode::LanAuth, "0.0.0.0", pin())).is_ok());
}

#[test]
fn each_launch_rule() {
    let mut o = options(ServeMode::Local, "0.0.0.0", pin());
    let e = validate_launch_options(&o).unwrap_err();
    assert_eq!(e, LaunchError::LocalHost);
    assert_eq!(
        e.message(),
        "serve mode=local requires --host to be 127.0.0.1 or localhost"
    );
    o.host = "localhost".to_string();
    let e = validate_launch_options(&o).unwrap_err();
    assert_eq!(e, LaunchError::LocalAuth);
    assert_eq!(e.message(), "serve mode=local does not allow enabling auth");
    o.mode = ServeMode::LanOpen;
    let e = validate_launch_options(&o).unwrap_err();
    assert_eq!(e, LaunchError::OpenAuth);
    assert_eq!(e.message(), "serve mode=lan-open does not allow enabling auth");
    o.mode = ServeMode::LanAuth;
    o.auth = ServeAuthRuntime::NoAuth;
    let e = validate_launch_options(&o).unwrap_err();
    assert_eq!(e, LaunchError::AuthMissing);
    assert_eq!(e.message(), "serve mode=lan-auth requires an auth method");
    o.max_sessions = 0;
    let e = validate_launch_options(&o).unwrap_err();
    assert_eq!(e, LaunchError::NoSessions);
    assert_eq!(e.message(), "max_sessions must be greater than 0");
    assert_eq!(
        LaunchError::NoStunServers.message(),
        "At least one STUN server is required"
    );
}

#[test]
fn auth_methods_have_names() {
    let hash = ServeAuthRuntime::PasswordHash("x".to_string());
    assert!(!ServeAuthRuntime::NoAuth.is_required());
    assert!(pin().is_required() && hash.is_required());
    assert_eq!(ServeAuthRuntime::NoAuth.label(), "none");
    assert_eq!(pin().label(), "6-digit PIN");
    assert_eq!(hash.label(), "password");
    assert_eq!(ServeAuthRuntime::NoAuth.mode_name(), "none");
    assert_eq!(pin().mode_name(), "pin");
    assert_eq!(hash.mode_name(), "password");
}

#[test]
fn headers_are_read() {
    assert_eq!(
        read_header_value(&headers("x-bootty-auth", b" \t12 34 "), "x-bootty-auth"),
        Some("12 34".to_string())
    );
    assert_eq!(read_header_value(&headers("X-Bootty-Auth", b"a"), "x-bootty-auth"), Some("a".to_string()));
    assert_eq!(read_header_value(&headers("x-bootty-auth", b"  "), "x-bootty-auth"), None);
    assert_eq!(read_header_value(&headers("x-bootty-auth", b"a\xffb"), "x-bootty-auth"), None);
    assert_eq!(read_header_value(&HeaderMap::new(), "x-bootty-auth"), None);
    for name in ["X-BOOTTY-AUTH", "x-Bootty-auth"] {
        assert_eq!(read_header_value(&headers("x-bootty-auth", b"a"), name), Some("a".to_string()));
    }
    for name in ["", "x bootty auth", "x-bootty-auth\n", "x-bootty-\u{e4}uth", "x-other"] {
        assert_eq!(read_header_value(&headers("x-bootty-auth", b"a"), name), None);
    }
    let long = "X".repeat(70_000);
    assert_eq!(read_header_value(&headers("x-bootty-auth", b"a"), &long), None);
    let mut twice = headers("x-bootty-auth", b"first");
    twice.append("x-bootty-auth", HeaderValue::from_static("second"));
    assert_eq!(read_header_value(&twice, "x-bootty-auth"), Some("first".to_string()));
    assert_eq!(non_empty("\u{3000}a\u{a0}"), Some("a".to_string()));
}

#[test]
fn visitors_show_a_pin() {
    assert!(check_public_auth(&ServeAuthRuntime::NoAuth, None).is_ok());
    assert!(check_public_auth(&pin(), Some("123456".to_string())).is_ok());
    let e = check_public_auth(&pin(), None).unwrap_err();
    assert_eq!((e.status, e.text.as_str()), (Status::Unauthorized, "Missing auth header"));
    let e = check_public_auth(&pin(), Some("654321".to_string())).unwrap_err();
    assert_eq!((e.status, e.text.as_str()), (Status::Unauthorized, "Invalid PIN"));
    assert!(ensure_public_auth(&pin(), &headers("x-bootty-auth", b" 123456 ")).is_ok());
    assert!(ensure_public_auth(&pin(), &headers("x-other", b"123456")).is_err());
    assert!(ensure_public_auth(&ServeAuthRuntime::NoAuth, &HeaderMap::new()).is_ok());
}

#[test]
fn visitors_show_a_password() {
    let auth = ServeAuthRuntime::PasswordHash(hash_password("open sesame").unwrap());
    assert!(ensure_public_auth(&auth, &headers("x-bootty-auth", b"open sesame")).is_ok());
    let e = check_public_auth(&auth, Some("open".to_string())).unwrap_err();
    assert_eq!((e.status, e.text.as_str()), (Status::Unauthorized, "Invalid password"));
    let e = check_public_auth(&auth, None).unwrap_err();
    assert_eq!(e.text, "Missing auth header");
    let broken = ServeAuthRuntime::PasswordHash("md5:a:b".to_string());
    let e = check_public_auth(&broken, Some("x".to_string())).unwrap_err();
    assert_eq!(e.status, Status::InternalServerError);
    assert_eq!(e.text, "Internal error: Unsupported password hash algorithm: md5");
}

#[test]
fn admin_callers_show_a_token() {
    let token = new_admin_token();
    assert_eq!(token.len(), 32);
    assert!(token.chars().all(|c| c.is_ascii_alphanumeric()));
    assert_ne!(token, new_admin_token());
    assert!(check_admin_token(&token, Some(token.clone())).is_ok());
    let e = check_admin_token(&token, None).unwrap_err();
    assert_eq!((e.status, e.text.as_str()), (Status::Unauthorized, "Missing admin token"));
    let e = check_admin_token(&token, Some("x".to_string())).unwrap_err();
    assert_eq!((e.status, e.text.as_str()), (Status::Unauthorized, "Invalid admin token"));
    let sent = headers("x-bootty-admin-token", token.as_bytes());
    assert!(ensure_admin_token(&token, &sent).is_ok());
    assert!(ensure_admin_token(&token, &HeaderMap::new()).is_err());
}

#[test]
fn statuses_have_codes() {
    assert_eq!(Status::BadRequest.code(), 400);
    assert_eq!(Status::Unauthorized.code(), 401);
    assert_eq!(Status::NotFound.code(), 404);
    assert_eq!(Status::Conflict.code(), 409);
    assert_eq!(Status::TooManyRequests.code(), 429);
    assert_eq!(Status::InternalServerError.code(), 500);
    assert_eq!(internal_error("boom").text, "Internal error: boom");
}

#[test]
fn commands_and_addresses_are_shown() {
    assert_eq!(preview_command(&vec![]), "bash -l");
    let cmd = vec!["top".to_string(), "-d".to_string(), "1".to_string()];
    assert_eq!(preview_command(&cmd), "top -d 1");
    assert_eq!(bind_address("127.0.0.1", 2234), "127.0.0.1:2234");
    assert_eq!(bind_address("::", 0), ":::0");
    assert_eq!(bind_address("h", 65535), "h:65535");
}

#[test]
fn page_says_what_visitors_are_asked_for() {
    let open = index_page(&ServeAuthRuntime::NoAuth);
    assert!(open.starts_with("\n<!DOCTYPE html>"));
    assert!(open.ends_with("</html>"));
    assert!(open.contains("const AUTH_REQUIRED = false;\n  const AUTH_LABEL = \"none\";"));
    let asked = index_page(&pin());
    assert!(asked.contains("const AUTH_REQUIRED = true;\n  const AUTH_LABEL = \"6-digit PIN\";"));
    assert!(!asked.contains("__AUTH"));
}
