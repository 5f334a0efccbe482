use axum::http::{HeaderMap, HeaderValue};
use bootty::admin::{
    filter_sessions, find_state, sessions_by_state, AdminCmdRequest, WriteOutcome,
};
use bootty::config::ServeMode;
use bootty::serve::{LaunchError, ServeAuthRuntime, ServeLaunchOptions, Status};
use bootty::session::{DtlsRole, NetworkType};
use bootty::sessions::{
    ended, parsed_answer, start_server, EndReason, ServeState, SessionLifecycleState,
    CLOSED_SESSION_HISTORY_LIMIT,
};

const SDP: &str = "v=0\r\no=- 0 0 IN IP4 0.0.0.0\r\ns=-\r\nt=0 0\r\nm=application 9 UDP/DTLS/SCTP webrtc-datachannel\r\na=candidate:1 1 udp 1 127.0.0.1 1 typ host\r\n";

fn launch(max_sessions: usize, auth: ServeAuthRuntime) -> ServeLaunchOptions {
    ServeLaunchOptions {
        host: "localhost".to_string(),
        port: 1,
        cmd: vec!["top".to_string()],
        non_interactive: true,
        stun_servers: vec!["stun:a".to_string(), "stun:b".to_string()],
        max_sessions,
        mode: if auth.is_required() { ServeMode::LanAuth } else { ServeMode::Local },
        auth,
    }
}

fn server(max_sessions: usize) -> ServeState {
    start_server(launch(max_sessions, ServeAuthRuntime::NoAuth)).unwrap()
}

fn open(state: &mut ServeState, id: &str, created: u64) {
    state.take_place().unwrap();
    let addr = Some("10.0.0.1".to_string());
    let reply = state.finish_session(id, Ok(SDP.to_string()), addr, created, created).unwrap();
    assert_eq!(reply.session_id, id);
    assert_eq!(reply.offer_sdp, SDP);
    assert_eq!(reply.stun_servers, vec!["stun:a", "stun:b"]);
}

#[test]
fn server_starts_empty() {
    let state = server(3);
    assert_eq!(state.settings.cmd_preview, "top");
    assert_eq!(state.settings.auth_mode, "none");
    assert_eq!(state.settings.max_sessions, 3);
    assert!(state.list_sessions().is_empty());
    assert_eq!(
        state.settings.startup_lines("localhost", 1, "127.0.0.1:9"),
        vec![
            "Service started: http://localhost:1/",
            "Mode: Local",
            "Session command: top",
            "Max sessions: 3",
            "Local admin interface: 127.0.0.1:9",
        ]
    );
    let pin = start_server(launch(1, ServeAuthRuntime::Pin("007".to_string()))).unwrap();
    let lines = pin.settings.startup_lines("h", 1, "a");
    assert_eq!(lines[1], "Mode: LanAuth");
    assert_eq!(lines[5], "PIN: 007");
}

#[test]
fn server_does_not_start_without_stun() {
    let mut o = launch(1, ServeAuthRuntime::NoAuth);
    o.stun_servers.clear();
    assert_eq!(start_server(o.clone()).unwrap_err(), LaunchError::NoStunServers);
    o.max_sessions = 0;
    assert_eq!(start_server(o).unwrap_err(), LaunchError::NoSessions);
}

#[test]
fn lifecycle_states_have_names() {
    assert_eq!(SessionLifecycleState::Pending.as_str(), "pending");
    assert_eq!(SessionLifecycleState::Connected.as_str(), "connected");
    assert_eq!(SessionLifecycleState::Closed.as_str(), "closed");
    for s in [
        SessionLifecycleState::Pending,
        SessionLifecycleState::Connected,
        SessionLifecycleState::Closed,
    ] {
        assert_eq!(find_state(s.as_str()), Some(s));
    }
    assert_eq!(find_state("Pending"), None);
}

#[test]
fn places_run_out_and_come_back() {
    let mut state = server(2);
    assert!(state.try_acquire());
    assert!(state.create_session_handler(&HeaderMap::new()).is_ok());
    let e = state.take_place().unwrap_err();
    assert_eq!(e.status, Status::TooManyRequests);
    assert_eq!(
        e.text,
        "Too many active sessions (max_sessions=2), please close some sessions and retry"
    );
    assert!(!state.try_acquire());
    state.release();
    assert!(state.try_acquire());
}

#[test]
fn visitor_without_secret_takes_no_place() {
    let mut state = start_server(launch(1, ServeAuthRuntime::Pin("007".to_string()))).unwrap();
    let e = state.create_session_handler(&HeaderMap::new()).unwrap_err();
    assert_eq!(e.text, "Missing auth header");
    assert_eq!(state.permits_taken, 0);
    let mut headers = HeaderMap::new();
    headers.insert("x-bootty-auth", HeaderValue::from_static("007"));
    assert!(state.create_session_handler(&headers).is_ok());
    assert_eq!(state.permits_taken, 1);
    assert_eq!(state.answer_handler(&HeaderMap::new(), "a", SDP).unwrap_err().status, Status::Unauthorized);
    assert_eq!(
        state.delete_session_handler(&HeaderMap::new(), "a").unwrap_err().status,
        Status::Unauthorized
    );
    assert_eq!(state.delete_session_handler(&headers, "a").unwrap_err().status, Status::NotFound);
}

#[test]
fn session_that_does_not_open_gives_its_place_back() {
    let mut state = server(1);
    state.take_place().unwrap();
    let e = state.finish_session("a", Err("create offer failed".to_string()), None, 1, 1).unwrap_err();
    assert_eq!((e.status, e.text.as_str()), (Status::InternalServerError, "Internal error: create offer failed"));
    state.take_place().unwrap();
    let e = state.finish_session("a", Ok("v=0".to_string()), None, 1, 1).unwrap_err();
    assert_eq!(
        e.text,
        "Internal error: No ICE candidates were gathered. Check network/firewall and try again."
    );
    assert_eq!(state.permits_taken, 0);
    assert!(state.get_session("a").is_none());
}

#[test]
fn session_names_are_free_tokens() {
    let state = server(1);
    let id = state.allocate_session_id();
    assert_eq!(id.len(), 12);
    assert!(id.chars().all(|c| c.is_ascii_alphanumeric()));
    assert!(state.is_free(&id));
    assert_ne!(state.allocate_session_id(), id);
    let mut state = server(1);
    open(&mut state, "a", 1);
    assert!(!state.is_free("a"));
    state.remove_session("a");
    assert!(!state.is_free("a"));
    assert!(state.is_free("b"));
}

#[test]
fn answer_is_taken_once() {
    let mut state = server(2);
    open(&mut state, "a", 1);
    let e = state.submit_answer("b", SDP).unwrap_err();
    assert_eq!((e.status, e.text.as_str()), (Status::NotFound, "Session does not exist or has been closed"));
    let e = state.submit_answer("a", " \n").unwrap_err();
    assert_eq!((e.status, e.text.as_str()), (Status::BadRequest, "Answer cannot be empty"));
    let e = state.submit_answer("a", "v=0").unwrap_err();
    assert_eq!(
        (e.status, e.text.as_str()),
        (
            Status::BadRequest,
            "Missing ICE candidate in Answer, please check browser network and retry"
        )
    );
    assert!(state.answer_timed_out("a"));
    assert_eq!(state.answer_handler(&HeaderMap::new(), "a", SDP).unwrap(), SDP.trim());
    assert!(!state.answer_timed_out("a"));
    let e = state.submit_answer("a", SDP).unwrap_err();
    assert_eq!(
        (e.status, e.text.as_str()),
        (Status::Conflict, "Answer has already been submitted for this session")
    );
    assert_eq!(state.finish_answer("a", Ok(()), 50).unwrap(), "Answer received");
    assert_eq!(state.get_session("a").unwrap().last_active_at_unix, 50);
}

#[test]
fn answer_that_fails_may_be_sent_again() {
    let mut state = server(1);
    open(&mut state, "a", 1);
    state.submit_answer("a", SDP).unwrap();
    let e = state.finish_answer("a", Err("bad".to_string()), 50).unwrap_err();
    assert_eq!(e.text, "Internal error: bad");
    assert_eq!(state.get_session("a").unwrap().last_active_at_unix, 1);
    assert!(state.submit_answer("a", SDP).is_ok());
}

#[test]
fn answer_that_does_not_parse_counts_as_submitted() {
    let mut state = server(1);
    open(&mut state, "a", 1);
    let e = state.submit_answer("a", "a=candidate:1").unwrap_err();
    assert_eq!(e.status, Status::InternalServerError);
    assert!(e.text.starts_with("Internal error: "));
    assert_eq!(state.submit_answer("a", SDP).unwrap_err().status, Status::Conflict);
    assert_eq!(parsed_answer("x".to_string(), Ok(())).unwrap(), "x");
    let e = parsed_answer("x".to_string(), Err("y".to_string())).unwrap_err();
    assert_eq!(e.text, "Internal error: y");
}

#[test]
fn ended_session_is_remembered() {
    let mut state = server(1);
    open(&mut state, "a", 5);
    state.mark_connected("a", 7);
    assert_eq!(state.get_session("a").unwrap().lifecycle, SessionLifecycleState::Connected);
    state.update_last_active("a", 9);
    assert_eq!(state.end_session("a").unwrap(), "Session closed");
    assert!(state.get_session("a").is_none());
    assert!(state.is_closed_session("a"));
    assert_eq!(state.permits_taken, 1);
    state.release();
    let e = state.end_session("a").unwrap_err();
    assert_eq!(e.text, "Session does not exist or has been closed");
    let rows = state.session_rows();
    assert_eq!(rows.len(), 1);
    assert_eq!(rows[0].state, SessionLifecycleState::Closed);
    assert_eq!(rows[0].client_addr, Some("10.0.0.1".to_string()));
    assert_eq!((rows[0].created_at_unix, rows[0].last_active_at_unix), (5, 9));
    assert!(!state.answer_timed_out("a"));
    state.mark_connected("a", 10);
    state.update_last_active("a", 11);
    assert_eq!(state.session_rows()[0].last_active_at_unix, 9);
}

#[test]
fn history_forgets_the_oldest() {
    let mut state = server(1);
    for i in 0..CLOSED_SESSION_HISTORY_LIMIT + 2 {
        open(&mut state, &format!("s{i}"), i as u64);
        assert!(state.remove_session(&format!("s{i}")));
        state.release();
    }
    assert_eq!(state.closed_sessions.len(), CLOSED_SESSION_HISTORY_LIMIT);
    assert_eq!(state.closed_session_order.len(), CLOSED_SESSION_HISTORY_LIMIT);
    assert!(!state.is_closed_session("s0"));
    assert!(!state.is_closed_session("s1"));
    assert!(state.is_closed_session("s2"));
    assert!(state.is_closed_session("s1025"));
    assert_eq!(state.session_rows()[0].id, "s2");
}

#[test]
fn all_sessions_end() {
    let mut state = server(3);
    for id in ["a", "b", "c"] {
        open(&mut state, id, 1);
    }
    let mut ended = state.close_all_sessions();
    ended.sort();
    assert_eq!(ended, vec!["a", "b", "c"]);
    assert_eq!(state.sessions.len(), 0);
    assert_eq!(state.closed_sessions.len(), 3);
    assert!(state.close_all_sessions().is_empty());
}

fn busy_server() -> ServeState {
    let mut state = server(4);
    open(&mut state, "late", 30);
    open(&mut state, "early", 10);
    open(&mut state, "gone", 20);
    state.remove_session("gone");
    state.mark_connected("late", 40);
    state
}

fn token_header(token: &'static str) -> HeaderMap {
    let mut headers = HeaderMap::new();
    headers.insert("x-bootty-admin-token", HeaderValue::from_static(token));
    headers
}

#[test]
fn sessions_are_listed_by_creation() {
    let items = busy_server().list_sessions();
    let ids: Vec<&str> = items.iter().map(|i| i.session_id.as_str()).collect();
    assert_eq!(ids, vec!["early", "gone", "late"]);
    assert_eq!(items[0].state, SessionLifecycleState::Pending);
    assert_eq!(items[1].state, SessionLifecycleState::Closed);
    assert_eq!(items[2].state, SessionLifecycleState::Connected);
    assert_eq!(items[0].auth_mode, "none");
    assert_eq!(items[0].cmd_preview, "top");
    assert_eq!(items[0].created_at.len(), 19);
    assert_ne!(items[2].created_at, items[2].last_active_at);
    let closed = filter_sessions(items, SessionLifecycleState::Closed);
    assert_eq!(closed.len(), 1);
    assert_eq!(closed[0].session_id, "gone");
}

#[test]
fn name_of_an_ended_session_is_not_free() {
    let mut state = server(2);
    assert!(state.is_free("a"));
    open(&mut state, "a", 1);
    assert!(!state.is_free("a"));
    state.remove_session("a");
    assert!(!state.is_free("a"));
    let rows = state.session_rows();
    assert_eq!(rows.len(), 1);
    assert_eq!(rows[0].state, SessionLifecycleState::Closed);
}

#[test]
fn sessions_of_a_server_offer() {
    let setup = server(2).settings.peer_setup();
    assert_eq!(setup.stun_servers, vec!["stun:a", "stun:b"]);
    assert_eq!(setup.ice_servers, vec![vec!["stun:a"], vec!["stun:b"]]);
    assert!(setup.include_loopback_candidate);
    assert_eq!(setup.network_types, vec![NetworkType::Udp4]);
    assert_eq!(setup.answering_dtls_role, Some(DtlsRole::Server));
}

#[test]
fn list_is_filtered_by_state() {
    let state = busy_server();
    let headers = token_header("tok");
    let list = |q: Option<&str>| state.admin_list_sessions_handler("tok", &headers, q);
    assert_eq!(list(None).unwrap().len(), 3);
    let closed = list(Some(" CLOSED\t")).unwrap();
    assert_eq!(closed.len(), 1);
    assert_eq!(closed[0].session_id, "gone");
    assert_eq!(list(Some("connected")).unwrap()[0].session_id, "late");
    assert_eq!(list(Some("Pending")).unwrap()[0].session_id, "early");
    let e = list(Some("open")).unwrap_err();
    assert_eq!(
        (e.status, e.text.as_str()),
        (Status::BadRequest, "state only supports pending|connected|closed")
    );
    let e = state.admin_list_sessions_handler("other", &headers, None).unwrap_err();
    assert_eq!(e.text, "Invalid admin token");
    assert!(sessions_by_state(vec![], "CLOSED").is_err());
    assert!(sessions_by_state(vec![], "closed").unwrap().is_empty());
}

#[test]
fn commands_reach_connected_sessions_only() {
    let state = busy_server();
    let headers = token_header("tok");
    let send = |id: &str, cmd: &str, append_enter: bool| {
        let payload = AdminCmdRequest { cmd: cmd.to_string(), append_enter };
        state.admin_send_cmd_handler("tok", &headers, id, &payload)
    };
    assert_eq!(send("late", "ls \u{e9}", true).unwrap(), "ls \u{e9}\n".as_bytes());
    assert_eq!(send("late", " ls", false).unwrap(), b" ls");
    let told = |id: &str, cmd: &str| {
        let e = send(id, cmd, true).unwrap_err();
        (e.status, e.text)
    };
    assert_eq!(
        told("gone", "ls"),
        (Status::Conflict, "Session is closed, cannot inject command".to_string())
    );
    assert_eq!(told("nobody", "ls"), (Status::NotFound, "Session does not exist".to_string()));
    assert_eq!(
        told("early", ""),
        (Status::Conflict, "Session is not fully connected, cannot inject command".to_string())
    );
    assert_eq!(told("late", " \n"), (Status::BadRequest, "Command cannot be empty".to_string()));
    let payload = AdminCmdRequest { cmd: "ls".to_string(), append_enter: true };
    let e = state.admin_send_cmd_handler("tok", &HeaderMap::new(), "late", &payload).unwrap_err();
    assert_eq!(e.text, "Missing admin token");
}

#[test]
fn commands_are_acknowledged() {
    let mut state = busy_server();
    let payload = AdminCmdRequest { cmd: "l\u{e9}".to_string(), append_enter: true };
    let reply = state.finish_command("late", &payload, WriteOutcome::Written, 99).unwrap();
    assert_eq!((reply.session_id.as_str(), reply.bytes_sent), ("late", 4));
    let payload = AdminCmdRequest { cmd: "ls".to_string(), append_enter: false };
    let reply = state.finish_command("late", &payload, WriteOutcome::Written, 99).unwrap();
    assert_eq!(reply.bytes_sent, 2);
    assert_eq!(state.get_session("late").unwrap().last_active_at_unix, 99);
    let mut told = |outcome: WriteOutcome| {
        let e = state.finish_command("late", &payload, outcome, 100).unwrap_err();
        (e.status, e.text)
    };
    assert_eq!(
        told(WriteOutcome::NotReady),
        (Status::Conflict, "Session stdin is not ready yet".to_string())
    );
    assert_eq!(
        told(WriteOutcome::WriteFailed("x".to_string())),
        (Status::InternalServerError, "Internal error: Failed to write command: x".to_string())
    );
    assert_eq!(
        told(WriteOutcome::FlushFailed("y".to_string())),
        (Status::InternalServerError, "Internal error: Failed to flush command: y".to_string())
    );
    assert_eq!(state.get_session("late").unwrap().last_active_at_unix, 99);
}

#[test]
fn first_free_name_is_taken() {
    let mut state = server(3);
    open(&mut state, "a", 1);
    open(&mut state, "b", 1);
    state.remove_session("b");
    let drawn = |names: &[&str]| names.iter().map(|n| n.to_string()).collect::<Vec<_>>();
    assert_eq!(state.first_free(&drawn(&["a", "b", "c", "d"])), Some("c".to_string()));
    assert_eq!(state.first_free(&drawn(&["a", "b"])), None);
    assert_eq!(state.first_free(&vec![]), None);
    assert_eq!(state.counted_id(), "000000000000");
    open(&mut state, "000000000000", 1);
    assert_eq!(state.counted_id(), "000000000001");
}

#[test]
fn other_side_is_told_when_it_did_not_leave() {
    let mut state = server(2);
    for (id, send_quit, has_channel) in
        [("a", true, true), ("b", true, false), ("c", false, true), ("d", false, false)]
    {
        open(&mut state, id, 1);
        let end = state.close_session(id, send_quit, has_channel).unwrap();
        assert_eq!(end.send_quit, send_quit && has_channel);
        assert!(end.close_connection);
        assert_eq!(end, ended(send_quit, has_channel));
        assert!(state.is_closed_session(id));
        assert!(state.close_session(id, true, true).is_none());
        state.release();
    }
    assert!(EndReason::Deleted.sends_quit());
    assert!(EndReason::Unanswered.sends_quit());
    assert!(EndReason::Shutdown.sends_quit());
    assert!(!EndReason::Lost.sends_quit());
}
