use bootty::client::{
    create_answer, reply_to_offer, take_offer, unlock_offer, ClientError, ClientSession,
};
use bootty::host::{check_answer_text, offer_link, take_answer, HostError, HostSession};
use bootty::sdp::{SdpError, SessionDescription};
use bootty::session::{
    on_browser_peer_state, on_dtls_state, on_ice_state, on_peer_state, on_sctp_error,
    sdp_has_candidate, DtlsRole, LinkState, NetworkType, Session,
};
use bootty::sessions::start_server;

const OFFER: &str = "v=0\r\no=- 1 2 IN IP4 0.0.0.0\r\ns=-\r\nt=0 0\r\nm=application 9 UDP/DTLS/SCTP webrtc-datachannel\r\na=candidate:1 1 udp 1 127.0.0.1 1 typ host\r\n";
const ANSWER: &str = "v=0\r\no=- 3 4 IN IP4 0.0.0.0\r\ns=-\r\nt=0 0\r\nm=application 9 UDP/DTLS/SCTP webrtc-datachannel\r\na=candidate:2 1 udp 1 127.0.0.1 2 typ host\r\n";

fn host(one_way: bool) -> HostSession {
    HostSession::new(
        vec!["top".to_string()],
        true,
        one_way,
        vec!["stun:a".to_string()],
        None,
        128,
    )
}

fn client(text: String) -> ClientSession {
    ClientSession::new(text, vec!["stun:a".to_string()])
}

#[test]
fn exchange_that_somebody_carries_over() {
    let host = host(false);
    let offer = host.create_offer(OFFER.to_string()).unwrap();
    assert_eq!(offer.sdp, OFFER);
    assert_eq!((offer.key.as_str(), offer.nonce.as_str()), ("", ""));
    let opened = client(offer.encode().unwrap()).open_offer().unwrap().unwrap();
    assert_eq!(opened, offer);
    let reply = reply_to_offer(&opened, ANSWER.to_string()).unwrap();
    assert!(reply.upload_to.is_none());
    let typed = format!("  {}\r\n", reply.encoded);
    assert_eq!(host.accept_answer(&offer, &typed).unwrap().unwrap(), ANSWER);
}

#[test]
fn exchange_through_the_relay() {
    let host = host(true);
    let offer = host.create_offer(OFFER.to_string()).unwrap();
    assert_ne!(offer.sdp, OFFER);
    assert_eq!(offer.ten_kb_site_loc.len(), 100);
    assert_eq!(
        offer_link(&offer),
        format!("https://www.10kb.site/{}", offer.ten_kb_site_loc)
    );
    let opened = client(offer.encode().unwrap()).open_offer().unwrap().unwrap();
    assert_eq!(opened.sdp, OFFER);
    assert_eq!(opened.key, offer.key);
    let reply = reply_to_offer(&opened, ANSWER.to_string()).unwrap();
    assert_eq!(reply.upload_to, Some(offer.ten_kb_site_loc.clone()));
    let sent = SessionDescription::decode(&reply.encoded).unwrap();
    assert_ne!(sent.sdp, ANSWER);
    assert_eq!((sent.key.as_str(), sent.nonce.as_str()), ("", ""));
    assert_eq!(host.accept_answer(&offer, &reply.encoded).unwrap().unwrap(), ANSWER);
}

fn description(sdp: &str) -> SessionDescription {
    SessionDescription {
        sdp: sdp.to_string(),
        ten_kb_site_loc: String::new(),
        key: String::new(),
        nonce: String::new(),
    }
}

#[test]
fn client_refuses_offers() {
    let e = client("0".to_string()).open_offer().unwrap_err();
    assert!(matches!(e, ClientError::Sdp(SdpError::OuterBase58)));
    assert_eq!(e.message(), "base58 decode outer failed");
    let e = client(description("v=0").encode().unwrap()).open_offer().unwrap_err();
    assert_eq!(
        e.message(),
        "The Host Offer contained no ICE candidates. Ask the host to check their network and generate a new Offer."
    );
    let e = unlock_offer(description("a=candidate:1")).unwrap_err();
    assert!(matches!(e, ClientError::OfferText(_)));
    assert!(!e.message().is_empty());
    let e = take_offer(description("x"), Err("why".to_string())).unwrap_err();
    assert_eq!(e.message(), "why");
    assert_eq!(take_offer(description("x"), Ok(())).unwrap(), description("x"));
}

#[test]
fn client_cannot_use_a_nonce_that_does_not_fit() {
    let mut sd = description("00");
    sd.key = "00".repeat(32);
    sd.nonce = "00".repeat(4);
    assert!(client(sd.encode().unwrap()).open_offer().unwrap().is_none());
    sd.nonce = "00".repeat(12);
    let e = client(sd.encode().unwrap()).open_offer().unwrap_err();
    assert!(matches!(e, ClientError::Sdp(SdpError::Cipher)));
    sd.sdp = "no hexadecimal".to_string();
    sd.nonce = "00".repeat(4);
    let e = client(sd.encode().unwrap()).open_offer().unwrap_err();
    assert_eq!(e.message(), "decode ciphertext hex");
}

#[test]
fn client_needs_candidates_to_answer() {
    let e = create_answer(&description(OFFER), "v=0".to_string()).unwrap_err();
    assert!(matches!(e, ClientError::AnswerCandidates));
    assert_eq!(
        e.message(),
        "No ICE candidates were gathered. Check your network/firewall and try again."
    );
    let mut offer = description(OFFER);
    offer.nonce = "left alone".to_string();
    let answer = create_answer(&offer, ANSWER.to_string()).unwrap();
    assert_eq!(answer.sdp, ANSWER);
    assert_eq!(answer.nonce, "left alone");
    offer.key = "zz".to_string();
    let e = create_answer(&offer, ANSWER.to_string()).unwrap_err();
    assert!(matches!(e, ClientError::Sdp(SdpError::KeyHex)));
}

#[test]
fn host_refuses_offers_and_answers() {
    let e = host(false).create_offer("v=0".to_string()).unwrap_err();
    assert!(matches!(e, HostError::OfferCandidates));
    assert_eq!(
        e.message(),
        "No ICE candidates were gathered. Check your network/firewall, or try localhost for same-machine testing."
    );
    let offer = host(false).create_offer(OFFER.to_string()).unwrap();
    let e = host(false).accept_answer(&offer, "0").unwrap_err();
    assert_eq!(e.message(), "base58 decode outer failed");
    let e = host(false).accept_answer(&offer, &description("v=0").encode().unwrap()).unwrap_err();
    assert_eq!(
        e.message(),
        "The peer Answer contained no ICE candidates. Ensure the browser/client network is reachable and try again."
    );
    let e = check_answer_text("a=candidate:1".to_string()).unwrap_err();
    assert!(matches!(e, HostError::AnswerText(_)));
    assert_eq!(take_answer("a".to_string(), Err("b".to_string())).unwrap_err().message(), "b");
    assert_eq!(take_answer("a".to_string(), Ok(())).unwrap(), "a");
    let secret = host(true).create_offer(OFFER.to_string()).unwrap();
    let e = host(true).accept_answer(&secret, &description(ANSWER).encode().unwrap()).unwrap_err();
    assert!(matches!(e, HostError::Sdp(SdpError::CiphertextHex)));
    let mut odd = secret.clone();
    odd.nonce = "00".repeat(4);
    let e = host(true).accept_answer(&odd, &description(ANSWER).encode().unwrap()).unwrap_err();
    assert_eq!(e.message(), "decode ciphertext hex");
    let hex = description("00").encode().unwrap();
    assert!(host(true).accept_answer(&odd, &hex).unwrap().is_none());
    let e = host(true).unlock_answer(&secret, description("00")).unwrap_err();
    assert!(matches!(e, HostError::Sdp(SdpError::Cipher)));
}

#[test]
fn host_launches_a_local_server() {
    assert!(host(false).launch_options().is_none());
    let host = HostSession::new(
        vec!["top".to_string()],
        true,
        false,
        vec!["stun:a".to_string()],
        Some(99),
        7,
    );
    let o = host.launch_options().unwrap();
    assert_eq!((o.host.as_str(), o.port, o.max_sessions), ("127.0.0.1", 99, 7));
    assert_eq!(o.cmd, vec!["top"]);
    assert!(start_server(o).is_ok());
}

#[test]
fn candidates_stand_at_the_start_of_a_line() {
    assert!(sdp_has_candidate("a=candidate:"));
    assert!(sdp_has_candidate("v=0\r\na=candidate:1"));
    assert!(!sdp_has_candidate(""));
    assert!(!sdp_has_candidate(" a=candidate:1"));
    assert!(!sdp_has_candidate("v=0\ra=candidate:1"));
    assert!(!sdp_has_candidate("a=candidate"));
}

#[test]
fn connections_are_set_up() {
    let servers = vec!["stun:a".to_string(), "stun:b".to_string()];
    let s = Session::new(servers.clone(), true);
    assert_eq!(s.ice_servers, vec![vec!["stun:a"], vec!["stun:b"]]);
    assert!(s.include_loopback_candidate);
    assert_eq!(s.network_types, vec![NetworkType::Udp4]);
    assert_eq!(s.answering_dtls_role, Some(DtlsRole::Server));
    assert_eq!(s.stun_servers, servers);
    assert_eq!(Session::new(vec![], false).answering_dtls_role, None);
}

#[test]
fn failures_of_a_connection_are_told() {
    let r = on_ice_state(LinkState::Failed);
    assert_eq!(r.warning, Some("[warn] ICE connection state failed: failed".to_string()));
    assert_eq!(r.error, None);
    assert_eq!(on_ice_state(LinkState::Closed).warning, None);
    let r = on_dtls_state(LinkState::Failed);
    assert_eq!(r.warning, Some("[warn] DTLS transport state failed: failed".to_string()));
    assert_eq!(r.error, Some("DTLS handshake failed, state: failed".to_string()));
    assert_eq!(on_dtls_state(LinkState::Other).error, None);
    let r = on_sctp_error("x");
    assert_eq!(r.warning, Some("[warn] SCTP transport error: x".to_string()));
    assert_eq!(r.error, Some("SCTP transport error: x".to_string()));
    assert_eq!(
        on_peer_state(LinkState::Failed),
        Some("PeerConnection entered the failed state (usually DTLS/SCTP handshake failure).".to_string())
    );
    assert_eq!(on_peer_state(LinkState::Closed), None);
    assert_eq!(
        on_browser_peer_state("a", LinkState::Failed),
        Some("session a peer state changed to failed".to_string())
    );
    assert_eq!(
        on_browser_peer_state("a", LinkState::Closed),
        Some("session a peer state changed to closed".to_string())
    );
    assert_eq!(on_browser_peer_state("a", LinkState::Other), None);
}
