//! What both sides of a connection share: how the peer connection is set up,
//! and what its state changes mean.

use crate::text::has_line_with_prefix;
use vstd::prelude::*;
use vstd::string::*;
use webrtc::peer_connection::sdp::session_description::RTCSessionDescription;

verus! {

/// Whether a session description names an ICE candidate: a line of it starts
/// with the attribute.
pub open spec fn has_candidate(sdp: Seq<char>) -> bool {
    crate::text::some_line_starts_with(sdp, "a=candidate:"@)
}

/// A session description names a candidate exactly where it falls apart into lines
/// that come before, the start of a candidate's line, and anything behind it.
pub proof fn candidate_stands_in_a_line(sdp: Seq<char>)
    ensures
        has_candidate(sdp) <==> exists|before: Seq<char>, rest: Seq<char>|
            sdp == #[trigger] (before + "a=candidate:"@ + rest) && (before.len() == 0
                || before.last() == '\n'),
{
    let mark = "a=candidate:"@;
    if has_candidate(sdp) {
        let i = choose|i: int|
            #[trigger] crate::text::stands_at(sdp, mark, i) && (i == 0 || sdp[i - 1] == '\n');
        let before = sdp.take(i);
        let rest = sdp.skip(i + mark.len());
        assert(sdp =~= before + mark + rest);
    }
    if exists|before: Seq<char>, rest: Seq<char>|
        sdp == #[trigger] (before + mark + rest) && (before.len() == 0 || before.last() == '\n') {
        let (before, rest) = choose|before: Seq<char>, rest: Seq<char>|
            sdp == #[trigger] (before + mark + rest) && (before.len() == 0 || before.last()
                == '\n');
        let i = before.len() as int;
        assert(sdp.subrange(i, i + mark.len()) =~= mark);
        assert(crate::text::stands_at(sdp, mark, i));
    }
}

/// More lines take no candidate away, wherever they are added.
pub proof fn more_lines_keep_candidates(before: Seq<char>, sdp: Seq<char>, after: Seq<char>)
    requires
        has_candidate(sdp),
    ensures
        has_candidate(sdp + after),
        has_candidate(before + "\n"@ + sdp),
{
    reveal_strlit("\n");
    candidate_stands_in_a_line(sdp);
    candidate_stands_in_a_line(sdp + after);
    candidate_stands_in_a_line(before + "\n"@ + sdp);
    let mark = "a=candidate:"@;
    let (b, rest) = choose|b: Seq<char>, rest: Seq<char>|
        sdp == #[trigger] (b + mark + rest) && (b.len() == 0 || b.last() == '\n');
    assert(sdp + after =~= b + mark + (rest + after));
    let front = before + "\n"@ + b;
    assert(before + "\n"@ + sdp =~= front + mark + rest);
    assert(front.last() == '\n');
}

/// Tells whether a session description names an ICE candidate.
pub fn sdp_has_candidate(sdp: &str) -> (r: bool)
    ensures
        r == has_candidate(sdp@),
        r <==> exists|before: Seq<char>, rest: Seq<char>|
            sdp@ == #[trigger] (before + "a=candidate:"@ + rest) && (before.len() == 0
                || before.last() == '\n'),
{
    proof {
        reveal_strlit("a=candidate:");
        candidate_stands_in_a_line(sdp@);
    }
    has_line_with_prefix(sdp, "a=candidate:")
}

/// What `RTCSessionDescription::answer` says against a session description;
/// nothing where it takes it.
pub uninterp spec fn answer_fault(sdp: Seq<char>) -> Option<Seq<char>>;

/// What `RTCSessionDescription::offer` says against a session description;
/// nothing where it takes it.
pub uninterp spec fn offer_fault(sdp: Seq<char>) -> Option<Seq<char>>;

/// `RTCSessionDescription::answer`: whether the text parses as a session
/// description, and the words of the error where it does not. Both depend on the
/// text alone.
#[verifier::external_body]
pub(crate) fn check_answer(sdp: &str) -> (r: Result<(), String>)
    ensures
        match r {
            Ok(_) => answer_fault(sdp@) is None,
            Err(e) => answer_fault(sdp@) == Some(e@),
        },
{
    match RTCSessionDescription::answer(sdp.to_string()) {
        Ok(_) => Ok(()),
        Err(e) => Err(e.to_string()),
    }
}

/// `RTCSessionDescription::offer`: whether the text parses as a session
/// description, and the words of the error where it does not. Both depend on the
/// text alone.
#[verifier::external_body]
pub(crate) fn check_offer(sdp: &str) -> (r: Result<(), String>)
    ensures
        match r {
            Ok(_) => offer_fault(sdp@) is None,
            Err(e) => offer_fault(sdp@) == Some(e@),
        },
{
    match RTCSessionDescription::offer(sdp.to_string()) {
        Ok(_) => Ok(()),
        Err(e) => Err(e.to_string()),
    }
}

/// A kind of network that candidates may be gathered on.
#[derive(Debug, Clone, Copy, PartialEq, Eq, Structural)]
pub enum NetworkType {
    Udp4,
    Udp6,
    Tcp4,
    Tcp6,
}

/// The part that a peer plays in the DTLS handshake.
#[derive(Debug, Clone, Copy, PartialEq, Eq, Structural)]
pub enum DtlsRole {
    Auto,
    Client,
    Server,
}

/// How a peer connection is set up.
#[derive(Debug, Clone)]
pub struct Session {
    /// The URLs of each ICE server.
    pub ice_servers: Vec<Vec<String>>,
    pub include_loopback_candidate: bool,
    pub network_types: Vec<NetworkType>,
    /// The role that is asked for when answering; nothing where the default
    /// stays.
    pub answering_dtls_role: Option<DtlsRole>,
    pub stun_servers: Vec<String>,
}

/// Whether a connection is set up for some STUN servers. Each is an ICE server of
/// its own; loopback candidates are gathered, so that two sides on one machine
/// find each other, and only on IPv4 over UDP. The side that offers takes the
/// server's part in the handshake, the part that browsers leave to it.
pub open spec fn set_up_for(s: Session, stun_servers: Seq<String>, is_offerer: bool) -> bool {
    &&& s.stun_servers@ == stun_servers
    &&& s.ice_servers@.len() == stun_servers.len()
    &&& forall|i: int|
        0 <= i < stun_servers.len() ==> (#[trigger] s.ice_servers@[i])@ == seq![stun_servers[i]]
    &&& s.include_loopback_candidate
    &&& s.network_types@ == seq![NetworkType::Udp4]
    &&& s.answering_dtls_role == (if is_offerer {
        Some(DtlsRole::Server)
    } else {
        None
    })
}

impl Session {
    /// The set-up for some STUN servers.
    pub fn new(stun_servers: Vec<String>, is_offerer: bool) -> (r: Session)
        ensures
            set_up_for(r, stun_servers@, is_offerer),
            r.stun_servers == stun_servers,
            r.ice_servers@.len() == stun_servers@.len(),
            forall|i: int|
                0 <= i < stun_servers@.len() ==> (#[trigger] r.ice_servers@[i])@
                    == seq![stun_servers@[i]],
            r.include_loopback_candidate,
            r.network_types@ == seq![NetworkType::Udp4],
            is_offerer ==> r.answering_dtls_role == Some(DtlsRole::Server),
            !is_offerer ==> r.answering_dtls_role is None,
    {
        let mut ice_servers: Vec<Vec<String>> = Vec::new();
        let mut i: usize = 0;
        while i < stun_servers.len()
            invariant
                i <= stun_servers@.len(),
                ice_servers@.len() == i,
                forall|j: int|
                    0 <= j < i ==> (#[trigger] ice_servers@[j])@ == seq![stun_servers@[j]],
            decreases stun_servers@.len() - i,
        {
            let mut urls: Vec<String> = Vec::new();
            urls.push(stun_servers[i].clone());
            assert(urls@ =~= seq![stun_servers@[i as int]]);
            ice_servers.push(urls);
            i += 1;
        }
        let mut network_types: Vec<NetworkType> = Vec::new();
        network_types.push(NetworkType::Udp4);
        assert(network_types@ =~= seq![NetworkType::Udp4]);
        Session {
            ice_servers,
            include_loopback_candidate: true,
            network_types,
            answering_dtls_role: if is_offerer {
                Some(DtlsRole::Server)
            } else {
                None
            },
            stun_servers,
        }
    }
}

/// The states of a connection that something follows from.
#[derive(Debug, Clone, Copy, PartialEq, Eq, Structural)]
pub enum LinkState {
    Failed,
    Closed,
    Other,
}

/// What follows from a change of a connection: a warning to show, and an error
/// that ends the session.
#[derive(Debug, Clone)]
pub struct LinkReaction {
    pub warning: Option<String>,
    pub error: Option<String>,
}

/// Whether a reaction is to warn and to end the session in these words.
pub open spec fn reacts(r: LinkReaction, warning: Option<Seq<char>>, error: Option<Seq<char>>) -> bool {
    crate::serve::text_view(r.warning) == warning && crate::serve::text_view(r.error) == error
}

/// Decides what follows from a state of the ICE connection.
pub fn on_ice_state(state: LinkState) -> (r: LinkReaction)
    ensures
        if state == LinkState::Failed {
            reacts(r, Some("[warn] ICE connection state failed: failed"@), None)
        } else {
            reacts(r, None, None)
        },
        r.warning is Some <==> state == LinkState::Failed,
        r.error is None,
{
    if state == LinkState::Failed {
        LinkReaction {
            warning: Some("[warn] ICE connection state failed: failed".to_string()),
            error: None,
        }
    } else {
        LinkReaction { warning: None, error: None }
    }
}

/// Decides what follows from a state of the DTLS transport.
pub fn on_dtls_state(state: LinkState) -> (r: LinkReaction)
    ensures
        if state == LinkState::Failed {
            reacts(
                r,
                Some("[warn] DTLS transport state failed: failed"@),
                Some("DTLS handshake failed, state: failed"@),
            )
        } else {
            reacts(r, None, None)
        },
        r.warning is Some <==> state == LinkState::Failed,
        r.error is Some <==> state == LinkState::Failed,
{
    if state == LinkState::Failed {
        LinkReaction {
            warning: Some("[warn] DTLS transport state failed: failed".to_string()),
            error: Some("DTLS handshake failed, state: failed".to_string()),
        }
    } else {
        LinkReaction { warning: None, error: None }
    }
}

/// Decides what follows from an error of the SCTP transport.
pub fn on_sctp_error(err: &str) -> (r: LinkReaction)
    ensures
        reacts(
            r,
            Some("[warn] "@ + ("SCTP transport error: "@ + err@)),
            Some("SCTP transport error: "@ + err@),
        ),
        r.error matches Some(e) && e@ == "SCTP transport error: "@ + err@,
        r.warning matches Some(w) && r.error matches Some(e) && w@ == "[warn] "@ + e@,
{
    let mut error = "SCTP transport error: ".to_string();
    error.append(err);
    let mut warning = "[warn] ".to_string();
    warning.append(error.as_str());
    LinkReaction { warning: Some(warning), error: Some(error) }
}

/// Decides whether a state of the peer connection ends a shared terminal, and in
/// what words.
pub fn on_peer_state(state: LinkState) -> (r: Option<String>)
    ensures
        crate::serve::text_view(r) == (if state == LinkState::Failed {
            Some(
                "PeerConnection entered the failed state (usually DTLS/SCTP handshake failure)."@,
            )
        } else {
            None
        }),
        r is Some <==> state == LinkState::Failed,
{
    if state == LinkState::Failed {
        Some(
            "PeerConnection entered the failed state (usually DTLS/SCTP handshake failure).".to_string(),
        )
    } else {
        None
    }
}

/// Decides whether a state of the peer connection ends a session with a browser,
/// and in what words.
pub fn on_browser_peer_state(id: &str, state: LinkState) -> (r: Option<String>)
    ensures
        crate::serve::text_view(r) == (match state {
            LinkState::Failed => Some("session "@ + id@ + " peer state changed to "@ + "failed"@),
            LinkState::Closed => Some("session "@ + id@ + " peer state changed to "@ + "closed"@),
            LinkState::Other => None,
        }),
        r is None <==> state == LinkState::Other,
{
    let mut text = "session ".to_string();
    text.append(id);
    text.append(" peer state changed to ");
    match state {
        LinkState::Failed => {
            text.append("failed");
            Some(text)
        },
        LinkState::Closed => {
            text.append("closed");
            Some(text)
        },
        LinkState::Other => None,
    }
}

} // verus!
