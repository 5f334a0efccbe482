//! The side that shares its terminal: it offers a connection and takes the
//! answer.

use crate::config::ServeMode;
use crate::sdp::{SdpError, SdpFault, SdpView, SessionDescription};
use crate::serve::{ServeAuthRuntime, ServeLaunchOptions};
use crate::session::{check_answer, sdp_has_candidate, Session};
use crate::ten_kb_site::{download_url, rand_seq};
use crate::text::{copy_texts, trim};
use vstd::prelude::*;
use vstd::string::*;

verus! {

/// How many characters name the file of an answer.
pub const ANSWER_FILE_LEN: usize = 100;

/// Why a host cannot share its terminal.
#[derive(Debug, Clone)]
pub enum HostError {
    Sdp(SdpError),
    /// The offer names no candidate.
    OfferCandidates,
    /// The answer names no candidate.
    AnswerCandidates,
    /// The answer does not parse, and what is wrong with it.
    AnswerText(String),
}

impl HostError {
    /// What the error says.
    pub open spec fn spec_message(self) -> Seq<char> {
        match self {
            HostError::Sdp(e) => e.spec_message(),
            HostError::OfferCandidates =>
                "No ICE candidates were gathered. Check your network/firewall, or try localhost for same-machine testing."@,
            HostError::AnswerCandidates =>
                "The peer Answer contained no ICE candidates. Ensure the browser/client network is reachable and try again."@,
            HostError::AnswerText(e) => e@,
        }
    }

    pub fn message(&self) -> (r: String)
        ensures
            r@ == self.spec_message(),
    {
        match self {
            HostError::Sdp(e) => e.message(),
            HostError::OfferCandidates =>
                "No ICE candidates were gathered. Check your network/firewall, or try localhost for same-machine testing.".to_string(),
            HostError::AnswerCandidates =>
                "The peer Answer contained no ICE candidates. Ensure the browser/client network is reachable and try again.".to_string(),
            HostError::AnswerText(e) => e.clone(),
        }
    }
}

/// A host that is to share a terminal.
#[derive(Debug, Clone)]
pub struct HostSession {
    pub session: Session,
    pub cmd: Vec<String>,
    pub non_interactive: bool,
    /// Whether the answer comes back through the relay, so that nobody has to
    /// carry it over.
    pub one_way: bool,
    /// The port of a web server, where browsers are to join.
    pub serve: Option<u16>,
    pub max_sessions: usize,
}

/// Whether launch options are those of a server for this machine only.
pub open spec fn is_local_launch(
    o: ServeLaunchOptions,
    port: u16,
    cmd: Seq<String>,
    non_interactive: bool,
    stun_servers: Seq<String>,
    max_sessions: usize,
) -> bool {
    &&& o.host@ == "127.0.0.1"@
    &&& o.port == port
    &&& o.cmd@ == cmd
    &&& o.non_interactive == non_interactive
    &&& o.stun_servers@ == stun_servers
    &&& o.max_sessions == max_sessions
    &&& o.mode == ServeMode::Local
    &&& o.auth is NoAuth
}

/// A server for this machine only can be started where there is room for a
/// session and a STUN server.
pub proof fn local_launch_starts(o: ServeLaunchOptions, port: u16)
    requires
        is_local_launch(
            o,
            port,
            o.cmd@,
            o.non_interactive,
            o.stun_servers@,
            o.max_sessions,
        ),
    ensures
        crate::sessions::start_fault(o) is None <==> o.max_sessions > 0 && o.stun_servers@.len()
            > 0,
{
}

impl HostSession {
    /// A host for a command.
    pub fn new(
        cmd: Vec<String>,
        non_interactive: bool,
        one_way: bool,
        stun_servers: Vec<String>,
        serve: Option<u16>,
        max_sessions: usize,
    ) -> (r: HostSession)
        ensures
            r.cmd == cmd,
            r.non_interactive == non_interactive,
            r.one_way == one_way,
            r.serve == serve,
            r.max_sessions == max_sessions,
            crate::session::set_up_for(r.session, stun_servers@, true),
            r.session.stun_servers == stun_servers,
            r.session.answering_dtls_role == Some(crate::session::DtlsRole::Server),
    {
        HostSession {
            session: Session::new(stun_servers, true),
            cmd,
            non_interactive,
            one_way,
            serve,
            max_sessions,
        }
    }

    /// What the web server is started with, where the host is to run one.
    pub fn launch_options(&self) -> (r: Option<ServeLaunchOptions>)
        ensures
            match (self.serve, r) {
                (None, None) => true,
                (Some(port), Some(o)) => is_local_launch(
                    o,
                    port,
                    self.cmd@,
                    self.non_interactive,
                    self.session.stun_servers@,
                    self.max_sessions,
                ),
                _ => false,
            },
            r is Some <==> self.serve is Some,
            r matches Some(o) ==> {
                &&& o.host@ == "127.0.0.1"@
                &&& Some(o.port) == self.serve
                &&& o.cmd@ == self.cmd@
                &&& o.non_interactive == self.non_interactive
                &&& o.stun_servers@ == self.session.stun_servers@
                &&& o.max_sessions == self.max_sessions
                &&& o.mode == ServeMode::Local
                &&& o.auth is NoAuth
            },
    {
        match self.serve {
            None => None,
            Some(port) => Some(
                ServeLaunchOptions {
                    host: "127.0.0.1".to_string(),
                    port,
                    cmd: copy_texts(&self.cmd),
                    non_interactive: self.non_interactive,
                    stun_servers: copy_texts(&self.session.stun_servers),
                    max_sessions: self.max_sessions,
                    mode: ServeMode::Local,
                    auth: ServeAuthRuntime::NoAuth,
                },
            ),
        }
    }

    /// Whether an offer is one for this description: as it is, or encrypted
    /// under the key and the nonce that the offer brings, with the place of the
    /// file that the answer is to be left at.
    pub open spec fn offers(self, local_sdp: Seq<char>, offer: SdpView) -> bool {
        if self.one_way {
            &&& crate::sdp::cipher_ready(offer.key, offer.nonce)
            &&& crate::sdp::fits_cipher(local_sdp)
            &&& offer.sdp == crate::sdp::encrypted(offer.key, offer.nonce, local_sdp)
            &&& crate::ten_kb_site::is_file_name(offer.ten_kb_site_loc, ANSWER_FILE_LEN as nat)
        } else {
            offer == SdpView {
                sdp: local_sdp,
                ten_kb_site_loc: Seq::empty(),
                key: Seq::empty(),
                nonce: Seq::empty(),
            }
        }
    }

    /// Makes the offer of the host's description.
    pub fn create_offer(&self, local_sdp: String) -> (r: Result<SessionDescription, HostError>)
        ensures
            match r {
                Ok(sd) => crate::session::has_candidate(local_sdp@) && self.offers(
                    local_sdp@,
                    sd@,
                ),
                Err(HostError::OfferCandidates) => !crate::session::has_candidate(local_sdp@),
                Err(HostError::Sdp(e)) => {
                    &&& crate::session::has_candidate(local_sdp@)
                    &&& self.one_way
                    &&& !crate::sdp::fits_cipher(local_sdp@)
                    &&& e is Cipher
                },
                Err(_) => false,
            },
            !crate::session::has_candidate(local_sdp@) ==> (r matches Err(e)
                && e is OfferCandidates),
            crate::session::has_candidate(local_sdp@) && !self.one_way ==> (r matches Ok(sd)
                && sd.sdp@ == local_sdp@ && sd.ten_kb_site_loc@.len() == 0 && sd.key@.len() == 0
                && sd.nonce@.len() == 0),
            crate::session::has_candidate(local_sdp@) && self.one_way && vstd::utf8::encode_utf8(
                local_sdp@,
            ).len() <= crate::codec::MAX_PLAIN_LEN ==> (r matches Ok(sd)
                && crate::sdp::cipher_ready(sd.key@, sd.nonce@) && sd.sdp@ == crate::sdp::encrypted(
                sd.key@,
                sd.nonce@,
                local_sdp@,
            ) && sd.ten_kb_site_loc@.len() == 100),
    {
        if !sdp_has_candidate(local_sdp.as_str()) {
            return Err(HostError::OfferCandidates);
        }
        let mut sd = SessionDescription {
            sdp: local_sdp,
            ten_kb_site_loc: String::new(),
            key: String::new(),
            nonce: String::new(),
        };
        if self.one_way {
            match sd.gen_keys() {
                Err(e) => return Err(HostError::Sdp(e)),
                Ok(_) => {},
            }
            match sd.encrypt() {
                Err(e) => return Err(HostError::Sdp(e)),
                Ok(_) => {},
            }
            sd.ten_kb_site_loc = rand_seq(ANSWER_FILE_LEN);
        } else {
            assert(sd@ =~= (SdpView {
                sdp: local_sdp@,
                ten_kb_site_loc: Seq::empty(),
                key: Seq::empty(),
                nonce: Seq::empty(),
            }));
        }
        Ok(sd)
    }
}

/// What stands against the text of an answer: it names no candidate, or does not
/// parse.
pub ghost enum AnswerFault {
    NoCandidates,
    Text(Seq<char>),
}

/// What stands against the text of an answer.
pub open spec fn answer_text_fault(sdp: Seq<char>) -> Option<AnswerFault> {
    if !crate::session::has_candidate(sdp) {
        Some(AnswerFault::NoCandidates)
    } else {
        match crate::session::answer_fault(sdp) {
            Some(e) => Some(AnswerFault::Text(e)),
            None => None,
        }
    }
}

/// Whether `r` is what becomes of an answer with this text.
pub open spec fn answer_checked(sdp: Seq<char>, r: Result<String, HostError>) -> bool {
    match (answer_text_fault(sdp), r) {
        (None, Ok(s)) => s@ == sdp,
        (Some(AnswerFault::NoCandidates), Err(HostError::AnswerCandidates)) => true,
        (Some(AnswerFault::Text(t)), Err(HostError::AnswerText(s))) => s@ == t,
        _ => false,
    }
}

/// Takes an answer with candidates, given what the parser said of it.
pub fn take_answer(answer: String, parsed: Result<(), String>) -> (r: Result<String, HostError>)
    ensures
        match (parsed, r) {
            (Ok(_), Ok(s)) => s == answer,
            (Err(e), Err(HostError::AnswerText(said))) => said == e,
            _ => false,
        },
{
    match parsed {
        Ok(_) => Ok(answer),
        Err(e) => Err(HostError::AnswerText(e)),
    }
}

/// Checks the text of an answer before it is applied to the connection. One that
/// names a candidate and parses is taken as it is.
pub fn check_answer_text(answer: String) -> (r: Result<String, HostError>)
    ensures
        answer_checked(answer@, r),
        r is Ok <==> crate::session::has_candidate(answer@) && crate::session::answer_fault(
            answer@,
        ) is None,
        r matches Ok(s) ==> s@ == answer@,
        (r is Err && r->Err_0 is AnswerCandidates) <==> !crate::session::has_candidate(answer@),
        crate::session::has_candidate(answer@) && r is Err ==> (r matches Err(
            HostError::AnswerText(said),
        ) && crate::session::answer_fault(answer@) == Some(said@)),
{
    if !sdp_has_candidate(answer.as_str()) {
        return Err(HostError::AnswerCandidates);
    }
    let parsed = check_answer(answer.as_str());
    take_answer(answer, parsed)
}

/// An answer with the key and the nonce of its offer.
pub open spec fn keyed_answer(offer: SdpView, answer: SdpView) -> SdpView {
    SdpView { key: offer.key, nonce: offer.nonce, ..answer }
}

/// Whether `r` is what becomes of the answer that a connection string held: one
/// that came through the relay is decrypted under the offer's key, and then it
/// is checked.
pub open spec fn answer_unlocked(
    one_way: bool,
    offer: SdpView,
    answer: SdpView,
    r: Result<String, HostError>,
) -> bool {
    if !one_way {
        answer_checked(answer.sdp, r)
    } else {
        match crate::sdp::decryption(keyed_answer(offer, answer)) {
            Err(e) => r matches Err(HostError::Sdp(said)) && said@ == e,
            Ok(v) => answer_checked(v.sdp, r),
        }
    }
}

impl HostSession {
    /// The connection string of an answer, as it comes in: without the white
    /// space around it where somebody typed it.
    pub open spec fn answer_string(self, input: Seq<char>) -> Seq<char> {
        if self.one_way {
            input
        } else {
            crate::text::trimmed(input)
        }
    }

    /// Whether the text of an answer can be given to the cipher, where it is
    /// encrypted at all: the cipher can take the offer's key and nonce, or is not
    /// reached because the text is no hexadecimal.
    pub open spec fn can_unlock_answer(self, offer: SdpView, answer: SdpView) -> bool {
        self.one_way && crate::codec::hex_bytes(answer.sdp) is Some ==> crate::sdp::fits_together(
            offer.key,
            offer.nonce,
        )
    }

    /// Decrypts an answer that came through the relay, and checks it.
    pub fn unlock_answer(&self, offer: &SessionDescription, answer: SessionDescription) -> (r:
        Result<String, HostError>)
        requires
            self.can_unlock_answer(offer@, answer@),
        ensures
            answer_unlocked(self.one_way, offer@, answer@, r),
            forall|text: Seq<char>|
                self.one_way && crate::sdp::cipher_ready(offer.key@, offer.nonce@)
                    && crate::sdp::fits_cipher(text) && answer.sdp@
                    == #[trigger] crate::sdp::encrypted(offer.key@, offer.nonce@, text)
                    ==> answer_checked(text, r),
    {
        if !self.one_way {
            return check_answer_text(answer.sdp);
        }
        let mut keyed = SessionDescription {
            sdp: answer.sdp,
            ten_kb_site_loc: answer.ten_kb_site_loc,
            key: offer.key.clone(),
            nonce: offer.nonce.clone(),
        };
        assert(keyed@ =~= keyed_answer(offer@, answer@));
        match keyed.decrypt() {
            Err(e) => return Err(HostError::Sdp(e)),
            Ok(_) => {},
        }
        check_answer_text(keyed.sdp)
    }

    /// Reads the answer to an offer of this host. Nothing comes out where its text
    /// would be given to the cipher with a nonce that the cipher cannot take, which
    /// no offer of this host brings. An answer that a client wrote to the offer is
    /// read as it was meant, encrypted or not.
    pub fn accept_answer(&self, offer: &SessionDescription, input: &str) -> (r: Result<
        Option<String>,
        HostError,
    >)
        ensures
            match crate::sdp::read_connection_string(self.answer_string(input@)) {
                Err(e) => r matches Err(HostError::Sdp(said)) && said@ == e,
                Ok(v) => if self.can_unlock_answer(offer@, v) {
                    given(r) matches Some(g) && answer_unlocked(self.one_way, offer@, v, g)
                } else {
                    r matches Ok(None)
                },
            },
            r matches Ok(None) ==> !offer.nonce_fits(),
            r matches Ok(None) ==> {
                &&& self.one_way
                &&& crate::codec::hex_bytes(offer.key@) matches Some(key) && key.len() == 32
                &&& crate::codec::hex_bytes(offer.nonce@) matches Some(nonce) && nonce.len() != 12
            },
            self.one_way ==> ((r matches Err(HostError::Sdp(e)) && e is OuterBase58)
                <==> !crate::base58::all_base58(input@)),
            !self.one_way ==> ((r matches Err(HostError::Sdp(e)) && e is OuterBase58)
                <==> !crate::base58::all_base58(crate::text::trimmed(input@))),
            r matches Ok(Some(s)) ==> crate::session::has_candidate(s@)
                && crate::session::answer_fault(s@) is None,
            forall|v: SdpView|
                #![trigger crate::sdp::written(v, crate::text::trimmed(input@))]
                !self.one_way && crate::sdp::written(v, crate::text::trimmed(input@)) ==> {
                    &&& given(r) matches Some(g) && answer_checked(v.sdp, g)
                    &&& crate::session::has_candidate(v.sdp) && crate::session::answer_fault(v.sdp) is None ==> (
                    r matches Ok(Some(s)) && s@ == v.sdp)
                    &&& (r is Err && r->Err_0 is AnswerCandidates) <==> !crate::session::has_candidate(v.sdp)
                    &&& crate::session::has_candidate(v.sdp) && crate::session::answer_fault(v.sdp) is Some ==> (
                    r matches Err(HostError::AnswerText(said)) && crate::session::answer_fault(v.sdp) == Some(said@))
                },
            forall|v: SdpView, text: Seq<char>|
                #![trigger crate::sdp::written(v, input@), crate::sdp::encrypted(offer.key@, offer.nonce@, text)]
                self.one_way && crate::sdp::written(v, input@)
                    && crate::sdp::cipher_ready(offer.key@, offer.nonce@)
                    && crate::sdp::fits_cipher(text) && v.sdp == crate::sdp::encrypted(
                    offer.key@,
                    offer.nonce@,
                    text,
                ) ==> {
                    &&& given(r) matches Some(g) && answer_checked(text, g)
                    &&& crate::session::has_candidate(text) && crate::session::answer_fault(text) is None ==> (
                    r matches Ok(Some(s)) && s@ == text)
                    &&& (r is Err && r->Err_0 is AnswerCandidates) <==> !crate::session::has_candidate(text)
                    &&& crate::session::has_candidate(text) && crate::session::answer_fault(text) is Some ==> (
                    r matches Err(HostError::AnswerText(said)) && crate::session::answer_fault(text) == Some(said@))
                },
    {
        let typed = if self.one_way {
            input.to_string()
        } else {
            trim(input)
        };
        let answer = match SessionDescription::decode(typed.as_str()) {
            Err(e) => return Err(HostError::Sdp(e)),
            Ok(sd) => sd,
        };
        if self.one_way {
            let keyed = SessionDescription {
                sdp: answer.sdp.clone(),
                ten_kb_site_loc: String::new(),
                key: offer.key.clone(),
                nonce: offer.nonce.clone(),
            };
            if !keyed.check_ciphertext() {
                return Ok(None);
            }
        }
        match self.unlock_answer(offer, answer) {
            Ok(sdp) => Ok(Some(sdp)),
            Err(e) => Err(e),
        }
    }
}

/// What came of an answer, where anything did.
pub open spec fn given(r: Result<Option<String>, HostError>) -> Option<Result<String, HostError>> {
    match r {
        Ok(Some(s)) => Some(Ok(s)),
        Ok(None) => None,
        Err(e) => Some(Err(e)),
    }
}

/// Where the peer finds the offer of a host whose answer comes through the
/// relay.
pub fn offer_link(offer: &SessionDescription) -> (r: String)
    ensures
        r@ == crate::ten_kb_site::TEN_KB_URL@ + offer.ten_kb_site_loc@,
{
    download_url(offer.ten_kb_site_loc.as_str())
}

/// What a client answers to an offer of a host is an answer of the form that the
/// host reads back: its text is the client's own description where nobody
/// encrypts, and that description under the offer's key and nonce where the
/// answer goes through the relay.
pub proof fn answer_has_the_form_that_the_host_reads(
    host: HostSession,
    host_sdp: Seq<char>,
    offer: SdpView,
    opened: SdpView,
    client_sdp: Seq<char>,
    answer: SdpView,
)
    requires
        host.offers(host_sdp, offer),
        opened.key == offer.key,
        opened.nonce == offer.nonce,
        crate::client::answer_to(opened, client_sdp) == Ok::<_, SdpFault>(answer),
    ensures
        !host.one_way ==> answer.sdp == client_sdp,
        host.one_way ==> {
            &&& crate::sdp::cipher_ready(offer.key, offer.nonce)
            &&& crate::sdp::fits_cipher(client_sdp)
            &&& answer.sdp == crate::sdp::encrypted(offer.key, offer.nonce, client_sdp)
            &&& answer.key.len() == 0
            &&& answer.nonce.len() == 0
        },
{
    if host.one_way {
        assert(offer.key.len() > 0);
    }
}

} // verus!
