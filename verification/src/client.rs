//! The side that joins a terminal: it reads the host's connection string and
//! answers it.

use crate::sdp::{SdpError, SdpFault, SdpView, SessionDescription};
use crate::session::{check_offer, sdp_has_candidate, Session};
use vstd::prelude::*;
use vstd::string::*;

verus! {

/// Why a client cannot join.
#[derive(Debug, Clone)]
pub enum ClientError {
    Sdp(SdpError),
    /// The offer names no candidate.
    OfferCandidates,
    /// The offer does not parse, and what is wrong with it.
    OfferText(String),
    /// The answer names no candidate.
    AnswerCandidates,
}

impl ClientError {
    /// What the error says.
    pub open spec fn spec_message(self) -> Seq<char> {
        match self {
            ClientError::Sdp(e) => e.spec_message(),
            ClientError::OfferCandidates =>
                "The Host Offer contained no ICE candidates. Ask the host to check their network and generate a new Offer."@,
            ClientError::OfferText(e) => e@,
            ClientError::AnswerCandidates =>
                "No ICE candidates were gathered. Check your network/firewall and try again."@,
        }
    }

    pub fn message(&self) -> (r: String)
        ensures
            r@ == self.spec_message(),
    {
        match self {
            ClientError::Sdp(e) => e.message(),
            ClientError::OfferCandidates =>
                "The Host Offer contained no ICE candidates. Ask the host to check their network and generate a new Offer.".to_string(),
            ClientError::OfferText(e) => e.clone(),
            ClientError::AnswerCandidates =>
                "No ICE candidates were gathered. Check your network/firewall and try again.".to_string(),
        }
    }
}

/// A client that is to join with a connection string.
#[derive(Debug, Clone)]
pub struct ClientSession {
    pub session: Session,
    pub offer_string: String,
}

/// Why an offer cannot be used, once it can be read: it names no candidate, or
/// does not parse.
pub ghost enum OfferFault {
    NoCandidates,
    Text(Seq<char>),
}

/// What stands against the text of an offer.
pub open spec fn offer_text_fault(sdp: Seq<char>) -> Option<OfferFault> {
    if !crate::session::has_candidate(sdp) {
        Some(OfferFault::NoCandidates)
    } else {
        match crate::session::offer_fault(sdp) {
            Some(e) => Some(OfferFault::Text(e)),
            None => None,
        }
    }
}

/// Whether an error is about a fault of an offer.
pub open spec fn reports(e: ClientError, fault: OfferFault) -> bool {
    match fault {
        OfferFault::NoCandidates => e is OfferCandidates,
        OfferFault::Text(t) => e matches ClientError::OfferText(s) && s@ == t,
    }
}

/// Whether `r` is what becomes of an offer with this text.
pub open spec fn offer_checked(sdp: Seq<char>, r: Result<SessionDescription, ClientError>) -> bool {
    match (offer_text_fault(sdp), r) {
        (None, Ok(sd)) => sd.sdp@ == sdp,
        (Some(fault), Err(e)) => reports(e, fault),
        _ => false,
    }
}

/// Whether `r` is what becomes of the offer that a connection string held: it is
/// decrypted where it brings a key, and then checked.
pub open spec fn offer_unlocked(v: SdpView, r: Result<SessionDescription, ClientError>) -> bool {
    if v.key.len() == 0 {
        &&& offer_checked(v.sdp, r)
        &&& r matches Ok(sd) ==> sd@ == v
    } else {
        match crate::sdp::decryption(v) {
            Err(e) => r matches Err(ClientError::Sdp(said)) && said@ == e,
            Ok(w) => {
                &&& offer_checked(w.sdp, r)
                &&& r matches Ok(sd) ==> sd@ == w
            },
        }
    }
}

/// Whether the cipher can take the key and the nonce that a description brings,
/// if it brings a key.
pub open spec fn can_lock(v: SdpView) -> bool {
    v.key.len() > 0 ==> crate::sdp::fits_together(v.key, v.nonce)
}

/// Whether the text of a description can be given to the cipher, where it is
/// encrypted at all: the cipher can take the key and the nonce, or is not
/// reached because the text is no hexadecimal.
pub open spec fn can_unlock(v: SdpView) -> bool {
    crate::codec::hex_bytes(v.sdp) is Some ==> can_lock(v)
}

/// Takes an offer with candidates, given what the parser said of it.
pub fn take_offer(offer: SessionDescription, parsed: Result<(), String>) -> (r: Result<
    SessionDescription,
    ClientError,
>)
    ensures
        match (parsed, r) {
            (Ok(_), Ok(sd)) => sd == offer,
            (Err(e), Err(ClientError::OfferText(said))) => said == e,
            _ => false,
        },
{
    match parsed {
        Ok(_) => Ok(offer),
        Err(e) => Err(ClientError::OfferText(e)),
    }
}

/// Decrypts an offer that brings a key, and checks it.
pub fn unlock_offer(offer: SessionDescription) -> (r: Result<SessionDescription, ClientError>)
    requires
        can_unlock(offer@),
    ensures
        offer_unlocked(offer@, r),
        forall|text: Seq<char>|
            offer.key@.len() > 0 && crate::sdp::cipher_ready(offer.key@, offer.nonce@)
                && crate::sdp::fits_cipher(text) && offer.sdp@ == #[trigger] crate::sdp::encrypted(
                offer.key@,
                offer.nonce@,
                text,
            ) ==> offer_checked(text, r) && (r matches Ok(sd) ==> sd@ == (SdpView {
                sdp: text,
                ..offer@
            })),
{
    let mut offer = offer;
    if !offer.key.as_str().is_empty() {
        match offer.decrypt() {
            Err(e) => return Err(ClientError::Sdp(e)),
            Ok(_) => {},
        }
    }
    if !sdp_has_candidate(offer.sdp.as_str()) {
        return Err(ClientError::OfferCandidates);
    }
    let parsed = check_offer(offer.sdp.as_str());
    take_offer(offer, parsed)
}

impl ClientSession {
    /// A client for a connection string.
    pub fn new(offer_string: String, stun_servers: Vec<String>) -> (r: ClientSession)
        ensures
            r.offer_string == offer_string,
            crate::session::set_up_for(r.session, stun_servers@, false),
            r.session.stun_servers == stun_servers,
            r.session.answering_dtls_role is None,
    {
        ClientSession { session: Session::new(stun_servers, false), offer_string }
    }

    /// Reads the host's offer. Nothing comes out where its text would be given to
    /// the cipher with a nonce that the cipher cannot take. An offer that a host wrote is
    /// read as it was meant, encrypted or not.
    pub fn open_offer(&self) -> (r: Result<Option<SessionDescription>, ClientError>)
        ensures
            match crate::sdp::read_connection_string(self.offer_string@) {
                Err(e) => r matches Err(ClientError::Sdp(said)) && said@ == e,
                Ok(v) => if can_unlock(v) {
                    match r {
                        Ok(Some(sd)) => offer_unlocked(v, Ok(sd)),
                        Ok(None) => false,
                        Err(e) => offer_unlocked(v, Err(e)),
                    }
                } else {
                    r matches Ok(None)
                },
            },
            r matches Ok(Some(sd)) ==> can_lock(sd@),
            r matches Ok(None) ==> (crate::sdp::read_connection_string(self.offer_string@) matches Ok(
                v,
            ) && (crate::codec::hex_bytes(v.key) matches Some(key) && key.len() == 32) && (
            crate::codec::hex_bytes(v.nonce) matches Some(nonce) && nonce.len() != 12)),
            (r matches Err(ClientError::Sdp(e)) && e is OuterBase58)
                <==> !crate::base58::all_base58(self.offer_string@),
            r matches Ok(Some(sd)) ==> crate::session::has_candidate(sd.sdp@)
                && crate::session::offer_fault(sd.sdp@) is None,
            forall|v: SdpView|
                #![trigger crate::sdp::written(v, self.offer_string@)]
                v.key.len() == 0 && crate::sdp::written(v, self.offer_string@) ==> {
                    &&& crate::session::has_candidate(v.sdp) && crate::session::offer_fault(v.sdp) is None ==> (r
                        matches Ok(Some(sd)) && sd@ == v)
                    &&& (r is Err && r->Err_0 is OfferCandidates) <==> !crate::session::has_candidate(v.sdp)
                    &&& crate::session::has_candidate(v.sdp) && crate::session::offer_fault(v.sdp) is Some ==> (r
                        matches Err(ClientError::OfferText(said)) && crate::session::offer_fault(v.sdp) == Some(
                        said@,
                    ))
                    &&& match r {
                        Ok(Some(sd)) => offer_checked(v.sdp, Ok(sd)) && sd@ == v,
                        Ok(None) => false,
                        Err(e) => offer_checked(v.sdp, Err(e)),
                    }
                },
            forall|v: SdpView, text: Seq<char>|
                #![trigger crate::sdp::written(v, self.offer_string@), crate::sdp::encrypted(v.key, v.nonce, text)]
                v.key.len() > 0 && crate::sdp::written(v, self.offer_string@)
                    && crate::sdp::cipher_ready(v.key, v.nonce) && crate::sdp::fits_cipher(text)
                    && v.sdp == crate::sdp::encrypted(v.key, v.nonce, text) ==> {
                    &&& crate::session::has_candidate(text) && crate::session::offer_fault(text) is None ==> (r
                        matches Ok(Some(sd)) && sd@ == (SdpView { sdp: text, ..v }))
                    &&& (r is Err && r->Err_0 is OfferCandidates) <==> !crate::session::has_candidate(text)
                    &&& crate::session::has_candidate(text) && crate::session::offer_fault(text) is Some ==> (r
                        matches Err(ClientError::OfferText(said)) && crate::session::offer_fault(text) == Some(
                        said@,
                    ))
                    &&& match r {
                        Ok(Some(sd)) => offer_checked(text, Ok(sd)) && sd@ == (SdpView {
                            sdp: text,
                            ..v
                        }),
                        Ok(None) => false,
                        Err(e) => offer_checked(text, Err(e)),
                    }
                },
    {
        let offer = match SessionDescription::decode(self.offer_string.as_str()) {
            Err(e) => return Err(ClientError::Sdp(e)),
            Ok(sd) => sd,
        };
        if !offer.key.as_str().is_empty() && !offer.check_ciphertext() {
            return Ok(None);
        }
        match unlock_offer(offer) {
            Ok(sd) => Ok(Some(sd)),
            Err(e) => Err(e),
        }
    }
}

/// The answer to an offer before it is encrypted: the client's own description,
/// with the offer's key and nonce.
pub open spec fn plain_answer(offer: SdpView, local_sdp: Seq<char>) -> SdpView {
    SdpView {
        sdp: local_sdp,
        ten_kb_site_loc: Seq::empty(),
        key: offer.key,
        nonce: offer.nonce,
    }
}

/// The answer to an offer: encrypted where the offer brings a key, and then
/// without the key and the nonce, which the host knows.
pub open spec fn answer_to(offer: SdpView, local_sdp: Seq<char>) -> Result<SdpView, SdpFault> {
    let plain = plain_answer(offer, local_sdp);
    if offer.key.len() == 0 {
        Ok(plain)
    } else {
        match crate::sdp::encryption(plain) {
            Err(e) => Err(e),
            Ok(v) => Ok(SdpView { key: Seq::empty(), nonce: Seq::empty(), ..v }),
        }
    }
}

/// Writes the answer to an offer.
pub fn create_answer(offer: &SessionDescription, local_sdp: String) -> (r: Result<
    SessionDescription,
    ClientError,
>)
    requires
        can_lock(offer@),
    ensures
        match r {
            Ok(sd) => crate::session::has_candidate(local_sdp@) && answer_to(offer@, local_sdp@)
                == Ok::<_, SdpFault>(sd@),
            Err(ClientError::AnswerCandidates) => !crate::session::has_candidate(local_sdp@),
            Err(ClientError::Sdp(e)) => crate::session::has_candidate(local_sdp@) && answer_to(
                offer@,
                local_sdp@,
            ) == Err::<SdpView, _>(e@),
            Err(_) => false,
        },
        (r is Err && r->Err_0 is AnswerCandidates) <==> !crate::session::has_candidate(local_sdp@),
        crate::session::has_candidate(local_sdp@) && offer.key@.len() == 0 ==> (r matches Ok(sd)
            && sd.sdp@ == local_sdp@ && sd.ten_kb_site_loc@.len() == 0 && sd.key@.len() == 0
            && sd.nonce@ == offer.nonce@),
        crate::session::has_candidate(local_sdp@) && offer.key@.len() > 0
            && crate::sdp::cipher_ready(offer.key@, offer.nonce@) && vstd::utf8::encode_utf8(
            local_sdp@,
        ).len() <= crate::codec::MAX_PLAIN_LEN ==> (r matches Ok(sd) && sd.sdp@
            == crate::sdp::encrypted(offer.key@, offer.nonce@, local_sdp@)
            && sd.ten_kb_site_loc@.len() == 0 && sd.key@.len() == 0 && sd.nonce@.len() == 0),
{
    let mut answer = SessionDescription {
        sdp: local_sdp,
        ten_kb_site_loc: String::new(),
        key: offer.key.clone(),
        nonce: offer.nonce.clone(),
    };
    assert(answer@ =~= plain_answer(offer@, local_sdp@));
    if !sdp_has_candidate(answer.sdp.as_str()) {
        return Err(ClientError::AnswerCandidates);
    }
    if !offer.key.as_str().is_empty() {
        match answer.encrypt() {
            Err(e) => return Err(ClientError::Sdp(e)),
            Ok(_) => {},
        }
        let ghost sealed = answer@;
        answer.key = String::new();
        answer.nonce = String::new();
        assert(answer@ =~= (SdpView { key: Seq::empty(), nonce: Seq::empty(), ..sealed }));
    }
    Ok(answer)
}

/// The connection string of an answer, and where it goes.
#[derive(Debug, Clone)]
pub struct ClientReply {
    pub encoded: String,
    /// The place at the relay that the host watches; nothing where the answer is
    /// shown for somebody to carry over.
    pub upload_to: Option<String>,
}

/// Answers an offer.
pub fn reply_to_offer(offer: &SessionDescription, local_sdp: String) -> (r: Result<
    ClientReply,
    ClientError,
>)
    requires
        can_lock(offer@),
    ensures
        match r {
            Ok(reply) => {
                &&& crate::session::has_candidate(local_sdp@)
                &&& answer_to(offer@, local_sdp@) matches Ok(v)
                &&& crate::sdp::written(v, reply.encoded@)
                &&& reply.encoded@.len() > 0
                &&& crate::base58::all_base58(reply.encoded@)
                &&& crate::text::is_solid(reply.encoded@)
                &&& crate::serve::text_view(reply.upload_to) == (if offer.ten_kb_site_loc@.len()
                    == 0 {
                    None
                } else {
                    Some(offer.ten_kb_site_loc@)
                })
            },
            Err(ClientError::AnswerCandidates) => !crate::session::has_candidate(local_sdp@),
            Err(ClientError::Sdp(e)) => crate::session::has_candidate(local_sdp@) && answer_to(
                offer@,
                local_sdp@,
            ) == Err::<SdpView, _>(e@),
            Err(_) => false,
        },
        (r is Err && r->Err_0 is AnswerCandidates) <==> !crate::session::has_candidate(local_sdp@),
        crate::session::has_candidate(local_sdp@) && (offer.key@.len() == 0 || (
        crate::sdp::cipher_ready(offer.key@, offer.nonce@) && vstd::utf8::encode_utf8(
            local_sdp@,
        ).len() <= crate::codec::MAX_PLAIN_LEN)) ==> r is Ok,
        r matches Ok(reply) ==> (reply.upload_to is Some <==> offer.ten_kb_site_loc@.len() > 0),
        r matches Ok(reply) ==> (reply.upload_to matches Some(at) ==> at@
            == offer.ten_kb_site_loc@),
{
    let answer = match create_answer(offer, local_sdp) {
        Err(e) => return Err(e),
        Ok(sd) => sd,
    };
    let encoded = match answer.encode() {
        Err(e) => return Err(ClientError::Sdp(e)),
        Ok(s) => s,
    };
    let upload_to = if offer.ten_kb_site_loc.as_str().is_empty() {
        None
    } else {
        Some(offer.ten_kb_site_loc.clone())
    };
    Ok(ClientReply { encoded, upload_to })
}

} // verus!
