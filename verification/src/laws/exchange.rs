//! A host and a client find each other.

use crate::client::{reply_to_offer, ClientError, ClientReply, ClientSession};
use crate::host::{check_answer_text, offer_link, HostError, HostSession};
use crate::sdp::{SdpError, SdpView, SessionDescription};
use crate::session::{DtlsRole, NetworkType};
use crate::ten_kb_site::{create_10kb_file, poll_for_response, upload_url, PollStep};
use vstd::prelude::*;
use vstd::string::*;
use vstd::utf8::*;

verus! {

/// A connection string is read back as the description that it was written for.
pub proof fn connection_string_is_read_back(
    sd: SessionDescription,
    encoded: Result<String, SdpError>,
    input: &str,
    decoded: Result<SessionDescription, SdpError>,
)
    requires
        call_ensures(SessionDescription::encode, (&sd,), encoded),
        encoded is Ok ==> input@ == encoded->Ok_0@,
        call_ensures(SessionDescription::decode, (input,), decoded),
    ensures
        encoded is Ok,
        decoded matches Ok(back) && back.sdp@ == sd.sdp@ && back.ten_kb_site_loc@
            == sd.ten_kb_site_loc@ && back.key@ == sd.key@ && back.nonce@ == sd.nonce@,
{
}

/// The JSON in a connection string may be an object that another program wrote, or
/// an array of the texts by position. What it holds is found either way.
pub proof fn any_layout_is_read(
    input: &str,
    bytes: Seq<u8>,
    texts: Seq<Option<Seq<char>>>,
    compressed: Seq<u8>,
    v: SdpView,
    r: Result<SessionDescription, SdpError>,
)
    requires
        input@ == crate::base58::base58_text(bytes),
        crate::json::is_json(bytes),
        ({
            let w = crate::json::walk(crate::json::walk_start(), bytes);
            &&& texts == crate::sdp::part_texts(w.parts)
            &&& w.first == 123 ==> {
                &&& texts.len() % 2 == 0
                &&& forall|i: int| 0 <= i < texts.len() / 2 ==> #[trigger] texts[2 * i] is Some
                &&& exists|i: int| #[trigger]
                    crate::sdp::only_member(
                        texts,
                        "sdp"@,
                        texts.len() / 2,
                        i,
                        crate::base58::base58_text(compressed),
                    )
                &&& crate::sdp::found_or_empty(texts, "ten_kb_site_loc"@, v.ten_kb_site_loc)
                &&& crate::sdp::found_or_empty(texts, "key"@, v.key)
                &&& crate::sdp::found_or_empty(texts, "nonce"@, v.nonce)
            }
            &&& w.first == 91 ==> {
                &&& texts.len() == 4
                &&& texts[0] == Some(crate::base58::base58_text(compressed))
                &&& texts[1] == Some(v.ten_kb_site_loc)
                &&& texts[2] == Some(v.key)
                &&& texts[3] == Some(v.nonce)
            }
            &&& w.first == 123 || w.first == 91
        }),
        crate::codec::zlib_text(compressed) == Ok::<_, Seq<char>>(v.sdp),
        call_ensures(SessionDescription::decode, (input,), r),
    ensures
        r matches Ok(sd) && sd@ == v,
{
    let p = SdpView { sdp: crate::base58::base58_text(compressed), ..v };
    let w = crate::json::walk(crate::json::walk_start(), bytes);
    crate::base58::base58_reads_back(bytes);
    crate::base58::base58_reads_back(compressed);
    if w.first == 123 {
        let i = choose|i: int| #[trigger]
            crate::sdp::only_member(
                texts,
                "sdp"@,
                texts.len() / 2,
                i,
                crate::base58::base58_text(compressed),
            );
        assert(crate::sdp::only_member(texts, "sdp"@, texts.len() / 2, i, p.sdp));
        crate::sdp::object_is_read_by_names(texts, p);
    } else {
        assert(crate::sdp::array_fields(texts) == Some(p));
    }
}

/// An offer that a host makes is opened by the client that gets its connection
/// string, encrypted or not: the client finds the host's own description, what
/// it needs to answer in the same way, and where to leave the answer.
pub proof fn offer_reaches_the_client(
    host: &HostSession,
    host_sdp: String,
    made: Result<SessionDescription, HostError>,
    client: &ClientSession,
    opened: Result<Option<SessionDescription>, ClientError>,
)
    requires
        crate::session::has_candidate(host_sdp@),
        crate::session::offer_fault(host_sdp@) is None,
        encode_utf8(host_sdp@).len() <= crate::codec::MAX_PLAIN_LEN,
        call_ensures(HostSession::create_offer, (host, host_sdp), made),
        made matches Ok(offer) ==> call_ensures(
            SessionDescription::encode,
            (&offer,),
            Ok(client.offer_string),
        ),
        call_ensures(ClientSession::open_offer, (client,), opened),
    ensures
        made is Ok,
        opened matches Ok(Some(found)) && found.sdp@ == host_sdp@ && found.key@
            == made->Ok_0.key@ && found.nonce@ == made->Ok_0.nonce@ && found.ten_kb_site_loc@
            == made->Ok_0.ten_kb_site_loc@,
        host.one_way <==> made->Ok_0.key@.len() > 0,
        host.one_way <==> made->Ok_0.ten_kb_site_loc@.len() > 0,
{
    let offer = made->Ok_0;
    assert(crate::sdp::written(offer@, client.offer_string@));
    if host.one_way {
        assert(crate::sdp::cipher_ready(offer.key@, offer.nonce@));
        assert(offer@.sdp == crate::sdp::encrypted(offer@.key, offer@.nonce, host_sdp@));
    }
}

/// The reply that a client writes to a host's offer is accepted by the host, and
/// gives the client's own description, encrypted or not. Where somebody types the
/// reply in, white space around it does no harm.
pub proof fn answer_reaches_the_host(
    host: &HostSession,
    host_sdp: String,
    offer: SessionDescription,
    found: SessionDescription,
    client_sdp: String,
    replied: Result<ClientReply, ClientError>,
    before: Seq<char>,
    after: Seq<char>,
    input: &str,
    accepted: Result<Option<String>, HostError>,
)
    requires
        call_ensures(HostSession::create_offer, (host, host_sdp), Ok(offer)),
        found.key@ == offer.key@,
        found.nonce@ == offer.nonce@,
        found.ten_kb_site_loc@ == offer.ten_kb_site_loc@,
        crate::session::has_candidate(client_sdp@),
        crate::session::answer_fault(client_sdp@) is None,
        encode_utf8(client_sdp@).len() <= crate::codec::MAX_PLAIN_LEN,
        call_ensures(reply_to_offer, (&found, client_sdp), replied),
        crate::text::is_blank(before),
        crate::text::is_blank(after),
        host.one_way ==> before.len() == 0 && after.len() == 0,
        replied is Ok ==> input@ == before + replied->Ok_0.encoded@ + after,
        call_ensures(HostSession::accept_answer, (host, &offer, input), accepted),
    ensures
        replied is Ok,
        accepted matches Ok(Some(sdp)) && sdp@ == client_sdp@,
        host.one_way ==> (replied->Ok_0.upload_to matches Some(at) && at@
            == offer.ten_kb_site_loc@),
        !host.one_way ==> replied->Ok_0.upload_to is None,
{
    let reply = replied->Ok_0;
    let v = crate::client::answer_to(found@, client_sdp@)->Ok_0;
    assert(crate::sdp::written(v, reply.encoded@));
    if host.one_way {
        assert(offer.key@.len() > 0);
        assert(input@ =~= reply.encoded@);
        assert(v.sdp == crate::sdp::encrypted(offer.key@, offer.nonce@, client_sdp@));
    } else {
        crate::text::trimmed_keeps_solid(before, reply.encoded@, after);
        assert(crate::sdp::written(v, crate::text::trimmed(input@)));
    }
}

/// A client tells a host that it names no candidate exactly where it does, and a
/// host refuses such a description of its own before anything is sent.
pub proof fn descriptions_without_candidates_are_refused(
    host: &HostSession,
    host_sdp: String,
    made: Result<SessionDescription, HostError>,
    found: SessionDescription,
    client_sdp: String,
    replied: Result<ClientReply, ClientError>,
)
    requires
        call_ensures(HostSession::create_offer, (host, host_sdp), made),
        call_ensures(reply_to_offer, (&found, client_sdp), replied),
    ensures
        (made is Err && made->Err_0 is OfferCandidates) <==> !crate::session::has_candidate(
            host_sdp@,
        ),
        (replied is Err && replied->Err_0 is AnswerCandidates)
            <==> !crate::session::has_candidate(client_sdp@),
{
}

/// The two sides of an exchange are set up alike, for one network and one list of
/// servers each; only the side that offers asks for a part in the handshake, that
/// of the server.
pub proof fn both_sides_are_set_up_alike(
    cmd: Vec<String>,
    non_interactive: bool,
    one_way: bool,
    stun_servers: Vec<String>,
    serve: Option<u16>,
    max_sessions: usize,
    offer_string: String,
    host: HostSession,
    client: ClientSession,
)
    requires
        call_ensures(
            HostSession::new,
            (cmd, non_interactive, one_way, stun_servers, serve, max_sessions),
            host,
        ),
        call_ensures(ClientSession::new, (offer_string, stun_servers), client),
    ensures
        host.cmd == cmd,
        host.one_way == one_way,
        host.non_interactive == non_interactive,
        client.offer_string == offer_string,
        host.session.stun_servers@ == stun_servers@,
        client.session.stun_servers@ == stun_servers@,
        host.session.ice_servers@.len() == stun_servers@.len(),
        client.session.ice_servers@.len() == stun_servers@.len(),
        forall|i: int|
            #![trigger stun_servers@[i]]
            0 <= i < stun_servers@.len() ==> host.session.ice_servers@[i]@ == seq![stun_servers@[i]]
                && client.session.ice_servers@[i]@ == seq![stun_servers@[i]],
        host.session.include_loopback_candidate && client.session.include_loopback_candidate,
        host.session.network_types@ == seq![NetworkType::Udp4],
        client.session.network_types@ == seq![NetworkType::Udp4],
        host.session.answering_dtls_role == Some(DtlsRole::Server),
        client.session.answering_dtls_role is None,
{
}

/// What a client leaves at the place that an offer names is what the host finds at
/// the link of the offer: both addresses end in that place.
pub proof fn relay_is_asked_for_what_was_left(
    offer: SessionDescription,
    found: SessionDescription,
    local_sdp: String,
    reply: ClientReply,
    at: &str,
    up: String,
    down: String,
)
    requires
        found.ten_kb_site_loc@ == offer.ten_kb_site_loc@,
        offer.ten_kb_site_loc@.len() > 0,
        call_ensures(reply_to_offer, (&found, local_sdp), Ok(reply)),
        reply.upload_to matches Some(loc) ==> at@ == loc@,
        call_ensures(upload_url, (at,), up),
        call_ensures(offer_link, (&offer,), down),
    ensures
        reply.upload_to is Some,
        up@ == "https://up.10kb.site/"@ + offer.ten_kb_site_loc@,
        down@ == "https://www.10kb.site/"@ + offer.ten_kb_site_loc@,
{
}

/// The relay's reply decides: a file was put where it says that it was created; a
/// file that is there is handed out as it is, one that is not there yet is waited
/// for, and on any other reply nothing more is tried.
pub proof fn relay_replies_decide(
    status: u16,
    status_text: &str,
    put_body: &str,
    put: Result<(), String>,
    body: String,
    step: PollStep,
)
    requires
        call_ensures(create_10kb_file, (status, put_body), put),
        call_ensures(poll_for_response, (status, status_text, body), step),
    ensures
        put is Ok <==> status == 201,
        put matches Err(e) ==> e@ == "10kb.site error: "@ + put_body@,
        status == 200 <==> step is Done,
        status == 404 <==> step is Wait,
        step matches PollStep::Done(s) ==> s == body,
        step matches PollStep::Failed(e) ==> e@ == "Unexpected 10kb.site status: "@ + status_text@,
{
}

/// What was encrypted is decrypted to the text that it was, under the same key and
/// nonce, and nothing else of the description changes on the way.
pub proof fn encrypted_text_is_found_again(
    plain: &mut SessionDescription,
    sealed: Result<(), SdpError>,
    cipher: &mut SessionDescription,
    opened: Result<(), SdpError>,
)
    requires
        crate::sdp::cipher_ready(old(plain).key@, old(plain).nonce@),
        encode_utf8(old(plain).sdp@).len() <= crate::codec::MAX_PLAIN_LEN,
        call_ensures(SessionDescription::encrypt, (plain,), sealed),
        *old(cipher) == *final(plain),
        call_ensures(SessionDescription::decrypt, (cipher,), opened),
    ensures
        sealed is Ok,
        opened is Ok,
        final(cipher)@ == old(plain)@,
        final(plain).sdp@.len() == 2 * (encode_utf8(old(plain).sdp@).len() + 16),
{
    assert(final(plain).sdp@ == crate::sdp::encrypted(
        old(plain).key@,
        old(plain).nonce@,
        old(plain).sdp@,
    ));
    assert(final(cipher)@ =~= old(plain)@);
}

/// The text of an answer that names a candidate and parses is taken as it is,
/// whatever else stands in it.
pub proof fn answer_with_a_candidate_is_taken(answer: String, r: Result<String, HostError>)
    requires
        call_ensures(check_answer_text, (answer,), r),
    ensures
        r is Ok <==> crate::session::has_candidate(answer@) && crate::session::answer_fault(
            answer@,
        ) is None,
        r matches Ok(s) ==> s@ == answer@,
        (r is Err && r->Err_0 is AnswerCandidates) <==> !crate::session::has_candidate(answer@),
        crate::session::has_candidate(answer@) ==> (crate::session::answer_fault(answer@) matches Some(
            fault,
        ) ==> (r matches Err(HostError::AnswerText(said)) && said@ == fault)),
{
}

/// A key and a nonce are ready for the cipher by nothing but their lengths: sixty-four
/// and twenty-four hexadecimal digits, in small letters or capitals.
pub proof fn keys_are_ready_by_their_length(key: Seq<char>, nonce: Seq<char>)
    ensures
        crate::sdp::cipher_ready(key, nonce) <==> {
            &&& key.len() == 64
            &&& nonce.len() == 24
            &&& forall|i: int|
                0 <= i < key.len() ==> crate::codec::hex_value(#[trigger] key[i]) is Some
            &&& forall|i: int|
                0 <= i < nonce.len() ==> crate::codec::hex_value(#[trigger] nonce[i]) is Some
        },
{
}

/// The keys that are drawn for a description are ready for the cipher, and the
/// description and where its answer is left stay as they are.
pub proof fn drawn_keys_are_ready(sd: &mut SessionDescription, r: Result<(), SdpError>)
    requires
        call_ensures(SessionDescription::gen_keys, (sd,), r),
    ensures
        r is Ok,
        final(sd).key@.len() == 64,
        final(sd).nonce@.len() == 24,
        crate::codec::hex_bytes(final(sd).key@) is Some,
        crate::codec::hex_bytes(final(sd).nonce@) is Some,
        final(sd).sdp@ == old(sd).sdp@,
        final(sd).ten_kb_site_loc@ == old(sd).ten_kb_site_loc@,
{
    keys_are_ready_by_their_length(final(sd).key@, final(sd).nonce@);
}

} // verus!
