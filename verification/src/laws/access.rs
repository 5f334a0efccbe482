//! Who may use a web server, and how it may be started.

use crate::config::{hash_password, verify_password, PasswordError, ServeMode};
use crate::host::HostSession;
use crate::page::index_page;
use crate::serve::{
    check_admin_token, check_public_auth, ensure_public_auth, read_header_value,
    validate_launch_options, LaunchError, Refusal, ServeAuthRuntime, ServeLaunchOptions, Status,
};
use crate::sessions::{start_server, ServeState};
use axum::http::{HeaderMap, HeaderValue};
use vstd::prelude::*;
use vstd::string::*;
use vstd::utf8::*;

verus! {

/// A visitor may use a server that asks nobody; one that asks for a PIN, with that
/// PIN; and one that asks for a password, with one whose check against the stored
/// form says yes.
pub proof fn visitors_are_let_in_by_their_secret(
    state: ServeState,
    headers: HeaderMap<HeaderValue>,
)
    ensures
        state.settings.auth is NoAuth ==> state.visitor_verdict(headers) is Ok,
        state.settings.auth matches ServeAuthRuntime::Pin(pin) ==> (state.visitor_verdict(
            headers,
        ) is Ok <==> crate::serve::header_text(headers, "x-bootty-auth"@) == Some(pin@)),
        state.settings.auth matches ServeAuthRuntime::PasswordHash(encoded) ==> (
        state.visitor_verdict(headers) is Ok <==> {
            &&& crate::serve::header_text(headers, "x-bootty-auth"@) matches Some(p)
            &&& crate::config::password_verdict(p, encoded@) == Ok::<bool, Seq<char>>(true)
        }),
{
}

/// A password fits a stored form exactly where its digest under the stored salt is
/// the stored one; and a form is only understood where it names the algorithm, a
/// salt and a digest.
pub proof fn password_is_held_against_the_stored_digest(
    password: &str,
    encoded: &str,
    salt: Seq<char>,
    digest: Seq<char>,
    r: Result<bool, PasswordError>,
)
    requires
        !salt.contains(':'),
        !digest.contains(':'),
        encoded@ == "sha256:"@ + salt + ":"@ + digest,
        call_ensures(verify_password, (password, encoded), r),
    ensures
        r == Ok::<_, PasswordError>(
            crate::codec::hex_text(
                crate::codec::sha256_digest(
                    encode_utf8(salt) + seq![58u8] + encode_utf8(password@),
                ),
            ) == digest,
        ),
{
    reveal_strlit("sha256:");
    reveal_strlit("sha256");
    reveal_strlit(":");
    assert(encoded@ =~= "sha256"@ + seq![':'] + salt + seq![':'] + digest);
    assert(!"sha256"@.contains(':'));
    crate::config::colons_part_a_text("sha256"@, salt, digest);
}

/// What is stored for a password recognises it. Only the empty password is not
/// stored.
pub proof fn stored_password_recognises_it(
    password: &str,
    stored: Result<String, PasswordError>,
    encoded: &str,
    r: Result<bool, PasswordError>,
)
    requires
        call_ensures(hash_password, (password,), stored),
        stored is Ok ==> encoded@ == stored->Ok_0@,
        call_ensures(verify_password, (password, encoded), r),
    ensures
        stored is Ok <==> password@.len() > 0,
        stored is Ok ==> r == Ok::<_, PasswordError>(true),
{
    if stored is Ok {
        let salt = choose|salt: Seq<u8>|
            salt.len() == crate::config::SALT_LEN && encoded@
                == #[trigger] crate::config::stored_password(salt, password@);
        crate::config::stored_password_checks(salt, password@, password@, r);
    }
}

/// A visitor who is asked for a password is let in exactly where the digest of what
/// they hand over, under the stored salt, is the stored one, and is else told that
/// it is wrong.
pub proof fn visitor_is_let_in_by_the_stored_digest(
    encoded: String,
    salt: Seq<char>,
    digest: Seq<char>,
    handed: Option<String>,
    r: Result<(), Refusal>,
)
    requires
        !salt.contains(':'),
        !digest.contains(':'),
        encoded@ == "sha256:"@ + salt + ":"@ + digest,
        call_ensures(check_public_auth, (&ServeAuthRuntime::PasswordHash(encoded), handed), r),
    ensures
        r is Ok <==> handed is Some && crate::codec::hex_text(
            crate::codec::sha256_digest(
                encode_utf8(salt) + seq![58u8] + encode_utf8(handed->0@),
            ),
        ) == digest,
        r matches Err(e) ==> e.status == Status::Unauthorized,
{
    reveal_strlit("sha256:");
    reveal_strlit("sha256");
    reveal_strlit(":");
    assert(encoded@ =~= "sha256"@ + seq![':'] + salt + seq![':'] + digest);
    assert(!"sha256"@.contains(':'));
    crate::config::colons_part_a_text("sha256"@, salt, digest);
}

/// A stored form with fewer or more than three parts is understood for no password.
pub proof fn broken_stored_form_is_reported(
    password: &str,
    encoded: &str,
    r: Result<bool, PasswordError>,
)
    requires
        call_ensures(verify_password, (password, encoded), r),
        r is Ok,
    ensures
        exists|salt: Seq<char>, digest: Seq<char>|
            encoded@ == #[trigger] ("sha256"@ + seq![':'] + salt + seq![':'] + digest)
                && !salt.contains(':') && !digest.contains(':'),
{
    let parts = crate::config::colon_parts(encoded@);
    crate::config::parts_make_up_the_text(encoded@);
    assert(!parts[1].contains(':') && !parts[2].contains(':'));
    let colon = seq![':'];
    let front = seq![parts[0], parts[1]];
    assert(parts =~= front + seq![parts[2]]);
    assert(front =~= seq![parts[0]] + seq![parts[1]]);
    crate::text::joined_falls_apart(seq![parts[0]], seq![parts[1]], colon);
    crate::text::joined_falls_apart(seq![parts[1]], seq![parts[2]], colon);
    crate::text::joined_falls_apart(seq![parts[2]], seq![parts[2]], colon);
    crate::text::joined_falls_apart(front, seq![parts[2]], colon);
    assert(encoded@ == "sha256"@ + colon + parts[1] + colon + parts[2]);
}

/// A visitor whose header holds the PIN is let in, with white space around it or
/// without, and nobody else is.
pub proof fn pin_in_the_header_lets_in(
    pin: String,
    headers: &HeaderMap<HeaderValue>,
    name: &str,
    read: Option<String>,
    r: Result<(), Refusal>,
)
    requires
        name@ == "x-bootty-auth"@,
        call_ensures(read_header_value, (headers, name), read),
        call_ensures(ensure_public_auth, (&ServeAuthRuntime::Pin(pin), headers), r),
    ensures
        r is Ok <==> (read is Some && read->0@ == pin@),
        r matches Err(e) ==> e.status == Status::Unauthorized,
        read is None ==> r is Err,
{
}

/// A server that asks nobody lets everybody in.
pub proof fn open_server_lets_everybody_in(handed: Option<String>, r: Result<(), Refusal>)
    requires
        call_ensures(check_public_auth, (&ServeAuthRuntime::NoAuth, handed), r),
    ensures
        r is Ok,
{
}

/// The admin interface is opened by its secret and by nothing else.
pub proof fn token_opens_the_interface(
    token: &str,
    handed: Option<String>,
    r: Result<(), Refusal>,
)
    requires
        call_ensures(check_admin_token, (token, handed), r),
    ensures
        r is Ok <==> (handed is Some && handed->0@ == token@),
        r matches Err(e) ==> e.status == Status::Unauthorized,
{
}

/// A server starts exactly where it has room for a session and a STUN server, asks
/// who is there in the one mode for that and in no other, and in the local mode
/// listens on this machine. It starts without sessions, with all its places free.
pub proof fn server_starts_by_its_rules(
    o: ServeLaunchOptions,
    checked: Result<(), LaunchError>,
    started: Result<ServeState, LaunchError>,
)
    requires
        call_ensures(validate_launch_options, (&o,), checked),
        call_ensures(start_server, (o,), started),
    ensures
        checked is Ok <==> {
            &&& o.max_sessions > 0
            &&& o.mode == ServeMode::Local ==> o.auth is NoAuth && (o.host@ == "127.0.0.1"@
                || o.host@ == "localhost"@)
            &&& o.mode == ServeMode::LanOpen ==> o.auth is NoAuth
            &&& o.mode == ServeMode::LanAuth ==> !(o.auth is NoAuth)
        },
        started is Ok <==> checked is Ok && o.stun_servers@.len() > 0,
        started matches Ok(s) ==> {
            &&& s.wf()
            &&& s@.taken == 0
            &&& s@.sessions.dom().len() == 0
            &&& s@.closed.dom().len() == 0
            &&& s.settings.max_sessions == o.max_sessions
            &&& s.settings.auth == o.auth
            &&& s.settings.cmd@ == o.cmd@
            &&& s.settings.stun_servers@ == o.stun_servers@
        },
{
}

/// A host that is to run a web server starts one for this machine only, wherever it
/// has room for a session and a STUN server.
pub proof fn host_starts_a_local_server(
    host: &HostSession,
    launch: Option<ServeLaunchOptions>,
    checked: Result<(), LaunchError>,
)
    requires
        call_ensures(HostSession::launch_options, (host,), launch),
        launch matches Some(o) ==> call_ensures(validate_launch_options, (&o,), checked),
    ensures
        launch is Some <==> host.serve is Some,
        launch matches Some(o) ==> {
            &&& o.mode == ServeMode::Local
            &&& o.host@ == "127.0.0.1"@
            &&& Some(o.port) == host.serve
            &&& o.cmd@ == host.cmd@
            &&& checked is Ok <==> host.max_sessions > 0
        },
{
}

/// The page tells a browser whether it will be asked, and for what.
pub proof fn page_says_what_is_asked_for(auth: ServeAuthRuntime, page: String)
    requires
        call_ensures(index_page, (&auth,), page),
    ensures
        auth is NoAuth ==> page@ == crate::page::PAGE_HEAD@ + "false"@ + crate::page::PAGE_MIDDLE@
            + "none"@ + crate::page::PAGE_TAIL@,
        auth is Pin ==> page@ == crate::page::PAGE_HEAD@ + "true"@ + crate::page::PAGE_MIDDLE@
            + "6-digit PIN"@ + crate::page::PAGE_TAIL@,
        auth is PasswordHash ==> page@ == crate::page::PAGE_HEAD@ + "true"@
            + crate::page::PAGE_MIDDLE@ + "password"@ + crate::page::PAGE_TAIL@,
{
}

/// Where a PIN is asked for, a visitor without it gets nothing: no session is opened
/// for them, no answer taken and no session ended, and they are told that they are
/// not authorized.
pub proof fn visitor_without_the_pin_gets_nothing(
    s1: &mut ServeState,
    s2: &mut ServeState,
    s3: &mut ServeState,
    pin: String,
    headers: &HeaderMap<HeaderValue>,
    id: &str,
    body: &str,
    placed: Result<(), Refusal>,
    answered: Result<String, Refusal>,
    ended: Result<String, Refusal>,
)
    requires
        old(s1).settings.auth == ServeAuthRuntime::Pin(pin),
        old(s2).settings.auth == ServeAuthRuntime::Pin(pin),
        old(s3).settings.auth == ServeAuthRuntime::Pin(pin),
        crate::serve::header_text(*headers, "x-bootty-auth"@) != Some(pin@),
        call_ensures(ServeState::create_session_handler, (s1, headers), placed),
        call_ensures(ServeState::answer_handler, (s2, headers, id, body), answered),
        call_ensures(ServeState::delete_session_handler, (s3, headers, id), ended),
    ensures
        placed matches Err(e) && e.status == Status::Unauthorized,
        answered matches Err(e) && e.status == Status::Unauthorized,
        ended matches Err(e) && e.status == Status::Unauthorized,
        final(s1)@ == old(s1)@,
        final(s2)@ == old(s2)@,
        final(s3)@ == old(s3)@,
{
}

/// A visitor who is not asked, or who has the PIN, gets what they ask for: a place
/// while one is left, their answer taken where the session waits for it, and a
/// session ended that is open.
pub proof fn visitor_with_the_pin_is_served(
    s1: &mut ServeState,
    s2: &mut ServeState,
    s3: &mut ServeState,
    auth: ServeAuthRuntime,
    headers: &HeaderMap<HeaderValue>,
    id: &str,
    body: &str,
    placed: Result<(), Refusal>,
    answered: Result<String, Refusal>,
    ended: Result<String, Refusal>,
)
    requires
        old(s1).settings.auth == auth,
        old(s2).settings.auth == auth,
        old(s3).settings.auth == auth,
        auth is NoAuth || (auth matches ServeAuthRuntime::Pin(pin) && crate::serve::header_text(
            *headers,
            "x-bootty-auth"@,
        ) == Some(pin@)),
        call_ensures(ServeState::create_session_handler, (s1, headers), placed),
        call_ensures(ServeState::answer_handler, (s2, headers, id, body), answered),
        call_ensures(ServeState::delete_session_handler, (s3, headers, id), ended),
    ensures
        placed is Ok <==> old(s1)@.taken < old(s1).settings.max_sessions,
        placed matches Err(e) ==> e.status == Status::TooManyRequests,
        answered is Ok <==> {
            &&& old(s2)@.sessions.dom().contains(id@)
            &&& !old(s2)@.sessions[id@].answered
            &&& crate::session::has_candidate(crate::text::trimmed(body@))
            &&& crate::session::answer_fault(crate::text::trimmed(body@)) is None
        },
        answered matches Ok(answer) ==> answer@ == crate::text::trimmed(body@),
        ended is Ok <==> old(s3)@.sessions.dom().contains(id@),
        ended matches Err(e) ==> e.status == Status::NotFound,
        final(s3)@.sessions == old(s3)@.sessions.remove(id@),
{
    crate::session::candidate_stands_in_a_line(crate::text::trimmed(body@));
    reveal_strlit("a=candidate:");
    assert(!old(s3)@.sessions.dom().contains(id@) ==> old(s3)@.sessions.remove(id@)
        =~= old(s3)@.sessions);
}

} // verus!
