//! What a web server is started with, and who may use it.

use crate::config::{verify_password, ServeMode};
use crate::random::random_token;
use crate::text::{decimal_text, join, same_text, trim};
use axum::http::header::ToStrError;
use axum::http::{HeaderMap, HeaderValue};
use vstd::prelude::*;
use vstd::string::*;

verus! {

/// How the server asks a visitor who they are.
#[derive(Debug, Clone)]
pub enum ServeAuthRuntime {
    NoAuth,
    Pin(String),
    PasswordHash(String),
}

impl ServeAuthRuntime {
    /// What a visitor is asked for.
    pub open spec fn spec_label(self) -> Seq<char> {
        match self {
            ServeAuthRuntime::NoAuth => "none"@,
            ServeAuthRuntime::Pin(_) => "6-digit PIN"@,
            ServeAuthRuntime::PasswordHash(_) => "password"@,
        }
    }

    /// The short name of the method.
    pub open spec fn spec_mode_name(self) -> Seq<char> {
        match self {
            ServeAuthRuntime::NoAuth => "none"@,
            ServeAuthRuntime::Pin(_) => "pin"@,
            ServeAuthRuntime::PasswordHash(_) => "password"@,
        }
    }

    pub fn is_required(&self) -> (r: bool)
        ensures
            r == !(self is NoAuth),
    {
        match self {
            ServeAuthRuntime::NoAuth => false,
            _ => true,
        }
    }

    pub fn label(&self) -> (r: &'static str)
        ensures
            r@ == self.spec_label(),
            self is NoAuth ==> r@ == "none"@,
            self is Pin ==> r@ == "6-digit PIN"@,
            self is PasswordHash ==> r@ == "password"@,
    {
        match self {
            ServeAuthRuntime::NoAuth => "none",
            ServeAuthRuntime::Pin(_) => "6-digit PIN",
            ServeAuthRuntime::PasswordHash(_) => "password",
        }
    }

    pub fn mode_name(&self) -> (r: &'static str)
        ensures
            r@ == self.spec_mode_name(),
            self is NoAuth ==> r@ == "none"@,
            self is Pin ==> r@ == "pin"@,
            self is PasswordHash ==> r@ == "password"@,
    {
        match self {
            ServeAuthRuntime::NoAuth => "none",
            ServeAuthRuntime::Pin(_) => "pin",
            ServeAuthRuntime::PasswordHash(_) => "password",
        }
    }
}

/// What a server is started with.
#[derive(Debug, Clone)]
pub struct ServeLaunchOptions {
    pub host: String,
    pub port: u16,
    pub cmd: Vec<String>,
    pub non_interactive: bool,
    pub stun_servers: Vec<String>,
    pub max_sessions: usize,
    pub mode: ServeMode,
    pub auth: ServeAuthRuntime,
}

/// Why a server cannot be started.
#[derive(Debug, Clone, Copy, PartialEq, Eq, Structural)]
pub enum LaunchError {
    NoSessions,
    LocalHost,
    LocalAuth,
    OpenAuth,
    AuthMissing,
    NoStunServers,
}

impl LaunchError {
    /// What the error says.
    pub open spec fn spec_message(self) -> Seq<char> {
        match self {
            LaunchError::NoSessions => "max_sessions must be greater than 0"@,
            LaunchError::LocalHost =>
                "serve mode=local requires --host to be 127.0.0.1 or localhost"@,
            LaunchError::LocalAuth => "serve mode=local does not allow enabling auth"@,
            LaunchError::OpenAuth => "serve mode=lan-open does not allow enabling auth"@,
            LaunchError::AuthMissing => "serve mode=lan-auth requires an auth method"@,
            LaunchError::NoStunServers => "At least one STUN server is required"@,
        }
    }

    pub fn message(&self) -> (r: &'static str)
        ensures
            r@ == self.spec_message(),
    {
        match self {
            LaunchError::NoSessions => "max_sessions must be greater than 0",
            LaunchError::LocalHost =>
                "serve mode=local requires --host to be 127.0.0.1 or localhost",
            LaunchError::LocalAuth => "serve mode=local does not allow enabling auth",
            LaunchError::OpenAuth => "serve mode=lan-open does not allow enabling auth",
            LaunchError::AuthMissing => "serve mode=lan-auth requires an auth method",
            LaunchError::NoStunServers => "At least one STUN server is required",
        }
    }
}

/// The first rule that launch options break: there is room for a session; a
/// local server listens on the local machine and asks nobody who they are;
/// neither does an open one; the third mode asks.
pub open spec fn launch_fault(o: ServeLaunchOptions) -> Option<LaunchError> {
    if o.max_sessions == 0 {
        Some(LaunchError::NoSessions)
    } else {
        match o.mode {
            ServeMode::Local => if o.host@ != "127.0.0.1"@ && o.host@ != "localhost"@ {
                Some(LaunchError::LocalHost)
            } else if !(o.auth is NoAuth) {
                Some(LaunchError::LocalAuth)
            } else {
                None
            },
            ServeMode::LanOpen => if !(o.auth is NoAuth) {
                Some(LaunchError::OpenAuth)
            } else {
                None
            },
            ServeMode::LanAuth => if o.auth is NoAuth {
                Some(LaunchError::AuthMissing)
            } else {
                None
            },
        }
    }
}

/// Checks launch options.
pub fn validate_launch_options(options: &ServeLaunchOptions) -> (r: Result<(), LaunchError>)
    ensures
        match r {
            Ok(_) => launch_fault(*options) is None,
            Err(e) => launch_fault(*options) == Some(e),
        },
        r is Ok <==> {
            &&& options.max_sessions > 0
            &&& options.mode == ServeMode::LanAuth <==> !(options.auth is NoAuth)
            &&& options.mode == ServeMode::Local ==> options.host@ == "127.0.0.1"@
                || options.host@ == "localhost"@
        },
        options.max_sessions == 0 ==> r == Err::<(), _>(LaunchError::NoSessions),
        r == Err::<(), _>(LaunchError::LocalHost) ==> options.mode == ServeMode::Local
            && options.host@ != "127.0.0.1"@ && options.host@ != "localhost"@,
        r == Err::<(), _>(LaunchError::LocalAuth) ==> options.mode == ServeMode::Local && !(
        options.auth is NoAuth),
        r == Err::<(), _>(LaunchError::OpenAuth) ==> options.mode == ServeMode::LanOpen && !(
        options.auth is NoAuth),
        r == Err::<(), _>(LaunchError::AuthMissing) ==> options.mode == ServeMode::LanAuth
            && options.auth is NoAuth,
        r == Err::<(), _>(LaunchError::NoSessions) ==> options.max_sessions == 0,
        r != Err::<(), _>(LaunchError::NoStunServers),
{
    if options.max_sessions == 0 {
        return Err(LaunchError::NoSessions);
    }
    let required = options.auth.is_required();
    match options.mode {
        ServeMode::Local => {
            if !same_text(options.host.as_str(), "127.0.0.1") && !same_text(
                options.host.as_str(),
                "localhost",
            ) {
                return Err(LaunchError::LocalHost);
            }
            if required {
                return Err(LaunchError::LocalAuth);
            }
        },
        ServeMode::LanOpen => {
            if required {
                return Err(LaunchError::OpenAuth);
            }
        },
        ServeMode::LanAuth => {
            if !required {
                return Err(LaunchError::AuthMissing);
            }
        },
    }
    Ok(())
}

/// Under options that pass, visitors are asked who they are in exactly the mode
/// that says so.
pub proof fn auth_follows_mode(o: ServeLaunchOptions)
    requires
        launch_fault(o) is None,
    ensures
        o.mode == ServeMode::LanAuth <==> !(o.auth is NoAuth),
{
}

/// Under options that pass, a local server listens on the local machine only.
pub proof fn local_mode_stays_local(o: ServeLaunchOptions)
    requires
        launch_fault(o) is None,
        o.mode == ServeMode::Local,
    ensures
        o.host@ == "127.0.0.1"@ || o.host@ == "localhost"@,
{
}

/// The command that a session runs, in one line. No command means a login
/// shell.
pub open spec fn command_line(cmd: Seq<String>) -> Seq<char> {
    if cmd.len() == 0 {
        "bash -l"@
    } else {
        crate::text::joined(crate::text::views(cmd), " "@)
    }
}

/// The command that a session runs, in one line.
pub fn preview_command(cmd: &Vec<String>) -> (r: String)
    ensures
        r@ == command_line(cmd@),
        cmd@.len() == 0 ==> r@ == "bash -l"@,
        cmd@.len() > 0 ==> r@ == crate::text::joined(crate::text::views(cmd@), " "@),
{
    if cmd.len() == 0 {
        "bash -l".to_string()
    } else {
        join(cmd, " ")
    }
}

/// The address that a server listens on.
pub open spec fn listen_address(host: Seq<char>, port: u16) -> Seq<char> {
    host + ":"@ + crate::text::decimal(port as nat)
}

/// Writes the address that a server listens on.
pub fn bind_address(host: &str, port: u16) -> (r: String)
    ensures
        r@ == listen_address(host@, port),
        r@ == host@ + ":"@ + crate::text::decimal(port as nat),
{
    let mut s = host.to_string();
    s.append(":");
    s.append(decimal_text(port as u64).as_str());
    s
}

/// A secret for the local admin interface: thirty-two letters and digits that
/// chance picks.
pub fn new_admin_token() -> (r: String)
    ensures
        crate::random::is_token(r@, 32),
        r@.len() == 32,
{
    random_token(32)
}

/// The outcome that an HTTP reply reports.
#[derive(Debug, Clone, Copy, PartialEq, Eq, Structural)]
pub enum Status {
    BadRequest,
    Unauthorized,
    NotFound,
    Conflict,
    TooManyRequests,
    InternalServerError,
}

impl Status {
    /// The number of the status.
    pub open spec fn spec_code(self) -> u16 {
        match self {
            Status::BadRequest => 400,
            Status::Unauthorized => 401,
            Status::NotFound => 404,
            Status::Conflict => 409,
            Status::TooManyRequests => 429,
            Status::InternalServerError => 500,
        }
    }

    pub fn code(&self) -> (r: u16)
        ensures
            r == self.spec_code(),
            self is BadRequest <==> r == 400,
            self is Unauthorized <==> r == 401,
            self is NotFound <==> r == 404,
            self is Conflict <==> r == 409,
            self is TooManyRequests <==> r == 429,
            self is InternalServerError <==> r == 500,
    {
        match self {
            Status::BadRequest => 400,
            Status::Unauthorized => 401,
            Status::NotFound => 404,
            Status::Conflict => 409,
            Status::TooManyRequests => 429,
            Status::InternalServerError => 500,
        }
    }
}

/// A request that is turned down: the status and the words of the reply.
#[derive(Debug, Clone)]
pub struct Refusal {
    pub status: Status,
    pub text: String,
}

impl View for Refusal {
    type V = (Status, Seq<char>);

    open spec fn view(&self) -> (Status, Seq<char>) {
        (self.status, self.text@)
    }
}

impl Refusal {
    /// A refusal with a status and some words.
    pub fn new(status: Status, text: &str) -> (r: Refusal)
        ensures
            r@ == (status, text@),
    {
        Refusal { status, text: text.to_string() }
    }
}

/// The reply to a request that an error stopped.
pub open spec fn internal_refusal(err: Seq<char>) -> (Status, Seq<char>) {
    (Status::InternalServerError, "Internal error: "@ + err)
}

/// The reply to a request that an error stopped.
pub fn internal_error(err: &str) -> (r: Refusal)
    ensures
        r@ == internal_refusal(err@),
        r.status == Status::InternalServerError,
        r.text@ == "Internal error: "@ + err@,
{
    let mut text = "Internal error: ".to_string();
    text.append(err);
    Refusal { status: Status::InternalServerError, text }
}

/// The header that carries a visitor's secret.
pub const AUTH_HEADER: &'static str = "x-bootty-auth";

/// The header that carries the secret of the admin interface.
pub const ADMIN_TOKEN_HEADER: &'static str = "x-bootty-admin-token";

/// `axum::http::HeaderMap`: the headers of a request.
#[verifier::external_type_specification]
#[verifier::external_body]
#[verifier::reject_recursive_types(T)]
pub struct ExHeaderMap<T>(HeaderMap<T>);

/// `axum::http::HeaderValue`: what one header holds.
#[verifier::external_type_specification]
#[verifier::external_body]
pub struct ExHeaderValue(HeaderValue);

/// `axum::http::header::ToStrError`: a header that holds no readable text.
#[verifier::external_type_specification]
#[verifier::external_body]
pub struct ExToStrError(ToStrError);

/// The bytes that a header value holds.
pub uninterp spec fn header_value_bytes(value: HeaderValue) -> Seq<u8>;

/// The names of the headers of a request, in small letters, each with the bytes
/// of its first value.
pub uninterp spec fn header_fields(headers: HeaderMap<HeaderValue>) -> Map<Seq<char>, Seq<u8>>;

/// A header name in small letters.
pub open spec fn small_name(name: Seq<char>) -> Seq<char> {
    name.map_values(|c: char| crate::text::ascii_lower(c))
}

/// `HeaderMap::get`: the first value of the header of that name, in small letters
/// or capitals, where there is one. There is none for a text that is no header
/// name.
#[verifier::external_body]
fn header_get<'a>(headers: &'a HeaderMap<HeaderValue>, key: &str) -> (r: Option<&'a HeaderValue>)
    ensures
        match r {
            Some(v) => header_fields(*headers).dom().contains(small_name(key@))
                && header_value_bytes(*v) == header_fields(*headers)[small_name(key@)],
            None => !header_fields(*headers).dom().contains(small_name(key@)),
        },
{
    headers.get(key)
}

/// Whether all bytes are visible ASCII, spaces or tabs.
pub open spec fn is_visible(bytes: Seq<u8>) -> bool {
    forall|i: int| 0 <= i < bytes.len() ==> 32 <= #[trigger] bytes[i] < 127 || bytes[i] == 9
}

/// The text of ASCII bytes.
pub open spec fn ascii_text(bytes: Seq<u8>) -> Seq<char> {
    bytes.map_values(|b: u8| b as char)
}

/// `HeaderValue::to_str`: the value as a text, where all its bytes are visible
/// ASCII, spaces or tabs.
#[verifier::external_body]
fn header_to_str(value: &HeaderValue) -> (r: Result<&str, ToStrError>)
    ensures
        match r {
            Ok(s) => is_visible(header_value_bytes(*value)) && s@ == ascii_text(
                header_value_bytes(*value),
            ),
            Err(_) => !is_visible(header_value_bytes(*value)),
        },
{
    value.to_str()
}

/// The text of a header that holds some: readable, and without the white space
/// around it not empty.
pub open spec fn header_text(headers: HeaderMap<HeaderValue>, key: Seq<char>) -> Option<
    Seq<char>,
> {
    let fields = header_fields(headers);
    let name = small_name(key);
    if fields.dom().contains(name) && is_visible(fields[name]) {
        filled(ascii_text(fields[name]))
    } else {
        None
    }
}

/// A text without the white space around it, where anything is left.
pub open spec fn filled(text: Seq<char>) -> Option<Seq<char>> {
    if crate::text::trimmed(text).len() > 0 {
        Some(crate::text::trimmed(text))
    } else {
        None
    }
}

/// The characters of a text that may be missing.
pub open spec fn text_view(text: Option<String>) -> Option<Seq<char>> {
    match text {
        Some(s) => Some(s@),
        None => None,
    }
}

/// Takes the white space off a text; nothing where nothing is left.
pub fn non_empty(text: &str) -> (r: Option<String>)
    ensures
        text_view(r) == filled(text@),
        r is None <==> crate::text::is_blank(text@),
        r matches Some(s) ==> s@ == crate::text::trimmed(text@),
{
    proof {
        crate::text::blank_is_trimmed_away(text@);
    }
    let t = trim(text);
    if t.as_str().is_empty() {
        None
    } else {
        Some(t)
    }
}

/// Reads a header.
pub fn read_header_value(headers: &HeaderMap<HeaderValue>, key: &str) -> (r: Option<String>)
    ensures
        text_view(r) == header_text(*headers, key@),
        r is Some <==> {
            &&& header_fields(*headers).dom().contains(small_name(key@))
            &&& is_visible(header_fields(*headers)[small_name(key@)])
            &&& !crate::text::is_blank(ascii_text(header_fields(*headers)[small_name(key@)]))
        },
        r matches Some(s) ==> s@ == crate::text::trimmed(
            ascii_text(header_fields(*headers)[small_name(key@)]),
        ),
{
    match header_get(headers, key) {
        None => None,
        Some(value) => match header_to_str(value) {
            Err(_) => None,
            Ok(text) => non_empty(text),
        },
    }
}

/// What is said about a request, or nothing where it may go on.
pub open spec fn verdict(r: Result<(), Refusal>) -> Result<(), (Status, Seq<char>)> {
    match r {
        Ok(_) => Ok(()),
        Err(e) => Err(e@),
    }
}

/// What a visitor who hands over `provided` is told.
pub open spec fn public_verdict(auth: ServeAuthRuntime, provided: Option<Seq<char>>) -> Result<
    (),
    (Status, Seq<char>),
> {
    match (auth, provided) {
        (ServeAuthRuntime::NoAuth, _) => Ok(()),
        (_, None) => Err((Status::Unauthorized, "Missing auth header"@)),
        (ServeAuthRuntime::Pin(pin), Some(p)) => if p == pin@ {
            Ok(())
        } else {
            Err((Status::Unauthorized, "Invalid PIN"@))
        },
        (ServeAuthRuntime::PasswordHash(encoded), Some(p)) => match crate::config::password_verdict(
            p,
            encoded@,
        ) {
            Ok(true) => Ok(()),
            Ok(false) => Err((Status::Unauthorized, "Invalid password"@)),
            Err(m) => Err(internal_refusal(m)),
        },
    }
}

/// The name of a header means the same in small letters and in capitals.
pub proof fn header_names_ignore_case(
    headers: HeaderMap<HeaderValue>,
    name: Seq<char>,
    other: Seq<char>,
)
    requires
        name.len() == other.len(),
        forall|i: int|
            0 <= i < name.len() ==> (#[trigger] name[i] == other[i] || ('A' <= name[i] <= 'Z'
                && other[i] as int == name[i] as int + 32)),
    ensures
        header_text(headers, name) == header_text(headers, other),
        forall|i: int|
            0 <= i < name.len() && !('A' <= #[trigger] name[i] <= 'Z') ==> small_name(name)[i]
                == name[i],
{
    assert forall|i: int| 0 <= i < name.len() implies small_name(name)[i] == small_name(
        other,
    )[i] by {
        let c = name[i];
        if c != other[i] {
            assert(crate::text::ascii_lower(c) as int == c as int + 32);
        }
    }
    assert(small_name(name) =~= small_name(other));
}

/// A visitor who hands over the password that was stored is let in.
pub proof fn right_password_is_let_in(encoded: String, salt: Seq<u8>, password: Seq<char>)
    requires
        encoded@ == crate::config::stored_password(salt, password),
    ensures
        public_verdict(ServeAuthRuntime::PasswordHash(encoded), Some(password)) == Ok::<
            (),
            (Status, Seq<char>),
        >(()),
{
    crate::config::stored_password_parts(salt, password);
}

/// Where a PIN is asked for, it and nothing else lets a visitor in.
pub proof fn only_the_pin_lets_in(pin: String, provided: Option<Seq<char>>)
    ensures
        public_verdict(ServeAuthRuntime::Pin(pin), provided) is Ok <==> provided == Some(pin@),
{
}

/// The admin interface answers those who hand over its secret, and nobody else.
pub proof fn only_the_token_opens_the_admin_interface(
    token: Seq<char>,
    provided: Option<Seq<char>>,
)
    ensures
        admin_verdict(token, provided) is Ok <==> provided == Some(token),
{
}

/// Decides on a visitor by what they hand over.
pub fn check_public_auth(auth: &ServeAuthRuntime, provided: Option<String>) -> (r: Result<
    (),
    Refusal,
>)
    ensures
        verdict(r) == public_verdict(*auth, text_view(provided)),
        auth is NoAuth ==> r is Ok,
        !(auth is NoAuth) && provided is None ==> (r matches Err(e) && e@ == (
            Status::Unauthorized,
            "Missing auth header"@,
        )),
        *auth matches ServeAuthRuntime::Pin(pin) ==> (r is Ok <==> (provided is Some
            && provided->0@ == pin@)),
        *auth is Pin ==> (r matches Err(e) ==> e.status == Status::Unauthorized),
        *auth matches ServeAuthRuntime::PasswordHash(encoded) ==> (r is Ok <==> (provided is Some
            && crate::config::password_verdict(provided->0@, encoded@) == Ok::<bool, Seq<char>>(
            true,
        ))),
        *auth matches ServeAuthRuntime::PasswordHash(encoded) ==> (provided is Some
            && crate::config::password_verdict(provided->0@, encoded@) == Ok::<bool, Seq<char>>(
            false,
        ) ==> (r matches Err(e) && e.status == Status::Unauthorized)),
{
    match auth {
        ServeAuthRuntime::NoAuth => Ok(()),
        ServeAuthRuntime::Pin(pin) => match provided {
            None => Err(Refusal::new(Status::Unauthorized, "Missing auth header")),
            Some(p) => if same_text(p.as_str(), pin.as_str()) {
                Ok(())
            } else {
                Err(Refusal::new(Status::Unauthorized, "Invalid PIN"))
            },
        },
        ServeAuthRuntime::PasswordHash(encoded) => match provided {
            None => Err(Refusal::new(Status::Unauthorized, "Missing auth header")),
            Some(p) => match verify_password(p.as_str(), encoded.as_str()) {
                Ok(true) => Ok(()),
                Ok(false) => Err(Refusal::new(Status::Unauthorized, "Invalid password")),
                Err(e) => Err(internal_error(e.message().as_str())),
            },
        },
    }
}

/// Decides on a visitor by the headers of their request.
pub fn ensure_public_auth(auth: &ServeAuthRuntime, headers: &HeaderMap<HeaderValue>) -> (r: Result<
    (),
    Refusal,
>)
    ensures
        verdict(r) == public_verdict(*auth, header_text(*headers, AUTH_HEADER@)),
        auth is NoAuth ==> r is Ok,
        *auth matches ServeAuthRuntime::Pin(pin) ==> (r is Ok <==> header_text(
            *headers,
            "x-bootty-auth"@,
        ) == Some(pin@)),
        *auth matches ServeAuthRuntime::PasswordHash(encoded) ==> (r is Ok <==> {
            &&& header_text(*headers, "x-bootty-auth"@) matches Some(p)
            &&& crate::config::password_verdict(p, encoded@) == Ok::<bool, Seq<char>>(true)
        }),
{
    check_public_auth(auth, read_header_value(headers, AUTH_HEADER))
}

/// What a caller of the admin interface who hands over `provided` is told.
pub open spec fn admin_verdict(token: Seq<char>, provided: Option<Seq<char>>) -> Result<
    (),
    (Status, Seq<char>),
> {
    match provided {
        None => Err((Status::Unauthorized, "Missing admin token"@)),
        Some(p) => if p == token {
            Ok(())
        } else {
            Err((Status::Unauthorized, "Invalid admin token"@))
        },
    }
}

/// Decides on a caller of the admin interface by what they hand over.
pub fn check_admin_token(token: &str, provided: Option<String>) -> (r: Result<(), Refusal>)
    ensures
        verdict(r) == admin_verdict(token@, text_view(provided)),
        r is Ok <==> (provided is Some && provided->0@ == token@),
        r matches Err(e) ==> e.status == Status::Unauthorized,
{
    match provided {
        None => Err(Refusal::new(Status::Unauthorized, "Missing admin token")),
        Some(p) => if same_text(p.as_str(), token) {
            Ok(())
        } else {
            Err(Refusal::new(Status::Unauthorized, "Invalid admin token"))
        },
    }
}

/// Decides on a caller of the admin interface by the headers of their request.
pub fn ensure_admin_token(token: &str, headers: &HeaderMap<HeaderValue>) -> (r: Result<
    (),
    Refusal,
>)
    ensures
        verdict(r) == admin_verdict(token@, header_text(*headers, ADMIN_TOKEN_HEADER@)),
        r is Ok <==> header_text(*headers, "x-bootty-admin-token"@) == Some(token@),
        r matches Err(e) ==> e.status == Status::Unauthorized,
{
    check_admin_token(token, read_header_value(headers, ADMIN_TOKEN_HEADER))
}

} // verus!
