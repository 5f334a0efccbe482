//! The sessions that a web server keeps: the open ones, as many as it has room
//! for, and a history of those that ended.

use crate::config::ServeMode;
use crate::random::{
    counted_token, counted_token_is_token, counted_tokens_differ, random_token, token_count,
    write_token,
};
use crate::serve::{
    bind_address, ensure_public_auth, internal_error, preview_command, validate_launch_options,
    LaunchError, Refusal, ServeAuthRuntime, ServeLaunchOptions, Status,
};
use crate::session::{check_answer, sdp_has_candidate, Session};
use crate::table::Table;
use crate::text::{copy_option, copy_texts, decimal_text, trim};
use axum::http::{HeaderMap, HeaderValue};
use std::collections::VecDeque;
use vstd::prelude::*;
use vstd::string::*;

verus! {

/// How many ended sessions are remembered.
pub const CLOSED_SESSION_HISTORY_LIMIT: usize = 1024;

/// How long a session waits for an answer, in seconds.
pub const ANSWER_TIMEOUT_SECS: u64 = 90;

/// How many letters and digits name a session.
pub const SESSION_ID_LEN: usize = 12;

/// How far a session has come.
#[derive(Debug, Clone, Copy, PartialEq, Eq, Structural)]
pub enum SessionLifecycleState {
    Pending,
    Connected,
    Closed,
}

impl SessionLifecycleState {
    /// The name of the state.
    pub open spec fn spec_as_str(self) -> Seq<char> {
        match self {
            SessionLifecycleState::Pending => "pending"@,
            SessionLifecycleState::Connected => "connected"@,
            SessionLifecycleState::Closed => "closed"@,
        }
    }

    pub fn as_str(&self) -> (r: &'static str)
        ensures
            r@ == self.spec_as_str(),
            self is Pending ==> r@ == "pending"@,
            self is Connected ==> r@ == "connected"@,
            self is Closed ==> r@ == "closed"@,
    {
        match self {
            SessionLifecycleState::Pending => "pending",
            SessionLifecycleState::Connected => "connected",
            SessionLifecycleState::Closed => "closed",
        }
    }
}

/// A session with a browser.
#[derive(Debug, Clone)]
pub struct BrowserSession {
    pub answered: bool,
    pub lifecycle: SessionLifecycleState,
    pub client_addr: Option<String>,
    pub created_at_unix: u64,
    pub last_active_at_unix: u64,
}

/// What is remembered of a session that ended.
#[derive(Debug, Clone)]
pub struct ClosedSessionInfo {
    pub client_addr: Option<String>,
    pub created_at_unix: u64,
    pub last_active_at_unix: u64,
}

/// What stays the same while a server runs.
#[derive(Debug, Clone)]
pub struct ServeSettings {
    pub cmd: Vec<String>,
    pub cmd_preview: String,
    pub non_interactive: bool,
    pub stun_servers: Vec<String>,
    pub max_sessions: usize,
    pub mode: ServeMode,
    pub auth: ServeAuthRuntime,
    pub auth_mode: String,
}

/// The sessions of a server, as the operations change them.
#[verifier::ext_equal]
pub ghost struct Registry {
    /// The open sessions.
    pub sessions: Map<Seq<char>, BrowserSession>,
    /// The ended sessions that are remembered.
    pub closed: Map<Seq<char>, ClosedSessionInfo>,
    /// The names of ended sessions, the oldest first.
    pub order: Seq<Seq<char>>,
    /// How many places are taken.
    pub taken: nat,
}

/// What is remembered of a session when it ends.
pub open spec fn remains(s: BrowserSession) -> ClosedSessionInfo {
    ClosedSessionInfo {
        client_addr: s.client_addr,
        created_at_unix: s.created_at_unix,
        last_active_at_unix: s.last_active_at_unix,
    }
}

impl Registry {
    /// Whether the history is in order: it names each ended session that is
    /// remembered, and no other, once; it is not longer than the limit; and no
    /// open session is in it.
    pub open spec fn wf(self) -> bool {
        &&& self.order.len() <= CLOSED_SESSION_HISTORY_LIMIT
        &&& self.order.no_duplicates()
        &&& forall|id: Seq<char>| #[trigger]
            self.order.contains(id) <==> self.closed.dom().contains(id)
        &&& self.sessions.dom().disjoint(self.closed.dom())
    }

    /// Whether a name belongs to a session, open or ended.
    pub open spec fn knows(self, id: Seq<char>) -> bool {
        self.sessions.dom().contains(id) || self.closed.dom().contains(id)
    }

    /// One more place is taken.
    pub open spec fn admitted(self) -> Registry {
        Registry { taken: self.taken + 1, ..self }
    }

    /// One place is given back.
    pub open spec fn released(self) -> Registry {
        Registry { taken: (self.taken - 1) as nat, ..self }
    }

    /// A session gets this state.
    pub open spec fn with_session(self, id: Seq<char>, s: BrowserSession) -> Registry {
        Registry { sessions: self.sessions.insert(id, s), ..self }
    }

    /// A session ends, if there is one of this name: it is remembered behind
    /// those that ended before it, and where that is one too many the oldest is
    /// forgotten.
    pub open spec fn without_session(self, id: Seq<char>) -> Registry {
        if !self.sessions.dom().contains(id) {
            self
        } else {
            let order = self.order.push(id);
            let closed = self.closed.insert(id, remains(self.sessions[id]));
            if order.len() > CLOSED_SESSION_HISTORY_LIMIT {
                Registry {
                    sessions: self.sessions.remove(id),
                    closed: closed.remove(order[0]),
                    order: order.skip(1),
                    ..self
                }
            } else {
                Registry { sessions: self.sessions.remove(id), closed, order, ..self }
            }
        }
    }

    /// The sessions of these names end, one after the other.
    pub open spec fn without_sessions(self, ids: Seq<Seq<char>>) -> Registry
        decreases ids.len(),
    {
        if ids.len() == 0 {
            self
        } else {
            self.without_sessions(ids.drop_last()).without_session(ids.last())
        }
    }
}

/// The state of a web server.
#[derive(Debug, Clone)]
pub struct ServeState {
    pub settings: ServeSettings,
    pub sessions: Table<BrowserSession>,
    pub closed_sessions: Table<ClosedSessionInfo>,
    pub closed_session_order: VecDeque<String>,
    /// How many of the places for sessions are taken. A place is taken before
    /// its session opens, and given back when nothing of the session is left.
    pub permits_taken: usize,
}

impl View for ServeState {
    type V = Registry;

    open spec fn view(&self) -> Registry {
        Registry {
            sessions: self.sessions@,
            closed: self.closed_sessions@,
            order: crate::text::views(self.closed_session_order@),
            taken: self.permits_taken as nat,
        }
    }
}

impl ServeState {
    /// Every open session has a place, no more places are taken than there are,
    /// and the history is in order.
    pub open spec fn wf(self) -> bool {
        &&& self.sessions.wf()
        &&& self.closed_sessions.wf()
        &&& self@.sessions.dom().finite()
        &&& self@.sessions.dom().len() <= self.permits_taken
        &&& self.permits_taken <= self.settings.max_sessions
        &&& self@.wf()
    }

    /// Whether the state differs from another in its sessions only.
    pub open spec fn same_server(self, other: ServeState) -> bool {
        self.settings == other.settings
    }
}

/// Whether settings are what some launch options ask for.
pub open spec fn settings_for(o: ServeLaunchOptions, s: ServeSettings) -> bool {
    &&& s.cmd == o.cmd
    &&& s.cmd_preview@ == crate::serve::command_line(o.cmd@)
    &&& s.non_interactive == o.non_interactive
    &&& s.stun_servers == o.stun_servers
    &&& s.max_sessions == o.max_sessions
    &&& s.mode == o.mode
    &&& s.auth == o.auth
    &&& s.auth_mode@ == o.auth.spec_mode_name()
}

/// The registry of a server that has just started.
pub open spec fn empty_registry() -> Registry {
    Registry { sessions: Map::empty(), closed: Map::empty(), order: Seq::empty(), taken: 0 }
}

/// The first rule that keeps a server from starting.
pub open spec fn start_fault(o: ServeLaunchOptions) -> Option<LaunchError> {
    if crate::serve::launch_fault(o) is Some {
        crate::serve::launch_fault(o)
    } else if o.stun_servers@.len() == 0 {
        Some(LaunchError::NoStunServers)
    } else {
        None
    }
}

/// The state that a server starts with.
pub fn start_server(options: ServeLaunchOptions) -> (r: Result<ServeState, LaunchError>)
    ensures
        match r {
            Ok(s) => {
                &&& start_fault(options) is None
                &&& s.wf()
                &&& settings_for(options, s.settings)
                &&& s@ == empty_registry()
            },
            Err(e) => start_fault(options) == Some(e),
        },
        r is Ok <==> {
            &&& options.max_sessions > 0
            &&& options.stun_servers@.len() > 0
            &&& options.mode == ServeMode::LanAuth <==> !(options.auth is NoAuth)
            &&& options.mode == ServeMode::Local ==> options.host@ == "127.0.0.1"@
                || options.host@ == "localhost"@
        },
        r matches Ok(s) ==> {
            &&& s.settings.cmd == options.cmd
            &&& s.settings.non_interactive == options.non_interactive
            &&& s.settings.stun_servers == options.stun_servers
            &&& s.settings.max_sessions == options.max_sessions
            &&& s.settings.mode == options.mode
            &&& s.settings.auth == options.auth
            &&& s@.sessions == Map::<Seq<char>, BrowserSession>::empty()
            &&& s@.closed == Map::<Seq<char>, ClosedSessionInfo>::empty()
            &&& s@.order.len() == 0
            &&& s@.taken == 0
        },
{
    match validate_launch_options(&options) {
        Err(e) => return Err(e),
        Ok(_) => {},
    }
    if options.stun_servers.len() == 0 {
        return Err(LaunchError::NoStunServers);
    }
    let cmd_preview = preview_command(&options.cmd);
    let auth_mode = options.auth.mode_name().to_string();
    let state = ServeState {
        settings: ServeSettings {
            cmd: options.cmd,
            cmd_preview,
            non_interactive: options.non_interactive,
            stun_servers: options.stun_servers,
            max_sessions: options.max_sessions,
            mode: options.mode,
            auth: options.auth,
            auth_mode,
        },
        sessions: Table::new(),
        closed_sessions: Table::new(),
        closed_session_order: VecDeque::new(),
        permits_taken: 0,
    };
    assert(state@ =~= empty_registry());
    Ok(state)
}

/// The name of a mode, as it is shown.
pub open spec fn mode_text(mode: ServeMode) -> Seq<char> {
    match mode {
        ServeMode::Local => "Local"@,
        ServeMode::LanOpen => "LanOpen"@,
        ServeMode::LanAuth => "LanAuth"@,
    }
}

fn show_mode(mode: ServeMode) -> (r: &'static str)
    ensures
        r@ == mode_text(mode),
{
    match mode {
        ServeMode::Local => "Local",
        ServeMode::LanOpen => "LanOpen",
        ServeMode::LanAuth => "LanAuth",
    }
}

fn line(what: &str, value: &str) -> (r: String)
    ensures
        r@ == what@ + value@,
{
    let mut s = what.to_string();
    s.append(value);
    s
}

/// What a server shows when it has started: where it listens, whom it serves,
/// what its sessions run, how many there may be, where it is administered, and
/// the PIN where visitors are asked for one.
pub open spec fn startup_texts(
    s: ServeSettings,
    host: Seq<char>,
    port: u16,
    admin_addr: Seq<char>,
) -> Seq<Seq<char>> {
    let lines = seq![
        "Service started: http://"@ + crate::serve::listen_address(host, port) + "/"@,
        "Mode: "@ + mode_text(s.mode),
        "Session command: "@ + s.cmd_preview@,
        "Max sessions: "@ + crate::text::decimal(s.max_sessions as nat),
        "Local admin interface: "@ + admin_addr,
    ];
    match s.auth {
        ServeAuthRuntime::Pin(pin) => lines.push("PIN: "@ + pin@),
        _ => lines,
    }
}

impl ServeSettings {
    /// How the connection of a session is set up: the server offers, with its STUN
    /// servers.
    pub fn peer_setup(&self) -> (r: Session)
        ensures
            crate::session::set_up_for(r, self.stun_servers@, true),
            r.stun_servers@ == self.stun_servers@,
            r.answering_dtls_role == Some(crate::session::DtlsRole::Server),
    {
        Session::new(copy_texts(&self.stun_servers), true)
    }

    /// Writes what a server shows when it has started.
    pub fn startup_lines(&self, host: &str, port: u16, admin_addr: &str) -> (r: Vec<String>)
        ensures
            crate::text::views(r@) == startup_texts(*self, host@, port, admin_addr@),
            r@.len() == (if self.auth is Pin {
                6int
            } else {
                5
            }),
            r@[0]@ == "Service started: http://"@ + (host@ + ":"@ + crate::text::decimal(
                port as nat,
            )) + "/"@,
            self.mode is Local ==> r@[1]@ == "Mode: "@ + "Local"@,
            self.mode is LanOpen ==> r@[1]@ == "Mode: "@ + "LanOpen"@,
            self.mode is LanAuth ==> r@[1]@ == "Mode: "@ + "LanAuth"@,
            r@[2]@ == "Session command: "@ + self.cmd_preview@,
            r@[3]@ == "Max sessions: "@ + crate::text::decimal(self.max_sessions as nat),
            r@[4]@ == "Local admin interface: "@ + admin_addr@,
            self.auth matches ServeAuthRuntime::Pin(pin) ==> r@[5]@ == "PIN: "@ + pin@,
    {
        let mut lines: Vec<String> = Vec::new();
        let mut started = line("Service started: http://", bind_address(host, port).as_str());
        started.append("/");
        lines.push(started);
        lines.push(line("Mode: ", show_mode(self.mode)));
        lines.push(line("Session command: ", self.cmd_preview.as_str()));
        lines.push(line("Max sessions: ", decimal_text(self.max_sessions as u64).as_str()));
        lines.push(line("Local admin interface: ", admin_addr));
        match &self.auth {
            ServeAuthRuntime::Pin(pin) => {
                lines.push(line("PIN: ", pin.as_str()));
            },
            _ => {},
        }
        assert(crate::text::views(lines@) =~= startup_texts(*self, host@, port, admin_addr@));
        lines
    }
}

impl ServeState {
    /// An open session.
    pub fn get_session(&self, id: &str) -> (r: Option<&BrowserSession>)
        requires
            self.wf(),
        ensures
            match r {
                Some(s) => self@.sessions.dom().contains(id@) && *s == self@.sessions[id@],
                None => !self@.sessions.dom().contains(id@),
            },
    {
        self.sessions.get(id)
    }

    /// Whether an ended session is remembered.
    pub fn is_closed_session(&self, id: &str) -> (r: bool)
        requires
            self.wf(),
        ensures
            r == self@.closed.dom().contains(id@),
    {
        self.closed_sessions.contains_key(id)
    }

    /// Takes a place for a session, if one is left.
    pub fn try_acquire(&mut self) -> (r: bool)
        requires
            old(self).wf(),
        ensures
            final(self).wf(),
            final(self).same_server(*old(self)),
            r == (old(self)@.taken < old(self).settings.max_sessions),
            final(self)@ == (if r {
                old(self)@.admitted()
            } else {
                old(self)@
            }),
            final(self)@.sessions == old(self)@.sessions,
            final(self)@.closed == old(self)@.closed,
            final(self)@.order == old(self)@.order,
            final(self)@.taken == old(self)@.taken + (if r {
                1int
            } else {
                0
            }),
    {
        if self.permits_taken < self.settings.max_sessions {
            self.permits_taken = self.permits_taken + 1;
            assert(self@.closed == old(self)@.closed && self@.order == old(self)@.order);
            true
        } else {
            false
        }
    }

    /// Gives a place back that no open session holds.
    pub fn release(&mut self)
        requires
            old(self).wf(),
            old(self)@.sessions.dom().len() < old(self)@.taken,
        ensures
            final(self).wf(),
            final(self).same_server(*old(self)),
            final(self)@ == old(self)@.released(),
            final(self)@.sessions == old(self)@.sessions,
            final(self)@.closed == old(self)@.closed,
            final(self)@.order == old(self)@.order,
            final(self)@.taken == old(self)@.taken - 1,
    {
        self.permits_taken = self.permits_taken - 1;
        assert(self@.closed == old(self)@.closed && self@.order == old(self)@.order);
    }

    /// Ends a session, if there is one of this name.
    pub fn remove_session(&mut self, id: &str) -> (r: bool)
        requires
            old(self).wf(),
        ensures
            final(self).wf(),
            final(self).same_server(*old(self)),
            r == old(self)@.sessions.dom().contains(id@),
            final(self)@ == old(self)@.without_session(id@),
            final(self)@.sessions == old(self)@.sessions.remove(id@),
            final(self)@.taken == old(self)@.taken,
            r ==> final(self)@.closed.dom().contains(id@) && final(self)@.closed[id@]
                == (ClosedSessionInfo {
                client_addr: old(self)@.sessions[id@].client_addr,
                created_at_unix: old(self)@.sessions[id@].created_at_unix,
                last_active_at_unix: old(self)@.sessions[id@].last_active_at_unix,
            }),
            r && old(self)@.order.len() < 1024 ==> final(self)@.order == old(self)@.order.push(id@),
            r && old(self)@.order.len() == 1024 ==> final(self)@.order == old(self)@.order.push(
                id@,
            ).skip(1),
            !r ==> final(self)@.order == old(self)@.order && final(self)@.closed
                == old(self)@.closed,
            forall|other: Seq<char>| #[trigger]
                final(self)@.closed.dom().contains(other) && other != id@ ==> old(self)@.closed.dom().contains(other) && final(self)@.closed[other] == old(self)@.closed[other],
            forall|other: Seq<char>| #[trigger]
                old(self)@.closed.dom().contains(other) && !(r && old(self)@.order.len() == 1024
                    && other == old(self)@.order[0]) ==> final(self)@.closed.dom().contains(other),
    {
        let ghost before = *self;
        proof {
            if before@.sessions.dom().contains(id@) {
                ended_session_is_remembered(before@, id@);
            } else {
                assert(before@.sessions.remove(id@) =~= before@.sessions);
            }
        }
        match self.sessions.remove(id) {
            None => {
                assert(self@ =~= before@);
                false
            },
            Some(session) => {
                self.closed_sessions.insert(
                    id,
                    ClosedSessionInfo {
                        client_addr: session.client_addr,
                        created_at_unix: session.created_at_unix,
                        last_active_at_unix: session.last_active_at_unix,
                    },
                );
                self.closed_session_order.push_back(id.to_string());
                let ghost order = before@.order.push(id@);
                assert(crate::text::views(self.closed_session_order@) =~= order);
                if self.closed_session_order.len() > CLOSED_SESSION_HISTORY_LIMIT {
                    match self.closed_session_order.pop_front() {
                        Some(evicted) => {
                            assert(evicted@ == order[0]);
                            self.closed_sessions.remove(evicted.as_str());
                            assert(crate::text::views(self.closed_session_order@) =~= order.skip(
                                1,
                            ));
                        },
                        None => {},
                    }
                }
                assert(self@ =~= before@.without_session(id@));
                proof {
                    ending_keeps_history(before@, id@);
                }
                true
            },
        }
    }
}

impl ServeState {
    /// Whether a name belongs to a session, open or ended.
    pub open spec fn knows(self, id: Seq<char>) -> bool {
        self@.knows(id)
    }

    /// Whether a name is free for a new session.
    pub fn is_free(&self, id: &str) -> (r: bool)
        requires
            self.wf(),
        ensures
            r == !self.knows(id@),
            r <==> !self@.sessions.dom().contains(id@) && !self@.closed.dom().contains(id@),
    {
        !self.sessions.contains_key(id) && !self.closed_sessions.contains_key(id)
    }

    /// Picks the first of some drawn names that is free.
    pub fn first_free(&self, drawn: &Vec<String>) -> (r: Option<String>)
        requires
            self.wf(),
        ensures
            match r {
                Some(id) => exists|i: int|
                    0 <= i < drawn@.len() && #[trigger] drawn@[i] == id && !self.knows(id@) && (
                    forall|j: int| 0 <= j < i ==> self.knows((#[trigger] drawn@[j])@)),
                None => forall|j: int| 0 <= j < drawn@.len() ==> self.knows((#[trigger] drawn@[j])@),
            },
    {
        let mut i: usize = 0;
        while i < drawn.len()
            invariant
                self.wf(),
                i <= drawn@.len(),
                forall|j: int| 0 <= j < i ==> self.knows((#[trigger] drawn@[j])@),
            decreases drawn@.len() - i,
        {
            if self.is_free(drawn[i].as_str()) {
                let id = drawn[i].clone();
                assert(drawn@[i as int] == id);
                return Some(id);
            }
            i += 1;
        }
        None
    }

    /// Whether a name is the first free one when names are counted through.
    pub open spec fn first_counted(self, id: Seq<char>) -> bool {
        &&& !self.knows(id)
        &&& exists|k: nat| #[trigger]
            counted_token(k, SESSION_ID_LEN as nat) == id && (forall|j: nat|
                j < k ==> self.knows(#[trigger] counted_token(j, SESSION_ID_LEN as nat)))
    }

    /// Finds the first free name when names are counted through. There always is
    /// one: a server has fewer sessions, open and remembered, than there are names.
    pub fn counted_id(&self) -> (r: String)
        requires
            self.wf(),
        ensures
            self.first_counted(r@),
            crate::random::is_token(r@, SESSION_ID_LEN as nat),
    {
        let ghost known = self@.sessions.dom().union(self@.closed.dom());
        let ghost n = SESSION_ID_LEN as nat;
        proof {
            history_is_bounded(*self);
            vstd::set_lib::lemma_len_union(self@.sessions.dom(), self@.closed.dom());
            assert(token_count(n) > usize::MAX + CLOSED_SESSION_HISTORY_LIMIT) by {
                reveal_with_fuel(token_count, 13);
            }
        }
        let mut k: u128 = 0;
        loop
            invariant
                self.wf(),
                n == SESSION_ID_LEN,
                known == self@.sessions.dom().union(self@.closed.dom()),
                known.finite(),
                known.len() <= usize::MAX + CLOSED_SESSION_HISTORY_LIMIT,
                token_count(n) > usize::MAX + CLOSED_SESSION_HISTORY_LIMIT,
                k <= known.len(),
                forall|j: nat| j < k ==> self.knows(#[trigger] counted_token(j, n)),
            decreases known.len() - k,
        {
            let id = write_token(k, SESSION_ID_LEN);
            proof {
                counted_token_is_token(k as nat, n);
            }
            if self.is_free(id.as_str()) {
                assert(counted_token(k as nat, SESSION_ID_LEN as nat) == id@);
                return id;
            }
            assert forall|j: nat| j < k + 1 implies self.knows(#[trigger] counted_token(j, n)) by {
                if j == k {
                    assert(counted_token(j, n) == id@);
                }
            }
            proof {
                names_fill_up(known, (k + 1) as nat, n);
            }
            k = k + 1;
        }
    }

    /// Picks a name for a new session: letters and digits that chance picks,
    /// again while a session has them. Should chance never hit a free name, names
    /// are counted through.
    pub fn allocate_session_id(&self) -> (r: String)
        requires
            self.wf(),
        ensures
            crate::random::is_token(r@, SESSION_ID_LEN as nat),
            r@.len() == 12,
            !self.knows(r@),
            !self@.sessions.dom().contains(r@),
            !self@.closed.dom().contains(r@),
    {
        let mut left: u64 = u64::MAX;
        while left > 0
            invariant
                self.wf(),
            decreases left,
        {
            let mut drawn: Vec<String> = Vec::new();
            drawn.push(random_token(SESSION_ID_LEN));
            match self.first_free(&drawn) {
                Some(id) => return id,
                None => {},
            }
            left = left - 1;
        }
        self.counted_id()
    }
}

/// Where the first `m` counted names belong to a set, it has that many elements.
proof fn names_fill_up(known: Set<Seq<char>>, m: nat, n: nat)
    requires
        known.finite(),
        m <= token_count(n),
        forall|j: nat| j < m ==> known.contains(#[trigger] counted_token(j, n)),
    ensures
        m <= known.len(),
{
    let names = Seq::new(m, |j: int| counted_token(j as nat, n));
    assert forall|i: int, j: int| 0 <= i < j < names.len() implies names[i] != names[j] by {
        if names[i] == names[j] {
            counted_tokens_differ(i as nat, j as nat, n);
        }
    }
    assert(names.no_duplicates());
    names.unique_seq_to_set();
    assert(names.to_set().subset_of(known));
    vstd::set_lib::lemma_len_subset(names.to_set(), known);
}

/// What a visitor is told when no place is left.
pub open spec fn full_refusal(max_sessions: usize) -> (Status, Seq<char>) {
    (
        Status::TooManyRequests,
        "Too many active sessions (max_sessions="@ + crate::text::decimal(max_sessions as nat)
            + "), please close some sessions and retry"@,
    )
}

fn full_server(max_sessions: usize) -> (r: Refusal)
    ensures
        r@ == full_refusal(max_sessions),
{
    let mut text = "Too many active sessions (max_sessions=".to_string();
    text.append(decimal_text(max_sessions as u64).as_str());
    text.append("), please close some sessions and retry");
    Refusal { status: Status::TooManyRequests, text }
}

/// What a browser is told about its new session.
#[derive(Debug, Clone)]
pub struct CreateSessionResponse {
    pub session_id: String,
    pub offer_sdp: String,
    pub stun_servers: Vec<String>,
}

/// What becomes of the offer for a new session: it is taken, or an error stops
/// it, of which one is that it names no candidate.
pub open spec fn offer_verdict(offer: Result<String, String>) -> Result<
    Seq<char>,
    (Status, Seq<char>),
> {
    match offer {
        Err(e) => Err(crate::serve::internal_refusal(e@)),
        Ok(sdp) => if crate::session::has_candidate(sdp@) {
            Ok(sdp@)
        } else {
            Err(
                crate::serve::internal_refusal(
                    "No ICE candidates were gathered. Check network/firewall and try again."@,
                ),
            )
        },
    }
}

impl ServeState {
    /// What a visitor who wants a session is told, as far as room goes.
    pub open spec fn room_verdict(self) -> Result<(), (Status, Seq<char>)> {
        if self@.taken < self.settings.max_sessions {
            Ok(())
        } else {
            Err(full_refusal(self.settings.max_sessions))
        }
    }

    /// Takes a place for a visitor, or says that none is left.
    pub fn take_place(&mut self) -> (r: Result<(), Refusal>)
        requires
            old(self).wf(),
        ensures
            final(self).wf(),
            final(self).same_server(*old(self)),
            crate::serve::verdict(r) == old(self).room_verdict(),
            final(self)@ == (if r is Ok {
                old(self)@.admitted()
            } else {
                old(self)@
            }),
            r is Ok <==> old(self)@.taken < old(self).settings.max_sessions,
            r matches Err(e) ==> e.status == Status::TooManyRequests,
            final(self)@.taken == old(self)@.taken + (if r is Ok {
                1int
            } else {
                0
            }),
            final(self)@.sessions == old(self)@.sessions,
            final(self)@.closed == old(self)@.closed,
            final(self)@.order == old(self)@.order,
    {
        if self.try_acquire() {
            Ok(())
        } else {
            Err(full_server(self.settings.max_sessions))
        }
    }

    /// What a visitor who sends these headers is told.
    pub open spec fn visitor_verdict(self, headers: HeaderMap<HeaderValue>) -> Result<
        (),
        (Status, Seq<char>),
    > {
        crate::serve::public_verdict(
            self.settings.auth,
            crate::serve::header_text(headers, crate::serve::AUTH_HEADER@),
        )
    }

    /// Begins to answer a request for a session: the visitor may use the server,
    /// and a place is taken for them.
    pub fn create_session_handler(&mut self, headers: &HeaderMap<HeaderValue>) -> (r: Result<
        (),
        Refusal,
    >)
        requires
            old(self).wf(),
        ensures
            final(self).wf(),
            final(self).same_server(*old(self)),
            crate::serve::verdict(r) == (match old(self).visitor_verdict(*headers) {
                Err(e) => Err(e),
                Ok(_) => old(self).room_verdict(),
            }),
            final(self)@ == (if r is Ok {
                old(self)@.admitted()
            } else {
                old(self)@
            }),
            r is Ok ==> old(self)@.taken < old(self).settings.max_sessions,
            old(self).settings.auth is NoAuth ==> (r is Ok <==> old(self)@.taken < old(self).settings.max_sessions),
            r is Ok ==> (old(self).settings.auth matches ServeAuthRuntime::Pin(pin)
                ==> crate::serve::header_text(*headers, "x-bootty-auth"@) == Some(pin@)),
            final(self)@.taken == old(self)@.taken + (if r is Ok {
                1int
            } else {
                0
            }),
            final(self)@.sessions == old(self)@.sessions,
            final(self)@.closed == old(self)@.closed,
            final(self)@.order == old(self)@.order,
    {
        match ensure_public_auth(&self.settings.auth, headers) {
            Err(e) => Err(e),
            Ok(_) => self.take_place(),
        }
    }

    /// Opens the session that a place was taken for, once its offer is there or
    /// known to have failed, under a name that is free. A session that does not
    /// open gives its place back.
    pub fn finish_session(
        &mut self,
        id: &str,
        offer: Result<String, String>,
        client_addr: Option<String>,
        created_at_unix: u64,
        last_active_at_unix: u64,
    ) -> (r: Result<CreateSessionResponse, Refusal>)
        requires
            old(self).wf(),
            old(self)@.sessions.dom().len() < old(self)@.taken,
            offer_verdict(offer) is Ok ==> !old(self).knows(id@),
        ensures
            final(self).wf(),
            final(self).same_server(*old(self)),
            match r {
                Ok(reply) => {
                    &&& offer_verdict(offer) == Ok::<_, (Status, Seq<char>)>(reply.offer_sdp@)
                    &&& reply.session_id@ == id@
                    &&& reply.stun_servers@ == old(self).settings.stun_servers@
                    &&& final(self)@ == old(self)@.with_session(
                        id@,
                        (BrowserSession {
                            answered: false,
                            lifecycle: SessionLifecycleState::Pending,
                            client_addr,
                            created_at_unix,
                            last_active_at_unix,
                        }),
                    )
                },
                Err(e) => {
                    &&& offer_verdict(offer) == Err::<Seq<char>, _>(e@)
                    &&& final(self)@ == old(self)@.released()
                },
            },
            r is Ok <==> offer is Ok && crate::session::has_candidate(offer->Ok_0@),
            r matches Ok(reply) ==> {
                &&& reply.session_id@ == id@
                &&& reply.offer_sdp@ == offer->Ok_0@
                &&& reply.stun_servers@ == old(self).settings.stun_servers@
                &&& final(self)@.sessions == old(self)@.sessions.insert(
                    id@,
                    BrowserSession {
                        answered: false,
                        lifecycle: SessionLifecycleState::Pending,
                        client_addr,
                        created_at_unix,
                        last_active_at_unix,
                    },
                )
                &&& final(self)@.taken == old(self)@.taken
            },
            r matches Err(e) ==> {
                &&& e.status == Status::InternalServerError
                &&& offer matches Err(cause) ==> e.text@ == "Internal error: "@ + cause@
                &&& final(self)@.sessions == old(self)@.sessions
                &&& final(self)@.taken == old(self)@.taken - 1
            },
            final(self)@.closed == old(self)@.closed,
            final(self)@.order == old(self)@.order,
    {
        match offer {
            Err(e) => {
                self.release();
                Err(internal_error(e.as_str()))
            },
            Ok(offer_sdp) => if sdp_has_candidate(offer_sdp.as_str()) {
                let ghost before = *self;
                self.sessions.insert(
                    id,
                    BrowserSession {
                        answered: false,
                        lifecycle: SessionLifecycleState::Pending,
                        client_addr,
                        created_at_unix,
                        last_active_at_unix,
                    },
                );
                proof {
                    self.sessions.names_are_finite();
                    assert(self@.sessions.dom() =~= before@.sessions.dom().insert(id@));
                    assert(self@.closed == before@.closed && self@.order == before@.order);
                }
                Ok(
                    CreateSessionResponse {
                        session_id: id.to_string(),
                        offer_sdp,
                        stun_servers: copy_texts(&self.settings.stun_servers),
                    },
                )
            } else {
                self.release();
                Err(
                    internal_error(
                        "No ICE candidates were gathered. Check network/firewall and try again.",
                    ),
                )
            },
        }
    }

    /// Puts a session in place of the one of the same name.
    fn put_session(&mut self, id: &str, session: BrowserSession)
        requires
            old(self).wf(),
            old(self)@.sessions.dom().contains(id@),
        ensures
            final(self).wf(),
            final(self).same_server(*old(self)),
            final(self)@ == old(self)@.with_session(id@, session),
    {
        let ghost before = *self;
        self.sessions.insert(id, session);
        proof {
            assert(self@.sessions.dom() =~= before@.sessions.dom());
            assert(self@.closed == before@.closed && self@.order == before@.order);
        }
    }
}

/// A session that an answer was submitted for, or taken back from.
pub open spec fn with_answered(s: BrowserSession, answered: bool) -> BrowserSession {
    BrowserSession { answered, ..s }
}

/// A session that was heard of.
pub open spec fn heard_of(s: BrowserSession, now: u64) -> BrowserSession {
    BrowserSession { last_active_at_unix: now, ..s }
}

/// A session whose channel opened.
pub open spec fn connected(s: BrowserSession, now: u64) -> BrowserSession {
    BrowserSession {
        lifecycle: SessionLifecycleState::Connected,
        last_active_at_unix: now,
        ..s
    }
}

impl Registry {
    /// An open session changes; where there is none of this name nothing does.
    pub open spec fn changed(
        self,
        id: Seq<char>,
        change: spec_fn(BrowserSession) -> BrowserSession,
    ) -> Registry {
        if self.sessions.dom().contains(id) {
            self.with_session(id, change(self.sessions[id]))
        } else {
            self
        }
    }
}

impl BrowserSession {
    fn copy(&self) -> (r: BrowserSession)
        ensures
            r == *self,
    {
        BrowserSession {
            answered: self.answered,
            lifecycle: self.lifecycle,
            client_addr: copy_option(&self.client_addr),
            created_at_unix: self.created_at_unix,
            last_active_at_unix: self.last_active_at_unix,
        }
    }
}

impl ServeState {
    fn set_answered(&mut self, id: &str, answered: bool)
        requires
            old(self).wf(),
        ensures
            final(self).wf(),
            final(self).same_server(*old(self)),
            final(self)@ == old(self)@.changed(id@, |s: BrowserSession| with_answered(s, answered)),
    {
        match self.sessions.get(id) {
            Some(s) => {
                let mut session = s.copy();
                session.answered = answered;
                self.put_session(id, session);
            },
            None => {},
        }
    }

    /// Notes that a session was heard of.
    pub fn update_last_active(&mut self, id: &str, now: u64)
        requires
            old(self).wf(),
        ensures
            final(self).wf(),
            final(self).same_server(*old(self)),
            final(self)@ == old(self)@.changed(id@, |s: BrowserSession| heard_of(s, now)),
            old(self)@.sessions.dom().contains(id@) ==> final(self)@.sessions == old(self)@.sessions.insert(
                id@,
                BrowserSession { last_active_at_unix: now, ..old(self)@.sessions[id@] },
            ),
            !old(self)@.sessions.dom().contains(id@) ==> final(self)@.sessions == old(self)@.sessions,
            final(self)@.closed == old(self)@.closed,
            final(self)@.order == old(self)@.order,
            final(self)@.taken == old(self)@.taken,
    {
        match self.sessions.get(id) {
            Some(s) => {
                let mut session = s.copy();
                session.last_active_at_unix = now;
                self.put_session(id, session);
            },
            None => {},
        }
    }

    /// Notes that the channel of a session opened: whatever it was before, the
    /// session is connected from now on.
    pub fn mark_connected(&mut self, id: &str, now: u64)
        requires
            old(self).wf(),
        ensures
            final(self).wf(),
            final(self).same_server(*old(self)),
            final(self)@ == old(self)@.changed(id@, |s: BrowserSession| connected(s, now)),
            old(self)@.sessions.dom().contains(id@) ==> final(self)@.sessions == old(self)@.sessions.insert(
                id@,
                BrowserSession {
                    answered: old(self)@.sessions[id@].answered,
                    lifecycle: SessionLifecycleState::Connected,
                    client_addr: old(self)@.sessions[id@].client_addr,
                    created_at_unix: old(self)@.sessions[id@].created_at_unix,
                    last_active_at_unix: now,
                },
            ),
            !old(self)@.sessions.dom().contains(id@) ==> final(self)@.sessions == old(self)@.sessions,
            final(self)@.closed == old(self)@.closed,
            final(self)@.order == old(self)@.order,
            final(self)@.taken == old(self)@.taken,
    {
        match self.sessions.get(id) {
            Some(s) => {
                let mut session = s.copy();
                session.lifecycle = SessionLifecycleState::Connected;
                session.last_active_at_unix = now;
                self.put_session(id, session);
            },
            None => {},
        }
    }

    /// Whether a session is to be ended because no answer came in time.
    pub fn answer_timed_out(&self, id: &str) -> (r: bool)
        requires
            self.wf(),
        ensures
            r == (self@.sessions.dom().contains(id@) && !self@.sessions[id@].answered),
    {
        match self.sessions.get(id) {
            Some(s) => !s.answered,
            None => false,
        }
    }
}

/// What is left to do when a session has ended.
#[derive(Debug, Clone, Copy, PartialEq, Eq, Structural)]
pub struct SessionEnd {
    /// The other side is told that it is over.
    pub send_quit: bool,
    pub close_connection: bool,
}

/// What is left to do when a session has ended, given whether the other side is
/// to be told and whether there is a channel to it.
pub fn ended(send_quit: bool, has_channel: bool) -> (r: SessionEnd)
    ensures
        r == (SessionEnd { send_quit: send_quit && has_channel, close_connection: true }),
{
    SessionEnd { send_quit: send_quit && has_channel, close_connection: true }
}

/// Why a session ends.
#[derive(Debug, Clone, Copy, PartialEq, Eq, Structural)]
pub enum EndReason {
    /// The visitor asked for it.
    Deleted,
    /// No answer came in time.
    Unanswered,
    /// The server shuts down.
    Shutdown,
    /// The connection ended, or reported an error.
    Lost,
}

impl EndReason {
    /// Whether the other side is to be told that the session is over: where it
    /// did not end the connection itself.
    pub fn sends_quit(&self) -> (r: bool)
        ensures
            r == !(self is Lost),
    {
        match self {
            EndReason::Lost => false,
            _ => true,
        }
    }
}

/// What is said of a session that is not there.
pub open spec fn missing_refusal() -> (Status, Seq<char>) {
    (Status::NotFound, "Session does not exist or has been closed"@)
}

fn missing_session() -> (r: Refusal)
    ensures
        r@ == missing_refusal(),
{
    Refusal::new(Status::NotFound, "Session does not exist or has been closed")
}

/// The words of a request, or what is said against it.
pub open spec fn text_verdict(r: Result<String, Refusal>) -> Result<
    Seq<char>,
    (Status, Seq<char>),
> {
    match r {
        Ok(s) => Ok(s@),
        Err(e) => Err(e@),
    }
}

impl Registry {
    /// What becomes of an answer for a session: the answer that is to be
    /// applied, without the white space around it, or what is said against it.
    pub open spec fn answer_verdict(self, id: Seq<char>, body: Seq<char>) -> Result<
        Seq<char>,
        (Status, Seq<char>),
    > {
        let answer = crate::text::trimmed(body);
        if !self.sessions.dom().contains(id) {
            Err(missing_refusal())
        } else if answer.len() == 0 {
            Err((Status::BadRequest, "Answer cannot be empty"@))
        } else if !crate::session::has_candidate(answer) {
            Err(
                (
                    Status::BadRequest,
                    "Missing ICE candidate in Answer, please check browser network and retry"@,
                ),
            )
        } else if self.sessions[id].answered {
            Err((Status::Conflict, "Answer has already been submitted for this session"@))
        } else {
            match crate::session::answer_fault(answer) {
                Some(fault) => Err(crate::serve::internal_refusal(fault)),
                None => Ok(answer),
            }
        }
    }

    /// Whether an answer for a session counts as submitted: nothing stands
    /// against it before it is parsed.
    pub open spec fn takes_answer(self, id: Seq<char>, body: Seq<char>) -> bool {
        let answer = crate::text::trimmed(body);
        &&& self.sessions.dom().contains(id)
        &&& answer.len() > 0
        &&& crate::session::has_candidate(answer)
        &&& !self.sessions[id].answered
    }

    /// The registry after an answer came in.
    pub open spec fn answer_submitted(self, id: Seq<char>, body: Seq<char>) -> Registry {
        if self.takes_answer(id, body) {
            self.with_session(id, with_answered(self.sessions[id], true))
        } else {
            self
        }
    }
}

/// An answer that passed every test but the parser's, and what the parser said.
pub fn parsed_answer(answer: String, parsed: Result<(), String>) -> (r: Result<String, Refusal>)
    ensures
        text_verdict(r) == (match parsed {
            Ok(_) => Ok(answer@),
            Err(e) => Err(crate::serve::internal_refusal(e@)),
        }),
{
    match parsed {
        Ok(_) => Ok(answer),
        Err(e) => Err(internal_error(e.as_str())),
    }
}

impl ServeState {
    /// Takes in the answer for a session. A session takes one only; it counts as
    /// submitted even where it turns out not to parse.
    pub fn submit_answer(&mut self, id: &str, body: &str) -> (r: Result<String, Refusal>)
        requires
            old(self).wf(),
        ensures
            final(self).wf(),
            final(self).same_server(*old(self)),
            text_verdict(r) == old(self)@.answer_verdict(id@, body@),
            final(self)@ == old(self)@.answer_submitted(id@, body@),
            r is Ok <==> {
                &&& old(self)@.sessions.dom().contains(id@)
                &&& !old(self)@.sessions[id@].answered
                &&& crate::session::has_candidate(crate::text::trimmed(body@))
                &&& crate::session::answer_fault(crate::text::trimmed(body@)) is None
            },
            r matches Ok(answer) ==> answer@ == crate::text::trimmed(body@),
            !old(self)@.sessions.dom().contains(id@) <==> (r is Err && r->Err_0.status
                == Status::NotFound),
            (old(self)@.sessions.dom().contains(id@) && !crate::session::has_candidate(
                crate::text::trimmed(body@),
            )) <==> (r is Err && r->Err_0.status == Status::BadRequest),
            (old(self)@.sessions.dom().contains(id@) && crate::session::has_candidate(
                crate::text::trimmed(body@),
            ) && old(self)@.sessions[id@].answered) <==> (r is Err && r->Err_0.status
                == Status::Conflict),
            r is Err && r->Err_0.status == Status::InternalServerError ==> (
            crate::session::answer_fault(crate::text::trimmed(body@)) matches Some(fault)
                && r->Err_0.text@ == "Internal error: "@ + fault),
            old(self)@.sessions.dom().contains(id@) && crate::session::has_candidate(
                crate::text::trimmed(body@),
            ) ==> final(self)@.sessions == old(self)@.sessions.insert(
                id@,
                BrowserSession { answered: true, ..old(self)@.sessions[id@] },
            ),
            !(old(self)@.sessions.dom().contains(id@) && crate::session::has_candidate(
                crate::text::trimmed(body@),
            )) ==> final(self)@.sessions == old(self)@.sessions,
            final(self)@.closed == old(self)@.closed,
            final(self)@.order == old(self)@.order,
            final(self)@.taken == old(self)@.taken,
    {
        proof {
            crate::session::candidate_stands_in_a_line(crate::text::trimmed(body@));
            reveal_strlit("a=candidate:");
        }
        let answered = match self.sessions.get(id) {
            None => return Err(missing_session()),
            Some(session) => session.answered,
        };
        let answer = trim(body);
        if answer.as_str().is_empty() {
            return Err(Refusal::new(Status::BadRequest, "Answer cannot be empty"));
        }
        if !sdp_has_candidate(answer.as_str()) {
            return Err(
                Refusal::new(
                    Status::BadRequest,
                    "Missing ICE candidate in Answer, please check browser network and retry",
                ),
            );
        }
        if answered {
            return Err(
                Refusal::new(
                    Status::Conflict,
                    "Answer has already been submitted for this session",
                ),
            );
        }
        self.set_answered(id, true);
        let parsed = check_answer(answer.as_str());
        parsed_answer(answer, parsed)
    }

    /// Begins to answer a request that brings the answer for a session.
    pub fn answer_handler(
        &mut self,
        headers: &HeaderMap<HeaderValue>,
        id: &str,
        body: &str,
    ) -> (r: Result<String, Refusal>)
        requires
            old(self).wf(),
        ensures
            final(self).wf(),
            final(self).same_server(*old(self)),
            match old(self).visitor_verdict(*headers) {
                Err(e) => text_verdict(r) == Err::<Seq<char>, _>(e) && final(self)@ == old(self)@,
                Ok(_) => text_verdict(r) == old(self)@.answer_verdict(id@, body@) && final(self)@
                    == old(self)@.answer_submitted(id@, body@),
            },
            r matches Ok(answer) ==> {
                &&& answer@ == crate::text::trimmed(body@)
                &&& old(self)@.sessions.dom().contains(id@)
                &&& !old(self)@.sessions[id@].answered
                &&& final(self)@.sessions == old(self)@.sessions.insert(
                    id@,
                    BrowserSession { answered: true, ..old(self)@.sessions[id@] },
                )
            },
            old(self).settings.auth is NoAuth ==> (r is Ok <==> {
                &&& old(self)@.sessions.dom().contains(id@)
                &&& !old(self)@.sessions[id@].answered
                &&& crate::session::has_candidate(crate::text::trimmed(body@))
                &&& crate::session::answer_fault(crate::text::trimmed(body@)) is None
            }),
    {
        match ensure_public_auth(&self.settings.auth, headers) {
            Err(e) => Err(e),
            Ok(_) => self.submit_answer(id, body),
        }
    }

    /// Finishes with an answer once it was applied to the connection, or could
    /// not be. In the second case another one may be submitted.
    pub fn finish_answer(&mut self, id: &str, applied: Result<(), String>, now: u64) -> (r: Result<
        String,
        Refusal,
    >)
        requires
            old(self).wf(),
        ensures
            final(self).wf(),
            final(self).same_server(*old(self)),
            match applied {
                Ok(_) => {
                    &&& text_verdict(r) == Ok::<_, (Status, Seq<char>)>("Answer received"@)
                    &&& final(self)@ == old(self)@.changed(
                        id@,
                        |s: BrowserSession| heard_of(s, now),
                    )
                },
                Err(e) => {
                    &&& text_verdict(r) == Err::<Seq<char>, _>(crate::serve::internal_refusal(e@))
                    &&& final(self)@ == old(self)@.changed(
                        id@,
                        |s: BrowserSession| with_answered(s, false),
                    )
                },
            },
            applied is Ok ==> (r matches Ok(said) && said@ == "Answer received"@),
            applied matches Err(e) ==> (r matches Err(said) && said.status
                == Status::InternalServerError && said.text@ == "Internal error: "@ + e@),
            old(self)@.sessions.dom().contains(id@) && applied is Ok ==> final(self)@.sessions
                == old(self)@.sessions.insert(
                id@,
                BrowserSession { last_active_at_unix: now, ..old(self)@.sessions[id@] },
            ),
            old(self)@.sessions.dom().contains(id@) && applied is Err ==> final(self)@.sessions
                == old(self)@.sessions.insert(
                id@,
                BrowserSession { answered: false, ..old(self)@.sessions[id@] },
            ),
            !old(self)@.sessions.dom().contains(id@) ==> final(self)@.sessions == old(self)@.sessions,
            final(self)@.closed == old(self)@.closed,
            final(self)@.order == old(self)@.order,
            final(self)@.taken == old(self)@.taken,
    {
        match applied {
            Ok(_) => {
                self.update_last_active(id, now);
                Ok("Answer received".to_string())
            },
            Err(e) => {
                self.set_answered(id, false);
                Err(internal_error(e.as_str()))
            },
        }
    }

    /// Ends a session, if there is one of this name, and says what is left to do:
    /// its connection is closed, and before that the other side is told so where
    /// it is to be and there is a channel to it.
    pub fn close_session(&mut self, id: &str, send_quit: bool, has_channel: bool) -> (r: Option<
        SessionEnd,
    >)
        requires
            old(self).wf(),
        ensures
            final(self).wf(),
            final(self).same_server(*old(self)),
            final(self)@ == old(self)@.without_session(id@),
            match r {
                Some(end) => {
                    &&& old(self)@.sessions.dom().contains(id@)
                    &&& end == (SessionEnd {
                        send_quit: send_quit && has_channel,
                        close_connection: true,
                    })
                },
                None => !old(self)@.sessions.dom().contains(id@),
            },
            final(self)@.sessions == old(self)@.sessions.remove(id@),
            final(self)@.taken == old(self)@.taken,
            r is Some ==> final(self)@.closed.dom().contains(id@),
    {
        if self.remove_session(id) {
            Some(ended(send_quit, has_channel))
        } else {
            None
        }
    }

    /// Ends a session that a visitor asked to end.
    pub fn end_session(&mut self, id: &str) -> (r: Result<String, Refusal>)
        requires
            old(self).wf(),
        ensures
            final(self).wf(),
            final(self).same_server(*old(self)),
            text_verdict(r) == (if old(self)@.sessions.dom().contains(id@) {
                Ok("Session closed"@)
            } else {
                Err(missing_refusal())
            }),
            final(self)@ == old(self)@.without_session(id@),
            r is Ok <==> old(self)@.sessions.dom().contains(id@),
            r matches Err(e) ==> e.status == Status::NotFound,
            final(self)@.sessions == old(self)@.sessions.remove(id@),
            final(self)@.taken == old(self)@.taken,
            r is Ok ==> final(self)@.closed.dom().contains(id@),
    {
        if self.remove_session(id) {
            Ok("Session closed".to_string())
        } else {
            Err(missing_session())
        }
    }

    /// Answers a request to end a session.
    pub fn delete_session_handler(&mut self, headers: &HeaderMap<HeaderValue>, id: &str) -> (r:
        Result<String, Refusal>)
        requires
            old(self).wf(),
        ensures
            final(self).wf(),
            final(self).same_server(*old(self)),
            match old(self).visitor_verdict(*headers) {
                Err(e) => text_verdict(r) == Err::<Seq<char>, _>(e) && final(self)@ == old(self)@,
                Ok(_) => {
                    &&& text_verdict(r) == (if old(self)@.sessions.dom().contains(id@) {
                        Ok("Session closed"@)
                    } else {
                        Err(missing_refusal())
                    })
                    &&& final(self)@ == old(self)@.without_session(id@)
                },
            },
            r is Ok ==> final(self)@.sessions == old(self)@.sessions.remove(id@) && final(self)@.closed.dom().contains(id@),
            r is Err ==> final(self)@.sessions == old(self)@.sessions,
            old(self).settings.auth is NoAuth ==> (r is Ok <==> old(self)@.sessions.dom().contains(
                id@,
            )),
    {
        assert(!self@.sessions.dom().contains(id@) ==> self@.sessions.remove(id@)
            =~= self@.sessions);
        match ensure_public_auth(&self.settings.auth, headers) {
            Err(e) => Err(e),
            Ok(_) => self.end_session(id),
        }
    }

    /// Ends all sessions, and hands out their names in the order in which they
    /// ended.
    pub fn close_all_sessions(&mut self) -> (r: Vec<String>)
        requires
            old(self).wf(),
        ensures
            final(self).wf(),
            final(self).same_server(*old(self)),
            crate::text::views(r@).no_duplicates(),
            forall|id: Seq<char>| #[trigger]
                old(self)@.sessions.dom().contains(id) <==> crate::text::views(r@).contains(id),
            final(self)@ == old(self)@.without_sessions(crate::text::views(r@)),
            final(self)@.sessions.dom() == Set::<Seq<char>>::empty(),
            final(self)@.taken == old(self)@.taken,
            final(self)@.order == (old(self)@.order + crate::text::views(r@)).skip(
                if old(self)@.order.len() + r@.len() > 1024 {
                    old(self)@.order.len() + r@.len() - 1024
                } else {
                    0
                },
            ),
    {
        let ids = self.sessions.keys();
        let ghost names = crate::text::views(ids@);
        let ghost before = *self;
        let mut i: usize = 0;
        assert(names.take(0) =~= Seq::<Seq<char>>::empty());
        while i < ids.len()
            invariant
                i <= ids@.len(),
                names == crate::text::views(ids@),
                self.wf(),
                self.same_server(before),
                self@ == before@.without_sessions(names.take(i as int)),
                forall|id: Seq<char>| #[trigger]
                    self@.sessions.dom().contains(id) ==> before@.sessions.dom().contains(id)
                        && !names.take(i as int).contains(id),
            decreases ids@.len() - i,
        {
            let ghost was = self@;
            let _ = self.remove_session(ids[i].as_str());
            let ghost next = names.take(i + 1);
            assert(next.drop_last() =~= names.take(i as int));
            assert(next.last() == names[i as int]);
            assert forall|id: Seq<char>| #[trigger]
                self@.sessions.dom().contains(id) implies before@.sessions.dom().contains(id)
                && !next.contains(id) by {
                assert(was.sessions.dom().contains(id));
                assert(id != names[i as int]);
                if next.contains(id) {
                    let k = next.index_of(id);
                    assert(next[k] == id);
                    assert(names.take(i as int)[k] == id);
                }
            }
            i += 1;
        }
        assert(names.take(ids@.len() as int) =~= names);
        assert(self@.sessions.dom() =~= Set::<Seq<char>>::empty());
        proof {
            assert forall|k: int| 0 <= k < names.len() implies before@.sessions.dom().contains(
                #[trigger] names[k],
            ) by {
                assert(names.contains(names[k]));
            }
            ended_sessions_are_remembered_in_order(before@, names);
        }
        ids
    }
}

/// A session, open or ended, as a list of sessions shows it.
#[derive(Debug, Clone)]
pub struct SessionRow {
    pub id: String,
    pub state: SessionLifecycleState,
    pub client_addr: Option<String>,
    pub created_at_unix: u64,
    pub last_active_at_unix: u64,
}

impl Registry {
    /// Whether a row shows a session as it is. An open session hides an ended
    /// one of the same name.
    pub open spec fn shown_by(self, row: SessionRow) -> bool {
        if self.sessions.dom().contains(row.id@) {
            let s = self.sessions[row.id@];
            &&& row.state == s.lifecycle
            &&& row.client_addr == s.client_addr
            &&& row.created_at_unix == s.created_at_unix
            &&& row.last_active_at_unix == s.last_active_at_unix
        } else {
            &&& self.closed.dom().contains(row.id@)
            &&& row.state == SessionLifecycleState::Closed
            &&& row.client_addr == self.closed[row.id@].client_addr
            &&& row.created_at_unix == self.closed[row.id@].created_at_unix
            &&& row.last_active_at_unix == self.closed[row.id@].last_active_at_unix
        }
    }

    /// Whether rows list the sessions: each open or remembered one is there, as
    /// it is and once, and one that was created earlier stands before.
    pub open spec fn listed_by(self, rows: Seq<SessionRow>) -> bool {
        &&& by_creation(rows)
        &&& distinct_rows(rows)
        &&& forall|i: int| 0 <= i < rows.len() ==> self.shown_by(#[trigger] rows[i])
        &&& forall|id: Seq<char>| #[trigger]
            self.sessions.dom().contains(id) ==> has_row(rows, id)
        &&& forall|id: Seq<char>| #[trigger]
            self.closed.dom().contains(id) ==> has_row(rows, id)
    }
}

/// Whether rows stand in the order in which their sessions were created.
pub open spec fn by_creation(rows: Seq<SessionRow>) -> bool {
    forall|i: int, j: int|
        0 <= i < j < rows.len() ==> (#[trigger] rows[i]).created_at_unix <= (
        #[trigger] rows[j]).created_at_unix
}

/// Whether no two rows are of the same session.
pub open spec fn distinct_rows(rows: Seq<SessionRow>) -> bool {
    forall|i: int, j: int|
        0 <= i < j < rows.len() ==> (#[trigger] rows[i]).id@ != (#[trigger] rows[j]).id@
}

/// Whether one of the rows is of a session.
pub open spec fn has_row(rows: Seq<SessionRow>, id: Seq<char>) -> bool {
    exists|i: int| 0 <= i < rows.len() && (#[trigger] rows[i]).id@ == id
}

/// Puts a row behind those of sessions that were not created later.
fn insert_row(rows: &mut Vec<SessionRow>, row: SessionRow)
    requires
        by_creation(old(rows)@),
        distinct_rows(old(rows)@),
        !has_row(old(rows)@, row.id@),
    ensures
        by_creation(final(rows)@),
        distinct_rows(final(rows)@),
        exists|k: int|
            0 <= k <= old(rows)@.len() && final(rows)@ == #[trigger] old(rows)@.insert(k, row),
        forall|id: Seq<char>| #[trigger]
            has_row(final(rows)@, id) <==> has_row(old(rows)@, id) || id == row.id@,
{
    let ghost before = rows@;
    let mut k: usize = rows.len();
    while k > 0 && rows[k - 1].created_at_unix > row.created_at_unix
        invariant
            k <= rows@.len(),
            rows@ == before,
            by_creation(before),
            forall|j: int|
                k <= j < before.len() ==> (#[trigger] before[j]).created_at_unix
                    > row.created_at_unix,
        decreases k,
    {
        k -= 1;
    }
    rows.insert(k, row);
    assert(rows@ == before.insert(k as int, row));
    assert forall|id: Seq<char>| #[trigger] has_row(rows@, id) <==> has_row(before, id) || id
        == row.id@ by {
        if has_row(rows@, id) {
            let i = choose|i: int| 0 <= i < rows@.len() && (#[trigger] rows@[i]).id@ == id;
            if i < k {
                assert(before[i].id@ == id);
            } else if i > k {
                assert(before[i - 1].id@ == id);
            }
        }
        if has_row(before, id) {
            let i = choose|i: int| 0 <= i < before.len() && (#[trigger] before[i]).id@ == id;
            let j = if i < k {
                i
            } else {
                i + 1
            };
            assert(rows@[j].id@ == id);
        }
        if id == row.id@ {
            assert(rows@[k as int].id@ == id);
        }
    }
}

impl ServeState {
    /// The sessions, open and ended, the first created first.
    pub fn session_rows(&self) -> (r: Vec<SessionRow>)
        requires
            self.wf(),
        ensures
            self@.listed_by(r@),
            forall|i: int|
                #![trigger r@[i]]
                0 <= i < r@.len() && self@.sessions.dom().contains(r@[i].id@) ==> {
                    let s = self@.sessions[r@[i].id@];
                    &&& r@[i].state == s.lifecycle
                    &&& r@[i].client_addr == s.client_addr
                    &&& r@[i].created_at_unix == s.created_at_unix
                    &&& r@[i].last_active_at_unix == s.last_active_at_unix
                },
            forall|i: int|
                #![trigger r@[i]]
                0 <= i < r@.len() && !self@.sessions.dom().contains(r@[i].id@) ==> {
                    let s = self@.closed[r@[i].id@];
                    &&& self@.closed.dom().contains(r@[i].id@)
                    &&& r@[i].state == SessionLifecycleState::Closed
                    &&& r@[i].client_addr == s.client_addr
                    &&& r@[i].created_at_unix == s.created_at_unix
                    &&& r@[i].last_active_at_unix == s.last_active_at_unix
                },
            forall|id: Seq<char>|
                #![trigger self@.knows(id)]
                self@.knows(id) ==> exists|i: int| 0 <= i < r@.len() && (#[trigger] r@[i]).id@ == id,
            forall|i: int, j: int|
                #![trigger r@[i], r@[j]]
                0 <= i < j < r@.len() ==> r@[i].created_at_unix <= r@[j].created_at_unix
                    && r@[i].id@ != r@[j].id@,
    {
        let mut rows: Vec<SessionRow> = Vec::new();
        let active = self.sessions.keys();
        let ghost names = crate::text::views(active@);
        let mut i: usize = 0;
        while i < active.len()
            invariant
                self.wf(),
                i <= active@.len(),
                names == crate::text::views(active@),
                names.no_duplicates(),
                forall|id: Seq<char>| #[trigger]
                    self.sessions@.dom().contains(id) <==> names.contains(id),
                by_creation(rows@),
                distinct_rows(rows@),
                forall|j: int| 0 <= j < rows@.len() ==> self@.shown_by(#[trigger] rows@[j]),
                forall|id: Seq<char>| #[trigger]
                    has_row(rows@, id) <==> names.take(i as int).contains(id),
            decreases active@.len() - i,
        {
            let id = &active[i];
            let ghost name = names[i as int];
            assert(names.contains(name));
            match self.sessions.get(id.as_str()) {
                Some(session) => {
                    let row = SessionRow {
                        id: id.clone(),
                        state: session.lifecycle,
                        client_addr: copy_option(&session.client_addr),
                        created_at_unix: session.created_at_unix,
                        last_active_at_unix: session.last_active_at_unix,
                    };
                    assert(self@.shown_by(row));
                    proof {
                        if has_row(rows@, name) {
                            let k = names.take(i as int).index_of(name);
                            assert(names.take(i as int)[k] == name);
                            assert(names[k] == names[i as int]);
                        }
                    }
                    insert_row(&mut rows, row);
                    assert forall|k: Seq<char>| #[trigger] has_row(rows@, k) <==> names.take(
                        i + 1,
                    ).contains(k) by {
                        taken_names(names, i as int, k);
                    }
                },
                None => {},
            }
            i += 1;
        }
        assert(names.take(active@.len() as int) =~= names);
        let ended = self.closed_sessions.keys();
        let ghost past = crate::text::views(ended@);
        let mut j: usize = 0;
        assert(past.take(0) =~= Seq::<Seq<char>>::empty());
        while j < ended.len()
            invariant
                self.wf(),
                j <= ended@.len(),
                past == crate::text::views(ended@),
                past.no_duplicates(),
                forall|id: Seq<char>| #[trigger]
                    self.closed_sessions@.dom().contains(id) <==> past.contains(id),
                by_creation(rows@),
                distinct_rows(rows@),
                forall|k: int| 0 <= k < rows@.len() ==> self@.shown_by(#[trigger] rows@[k]),
                forall|id: Seq<char>| #[trigger]
                    has_row(rows@, id) <==> self.sessions@.dom().contains(id) || past.take(
                        j as int,
                    ).contains(id),
            decreases ended@.len() - j,
        {
            let id = &ended[j];
            let ghost name = past[j as int];
            assert(past.contains(name));
            if !self.sessions.contains_key(id.as_str()) {
                match self.closed_sessions.get(id.as_str()) {
                    Some(info) => {
                        let row = SessionRow {
                            id: id.clone(),
                            state: SessionLifecycleState::Closed,
                            client_addr: copy_option(&info.client_addr),
                            created_at_unix: info.created_at_unix,
                            last_active_at_unix: info.last_active_at_unix,
                        };
                        assert(self@.shown_by(row));
                        proof {
                            if has_row(rows@, name) {
                                let k = past.take(j as int).index_of(name);
                                assert(past.take(j as int)[k] == name);
                                assert(past[k] == past[j as int]);
                            }
                        }
                        insert_row(&mut rows, row);
                    },
                    None => {},
                }
            }
            assert forall|k: Seq<char>| #[trigger] has_row(rows@, k)
                <==> self.sessions@.dom().contains(k) || past.take(j + 1).contains(k) by {
                taken_names(past, j as int, k);
            }
            j += 1;
        }
        assert(past.take(ended@.len() as int) =~= past);
        assert forall|id: Seq<char>| #[trigger] self@.knows(id) implies exists|i: int|
            0 <= i < rows@.len() && (#[trigger] rows@[i]).id@ == id by {
            assert(self@.sessions.dom().contains(id) || self@.closed.dom().contains(id));
            assert(has_row(rows@, id));
        }
        rows
    }
}

/// One more name is one more name.
proof fn taken_names(names: Seq<Seq<char>>, i: int, k: Seq<char>)
    requires
        0 <= i < names.len(),
    ensures
        names.take(i + 1).contains(k) <==> names.take(i).contains(k) || k == names[i],
{
    let next = names.take(i + 1);
    if next.contains(k) {
        let j = next.index_of(k);
        assert(next[j] == k);
        if j < i {
            assert(names.take(i)[j] == k);
        }
    }
    if names.take(i).contains(k) {
        let j = names.take(i).index_of(k);
        assert(names.take(i)[j] == k);
        assert(next[j] == k);
    }
    assert(next[i] == names[i]);
}

/// No more sessions are open than the server has room for.
pub proof fn sessions_fit(state: ServeState)
    requires
        state.wf(),
    ensures
        state@.sessions.dom().finite(),
        state@.sessions.dom().len() <= state.settings.max_sessions,
{
}

/// No more ended sessions are remembered than the limit allows.
pub proof fn history_is_bounded(state: ServeState)
    requires
        state.wf(),
    ensures
        state@.closed.dom().finite(),
        state@.closed.dom().len() <= CLOSED_SESSION_HISTORY_LIMIT,
{
    state.closed_sessions.names_are_finite();
    let order = state@.order;
    vstd::seq_lib::seq_to_set_is_finite(order);
    order.lemma_cardinality_of_set();
    assert(state@.closed.dom().subset_of(order.to_set()));
    vstd::set_lib::lemma_len_subset(state@.closed.dom(), order.to_set());
}

/// A place that is taken and given back leaves everything as it was.
pub proof fn release_undoes_admission(reg: Registry)
    ensures
        reg.admitted().released() == reg,
{
    assert(reg.admitted().released() =~= reg);
}

/// A session that ends is no longer open, and is remembered as it was last.
/// Nothing changes for the other open sessions.
pub proof fn ended_session_is_remembered(reg: Registry, id: Seq<char>)
    requires
        reg.wf(),
        reg.sessions.dom().contains(id),
    ensures
        !reg.without_session(id).sessions.dom().contains(id),
        reg.without_session(id).closed.dom().contains(id),
        reg.without_session(id).closed[id] == remains(reg.sessions[id]),
        forall|other: Seq<char>|
            other != id ==> {
                &&& reg.without_session(id).sessions.dom().contains(other)
                    == #[trigger] reg.sessions.dom().contains(other)
                &&& reg.sessions.dom().contains(other) ==> reg.without_session(id).sessions[other]
                    == reg.sessions[other]
            },
{
    let order = reg.order.push(id);
    assert(!reg.order.contains(id));
    if reg.order.len() > 0 {
        assert(order[0] == reg.order[0]);
        assert(reg.order.contains(reg.order[0]));
    }
}

/// Ending a session keeps the history in order.
pub proof fn ending_keeps_history(reg: Registry, id: Seq<char>)
    requires
        reg.wf(),
    ensures
        reg.without_session(id).wf(),
{
    let end = reg.without_session(id);
    if reg.sessions.dom().contains(id) {
        let order = reg.order.push(id);
        assert(!reg.order.contains(id));
        assert forall|i: int, j: int| 0 <= i < j < order.len() implies order[i] != order[j] by {
            if j == reg.order.len() {
                assert(reg.order.contains(reg.order[i]));
            }
        }
        assert(order.no_duplicates());
        assert forall|k: Seq<char>| #[trigger] end.order.contains(k)
            <==> end.closed.dom().contains(k) by {
            if end.order.contains(k) {
                let i = end.order.index_of(k);
                assert(end.order[i] == k);
                if order.len() > CLOSED_SESSION_HISTORY_LIMIT {
                    assert(order[i + 1] == k);
                    assert(k != order[0]);
                    if i + 1 < reg.order.len() {
                        assert(reg.order[i + 1] == k);
                        assert(reg.order.contains(k));
                    }
                } else if i < reg.order.len() {
                    assert(reg.order[i] == k);
                    assert(reg.order.contains(k));
                }
            }
            if end.closed.dom().contains(k) {
                let i = if k == id {
                    reg.order.len() as int
                } else {
                    assert(reg.order.contains(k));
                    reg.order.index_of(k)
                };
                assert(order[i] == k);
                if order.len() > CLOSED_SESSION_HISTORY_LIMIT {
                    assert(i != 0);
                    assert(end.order[i - 1] == k);
                } else {
                    assert(end.order[i] == k);
                }
            }
        }
    }
}

/// Ending sessions one after the other leaves their names at the end of the
/// history, the oldest names dropped beyond its limit, and for each name that is
/// left what its session was; the other sessions stay open, and no place is given
/// back.
pub proof fn ended_sessions_are_remembered_in_order(reg: Registry, ids: Seq<Seq<char>>)
    requires
        reg.wf(),
        ids.no_duplicates(),
        forall|i: int| 0 <= i < ids.len() ==> reg.sessions.dom().contains(#[trigger] ids[i]),
    ensures
        reg.without_sessions(ids).wf(),
        reg.without_sessions(ids).order == (reg.order + ids).skip(
            if reg.order.len() + ids.len() > 1024 {
                reg.order.len() + ids.len() - 1024
            } else {
                0
            },
        ),
        forall|id: Seq<char>| #[trigger]
            reg.without_sessions(ids).sessions.dom().contains(id) <==> reg.sessions.dom().contains(
                id,
            ) && !ids.contains(id),
        forall|id: Seq<char>| #[trigger]
            reg.without_sessions(ids).sessions.dom().contains(id) ==> reg.without_sessions(
                ids,
            ).sessions[id] == reg.sessions[id],
        forall|id: Seq<char>| #[trigger]
            reg.without_sessions(ids).closed.dom().contains(id) && ids.contains(id)
                ==> reg.without_sessions(ids).closed[id] == (ClosedSessionInfo {
                client_addr: reg.sessions[id].client_addr,
                created_at_unix: reg.sessions[id].created_at_unix,
                last_active_at_unix: reg.sessions[id].last_active_at_unix,
            }),
        reg.without_sessions(ids).taken == reg.taken,
    decreases ids.len(),
{
    let all = reg.order + ids;
    if ids.len() == 0 {
        assert(all.skip(0) =~= reg.order);
    } else {
        let front = ids.drop_last();
        let last = ids.last();
        assert(ids =~= front.push(last));
        assert forall|i: int| 0 <= i < front.len() implies reg.sessions.dom().contains(
            #[trigger] front[i],
        ) by {
            assert(front[i] == ids[i]);
        }
        assert(front.no_duplicates());
        ended_sessions_are_remembered_in_order(reg, front);
        let mid = reg.without_sessions(front);
        let end = reg.without_sessions(ids);
        assert(!front.contains(last)) by {
            if front.contains(last) {
                let k = front.index_of(last);
                assert(ids[k] == ids[ids.len() - 1]);
            }
        }
        assert(mid.sessions.dom().contains(last));
        ending_keeps_history(mid, last);
        ended_session_is_remembered(mid, last);
        assert(reg.order + ids =~= (reg.order + front).push(last));
        let dropped: int = if reg.order.len() + ids.len() > 1024 {
            reg.order.len() + ids.len() - 1024
        } else {
            0
        };
        assert(end.order =~= all.skip(dropped));
        assert forall|id: Seq<char>| ids.contains(id) <==> #[trigger] front.contains(id) || id
            == last by {
            if front.contains(id) {
                let k = front.index_of(id);
                assert(ids[k] == id);
            }
            if ids.contains(id) {
                let k = ids.index_of(id);
                assert(ids[k] == id);
                if k < front.len() {
                    assert(front[k] == id);
                }
            }
            assert(ids[ids.len() - 1] == last);
        }
        assert forall|id: Seq<char>| #[trigger] end.closed.dom().contains(id) && ids.contains(
            id,
        ) implies end.closed[id] == (ClosedSessionInfo {
            client_addr: reg.sessions[id].client_addr,
            created_at_unix: reg.sessions[id].created_at_unix,
            last_active_at_unix: reg.sessions[id].last_active_at_unix,
        }) by {
            if id != last {
                assert(front.contains(id));
                assert(mid.closed.dom().contains(id));
                assert(end.closed[id] == mid.closed[id]);
            }
        }
    }
}

/// A session ends once: to end it again changes nothing.
pub proof fn ending_twice_is_ending_once(reg: Registry, id: Seq<char>)
    ensures
        reg.without_session(id).without_session(id) == reg.without_session(id),
{
}

/// A change of the registry that an operation of the server makes.
pub ghost enum Step {
    /// A place is taken.
    Admit,
    /// A place is given back.
    Release,
    /// A session opens.
    Open(Seq<char>, BrowserSession),
    /// An open session changes.
    Change(Seq<char>, BrowserSession),
    /// A session ends.
    End(Seq<char>),
}

impl Registry {
    /// Whether a step can be taken: a session opens under a name that is free,
    /// and one that changes is open.
    pub open spec fn allows(self, step: Step) -> bool {
        match step {
            Step::Open(id, _) => !self.knows(id),
            Step::Change(id, _) => self.sessions.dom().contains(id),
            _ => true,
        }
    }

    /// The registry after a step.
    pub open spec fn after(self, step: Step) -> Registry {
        match step {
            Step::Admit => self.admitted(),
            Step::Release => self.released(),
            Step::Open(id, s) => self.with_session(id, s),
            Step::Change(id, s) => self.with_session(id, s),
            Step::End(id) => self.without_session(id),
        }
    }

    /// The registry after some steps.
    pub open spec fn after_all(self, steps: Seq<Step>) -> Registry
        decreases steps.len(),
    {
        if steps.len() == 0 {
            self
        } else {
            self.after_all(steps.drop_last()).after(steps.last())
        }
    }

    /// Whether some steps can be taken, one after the other.
    pub open spec fn allows_all(self, steps: Seq<Step>) -> bool
        decreases steps.len(),
    {
        steps.len() > 0 ==> self.allows_all(steps.drop_last()) && self.after_all(
            steps.drop_last(),
        ).allows(steps.last())
    }
}

/// How many of some steps end a session.
pub open spec fn endings(steps: Seq<Step>) -> nat
    decreases steps.len(),
{
    if steps.len() == 0 {
        0
    } else {
        endings(steps.drop_last()) + (if steps.last() is End {
            1nat
        } else {
            0
        })
    }
}

/// Every step keeps the history in order.
pub proof fn steps_keep_history(reg: Registry, steps: Seq<Step>)
    requires
        reg.wf(),
        reg.allows_all(steps),
    ensures
        reg.after_all(steps).wf(),
    decreases steps.len(),
{
    if steps.len() > 0 {
        steps_keep_history(reg, steps.drop_last());
        step_keeps_history(reg.after_all(steps.drop_last()), steps.last());
    }
}

proof fn step_keeps_history(reg: Registry, step: Step)
    requires
        reg.wf(),
        reg.allows(step),
    ensures
        reg.after(step).wf(),
{
    let end = reg.after(step);
    match step {
        Step::End(id) => {
            ending_keeps_history(reg, id);
        },
        _ => {
            assert(end.order == reg.order && end.closed == reg.closed);
            assert(end.sessions.dom().disjoint(end.closed.dom()));
        },
    }
}

/// Whether an ended session is remembered and not more than `later` stand behind
/// it.
spec fn recent(reg: Registry, id: Seq<char>, later: int) -> bool {
    &&& reg.closed.dom().contains(id)
    &&& exists|p: int|
        #![trigger reg.order[p]]
        0 <= p < reg.order.len() && reg.order[p] == id && reg.order.len() - 1 - p <= later
}

proof fn stays_recent(reg: Registry, id: Seq<char>, steps: Seq<Step>)
    requires
        reg.wf(),
        recent(reg, id, 0),
        reg.allows_all(steps),
        endings(steps) < CLOSED_SESSION_HISTORY_LIMIT,
    ensures
        recent(reg.after_all(steps), id, endings(steps) as int),
    decreases steps.len(),
{
    if steps.len() > 0 {
        let before = steps.drop_last();
        let mid = reg.after_all(before);
        stays_recent(reg, id, before);
        steps_keep_history(reg, before);
        let end = mid.after(steps.last());
        let p = choose|p: int|
            #![trigger mid.order[p]]
            0 <= p < mid.order.len() && mid.order[p] == id && mid.order.len() - 1 - p <= endings(
                before,
            );
        match steps.last() {
            Step::End(last) => if mid.sessions.dom().contains(last) {
                let order = mid.order.push(last);
                assert(last != id);
                assert(order[p] == id);
                if order.len() > CLOSED_SESSION_HISTORY_LIMIT {
                    assert(p >= 1);
                    assert(order[0] == mid.order[0]);
                    assert(order[0] != id);
                    assert(end.order[p - 1] == id);
                } else {
                    assert(end.order[p] == id);
                }
            } else {
                assert(end.order[p] == id);
            },
            _ => {
                assert(end.order[p] == id);
            },
        }
    }
}

/// Whatever the server does after a session ended, the session stays remembered
/// while fewer sessions end after it than the history holds.
pub proof fn history_keeps_recent_sessions(reg: Registry, id: Seq<char>, steps: Seq<Step>)
    requires
        reg.wf(),
        reg.sessions.dom().contains(id),
        reg.without_session(id).allows_all(steps),
        endings(steps) < CLOSED_SESSION_HISTORY_LIMIT,
    ensures
        reg.without_session(id).after_all(steps).closed.dom().contains(id),
{
    let end = reg.without_session(id);
    ended_session_is_remembered(reg, id);
    ending_keeps_history(reg, id);
    assert(end.order[end.order.len() - 1] == id);
    stays_recent(end, id, steps);
}

/// Once an answer counts as submitted for a session, every other one is refused;
/// one that is filled in and names a candidate is refused because of the first.
pub proof fn session_takes_one_answer(
    reg: Registry,
    id: Seq<char>,
    first: Seq<char>,
    second: Seq<char>,
)
    requires
        reg.takes_answer(id, first),
    ensures
        reg.answer_submitted(id, first).answer_verdict(id, second) is Err,
        crate::text::trimmed(second).len() > 0 && crate::session::has_candidate(
            crate::text::trimmed(second),
        ) ==> reg.answer_submitted(id, first).answer_verdict(id, second) == Err::<Seq<char>, _>(
            (Status::Conflict, "Answer has already been submitted for this session"@),
        ),
        reg.answer_submitted(id, first).answer_submitted(id, second) == reg.answer_submitted(
            id,
            first,
        ),
{
}

/// An answer that could not be applied leaves the session as it was before, so
/// that another one may be submitted.
pub proof fn failed_answer_is_undone(reg: Registry, id: Seq<char>, body: Seq<char>)
    requires
        reg.takes_answer(id, body),
    ensures
        reg.answer_submitted(id, body).changed(
            id,
            |s: BrowserSession| with_answered(s, false),
        ) == reg,
{
    let undone = reg.answer_submitted(id, body).changed(
        id,
        |s: BrowserSession| with_answered(s, false),
    );
    assert(undone.sessions =~= reg.sessions);
    assert(undone =~= reg);
}

/// Where visitors are asked who they are, one who sends nothing is told so.
pub proof fn missing_secret_is_refused(state: ServeState, headers: HeaderMap<HeaderValue>)
    requires
        !(state.settings.auth is NoAuth),
        crate::serve::header_text(headers, crate::serve::AUTH_HEADER@) is None,
    ensures
        state.visitor_verdict(headers) == Err::<(), _>(
            (Status::Unauthorized, "Missing auth header"@),
        ),
{
}

} // verus!
