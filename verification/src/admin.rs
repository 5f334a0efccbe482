//! The local admin interface of a web server: lists its sessions and types
//! commands into them.

use crate::dates::format_unix_secs;
use crate::serve::{ensure_admin_token, internal_error, Refusal, Status};
use crate::sessions::{BrowserSession, ServeState, SessionLifecycleState, SessionRow};
use crate::text::{blank_is_trimmed_away, copy_option, same_text, to_lower_case, trim};
use axum::http::{HeaderMap, HeaderValue};
use vstd::prelude::*;
use vstd::string::*;
use vstd::utf8::*;

verus! {

/// A session as the admin interface lists it.
#[derive(Debug, Clone)]
pub struct AdminSessionItem {
    pub session_id: String,
    pub state: SessionLifecycleState,
    pub client_addr: Option<String>,
    pub created_at: String,
    pub last_active_at: String,
    pub auth_mode: String,
    pub cmd_preview: String,
}

/// A command to type into a session.
#[derive(Debug, Clone)]
pub struct AdminCmdRequest {
    pub cmd: String,
    pub append_enter: bool,
}

/// What is said of a command that was typed into a session.
#[derive(Debug, Clone)]
pub struct AdminCmdResponse {
    pub session_id: String,
    pub bytes_sent: usize,
}

impl ServeState {
    /// Whether an item shows a row of the list of sessions.
    pub open spec fn item_shows(self, row: SessionRow, item: AdminSessionItem) -> bool {
        &&& item.session_id@ == row.id@
        &&& item.state == row.state
        &&& item.client_addr == row.client_addr
        &&& crate::dates::written_time(row.created_at_unix, item.created_at@)
        &&& crate::dates::written_time(row.last_active_at_unix, item.last_active_at@)
        &&& item.auth_mode@ == self.settings.auth_mode@
        &&& item.cmd_preview@ == self.settings.cmd_preview@
    }

    /// Whether items show some rows, one for one.
    pub open spec fn items_show(self, rows: Seq<SessionRow>, items: Seq<AdminSessionItem>) -> bool {
        &&& items.len() == rows.len()
        &&& forall|i: int|
            0 <= i < rows.len() ==> self.item_shows(rows[i], #[trigger] items[i])
    }

    /// Whether items list the sessions.
    pub open spec fn listing(self, items: Seq<AdminSessionItem>) -> bool {
        exists|rows: Seq<SessionRow>| #[trigger]
            self@.listed_by(rows) && self.items_show(rows, items)
    }

    /// Lists the sessions, open and ended, the first created first.
    pub fn list_sessions(&self) -> (r: Vec<AdminSessionItem>)
        requires
            self.wf(),
        ensures
            self.listing(r@),
            forall|i: int|
                #![trigger r@[i]]
                0 <= i < r@.len() && self@.sessions.dom().contains(r@[i].session_id@) ==> {
                    let s = self@.sessions[r@[i].session_id@];
                    &&& r@[i].state == s.lifecycle
                    &&& r@[i].client_addr == s.client_addr
                    &&& crate::dates::written_time(s.created_at_unix, r@[i].created_at@)
                    &&& crate::dates::written_time(s.last_active_at_unix, r@[i].last_active_at@)
                },
            forall|i: int|
                #![trigger r@[i]]
                0 <= i < r@.len() && !self@.sessions.dom().contains(r@[i].session_id@) ==> {
                    let s = self@.closed[r@[i].session_id@];
                    &&& self@.closed.dom().contains(r@[i].session_id@)
                    &&& r@[i].state == SessionLifecycleState::Closed
                    &&& r@[i].client_addr == s.client_addr
                    &&& crate::dates::written_time(s.created_at_unix, r@[i].created_at@)
                    &&& crate::dates::written_time(s.last_active_at_unix, r@[i].last_active_at@)
                },
            forall|i: int|
                #![trigger r@[i]]
                0 <= i < r@.len() ==> r@[i].auth_mode@ == self.settings.auth_mode@
                    && r@[i].cmd_preview@ == self.settings.cmd_preview@,
            forall|id: Seq<char>|
                #![trigger self@.knows(id)]
                self@.knows(id) ==> exists|i: int|
                    0 <= i < r@.len() && (#[trigger] r@[i]).session_id@ == id,
            forall|i: int, j: int|
                #![trigger r@[i], r@[j]]
                0 <= i < j < r@.len() ==> r@[i].session_id@ != r@[j].session_id@
                    && self@.creation_time(r@[i].session_id@) <= self@.creation_time(
                    r@[j].session_id@,
                ),
    {
        let rows = self.session_rows();
        let mut items: Vec<AdminSessionItem> = Vec::new();
        let mut i: usize = 0;
        while i < rows.len()
            invariant
                i <= rows@.len(),
                items@.len() == i,
                forall|j: int| 0 <= j < i ==> self.item_shows(rows@[j], #[trigger] items@[j]),
            decreases rows@.len() - i,
        {
            let row = &rows[i];
            items.push(
                AdminSessionItem {
                    session_id: row.id.clone(),
                    state: row.state,
                    client_addr: copy_option(&row.client_addr),
                    created_at: format_unix_secs(row.created_at_unix),
                    last_active_at: format_unix_secs(row.last_active_at_unix),
                    auth_mode: self.settings.auth_mode.clone(),
                    cmd_preview: self.settings.cmd_preview.clone(),
                },
            );
            i += 1;
        }
        assert(self@.listed_by(rows@) && self.items_show(rows@, items@));
        assert forall|i: int| 0 <= i < items@.len() implies (#[trigger] items@[i]).session_id@
            == rows@[i].id@ && self@.creation_time(items@[i].session_id@)
            == rows@[i].created_at_unix by {
            assert(self.item_shows(rows@[i], items@[i]));
        }
        assert forall|id: Seq<char>| #[trigger] self@.knows(id) implies exists|i: int|
            0 <= i < items@.len() && (#[trigger] items@[i]).session_id@ == id by {
            let i = choose|i: int| 0 <= i < rows@.len() && (#[trigger] rows@[i]).id@ == id;
            assert(items@[i].session_id@ == id);
        }
        items
    }
}

impl crate::sessions::Registry {
    /// When a session, open or ended, was created.
    pub open spec fn creation_time(self, id: Seq<char>) -> u64 {
        if self.sessions.dom().contains(id) {
            self.sessions[id].created_at_unix
        } else {
            self.closed[id].created_at_unix
        }
    }
}

/// The state of a name.
pub open spec fn state_named(name: Seq<char>) -> Option<SessionLifecycleState> {
    if name == "pending"@ {
        Some(SessionLifecycleState::Pending)
    } else if name == "connected"@ {
        Some(SessionLifecycleState::Connected)
    } else if name == "closed"@ {
        Some(SessionLifecycleState::Closed)
    } else {
        None
    }
}

/// Finds a state by its name.
pub fn find_state(name: &str) -> (r: Option<SessionLifecycleState>)
    ensures
        r == state_named(name@),
        r == Some(SessionLifecycleState::Pending) <==> name@ == "pending"@,
        r == Some(SessionLifecycleState::Connected) <==> name@ == "connected"@,
        r == Some(SessionLifecycleState::Closed) <==> name@ == "closed"@,
{
    proof {
        states_have_names(name@, SessionLifecycleState::Pending);
        states_have_names(name@, SessionLifecycleState::Connected);
        states_have_names(name@, SessionLifecycleState::Closed);
    }
    if same_text(name, "pending") {
        Some(SessionLifecycleState::Pending)
    } else if same_text(name, "connected") {
        Some(SessionLifecycleState::Connected)
    } else if same_text(name, "closed") {
        Some(SessionLifecycleState::Closed)
    } else {
        None
    }
}

/// Every state is found by its own name, and by no other.
pub proof fn states_have_names(name: Seq<char>, state: SessionLifecycleState)
    ensures
        state_named(name) == Some(state) <==> name == state.spec_as_str(),
{
    reveal_strlit("pending");
    reveal_strlit("connected");
    reveal_strlit("closed");
    assert("pending"@.len() == 7 && "connected"@.len() == 9 && "closed"@.len() == 6);
}

/// The items of sessions in some state, in the order in which they stand.
pub open spec fn items_in_state(
    items: Seq<AdminSessionItem>,
    state: SessionLifecycleState,
) -> Seq<AdminSessionItem> {
    items.filter(|item: AdminSessionItem| item.state == state)
}

/// Picks the items of sessions in some state.
pub fn filter_sessions(items: Vec<AdminSessionItem>, state: SessionLifecycleState) -> (r: Vec<
    AdminSessionItem,
>)
    ensures
        r@ == items_in_state(items@, state),
{
    let ghost all = items@;
    let ghost keep = |item: AdminSessionItem| item.state == state;
    let mut rest = items;
    let mut picked: Vec<AdminSessionItem> = Vec::new();
    proof {
        reveal(Seq::filter);
        assert(all.take(all.len() as int) =~= all);
        assert(picked@ =~= Seq::<AdminSessionItem>::empty().filter(keep));
        assert(all.skip(0) =~= all);
    }
    while rest.len() > 0
        invariant
            keep == (|item: AdminSessionItem| item.state == state),
            rest@.len() <= all.len(),
            rest@ == all.skip(all.len() - rest@.len()),
            picked@ == all.take(all.len() - rest@.len()).filter(keep),
        decreases rest@.len(),
    {
        let ghost n = all.len() - rest@.len();
        let item = rest.remove(0);
        proof {
            reveal(Seq::filter);
            assert(item == all[n]);
            assert(all.take(n + 1).drop_last() =~= all.take(n));
            assert(all.take(n + 1).last() == item);
            assert(rest@ =~= all.skip(n + 1));
        }
        if item.state == state {
            picked.push(item);
        }
    }
    picked
}

/// The reply to a list that is asked for by no state that there is.
pub open spec fn state_refusal() -> (Status, Seq<char>) {
    (Status::BadRequest, "state only supports pending|connected|closed"@)
}

/// Picks the items that a request asks for, once the name of the state was
/// brought into small letters.
pub fn sessions_by_state(items: Vec<AdminSessionItem>, name: &str) -> (r: Result<
    Vec<AdminSessionItem>,
    Refusal,
>)
    ensures
        match state_named(name@) {
            Some(state) => r matches Ok(picked) && picked@ == items_in_state(items@, state),
            None => r matches Err(e) && e@ == state_refusal(),
        },
        r is Ok <==> name@ == "pending"@ || name@ == "connected"@ || name@ == "closed"@,
        r matches Err(e) ==> e.status == Status::BadRequest,
        r matches Ok(picked) ==> forall|i: int|
            0 <= i < picked@.len() ==> (#[trigger] picked@[i]).state.spec_as_str() == name@,
{
    proof {
        states_have_names(name@, SessionLifecycleState::Pending);
        states_have_names(name@, SessionLifecycleState::Connected);
        states_have_names(name@, SessionLifecycleState::Closed);
        if state_named(name@) is Some {
            let state = state_named(name@)->0;
            let keep = |item: AdminSessionItem| item.state == state;
            assert forall|i: int| 0 <= i < items_in_state(items@, state).len() implies (
            #[trigger] items_in_state(items@, state)[i]).state == state by {
                items@.lemma_filter_pred(keep, i);
            }
        }
    }
    match find_state(name) {
        Some(state) => Ok(filter_sessions(items, state)),
        None => Err(
            Refusal::new(Status::BadRequest, "state only supports pending|connected|closed"),
        ),
    }
}

/// What a caller who sends these headers is told.
pub open spec fn caller_verdict(token: Seq<char>, headers: HeaderMap<HeaderValue>) -> Result<
    (),
    (Status, Seq<char>),
> {
    crate::serve::admin_verdict(
        token,
        crate::serve::header_text(headers, crate::serve::ADMIN_TOKEN_HEADER@),
    )
}

/// The name that a request gives for a state: without the white space around it,
/// in small letters.
pub open spec fn normalized_state(query: Seq<char>) -> Seq<char> {
    crate::text::lower_case(crate::text::trimmed(query))
}

/// The bytes that a command is typed as: its own, and a line feed where one is
/// asked for.
pub open spec fn typed_bytes(payload: AdminCmdRequest) -> Seq<u8> {
    if payload.append_enter {
        encode_utf8(payload.cmd@).push(10)
    } else {
        encode_utf8(payload.cmd@)
    }
}

/// Writes the bytes that a command is typed as.
fn type_command(payload: &AdminCmdRequest) -> (r: Vec<u8>)
    ensures
        r@ == typed_bytes(*payload),
{
    let mut bytes = payload.cmd.as_str().as_bytes_vec();
    if payload.append_enter {
        bytes.push(10);
    }
    bytes
}

impl ServeState {
    /// Answers a request for the list of sessions, of all or of those in one
    /// state.
    pub fn admin_list_sessions_handler(
        &self,
        token: &str,
        headers: &HeaderMap<HeaderValue>,
        state: Option<&str>,
    ) -> (r: Result<Vec<AdminSessionItem>, Refusal>)
        requires
            self.wf(),
        ensures
            match (caller_verdict(token@, *headers), state) {
                (Err(e), _) => r matches Err(said) && said@ == e,
                (Ok(_), None) => r matches Ok(items) && self.listing(items@),
                (Ok(_), Some(query)) => match state_named(normalized_state(query@)) {
                    None => r matches Err(said) && said@ == state_refusal(),
                    Some(s) => r matches Ok(items) && exists|all: Seq<AdminSessionItem>| #[trigger]
                        self.listing(all) && items@ == items_in_state(all, s),
                },
            },
            crate::serve::header_text(*headers, "x-bootty-admin-token"@) != Some(token@) ==> (r
                matches Err(e) && e.status == Status::Unauthorized),
            crate::serve::header_text(*headers, "x-bootty-admin-token"@) == Some(token@) && state
                is None ==> r is Ok,
            r matches Ok(items) ==> forall|i: int|
                0 <= i < items@.len() && self@.sessions.dom().contains(
                    (#[trigger] items@[i]).session_id@,
                ) ==> items@[i].state == self@.sessions[items@[i].session_id@].lifecycle
                    && crate::dates::written_time(
                    self@.sessions[items@[i].session_id@].created_at_unix,
                    items@[i].created_at@,
                ) && crate::dates::written_time(
                    self@.sessions[items@[i].session_id@].last_active_at_unix,
                    items@[i].last_active_at@,
                ),
    {
        match ensure_admin_token(token, headers) {
            Err(e) => return Err(e),
            Ok(_) => {},
        }
        let items = self.list_sessions();
        proof {
            assert forall|s: SessionLifecycleState, item: AdminSessionItem| #[trigger]
                items_in_state(items@, s).contains(item) implies items@.contains(item) by {
                let keep = |item: AdminSessionItem| item.state == s;
                items@.lemma_filter_contains_rev(keep, item);
            }
            assert forall|s: SessionLifecycleState, i: int|
                0 <= i < items_in_state(items@, s).len() implies items@.contains(
                #[trigger] items_in_state(items@, s)[i],
            ) by {
                assert(items_in_state(items@, s).contains(items_in_state(items@, s)[i]));
            }
        }
        match state {
            None => Ok(items),
            Some(query) => sessions_by_state(
                items,
                to_lower_case(trim(query).as_str()).as_str(),
            ),
        }
    }

    /// The bytes that a command is typed as, or what is said against it.
    pub open spec fn command_verdict(self, id: Seq<char>, payload: AdminCmdRequest) -> Result<
        Seq<u8>,
        (Status, Seq<char>),
    > {
        if !self@.sessions.dom().contains(id) {
            if self@.closed.dom().contains(id) {
                Err((Status::Conflict, "Session is closed, cannot inject command"@))
            } else {
                Err((Status::NotFound, "Session does not exist"@))
            }
        } else if self@.sessions[id].lifecycle != SessionLifecycleState::Connected {
            Err((Status::Conflict, "Session is not fully connected, cannot inject command"@))
        } else if crate::text::trimmed(payload.cmd@).len() == 0 {
            Err((Status::BadRequest, "Command cannot be empty"@))
        } else {
            Ok(typed_bytes(payload))
        }
    }

    /// Decides on a command for a session: the bytes to type, or what is said
    /// against it.
    pub fn command_bytes(&self, id: &str, payload: &AdminCmdRequest) -> (r: Result<
        Vec<u8>,
        Refusal,
    >)
        requires
            self.wf(),
        ensures
            match r {
                Ok(bytes) => self.command_verdict(id@, *payload) == Ok::<_, (Status, Seq<char>)>(
                    bytes@,
                ),
                Err(e) => self.command_verdict(id@, *payload) == Err::<Seq<u8>, _>(e@),
            },
            r is Ok <==> {
                &&& self@.sessions.dom().contains(id@)
                &&& self@.sessions[id@].lifecycle == SessionLifecycleState::Connected
                &&& !crate::text::is_blank(payload.cmd@)
            },
            r matches Ok(bytes) ==> bytes@ == encode_utf8(payload.cmd@) + (
            if payload.append_enter {
                seq![10u8]
            } else {
                Seq::empty()
            }),
            (r is Err && r->Err_0.status == Status::NotFound) <==> !self@.knows(id@),
            (r is Err && r->Err_0.status == Status::Conflict) <==> self@.knows(id@) && !(
            self@.sessions.dom().contains(id@) && self@.sessions[id@].lifecycle
                == SessionLifecycleState::Connected),
    {
        proof {
            blank_is_trimmed_away(payload.cmd@);
            let bytes = encode_utf8(payload.cmd@);
            assert(bytes.push(10) =~= bytes + seq![10u8]);
            assert(bytes + Seq::<u8>::empty() =~= bytes);
        }
        match self.get_session(id) {
            None => {
                if self.is_closed_session(id) {
                    return Err(
                        Refusal::new(Status::Conflict, "Session is closed, cannot inject command"),
                    );
                }
                return Err(Refusal::new(Status::NotFound, "Session does not exist"));
            },
            Some(session) => {
                if session.lifecycle != SessionLifecycleState::Connected {
                    return Err(
                        Refusal::new(
                            Status::Conflict,
                            "Session is not fully connected, cannot inject command",
                        ),
                    );
                }
            },
        }
        if trim(payload.cmd.as_str()).as_str().is_empty() {
            return Err(Refusal::new(Status::BadRequest, "Command cannot be empty"));
        }
        Ok(type_command(payload))
    }

    /// Begins to answer a request to type a command into a session.
    pub fn admin_send_cmd_handler(
        &self,
        token: &str,
        headers: &HeaderMap<HeaderValue>,
        id: &str,
        payload: &AdminCmdRequest,
    ) -> (r: Result<Vec<u8>, Refusal>)
        requires
            self.wf(),
        ensures
            match (caller_verdict(token@, *headers), r) {
                (Err(e), Ok(_)) => false,
                (Err(e), Err(said)) => said@ == e,
                (Ok(_), Ok(bytes)) => self.command_verdict(id@, *payload) == Ok::<
                    _,
                    (Status, Seq<char>),
                >(bytes@),
                (Ok(_), Err(said)) => self.command_verdict(id@, *payload) == Err::<Seq<u8>, _>(
                    said@,
                ),
            },
            r is Ok <==> {
                &&& crate::serve::header_text(*headers, "x-bootty-admin-token"@) == Some(token@)
                &&& self@.sessions.dom().contains(id@)
                &&& self@.sessions[id@].lifecycle == SessionLifecycleState::Connected
                &&& !crate::text::is_blank(payload.cmd@)
            },
            r matches Ok(bytes) ==> bytes@ == encode_utf8(payload.cmd@) + (
            if payload.append_enter {
                seq![10u8]
            } else {
                Seq::empty()
            }),
    {
        match ensure_admin_token(token, headers) {
            Err(e) => Err(e),
            Ok(_) => self.command_bytes(id, payload),
        }
    }
}

/// What became of the bytes of a command.
#[derive(Debug, Clone)]
pub enum WriteOutcome {
    /// The terminal of the session is not there yet.
    NotReady,
    WriteFailed(String),
    FlushFailed(String),
    Written,
}

/// What is said of the bytes of a command that did not go through.
pub open spec fn write_verdict(outcome: WriteOutcome) -> Result<(), (Status, Seq<char>)> {
    match outcome {
        WriteOutcome::NotReady => Err((Status::Conflict, "Session stdin is not ready yet"@)),
        WriteOutcome::WriteFailed(e) => Err(
            crate::serve::internal_refusal("Failed to write command: "@ + e@),
        ),
        WriteOutcome::FlushFailed(e) => Err(
            crate::serve::internal_refusal("Failed to flush command: "@ + e@),
        ),
        WriteOutcome::Written => Ok(()),
    }
}

impl ServeState {
    /// Finishes with a command once its bytes were typed, or could not be. The
    /// reply says how many bytes they were.
    pub fn finish_command(
        &mut self,
        id: &str,
        payload: &AdminCmdRequest,
        outcome: WriteOutcome,
        now: u64,
    ) -> (r: Result<AdminCmdResponse, Refusal>)
        requires
            old(self).wf(),
        ensures
            final(self).wf(),
            final(self).same_server(*old(self)),
            match r {
                Ok(reply) => {
                    &&& write_verdict(outcome) is Ok
                    &&& reply.session_id@ == id@
                    &&& reply.bytes_sent == typed_bytes(*payload).len()
                    &&& reply.bytes_sent == encode_utf8(payload.cmd@).len() + (
                    if payload.append_enter {
                        1int
                    } else {
                        0
                    })
                    &&& final(self)@ == old(self)@.changed(
                        id@,
                        |s: BrowserSession| crate::sessions::heard_of(s, now),
                    )
                },
                Err(e) => write_verdict(outcome) == Err::<(), _>(e@) && final(self)@ == old(self)@,
            },
            r is Ok <==> outcome is Written,
            outcome is NotReady <==> (r is Err && r->Err_0.status == Status::Conflict),
            r is Ok && old(self)@.sessions.dom().contains(id@) ==> final(self)@.sessions == old(
                self)@.sessions.insert(
                id@,
                BrowserSession { last_active_at_unix: now, ..old(self)@.sessions[id@] },
            ),
            r is Err || !old(self)@.sessions.dom().contains(id@) ==> final(self)@.sessions == old(
                self)@.sessions,
    {
        match outcome {
            WriteOutcome::NotReady => Err(
                Refusal::new(Status::Conflict, "Session stdin is not ready yet"),
            ),
            WriteOutcome::WriteFailed(e) => {
                let mut text = "Failed to write command: ".to_string();
                text.append(e.as_str());
                Err(internal_error(text.as_str()))
            },
            WriteOutcome::FlushFailed(e) => {
                let mut text = "Failed to flush command: ".to_string();
                text.append(e.as_str());
                Err(internal_error(text.as_str()))
            },
            WriteOutcome::Written => {
                self.update_last_active(id, now);
                Ok(
                    AdminCmdResponse {
                        session_id: id.to_string(),
                        bytes_sent: type_command(payload).len(),
                    },
                )
            },
        }
    }
}

/// No command reaches a session that ended.
pub proof fn ended_session_takes_no_command(
    before: ServeState,
    after: ServeState,
    id: Seq<char>,
    payload: AdminCmdRequest,
)
    requires
        before@.sessions.dom().contains(id),
        after@ == before@.without_session(id),
    ensures
        after.command_verdict(id, payload) is Err,
        after@.closed.dom().contains(id) ==> after.command_verdict(id, payload) == Err::<
            Seq<u8>,
            _,
        >((Status::Conflict, "Session is closed, cannot inject command"@)),
{
}

} // verus!
