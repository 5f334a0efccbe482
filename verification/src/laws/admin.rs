//! The local admin interface.

use crate::admin::{
    filter_sessions, find_state, AdminCmdRequest, AdminCmdResponse, AdminSessionItem, WriteOutcome,
};
use crate::dates::format_unix_secs;
use crate::serve::{Refusal, Status};
use crate::sessions::{BrowserSession, ServeState, SessionLifecycleState, SessionRow};
use axum::http::{HeaderMap, HeaderValue};
use vstd::prelude::*;
use vstd::string::*;
use vstd::utf8::*;

verus! {

/// An open session is listed as it is: in its state, with its address, the time
/// of its creation, and when it was last heard of.
pub proof fn open_session_is_listed_as_it_is(
    state: ServeState,
    id: Seq<char>,
    items: Vec<AdminSessionItem>,
)
    requires
        state@.sessions.dom().contains(id),
        call_ensures(ServeState::list_sessions, (&state,), items),
    ensures
        exists|i: int|
            #![trigger items@[i]]
            0 <= i < items@.len() && items@[i].session_id@ == id && items@[i].state
                == state@.sessions[id].lifecycle && items@[i].client_addr
                == state@.sessions[id].client_addr && crate::dates::written_time(
                state@.sessions[id].created_at_unix,
                items@[i].created_at@,
            ) && crate::dates::written_time(
                state@.sessions[id].last_active_at_unix,
                items@[i].last_active_at@,
            ),
{
    assert(state@.knows(id));
    let i = choose|i: int| 0 <= i < items@.len() && (#[trigger] items@[i]).session_id@ == id;
    assert(items@[i].session_id@ == id);
}

/// A session that ended is listed as ended, with the address and the times that it
/// had when it did.
pub proof fn ended_session_is_listed_as_it_was(
    before: ServeState,
    after: ServeState,
    id: Seq<char>,
    items: Vec<AdminSessionItem>,
)
    requires
        before.wf(),
        after.wf(),
        before@.sessions.dom().contains(id),
        after@ == before@.without_session(id),
        call_ensures(ServeState::list_sessions, (&after,), items),
    ensures
        exists|i: int|
            #![trigger items@[i]]
            0 <= i < items@.len() && items@[i].session_id@ == id && items@[i].state
                == SessionLifecycleState::Closed && items@[i].client_addr
                == before@.sessions[id].client_addr && crate::dates::written_time(
                before@.sessions[id].created_at_unix,
                items@[i].created_at@,
            ) && crate::dates::written_time(
                before@.sessions[id].last_active_at_unix,
                items@[i].last_active_at@,
            ),
{
    crate::sessions::ended_session_is_remembered(before@, id);
    assert(after@.knows(id));
    let i = choose|i: int| 0 <= i < items@.len() && (#[trigger] items@[i]).session_id@ == id;
    assert(items@[i].session_id@ == id);
}

/// Among the listed sessions, one that was created before another stands before
/// it, and no session is listed twice.
pub proof fn listed_sessions_stand_in_order(
    state: ServeState,
    items: Vec<AdminSessionItem>,
    i: int,
    j: int,
)
    requires
        call_ensures(ServeState::list_sessions, (&state,), items),
        0 <= i < items@.len(),
        0 <= j < items@.len(),
        state@.sessions.dom().contains(items@[i].session_id@),
        state@.sessions.dom().contains(items@[j].session_id@),
    ensures
        state@.sessions[items@[i].session_id@].created_at_unix
            < state@.sessions[items@[j].session_id@].created_at_unix ==> i < j,
        items@[i].session_id@ == items@[j].session_id@ ==> i == j,
{
}

/// The list holds the sessions that are open or remembered, and nothing else.
pub proof fn only_known_sessions_are_listed(
    state: ServeState,
    items: Vec<AdminSessionItem>,
    i: int,
)
    requires
        call_ensures(ServeState::list_sessions, (&state,), items),
        0 <= i < items@.len(),
    ensures
        state@.sessions.dom().contains(items@[i].session_id@) || state@.closed.dom().contains(
            items@[i].session_id@,
        ),
        items@[i].auth_mode@ == state.settings.auth_mode@,
        items@[i].cmd_preview@ == state.settings.cmd_preview@,
{
}

/// Picking by a state leaves the sessions in that state, and leaves none of them
/// out.
pub proof fn picked_sessions_are_in_the_state(
    items: Vec<AdminSessionItem>,
    state: SessionLifecycleState,
    picked: Vec<AdminSessionItem>,
)
    requires
        call_ensures(filter_sessions, (items, state), picked),
    ensures
        forall|item: AdminSessionItem| #[trigger]
            picked@.contains(item) <==> items@.contains(item) && item.state == state,
        picked@.len() <= items@.len(),
{
    let keep = |item: AdminSessionItem| item.state == state;
    items@.lemma_filter_len(keep);
    assert forall|item: AdminSessionItem| #[trigger] picked@.contains(item) implies items@.contains(
        item,
    ) && item.state == state by {
        let i = picked@.index_of(item);
        assert(picked@[i] == item);
        items@.lemma_filter_pred(keep, i);
        items@.lemma_filter_contains_rev(keep, item);
    }
    assert forall|item: AdminSessionItem| items@.contains(item) && item.state
        == state implies #[trigger] picked@.contains(item) by {
        let i = items@.index_of(item);
        assert(items@[i] == item);
        items@.lemma_filter_contains(keep, i);
    }
}

/// A caller who sends the secret and asks for a state gets the sessions in that
/// state, and all of them.
pub proof fn list_by_state_is_complete(
    state: ServeState,
    token: &str,
    headers: &HeaderMap<HeaderValue>,
    query: &str,
    wanted: SessionLifecycleState,
    r: Result<Vec<AdminSessionItem>, Refusal>,
    id: Seq<char>,
)
    requires
        crate::serve::header_text(*headers, "x-bootty-admin-token"@) == Some(token@),
        crate::text::lower_case(crate::text::trimmed(query@)) == wanted.spec_as_str(),
        call_ensures(
            ServeState::admin_list_sessions_handler,
            (&state, token, headers, Some(query)),
            r,
        ),
    ensures
        r matches Ok(items) && forall|i: int|
            0 <= i < items@.len() ==> (#[trigger] items@[i]).state == wanted,
        state@.sessions.dom().contains(id) && state@.sessions[id].lifecycle == wanted ==> exists|
            i: int,
        |
            0 <= i < r->Ok_0@.len() && (#[trigger] r->Ok_0@[i]).session_id@ == id,
        !state@.sessions.dom().contains(id) && state@.closed.dom().contains(id) && wanted
            == SessionLifecycleState::Closed ==> exists|i: int|
            0 <= i < r->Ok_0@.len() && (#[trigger] r->Ok_0@[i]).session_id@ == id,
{
    crate::admin::states_have_names(
        crate::text::lower_case(crate::text::trimmed(query@)),
        wanted,
    );
    let items = r->Ok_0@;
    let all = choose|all: Seq<AdminSessionItem>| #[trigger]
        state.listing(all) && items == crate::admin::items_in_state(all, wanted);
    let keep = |item: AdminSessionItem| item.state == wanted;
    assert forall|i: int| 0 <= i < items.len() implies (#[trigger] items[i]).state == wanted by {
        all.lemma_filter_pred(keep, i);
    }
    let rows = choose|rows: Seq<SessionRow>| #[trigger]
        state@.listed_by(rows) && state.items_show(rows, all);
    if crate::sessions::has_row(rows, id) {
        let k = choose|k: int| 0 <= k < rows.len() && (#[trigger] rows[k]).id@ == id;
        assert(state.item_shows(rows[k], all[k]));
        assert(state@.shown_by(rows[k]));
        if all[k].state == wanted {
            all.lemma_filter_contains(keep, k);
            assert(items.contains(all[k]));
            let i = items.index_of(all[k]);
            assert(items[i].session_id@ == id);
        }
    }
}

/// A state is found by the name that it shows, and by no other.
pub proof fn state_is_found_by_its_name(
    state: SessionLifecycleState,
    shown: &'static str,
    name: &str,
    found: Option<SessionLifecycleState>,
)
    requires
        call_ensures(SessionLifecycleState::as_str, (&state,), shown),
        call_ensures(find_state, (name,), found),
    ensures
        found == Some(state) <==> name@ == shown@,
{
}

/// Without the secret of the interface nothing is listed and nothing is typed.
pub proof fn secret_guards_the_interface(
    state: ServeState,
    token: &str,
    headers: &HeaderMap<HeaderValue>,
    query: Option<&str>,
    listed: Result<Vec<AdminSessionItem>, Refusal>,
    id: &str,
    payload: AdminCmdRequest,
    typed: Result<Vec<u8>, Refusal>,
)
    requires
        crate::serve::header_text(*headers, "x-bootty-admin-token"@) != Some(token@),
        call_ensures(
            ServeState::admin_list_sessions_handler,
            (&state, token, headers, query),
            listed,
        ),
        call_ensures(
            ServeState::admin_send_cmd_handler,
            (&state, token, headers, id, &payload),
            typed,
        ),
    ensures
        listed matches Err(e) && e.status == Status::Unauthorized,
        typed is Err,
{
}

/// A command goes to the session that it names, as the bytes of its text with a line
/// feed where one is asked for, exactly where that session is connected and the
/// command is not blank. When it went through, the reply counts those bytes, and the
/// session was heard of; nothing else of any session changes.
pub proof fn command_is_typed_and_counted(
    state: ServeState,
    token: &str,
    headers: &HeaderMap<HeaderValue>,
    id: &str,
    payload: AdminCmdRequest,
    typed: Result<Vec<u8>, Refusal>,
    then: &mut ServeState,
    now: u64,
    reply: Result<AdminCmdResponse, Refusal>,
)
    requires
        crate::serve::header_text(*headers, "x-bootty-admin-token"@) == Some(token@),
        call_ensures(
            ServeState::admin_send_cmd_handler,
            (&state, token, headers, id, &payload),
            typed,
        ),
        *old(then) == state,
        call_ensures(
            ServeState::finish_command,
            (then, id, &payload, WriteOutcome::Written, now),
            reply,
        ),
    ensures
        typed is Ok <==> state@.sessions.dom().contains(id@) && state@.sessions[id@].lifecycle
            == SessionLifecycleState::Connected && !crate::text::is_blank(payload.cmd@),
        typed matches Ok(bytes) ==> {
            &&& payload.append_enter ==> bytes@ == encode_utf8(payload.cmd@).push(10)
            &&& !payload.append_enter ==> bytes@ == encode_utf8(payload.cmd@)
            &&& reply matches Ok(said) && said.bytes_sent == bytes@.len() && said.session_id@ == id@
            &&& final(then)@.sessions == state@.sessions.insert(
                id@,
                BrowserSession { last_active_at_unix: now, ..state@.sessions[id@] },
            )
        },
{
    if typed is Ok {
        let bytes = encode_utf8(payload.cmd@);
        assert(bytes + seq![10u8] =~= bytes.push(10));
        assert(bytes + Seq::<u8>::empty() =~= bytes);
    }
}

/// A command that did not go through is answered with an error, and leaves every
/// session as it was.
pub proof fn failed_command_changes_nothing(
    state: &mut ServeState,
    id: &str,
    payload: AdminCmdRequest,
    outcome: WriteOutcome,
    now: u64,
    reply: Result<AdminCmdResponse, Refusal>,
)
    requires
        call_ensures(ServeState::finish_command, (state, id, &payload, outcome, now), reply),
    ensures
        reply is Err <==> !(outcome is Written),
        reply is Err ==> final(state)@ == old(state)@,
        outcome is NotReady ==> (reply matches Err(e) && e.status == Status::Conflict),
        outcome is WriteFailed || outcome is FlushFailed ==> (reply matches Err(e) && e.status
            == Status::InternalServerError),
{
}

/// A time within the calendar is written as the calendar shows it, on a clock less
/// than a day away from universal time.
pub proof fn times_are_written_by_the_calendar(unix_secs: u64, text: String)
    requires
        call_ensures(format_unix_secs, (unix_secs,), text),
    ensures
        unix_secs <= 8210266876799 ==> exists|offset: int|
            -86400 < offset < 86400 && text@ == #[trigger] crate::dates::calendar_text(
                unix_secs + offset,
            ),
        8210266876799 < unix_secs <= i64::MAX ==> crate::text::digits_number(text@) == unix_secs,
{
}

} // verus!
