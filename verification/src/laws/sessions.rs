//! The sessions of a web server.

use crate::admin::AdminCmdRequest;
use crate::serve::{Refusal, Status};
use crate::session::{DtlsRole, NetworkType, Session};
use crate::sessions::{
    ended, BrowserSession, CreateSessionResponse, EndReason, ServeSettings, ServeState, SessionEnd,
    SessionLifecycleState,
};
use vstd::prelude::*;
use vstd::string::*;
use vstd::utf8::*;

verus! {

/// A session whose channel opens is connected from then on, whatever was known of it
/// before, and takes every command that is not blank. Nothing else of it changes but
/// when it was last heard of, and nothing of any other session.
pub proof fn opened_channel_connects_the_session(
    state: &mut ServeState,
    id: &str,
    now: u64,
    after: ServeState,
    payload: AdminCmdRequest,
    typed: Result<Vec<u8>, Refusal>,
)
    requires
        old(state)@.sessions.dom().contains(id@),
        call_ensures(ServeState::mark_connected, (state, id, now), ()),
        after == *final(state),
        call_ensures(ServeState::command_bytes, (&after, id, &payload), typed),
    ensures
        after@.sessions.dom() == old(state)@.sessions.dom(),
        after@.sessions[id@].lifecycle == SessionLifecycleState::Connected,
        after@.sessions[id@].last_active_at_unix == now,
        after@.sessions[id@].answered == old(state)@.sessions[id@].answered,
        after@.sessions[id@].client_addr == old(state)@.sessions[id@].client_addr,
        after@.sessions[id@].created_at_unix == old(state)@.sessions[id@].created_at_unix,
        forall|other: Seq<char>|
            other != id@ && #[trigger] old(state)@.sessions.dom().contains(other)
                ==> after@.sessions[other] == old(state)@.sessions[other],
        typed is Ok <==> !crate::text::is_blank(payload.cmd@),
{
    assert(after@.sessions.dom() =~= old(state)@.sessions.dom());
}

/// The life of a session that goes as it should. A place is taken while one is left;
/// the session opens under a free name and waits; it takes an answer that names a
/// candidate and parses; it is heard of when the answer was applied; and when its
/// channel opens it is connected and takes commands. It keeps its address and the
/// time of its creation throughout.
pub proof fn browser_comes_to_type_commands(
    s1: &mut ServeState,
    placed: Result<(), Refusal>,
    s2: &mut ServeState,
    id: &str,
    sdp: String,
    client_addr: Option<String>,
    created: u64,
    started: u64,
    opened: Result<CreateSessionResponse, Refusal>,
    s3: &mut ServeState,
    body: &str,
    answered: Result<String, Refusal>,
    s4: &mut ServeState,
    applied_at: u64,
    told: Result<String, Refusal>,
    s5: &mut ServeState,
    opened_at: u64,
    last: ServeState,
    payload: AdminCmdRequest,
    typed: Result<Vec<u8>, Refusal>,
)
    requires
        old(s1)@.taken < old(s1).settings.max_sessions,
        !old(s1)@.knows(id@),
        call_ensures(ServeState::take_place, (s1,), placed),
        *old(s2) == *final(s1),
        crate::session::has_candidate(sdp@),
        call_ensures(
            ServeState::finish_session,
            (s2, id, Ok(sdp), client_addr, created, started),
            opened,
        ),
        *old(s3) == *final(s2),
        crate::session::has_candidate(crate::text::trimmed(body@)),
        crate::session::answer_fault(crate::text::trimmed(body@)) is None,
        call_ensures(ServeState::submit_answer, (s3, id, body), answered),
        *old(s4) == *final(s3),
        call_ensures(ServeState::finish_answer, (s4, id, Ok(()), applied_at), told),
        *old(s5) == *final(s4),
        call_ensures(ServeState::mark_connected, (s5, id, opened_at), ()),
        last == *final(s5),
        !crate::text::is_blank(payload.cmd@),
        call_ensures(ServeState::command_bytes, (&last, id, &payload), typed),
    ensures
        placed is Ok,
        opened matches Ok(reply) && reply.session_id@ == id@ && reply.offer_sdp@ == sdp@
            && reply.stun_servers@ == old(s1).settings.stun_servers@,
        final(s2)@.sessions[id@].lifecycle == SessionLifecycleState::Pending,
        answered matches Ok(answer) && answer@ == crate::text::trimmed(body@),
        told is Ok,
        last@.sessions == old(s1)@.sessions.insert(
            id@,
            BrowserSession {
                answered: true,
                lifecycle: SessionLifecycleState::Connected,
                client_addr,
                created_at_unix: created,
                last_active_at_unix: opened_at,
            },
        ),
        last@.closed == old(s1)@.closed,
        last@.taken == old(s1)@.taken + 1,
        typed is Ok,
{
    assert(last@.sessions =~= old(s1)@.sessions.insert(
        id@,
        BrowserSession {
            answered: true,
            lifecycle: SessionLifecycleState::Connected,
            client_addr,
            created_at_unix: created,
            last_active_at_unix: opened_at,
        },
    ));
}

/// A place that is taken for a session that does not open is given back, so that the
/// server has as much room as before.
pub proof fn unopened_session_gives_its_place_back(
    s1: &mut ServeState,
    s2: &mut ServeState,
    id: &str,
    offer: Result<String, String>,
    client_addr: Option<String>,
    created: u64,
    started: u64,
    opened: Result<CreateSessionResponse, Refusal>,
)
    requires
        call_ensures(ServeState::take_place, (s1,), Ok(())),
        *old(s2) == *final(s1),
        call_ensures(
            ServeState::finish_session,
            (s2, id, offer, client_addr, created, started),
            opened,
        ),
    ensures
        opened is Err <==> (offer is Err || !crate::session::has_candidate(offer->Ok_0@)),
        opened is Err ==> final(s2)@ == old(s1)@,
        opened is Ok ==> final(s2)@.taken == old(s1)@.taken + 1,
{
    if opened is Err {
        assert(final(s2)@ =~= old(s1)@);
    }
}

/// A server that is full refuses a session and stays as it is; once a place is given
/// back, the next is let in.
pub proof fn full_server_takes_nobody_until_a_place_is_free(
    s1: &mut ServeState,
    refused: Result<(), Refusal>,
    s2: &mut ServeState,
    s3: &mut ServeState,
    placed: Result<(), Refusal>,
)
    requires
        old(s1)@.taken == old(s1).settings.max_sessions,
        old(s1)@.taken > 0,
        call_ensures(ServeState::take_place, (s1,), refused),
        *old(s2) == *final(s1),
        call_ensures(ServeState::release, (s2,), ()),
        *old(s3) == *final(s2),
        call_ensures(ServeState::take_place, (s3,), placed),
    ensures
        refused matches Err(e) && e.status == Status::TooManyRequests,
        final(s1)@ == old(s1)@,
        placed is Ok,
        final(s3)@ == old(s1)@,
{
    assert(final(s3)@ =~= old(s1)@);
}

/// A session takes one answer: the next is refused, however good it is, and changes
/// nothing.
pub proof fn second_answer_is_refused(
    s1: &mut ServeState,
    id: &str,
    first: &str,
    answered: Result<String, Refusal>,
    s2: &mut ServeState,
    second: &str,
    again: Result<String, Refusal>,
)
    requires
        call_ensures(ServeState::submit_answer, (s1, id, first), answered),
        answered is Ok,
        *old(s2) == *final(s1),
        crate::session::has_candidate(crate::text::trimmed(second@)),
        call_ensures(ServeState::submit_answer, (s2, id, second), again),
    ensures
        again matches Err(e) && e.status == Status::Conflict,
        final(s2)@.sessions == final(s1)@.sessions,
{
    assert(final(s2)@.sessions =~= final(s1)@.sessions);
}

/// Where an answer could not be applied, the session is as it was before, and takes
/// another.
pub proof fn answer_that_failed_may_be_replaced(
    s1: &mut ServeState,
    id: &str,
    first: &str,
    answered: Result<String, Refusal>,
    s2: &mut ServeState,
    cause: String,
    now: u64,
    told: Result<String, Refusal>,
    s3: &mut ServeState,
    second: &str,
    again: Result<String, Refusal>,
)
    requires
        call_ensures(ServeState::submit_answer, (s1, id, first), answered),
        answered is Ok,
        *old(s2) == *final(s1),
        call_ensures(ServeState::finish_answer, (s2, id, Err(cause), now), told),
        *old(s3) == *final(s2),
        crate::session::has_candidate(crate::text::trimmed(second@)),
        crate::session::answer_fault(crate::text::trimmed(second@)) is None,
        call_ensures(ServeState::submit_answer, (s3, id, second), again),
    ensures
        told matches Err(e) && e.status == Status::InternalServerError,
        final(s2)@.sessions == old(s1)@.sessions,
        again matches Ok(answer) && answer@ == crate::text::trimmed(second@),
{
    assert(final(s2)@.sessions =~= old(s1)@.sessions);
}

/// An open session runs out of time exactly while no answer was taken for it.
pub proof fn only_unanswered_sessions_run_out_of_time(
    s1: &mut ServeState,
    id: &str,
    body: &str,
    answered: Result<String, Refusal>,
    before: ServeState,
    out_before: bool,
    after: ServeState,
    out_after: bool,
)
    requires
        before == *old(s1),
        call_ensures(ServeState::answer_timed_out, (&before, id), out_before),
        call_ensures(ServeState::submit_answer, (s1, id, body), answered),
        after == *final(s1),
        call_ensures(ServeState::answer_timed_out, (&after, id), out_after),
    ensures
        out_before <==> before@.sessions.dom().contains(id@) && !before@.sessions[id@].answered,
        answered is Ok ==> out_before && !out_after,
        !before@.sessions.dom().contains(id@) ==> !out_before && !out_after,
{
}

/// A session that a visitor ends is gone, and remembered with the address and the
/// times that it had; its name stays taken. The place is not given back yet, and the
/// other sessions stay open. To end it again is refused and changes nothing.
pub proof fn ended_session_is_gone_and_remembered(
    s1: &mut ServeState,
    id: &str,
    said: Result<String, Refusal>,
    s2: &mut ServeState,
    again: Result<String, Refusal>,
    after: ServeState,
    free: bool,
    found: Option<&BrowserSession>,
    closed: bool,
)
    requires
        old(s1)@.wf(),
        old(s1)@.sessions.dom().contains(id@),
        call_ensures(ServeState::end_session, (s1, id), said),
        *old(s2) == *final(s1),
        call_ensures(ServeState::end_session, (s2, id), again),
        after == *final(s1),
        call_ensures(ServeState::is_free, (&after, id), free),
        call_ensures(ServeState::get_session, (&after, id), found),
        call_ensures(ServeState::is_closed_session, (&after, id), closed),
    ensures
        said is Ok,
        found is None,
        closed,
        !free,
        after@.closed[id@].client_addr == old(s1)@.sessions[id@].client_addr,
        after@.closed[id@].created_at_unix == old(s1)@.sessions[id@].created_at_unix,
        after@.closed[id@].last_active_at_unix == old(s1)@.sessions[id@].last_active_at_unix,
        after@.sessions == old(s1)@.sessions.remove(id@),
        after@.taken == old(s1)@.taken,
        again matches Err(e) && e.status == Status::NotFound,
        final(s2)@ == after@,
{
    crate::sessions::ended_session_is_remembered(old(s1)@, id@);
}

/// Ending a session, in whatever way, ends the same session in the same way.
pub proof fn all_ways_of_ending_agree(
    s1: &mut ServeState,
    id: &str,
    removed: bool,
    s2: &mut ServeState,
    send_quit: bool,
    has_channel: bool,
    left: Option<SessionEnd>,
    s3: &mut ServeState,
    said: Result<String, Refusal>,
)
    requires
        *old(s2) == *old(s1),
        *old(s3) == *old(s1),
        call_ensures(ServeState::remove_session, (s1, id), removed),
        call_ensures(ServeState::close_session, (s2, id, send_quit, has_channel), left),
        call_ensures(ServeState::end_session, (s3, id), said),
    ensures
        final(s1)@ == final(s2)@,
        final(s1)@ == final(s3)@,
        removed <==> old(s1)@.sessions.dom().contains(id@),
        removed <==> left is Some,
        removed <==> said is Ok,
        left matches Some(end) ==> end.close_connection && (end.send_quit <==> send_quit
            && has_channel),
{
}

/// The other side is told that a session is over where it did not leave by itself and
/// can still be reached; the connection is closed in any case.
pub proof fn other_side_is_told_of_the_end(
    reason: EndReason,
    quits: bool,
    has_channel: bool,
    end: SessionEnd,
)
    requires
        call_ensures(EndReason::sends_quit, (&reason,), quits),
        call_ensures(ended, (quits, has_channel), end),
    ensures
        end.close_connection,
        end.send_quit <==> !(reason is Lost) && has_channel,
{
}

/// When all sessions end, none is left open, each of them is handed out once, and
/// the last of them are remembered behind those that ended before, as many as the
/// history holds.
pub proof fn all_sessions_end_at_once(state: &mut ServeState, ids: Vec<String>)
    requires
        call_ensures(ServeState::close_all_sessions, (state,), ids),
    ensures
        final(state)@.sessions.dom() == Set::<Seq<char>>::empty(),
        crate::text::views(ids@).no_duplicates(),
        crate::text::views(ids@).to_set() == old(state)@.sessions.dom(),
        old(state)@.order.len() + ids@.len() <= 1024 ==> final(state)@.order == old(state)@.order
            + crate::text::views(ids@),
        final(state)@.taken == old(state)@.taken,
{
    let names = crate::text::views(ids@);
    assert forall|id: Seq<char>| old(state)@.sessions.dom().contains(id) <==> #[trigger] names.to_set().contains(id) by {
        assert(old(state)@.sessions.dom().contains(id) <==> names.contains(id));
    }
    assert(names.to_set() =~= old(state)@.sessions.dom());
    assert((old(state)@.order + names).skip(0) =~= old(state)@.order + names);
}

/// A new session gets a name of twelve letters and digits that no session has, open
/// or ended.
pub proof fn new_names_are_free(state: ServeState, id: String, name: &str, free: bool)
    requires
        call_ensures(ServeState::allocate_session_id, (&state,), id),
        name@ == id@,
        call_ensures(ServeState::is_free, (&state, name), free),
    ensures
        free,
        id@.len() == 12,
        forall|i: int| 0 <= i < id@.len() ==> crate::random::is_alphanumeric(#[trigger] id@[i]),
{
}

/// That a session was heard of changes when that was, and nothing else; where there
/// is no such session, nothing.
pub proof fn hearing_of_a_session_moves_its_time(state: &mut ServeState, id: &str, now: u64)
    requires
        call_ensures(ServeState::update_last_active, (state, id, now), ()),
    ensures
        final(state)@.sessions.dom() == old(state)@.sessions.dom(),
        forall|other: Seq<char>|
            other != id@ && #[trigger] old(state)@.sessions.dom().contains(other) ==> final(
                state)@.sessions[other] == old(state)@.sessions[other],
        old(state)@.sessions.dom().contains(id@) ==> final(state)@.sessions[id@]
            == (BrowserSession { last_active_at_unix: now, ..old(state)@.sessions[id@] }),
{
    assert(final(state)@.sessions.dom() =~= old(state)@.sessions.dom());
}

/// Nothing that is done about its sessions changes how a server was started.
pub proof fn server_stays_as_it_was_started(
    s1: &mut ServeState,
    s2: &mut ServeState,
    s3: &mut ServeState,
    s4: &mut ServeState,
    s5: &mut ServeState,
    s6: &mut ServeState,
    s7: &mut ServeState,
    s8: &mut ServeState,
    id: &str,
    body: &str,
    offer: Result<String, String>,
    client_addr: Option<String>,
    applied: Result<(), String>,
    now: u64,
    placed: Result<(), Refusal>,
    opened: Result<CreateSessionResponse, Refusal>,
    answered: Result<String, Refusal>,
    told: Result<String, Refusal>,
    removed: bool,
    ids: Vec<String>,
)
    requires
        call_ensures(ServeState::take_place, (s1,), placed),
        call_ensures(ServeState::finish_session, (s2, id, offer, client_addr, now, now), opened),
        call_ensures(ServeState::submit_answer, (s3, id, body), answered),
        call_ensures(ServeState::finish_answer, (s4, id, applied, now), told),
        call_ensures(ServeState::mark_connected, (s5, id, now), ()),
        call_ensures(ServeState::remove_session, (s6, id), removed),
        call_ensures(ServeState::release, (s7,), ()),
        call_ensures(ServeState::close_all_sessions, (s8,), ids),
    ensures
        final(s1).settings == old(s1).settings,
        final(s2).settings == old(s2).settings,
        final(s3).settings == old(s3).settings,
        final(s4).settings == old(s4).settings,
        final(s5).settings == old(s5).settings,
        final(s6).settings == old(s6).settings,
        final(s7).settings == old(s7).settings,
        final(s8).settings == old(s8).settings,
{
}

/// The connections of a server's sessions are set up for the servers it was started
/// with, on the side that offers.
pub proof fn sessions_are_set_up_to_offer(settings: ServeSettings, setup: Session)
    requires
        call_ensures(ServeSettings::peer_setup, (&settings,), setup),
    ensures
        setup.stun_servers@ == settings.stun_servers@,
        setup.ice_servers@.len() == settings.stun_servers@.len(),
        forall|i: int|
            0 <= i < settings.stun_servers@.len() ==> (#[trigger] setup.ice_servers@[i])@ == seq![
                settings.stun_servers@[i],
            ],
        setup.include_loopback_candidate,
        setup.network_types@ == seq![NetworkType::Udp4],
        setup.answering_dtls_role == Some(DtlsRole::Server),
{
}

/// How long is waited: for an answer ninety seconds, and between two looks at the
/// relay less than one.
pub proof fn waits_end()
    ensures
        crate::sessions::ANSWER_TIMEOUT_SECS == 90,
        crate::ten_kb_site::POLL_INTERVAL_MS == 300,
{
}

/// A name is free exactly where no session has it, open or ended, and once a session
/// opened under it, it is not.
pub proof fn opened_name_is_taken(
    state: &mut ServeState,
    id: &str,
    offer: Result<String, String>,
    client_addr: Option<String>,
    created: u64,
    started: u64,
    opened: Result<CreateSessionResponse, Refusal>,
    after: ServeState,
    free: bool,
)
    requires
        call_ensures(
            ServeState::finish_session,
            (state, id, offer, client_addr, created, started),
            opened,
        ),
        after == *final(state),
        call_ensures(ServeState::is_free, (&after, id), free),
    ensures
        free <==> !after@.sessions.dom().contains(id@) && !after@.closed.dom().contains(id@),
        free <==> !after@.knows(id@),
        opened is Ok ==> !free,
{
}

} // verus!
