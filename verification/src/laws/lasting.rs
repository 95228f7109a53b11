//! Promises about requests over time: what becomes of them, whatever else happens.

use crate::direct_chats::{asks_to_chat, chat_accept_refusal, joins_chat, requests_chat};
use crate::direct_chats::DirectChatRequestSummaryView;
use crate::error::{conflict, ErrorView};
use crate::events::DispatchView;
use crate::invariants::{history, law_a_service_stays_sound};
use crate::invariants::{law_operations_keep_the_state_sound, sound};
use crate::join_requests::{asks_for, requests_entry, JoinRequestResponseView};
use crate::laws::presence::{lemma_releases, lemma_releases_all, lemma_tidies, requests_spared};
use crate::operations::{performs, Operation};
use crate::presence::{connections_of, releases, releases_all, sweeps, StatsBroadcast};
use crate::sessions::signs_out;
use crate::sockets::{closes_connection, closes_stats_socket, connected, opens_room_socket};
use crate::sockets::{opens_stats_socket, subscribed, RoomGreeting, SocketClosing};
use crate::sockets::StatsGreeting;
use crate::state::{AppStateView, JoinRequestStatus, JoinRequestView};
use crate::tables::{lists, view_items};
use crate::time::Timestamp;
use vstd::prelude::*;

verus! {

/// Whether the operation makes a new join request under the identifier of this one: an
/// identifier that was drawn twice.
pub open spec fn replaces_join_request(
    operation: Operation,
    s: AppStateView,
    after: AppStateView,
    request_id: u128,
) -> bool {
    operation matches Operation::RequestEntry { fresh_id, .. } && fresh_id == request_id && after
        != s
}

/// Whether the operation makes a new chat request under the identifier of this one: an
/// identifier that was drawn twice.
pub open spec fn replaces_chat_request(
    operation: Operation,
    s: AppStateView,
    after: AppStateView,
    request_id: u128,
) -> bool {
    operation matches Operation::RequestChat { fresh_id, .. } && fresh_id == request_id && after
        != s
}

/// Whether the operation accepts the chat request.
pub open spec fn takes_up(operation: Operation, s: AppStateView, request_id: u128) -> bool {
    operation matches Operation::AcceptChat { request_id: accepted, session_id, .. } && accepted
        == request_id && chat_accept_refusal(s, request_id, session_id) is None
}

/// Whether a join request is the one it was: by whom, for which room, since when. It may have
/// been accepted since, but an acceptance is not taken back.
pub open spec fn same_request(was: JoinRequestView, is: JoinRequestView) -> bool {
    &&& is.id == was.id
    &&& is.room_id == was.room_id
    &&& is.requester_session == was.requester_session
    &&& is.requester_display_name == was.requester_display_name
    &&& is.created_at == was.created_at
    &&& was.status == JoinRequestStatus::Accepted ==> is.status == JoinRequestStatus::Accepted
}

proof fn lemma_closes_spares(
    s: AppStateView,
    connection_id: u128,
    now: Timestamp,
    after: AppStateView,
    closing: SocketClosing,
)
    requires
        closes_connection(s, connection_id, now, after, closing),
    ensures
        requests_spared(s, after),
{
    let dispatches = view_items(closing.dispatches@);
    let mid = choose|mid: AppStateView| #[trigger]
        releases(s, connection_id, now, mid, dispatches) && sweeps(mid, now, after, closing.stats);
    lemma_releases(s, connection_id, now, mid, dispatches);
    lemma_tidies(mid, now, after, view_items(closing.stats.dispatches@));
}

/// Operations that open or end connections leave alone what no room goes with.
proof fn lemma_connections_spare(
    operation: Operation,
    s: AppStateView,
    now: Timestamp,
    after: AppStateView,
)
    requires
        sound(s),
        performs(operation, s, now, after),
        operation is SignOut || operation is OpenRoomSocket || operation is CloseConnection
            || operation is OpenStatsSocket || operation is CloseStatsSocket || operation is Sweep,
    ensures
        requests_spared(s, after),
{
    match operation {
        Operation::SignOut { session_id } => {
            let dispatches = choose|dispatches: Seq<DispatchView>|
                signs_out(s, session_id, now, after, dispatches);
            let without = AppStateView {
                sessions: s.sessions.remove(session_id),
                directory: s.directory.remove(session_id),
                ..s
            };
            let order = choose|order: Seq<u128>|
                lists(order, connections_of(without, session_id)) && #[trigger] releases_all(
                    without,
                    order,
                    now,
                    after,
                    dispatches,
                );
            lemma_releases_all(without, order, now, after, dispatches);
        },
        Operation::OpenRoomSocket { room_id, session_id, connection_id } => {
            let greeting = choose|greeting: RoomGreeting|
                opens_room_socket(s, room_id, session_id, connection_id, now, after, greeting);
            let begun = connected(s, room_id, session_id, connection_id, now);
            lemma_tidies(begun, now, after, view_items(greeting.stats.dispatches@));
            assert(requests_spared(s, begun));
        },
        Operation::CloseConnection { connection_id } => {
            let closing = choose|closing: SocketClosing|
                closes_connection(s, connection_id, now, after, closing);
            lemma_closes_spares(s, connection_id, now, after, closing);
        },
        Operation::OpenStatsSocket { claimed, subscriber_id, connection_id } => {
            let greeting = choose|greeting: StatsGreeting|
                opens_stats_socket(
                    s,
                    claimed,
                    subscriber_id,
                    connection_id,
                    now,
                    after,
                    greeting,
                );
            let begun = subscribed(s, claimed, subscriber_id, connection_id, now);
            lemma_tidies(begun, now, after, view_items(greeting.stats.dispatches@));
        },
        Operation::CloseStatsSocket { subscriber_id, connection } => {
            let closing = choose|closing: SocketClosing|
                closes_stats_socket(s, subscriber_id, connection, now, after, closing);
            let without = AppStateView {
                stats_subscribers: s.stats_subscribers.remove(subscriber_id),
                ..s
            };
            match connection {
                Some(connection) => {
                    lemma_closes_spares(without, connection, now, after, closing);
                },
                None => {
                    lemma_tidies(without, now, after, view_items(closing.stats.dispatches@));
                },
            }
        },
        _ => {
            let result = choose|result: StatsBroadcast| sweeps(s, now, after, result);
            lemma_tidies(s, now, after, view_items(result.dispatches@));
        },
    }
}

/// A join request lasts as long as its room. Whatever happens, it is the same request, and
/// only accepting it changes it.
pub proof fn law_a_join_request_lasts(
    operation: Operation,
    s: AppStateView,
    now: Timestamp,
    after: AppStateView,
    request_id: u128,
)
    requires
        sound(s),
        performs(operation, s, now, after),
        !replaces_join_request(operation, s, after, request_id),
        s.join_requests.contains_key(request_id),
        after.rooms.contains_key(s.join_requests[request_id].room_id),
    ensures
        after.join_requests.contains_key(request_id),
        same_request(s.join_requests[request_id], after.join_requests[request_id]),
        !(operation matches Operation::AcceptEntry { request_id: accepted, .. } && accepted
            == request_id) ==> after.join_requests[request_id] == s.join_requests[request_id],
{
    if operation is SignOut || operation is OpenRoomSocket || operation is CloseConnection
        || operation is OpenStatsSocket || operation is CloseStatsSocket || operation is Sweep {
        lemma_connections_spare(operation, s, now, after);
    }
}

/// A pending chat request stays as it is, whatever happens, until it is accepted.
pub proof fn law_a_pending_chat_request_lasts(
    operation: Operation,
    s: AppStateView,
    now: Timestamp,
    after: AppStateView,
    request_id: u128,
)
    requires
        sound(s),
        performs(operation, s, now, after),
        !replaces_chat_request(operation, s, after, request_id),
        !takes_up(operation, s, request_id),
        s.direct_chat_requests.contains_key(request_id),
        s.direct_chat_requests[request_id].status == JoinRequestStatus::Pending,
    ensures
        after.direct_chat_requests.contains_key(request_id),
        after.direct_chat_requests[request_id] == s.direct_chat_requests[request_id],
{
    if operation is SignOut || operation is OpenRoomSocket || operation is CloseConnection
        || operation is OpenStatsSocket || operation is CloseStatsSocket || operation is Sweep {
        lemma_connections_spare(operation, s, now, after);
    }
}

/// As long as its room is there, a join request is the same request, whatever happens.
proof fn lemma_join_request_kept(
    states: Seq<AppStateView>,
    steps: Seq<(Operation, Timestamp)>,
    room_id: u128,
    request_id: u128,
    to: int,
)
    requires
        history(states, steps),
        sound(states[0]),
        forall|i: int|
            0 <= i < steps.len() ==> !replaces_join_request(
                (#[trigger] steps[i]).0,
                states[i],
                states[i + 1],
                request_id,
            ),
        forall|i: int| 0 <= i < states.len() ==> (#[trigger] states[i]).rooms.contains_key(room_id),
        states[0].join_requests.contains_key(request_id),
        states[0].join_requests[request_id].room_id == room_id,
        0 <= to < states.len(),
    ensures
        states[to].join_requests.contains_key(request_id),
        same_request(states[0].join_requests[request_id], states[to].join_requests[request_id]),
    decreases to,
{
    if to > 0 {
        lemma_join_request_kept(states, steps, room_id, request_id, to - 1);
        law_a_service_stays_sound(states, steps, to - 1);
        let step = steps[to - 1];
        law_a_join_request_lasts(step.0, states[to - 1], step.1, states[to], request_id);
    }
}

/// Asking again for a room at any later time, whatever has happened since, shows the request
/// that was made first, as long as the room has been there all the time: it changes nothing
/// and tells nobody.
pub proof fn law_asking_again_later_is_asking_once(
    s: AppStateView,
    room_id: u128,
    session_id: u128,
    first_id: u128,
    first_time: Timestamp,
    first: Result<JoinRequestResponseView, ErrorView>,
    states: Seq<AppStateView>,
    steps: Seq<(Operation, Timestamp)>,
    second_id: u128,
    second_time: Timestamp,
    after: AppStateView,
    second: Result<JoinRequestResponseView, ErrorView>,
)
    requires
        sound(s),
        requests_entry(s, room_id, session_id, first_id, first_time, states[0], first),
        first is Ok,
        history(states, steps),
        forall|i: int|
            0 <= i < steps.len() ==> !replaces_join_request(
                (#[trigger] steps[i]).0,
                states[i],
                states[i + 1],
                first->Ok_0.request.id,
            ),
        forall|i: int| 0 <= i < states.len() ==> (#[trigger] states[i]).rooms.contains_key(room_id),
        requests_entry(
            states.last(),
            room_id,
            session_id,
            second_id,
            second_time,
            after,
            second,
        ),
        second is Ok,
    ensures
        after == states.last(),
        second->Ok_0.request.id == first->Ok_0.request.id,
        second->Ok_0.request.created_at == first->Ok_0.request.created_at,
        second->Ok_0.dispatches.len() == 0,
{
    let begun = states[0];
    let asking = Operation::RequestEntry { room_id, session_id, fresh_id: first_id };
    if let Operation::RequestEntry { room_id: room, session_id: asker, fresh_id } = asking {
        assert(requests_entry(s, room, asker, fresh_id, first_time, begun, first));
    }
    law_operations_keep_the_state_sound(asking, s, first_time, begun);
    let shown = first->Ok_0.request.id;
    let last = states.len() - 1;
    lemma_join_request_kept(states, steps, room_id, shown, last);
    law_a_service_stays_sound(states, steps, last);
    assert(asks_for(states.last(), shown, room_id, session_id));
}

/// A pending chat request that nobody accepts stays as it is, whatever happens.
proof fn lemma_pending_chat_kept(
    states: Seq<AppStateView>,
    steps: Seq<(Operation, Timestamp)>,
    request_id: u128,
    to: int,
)
    requires
        history(states, steps),
        sound(states[0]),
        forall|i: int|
            0 <= i < steps.len() ==> !takes_up((#[trigger] steps[i]).0, states[i], request_id)
                && !replaces_chat_request(steps[i].0, states[i], states[i + 1], request_id),
        states[0].direct_chat_requests.contains_key(request_id),
        states[0].direct_chat_requests[request_id].status == JoinRequestStatus::Pending,
        0 <= to < states.len(),
    ensures
        states[to].direct_chat_requests.contains_key(request_id),
        states[to].direct_chat_requests[request_id]
            == states[0].direct_chat_requests[request_id],
    decreases to,
{
    if to > 0 {
        lemma_pending_chat_kept(states, steps, request_id, to - 1);
        law_a_service_stays_sound(states, steps, to - 1);
        let step = steps[to - 1];
        law_a_pending_chat_request_lasts(step.0, states[to - 1], step.1, states[to], request_id);
    }
}

/// Asking again for a chat at any later time, whatever has happened since, shows the request
/// that was made first, unless it was accepted in between, and changes nothing.
pub proof fn law_asking_to_chat_again_later_is_asking_once(
    s: AppStateView,
    session_id: u128,
    target: u128,
    first_id: u128,
    first_time: Timestamp,
    first: Result<DirectChatRequestSummaryView, ErrorView>,
    states: Seq<AppStateView>,
    steps: Seq<(Operation, Timestamp)>,
    second_id: u128,
    second_time: Timestamp,
    after: AppStateView,
    second: Result<DirectChatRequestSummaryView, ErrorView>,
)
    requires
        sound(s),
        requests_chat(s, session_id, target, first_id, first_time, states[0], first),
        first is Ok,
        history(states, steps),
        forall|i: int|
            0 <= i < steps.len() ==> !takes_up((#[trigger] steps[i]).0, states[i], first->Ok_0.id)
                && !replaces_chat_request(steps[i].0, states[i], states[i + 1], first->Ok_0.id),
        requests_chat(states.last(), session_id, target, second_id, second_time, after, second),
        second is Ok,
    ensures
        after == states.last(),
        second->Ok_0 == first->Ok_0,
{
    let begun = states[0];
    let asking = Operation::RequestChat { session_id, target, fresh_id: first_id };
    if let Operation::RequestChat { session_id: asker, target: asked, fresh_id } = asking {
        assert(requests_chat(s, asker, asked, fresh_id, first_time, begun, first));
    }
    law_operations_keep_the_state_sound(asking, s, first_time, begun);
    let shown = first->Ok_0.id;
    let last = states.len() - 1;
    lemma_pending_chat_kept(states, steps, shown, last);
    law_a_service_stays_sound(states, steps, last);
    assert(asks_to_chat(states.last(), shown, session_id, target));
}

/// A chat request that was used stays used, whatever happens.
pub proof fn law_a_used_chat_request_stays_used(
    operation: Operation,
    s: AppStateView,
    now: Timestamp,
    after: AppStateView,
    request_id: u128,
)
    requires
        sound(s),
        performs(operation, s, now, after),
        !replaces_chat_request(operation, s, after, request_id),
        s.direct_chat_requests.contains_key(request_id),
        s.direct_chat_requests[request_id].consumed_at is Some,
    ensures
        after.direct_chat_requests.contains_key(request_id),
        after.direct_chat_requests[request_id] == s.direct_chat_requests[request_id],
{
    if operation is SignOut || operation is OpenRoomSocket || operation is CloseConnection
        || operation is OpenStatsSocket || operation is CloseStatsSocket || operation is Sweep {
        lemma_connections_spare(operation, s, now, after);
    }
}

proof fn lemma_used_chat_kept(
    states: Seq<AppStateView>,
    steps: Seq<(Operation, Timestamp)>,
    request_id: u128,
    to: int,
)
    requires
        history(states, steps),
        sound(states[0]),
        forall|i: int|
            0 <= i < steps.len() ==> !replaces_chat_request(
                (#[trigger] steps[i]).0,
                states[i],
                states[i + 1],
                request_id,
            ),
        states[0].direct_chat_requests.contains_key(request_id),
        states[0].direct_chat_requests[request_id].consumed_at is Some,
        0 <= to < states.len(),
    ensures
        states[to].direct_chat_requests.contains_key(request_id),
        states[to].direct_chat_requests[request_id]
            == states[0].direct_chat_requests[request_id],
    decreases to,
{
    if to > 0 {
        lemma_used_chat_kept(states, steps, request_id, to - 1);
        law_a_service_stays_sound(states, steps, to - 1);
        let step = steps[to - 1];
        law_a_used_chat_request_stays_used(step.0, states[to - 1], step.1, states[to], request_id);
    }
}

/// A chat request that was used can never be used again, whatever has happened since and
/// whoever tries: they are refused, and nothing changes.
pub proof fn law_a_used_chat_request_is_refused_ever_after(
    states: Seq<AppStateView>,
    steps: Seq<(Operation, Timestamp)>,
    request_id: u128,
    session_id: u128,
    now: Timestamp,
    after: AppStateView,
    result: Result<DirectChatRequestSummaryView, ErrorView>,
)
    requires
        history(states, steps),
        sound(states[0]),
        forall|i: int|
            0 <= i < steps.len() ==> !replaces_chat_request(
                (#[trigger] steps[i]).0,
                states[i],
                states[i + 1],
                request_id,
            ),
        states[0].direct_chat_requests.contains_key(request_id),
        states[0].direct_chat_requests[request_id].consumed_at is Some,
        joins_chat(states.last(), request_id, session_id, now, after, result),
    ensures
        result is Err,
        after == states.last(),
{
    lemma_used_chat_kept(states, steps, request_id, states.len() - 1);
}

/// Of all attempts to join by a chat request, at whatever times and with whatever in between,
/// one at most succeeds. Whoever succeeded, and still has a session, is told that the link was
/// already used.
pub proof fn law_a_chat_is_joined_once(
    s: AppStateView,
    request_id: u128,
    first_session: u128,
    first_time: Timestamp,
    first: Result<DirectChatRequestSummaryView, ErrorView>,
    states: Seq<AppStateView>,
    steps: Seq<(Operation, Timestamp)>,
    second_session: u128,
    second_time: Timestamp,
    after: AppStateView,
    second: Result<DirectChatRequestSummaryView, ErrorView>,
)
    requires
        sound(s),
        joins_chat(s, request_id, first_session, first_time, states[0], first),
        first is Ok,
        history(states, steps),
        forall|i: int|
            0 <= i < steps.len() ==> !replaces_chat_request(
                (#[trigger] steps[i]).0,
                states[i],
                states[i + 1],
                request_id,
            ),
        joins_chat(states.last(), request_id, second_session, second_time, after, second),
    ensures
        second is Err,
        after == states.last(),
        second_session == first_session && states.last().sessions.contains_key(second_session)
            ==> second == Err::<DirectChatRequestSummaryView, ErrorView>(
            conflict("That chat join link was already used."@),
        ),
{
    lemma_used_chat_kept(states, steps, request_id, states.len() - 1);
}

} // verus!
