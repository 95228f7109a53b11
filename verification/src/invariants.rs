//! What holds of the service in every state.

use crate::accounts::UserAccountView;
use crate::direct_chats::{asks_to_chat, chat_accept_refusal, chat_room, new_chat_request};
use crate::direct_chats::with_accepted_chat;
use crate::events::DispatchView;
use crate::join_requests::{accept_refusal, asks_for, new_join_request, with_accepted};
use crate::operations::{performs, Operation};
use crate::presence::{departed, left_room, prunes_stale, prunes_unconnected, releases};
use crate::presence::{releases_all, removes_connection, sweeps, takes_out, takes_out_all};
use crate::presence::{tidies, RemovalView, StatsBroadcast};
use crate::rooms::{asked, entered, joined, opened_room};
use crate::sessions::signs_out;
use crate::sockets::{closes_connection, closes_stats_socket, connected, opens_room_socket};
use crate::sockets::{opens_stats_socket, subscribed, RoomGreeting, SocketClosing};
use crate::sockets::StatsGreeting;
use crate::state::{started, AppStateView, JoinRequestStatus, PresenceConnectionKind, RoomView};
use crate::state::{SessionView, MAX_ROOM_SIZE};
use crate::tables::view_items;
use crate::time::Timestamp;
use vstd::prelude::*;
use vstd::set_lib::lemma_len_subset;

verus! {

/// A room is kept under its identifier and has places for at most eight. Of each
/// participant it is known when they came, and an open channel belongs to a connection.
pub open spec fn room_sound(key: u128, room: RoomView) -> bool {
    &&& room.id == key
    &&& room.participants.finite()
    &&& room.approved_joiners.finite()
    &&& room.reserved().len() <= MAX_ROOM_SIZE
    &&& room.participant_joined_at.dom() == room.participants
    &&& room.connection_ids.dom() == room.senders
}

/// A join request is kept under its identifier, its room is there, and if it was accepted it
/// is known by whom.
pub open spec fn request_sound(s: AppStateView, key: u128) -> bool {
    let request = s.join_requests[key];
    &&& request.id == key
    &&& s.rooms.contains_key(request.room_id)
    &&& request.status == JoinRequestStatus::Accepted <==> request.accepted_by is Some
}

/// A chat request is kept under its identifier and is between two people. A pending one has
/// no room and has not been used; an accepted one was accepted by the person asked, and
/// leads to a room, which is there until the request is used.
pub open spec fn chat_sound(s: AppStateView, key: u128) -> bool {
    let request = s.direct_chat_requests[key];
    &&& request.id == key
    &&& request.requester_session != request.target_session
    &&& match request.status {
        JoinRequestStatus::Pending => request.room_id is None && request.accepted_by is None
            && request.consumed_at is None,
        JoinRequestStatus::Accepted => request.accepted_by == Some(request.target_session)
            && request.room_id is Some && (request.consumed_at is None ==> s.rooms.contains_key(
            request.room_id->0,
        )),
    }
}

/// A listing is its session's own, says that they want to be found, and goes with the
/// session.
pub open spec fn listing_sound(s: AppStateView, key: u128) -> bool {
    s.directory[key].session_id == key && s.directory[key].available && s.sessions.contains_key(
        key,
    )
}

/// Nobody has two requests for one room.
pub open spec fn one_request_each(s: AppStateView) -> bool {
    forall|a: u128, b: u128|
        #![trigger s.join_requests.contains_key(a), s.join_requests.contains_key(b)]
        s.join_requests.contains_key(a) && s.join_requests.contains_key(b)
            && s.join_requests[a].room_id == s.join_requests[b].room_id
            && s.join_requests[a].requester_session == s.join_requests[b].requester_session
            ==> a == b
}

/// Nobody has two pending requests for a chat with one person.
pub open spec fn one_pending_chat_each(s: AppStateView) -> bool {
    forall|a: u128, b: u128|
        #![trigger s.direct_chat_requests.contains_key(a), s.direct_chat_requests.contains_key(b)]
        s.direct_chat_requests.contains_key(a) && s.direct_chat_requests.contains_key(b)
            && s.direct_chat_requests[a].status == JoinRequestStatus::Pending
            && s.direct_chat_requests[b].status == JoinRequestStatus::Pending
            && s.direct_chat_requests[a].requester_session
            == s.direct_chat_requests[b].requester_session
            && s.direct_chat_requests[a].target_session == s.direct_chat_requests[b].target_session
            ==> a == b
}

/// What holds of every state: all that is kept is sound, and nothing is asked twice.
pub open spec fn sound(s: AppStateView) -> bool {
    &&& forall|key: u128| #[trigger] s.sessions.contains_key(key) ==> s.sessions[key].id == key
    &&& forall|key: u128| #[trigger] s.rooms.contains_key(key) ==> room_sound(key, s.rooms[key])
    &&& forall|key: u128| #[trigger] s.join_requests.contains_key(key) ==> request_sound(s, key)
    &&& forall|key: u128| #[trigger]
        s.direct_chat_requests.contains_key(key) ==> chat_sound(s, key)
    &&& forall|key: u128| #[trigger] s.directory.contains_key(key) ==> listing_sound(s, key)
    &&& one_request_each(s)
    &&& one_pending_chat_each(s)
}

/// A room stays sound when someone leaves it.
proof fn lemma_left_room_sound(key: u128, room: RoomView, session_id: u128, successor: Option<u128>)
    requires
        room_sound(key, room),
    ensures
        room_sound(key, left_room(room, session_id, successor)),
{
    let left = left_room(room, session_id, successor);
    lemma_len_subset(left.reserved(), room.reserved());
}

proof fn lemma_departed_sound(
    s: AppStateView,
    room_id: u128,
    session_id: u128,
    successor: Option<u128>,
    live: Option<u128>,
    now: Timestamp,
)
    requires
        sound(s),
        s.rooms.contains_key(room_id),
    ensures
        sound(departed(s, room_id, session_id, successor, live, now)),
{
    lemma_left_room_sound(room_id, s.rooms[room_id], session_id, successor);
}

proof fn lemma_takes_out_sound(
    s: AppStateView,
    room_id: u128,
    session_id: u128,
    connection_id: Option<u128>,
    now: Timestamp,
    after: AppStateView,
    removal: RemovalView,
)
    requires
        sound(s),
        takes_out(s, room_id, session_id, connection_id, now, after, removal),
    ensures
        sound(after),
{
    let successor = choose|successor: Option<u128>|
        #[trigger] removes_connection(
            s,
            room_id,
            session_id,
            connection_id,
            successor,
            now,
            after,
            removal,
        );
    if after != s {
        let live = choose|live: Option<u128>|
            after == #[trigger] departed(s, room_id, session_id, successor, live, now);
        lemma_departed_sound(s, room_id, session_id, successor, live, now);
    }
}

proof fn lemma_releases_sound(
    s: AppStateView,
    connection_id: u128,
    now: Timestamp,
    after: AppStateView,
    dispatches: Seq<DispatchView>,
)
    requires
        sound(s),
        releases(s, connection_id, now, after, dispatches),
    ensures
        sound(after),
{
    let without = AppStateView {
        presence_connections: s.presence_connections.remove(connection_id),
        ..s
    };
    if s.presence_connections.contains_key(connection_id) {
        let connection = s.presence_connections[connection_id];
        if let PresenceConnectionKind::Room { room_id } = connection.kind {
            let removed = choose|removed: bool| #[trigger]
                takes_out(
                    without,
                    room_id,
                    connection.session_id,
                    Some(connection_id),
                    now,
                    after,
                    RemovalView { removed, dispatches },
                );
            lemma_takes_out_sound(
                without,
                room_id,
                connection.session_id,
                Some(connection_id),
                now,
                after,
                RemovalView { removed, dispatches },
            );
        }
    }
}

proof fn lemma_releases_all_sound(
    s: AppStateView,
    order: Seq<u128>,
    now: Timestamp,
    after: AppStateView,
    dispatches: Seq<DispatchView>,
)
    requires
        sound(s),
        releases_all(s, order, now, after, dispatches),
    ensures
        sound(after),
    decreases order.len(),
{
    if order.len() > 0 {
        let (mid, rest) = choose|mid: AppStateView, rest: Seq<DispatchView>|
            rest.len() <= dispatches.len() && #[trigger] releases(
                mid,
                order.last(),
                now,
                after,
                rest,
            ) && rest == dispatches.skip(dispatches.len() - rest.len()) && releases_all(
                s,
                order.drop_last(),
                now,
                mid,
                dispatches.take(dispatches.len() - rest.len()),
            );
        lemma_releases_all_sound(
            s,
            order.drop_last(),
            now,
            mid,
            dispatches.take(dispatches.len() - rest.len()),
        );
        lemma_releases_sound(mid, order.last(), now, after, rest);
    }
}

proof fn lemma_takes_out_all_sound(
    s: AppStateView,
    order: Seq<(u128, u128)>,
    now: Timestamp,
    after: AppStateView,
    dispatches: Seq<DispatchView>,
)
    requires
        sound(s),
        takes_out_all(s, order, now, after, dispatches),
    ensures
        sound(after),
    decreases order.len(),
{
    if order.len() > 0 {
        let (mid, removal) = choose|mid: AppStateView, removal: RemovalView|
            removal.dispatches.len() <= dispatches.len() && #[trigger] takes_out(
                mid,
                order.last().0,
                order.last().1,
                None,
                now,
                after,
                removal,
            ) && removal.dispatches == dispatches.skip(
                dispatches.len() - removal.dispatches.len(),
            ) && takes_out_all(
                s,
                order.drop_last(),
                now,
                mid,
                dispatches.take(dispatches.len() - removal.dispatches.len()),
            );
        lemma_takes_out_all_sound(
            s,
            order.drop_last(),
            now,
            mid,
            dispatches.take(dispatches.len() - removal.dispatches.len()),
        );
        lemma_takes_out_sound(
            mid,
            order.last().0,
            order.last().1,
            None,
            now,
            after,
            removal,
        );
    }
}

proof fn lemma_tidies_sound(
    s: AppStateView,
    now: Timestamp,
    after: AppStateView,
    dispatches: Seq<DispatchView>,
)
    requires
        sound(s),
        tidies(s, now, after, dispatches),
    ensures
        sound(after),
{
    let (mid, first, rest) = choose|
        mid: AppStateView,
        first: Seq<DispatchView>,
        rest: Seq<DispatchView>,
    |
        dispatches == first + rest && #[trigger] prunes_stale(s, now, mid, first)
            && #[trigger] prunes_unconnected(mid, now, after, rest);
    let stale = choose|order: Seq<u128>| #[trigger] releases_all(s, order, now, mid, first);
    lemma_releases_all_sound(s, stale, now, mid, first);
    let overdue = choose|order: Seq<(u128, u128)>| #[trigger]
        takes_out_all(mid, order, now, after, rest);
    lemma_takes_out_all_sound(mid, overdue, now, after, rest);
}

/// A room with a place left, or one kept for the session, stays sound when it comes in.
proof fn lemma_entered_sound(key: u128, room: RoomView, session_id: u128, now: Timestamp)
    requires
        room_sound(key, room),
        room.reserved().contains(session_id) || !room.full(),
    ensures
        room_sound(key, entered(room, session_id, now)),
        room_sound(key, joined(room, session_id, now)),
{
    let after = entered(room, session_id, now);
    assert(after.reserved() =~= room.reserved().insert(session_id));
}

proof fn lemma_opened_sound(
    room_id: u128,
    host: u128,
    host_controls: bool,
    share_link_enabled: bool,
    now: Timestamp,
)
    ensures
        room_sound(room_id, opened_room(room_id, host, host_controls, share_link_enabled, now)),
{
    let room = opened_room(room_id, host, host_controls, share_link_enabled, now);
    assert(room.reserved() =~= set![host]);
}

proof fn lemma_chat_room_sound(room_id: u128, host: u128, guest: u128, now: Timestamp)
    ensures
        room_sound(room_id, chat_room(room_id, host, guest, now)),
{
    let room = chat_room(room_id, host, guest, now);
    assert(room.reserved() =~= set![guest]);
}

proof fn lemma_accepted_sound(s: AppStateView, request_id: u128, session_id: u128, now: Timestamp)
    requires
        sound(s),
        accept_refusal(s, request_id, session_id) is None,
    ensures
        sound(with_accepted(s, request_id, session_id, now)),
{
    let after = with_accepted(s, request_id, session_id, now);
    let request = s.join_requests[request_id];
    let room = s.rooms[request.room_id];
    assert(after.rooms[request.room_id].reserved() =~= room.reserved().insert(
        request.requester_session,
    ));
}

proof fn lemma_accepted_chat_sound(
    s: AppStateView,
    request_id: u128,
    session_id: u128,
    fresh_id: u128,
    now: Timestamp,
)
    requires
        sound(s),
        chat_accept_refusal(s, request_id, session_id) is None,
    ensures
        sound(with_accepted_chat(s, request_id, session_id, fresh_id, now)),
{
    let request = s.direct_chat_requests[request_id];
    lemma_chat_room_sound(fresh_id, request.target_session, request.requester_session, now);
}

proof fn lemma_requested_sound(
    s: AppStateView,
    room_id: u128,
    session_id: u128,
    fresh_id: u128,
    now: Timestamp,
)
    requires
        sound(s),
        s.rooms.contains_key(room_id),
        forall|key: u128| !asks_for(s, key, room_id, session_id),
    ensures
        sound(
            AppStateView {
                join_requests: s.join_requests.insert(
                    fresh_id,
                    new_join_request(s, room_id, session_id, fresh_id, now),
                ),
                ..s
            },
        ),
{
    let after = AppStateView {
        join_requests: s.join_requests.insert(
            fresh_id,
            new_join_request(s, room_id, session_id, fresh_id, now),
        ),
        ..s
    };
    assert forall|a: u128, b: u128|
        #![trigger after.join_requests.contains_key(a), after.join_requests.contains_key(b)]
        after.join_requests.contains_key(a) && after.join_requests.contains_key(b)
            && after.join_requests[a].room_id == after.join_requests[b].room_id
            && after.join_requests[a].requester_session == after.join_requests[b].requester_session
        implies a == b by {
        assert(!asks_for(s, a, room_id, session_id) && !asks_for(s, b, room_id, session_id));
    }
}

proof fn lemma_chat_requested_sound(
    s: AppStateView,
    session_id: u128,
    target: u128,
    fresh_id: u128,
    now: Timestamp,
)
    requires
        sound(s),
        session_id != target,
        forall|key: u128| !asks_to_chat(s, key, session_id, target),
    ensures
        sound(
            AppStateView {
                direct_chat_requests: s.direct_chat_requests.insert(
                    fresh_id,
                    new_chat_request(s, session_id, target, fresh_id, now),
                ),
                ..s
            },
        ),
{
    let after = AppStateView {
        direct_chat_requests: s.direct_chat_requests.insert(
            fresh_id,
            new_chat_request(s, session_id, target, fresh_id, now),
        ),
        ..s
    };
    assert forall|a: u128, b: u128|
        #![trigger after.direct_chat_requests.contains_key(a), after.direct_chat_requests.contains_key(b)]
        after.direct_chat_requests.contains_key(a) && after.direct_chat_requests.contains_key(b)
            && after.direct_chat_requests[a].status == JoinRequestStatus::Pending
            && after.direct_chat_requests[b].status == JoinRequestStatus::Pending
            && after.direct_chat_requests[a].requester_session
            == after.direct_chat_requests[b].requester_session
            && after.direct_chat_requests[a].target_session
            == after.direct_chat_requests[b].target_session implies a == b by {
        assert(!asks_to_chat(s, a, session_id, target) && !asks_to_chat(s, b, session_id, target));
    }
}

proof fn lemma_closes_sound(
    s: AppStateView,
    connection_id: u128,
    now: Timestamp,
    after: AppStateView,
    closing: SocketClosing,
)
    requires
        sound(s),
        closes_connection(s, connection_id, now, after, closing),
    ensures
        sound(after),
{
    let dispatches = view_items(closing.dispatches@);
    let mid = choose|mid: AppStateView| #[trigger]
        releases(s, connection_id, now, mid, dispatches) && sweeps(mid, now, after, closing.stats);
    lemma_releases_sound(s, connection_id, now, mid, dispatches);
    lemma_tidies_sound(mid, now, after, view_items(closing.stats.dispatches@));
}

/// Operations on accounts and sessions keep the state sound.
proof fn lemma_account_operation_sound(
    operation: Operation,
    s: AppStateView,
    now: Timestamp,
    after: AppStateView,
)
    requires
        sound(s),
        performs(operation, s, now, after),
        operation is Guest || operation is SignUp || operation is SignIn || operation is SignOut,
    ensures
        sound(after),
{
    if let Operation::SignOut { session_id } = operation {
        let dispatches = choose|dispatches: Seq<DispatchView>|
            signs_out(s, session_id, now, after, dispatches);
        let without = AppStateView {
            sessions: s.sessions.remove(session_id),
            directory: s.directory.remove(session_id),
            ..s
        };
        let order = choose|order: Seq<u128>| #[trigger]
            releases_all(without, order, now, after, dispatches);
        lemma_releases_all_sound(without, order, now, after, dispatches);
    }
}

/// Operations on rooms and join requests keep the state sound.
proof fn lemma_room_operation_sound(
    operation: Operation,
    s: AppStateView,
    now: Timestamp,
    after: AppStateView,
)
    requires
        sound(s),
        performs(operation, s, now, after),
        operation is StartRoom || operation is JoinMatch || operation is CallRandom
            || operation is EnterRoom || operation is RequestEntry || operation is AcceptEntry,
    ensures
        sound(after),
{
    match operation {
        Operation::StartRoom { request, choice, fresh_id } => {
            if after != s {
                match choice {
                    Some(room_id) => {
                        lemma_entered_sound(room_id, s.rooms[room_id], request.session_id, now);
                    },
                    None => {
                        lemma_opened_sound(
                            fresh_id,
                            request.session_id,
                            asked(request.host_controls_joiners),
                            asked(request.share_link_enabled),
                            now,
                        );
                    },
                }
            }
        },
        Operation::JoinMatch { room_id, session_id } => {
            if after != s {
                lemma_entered_sound(room_id, s.rooms[room_id], session_id, now);
            }
        },
        Operation::EnterRoom { room_id, session_id } => {
            if after != s {
                lemma_entered_sound(room_id, s.rooms[room_id], session_id, now);
            }
        },
        Operation::RequestEntry { room_id, session_id, fresh_id } => {
            if after != s {
                lemma_requested_sound(s, room_id, session_id, fresh_id, now);
            }
        },
        Operation::AcceptEntry { request_id, session_id } => {
            if after != s {
                lemma_accepted_sound(s, request_id, session_id, now);
            }
        },
        _ => {},
    }
}

/// Operations on chat requests and the directory keep the state sound.
proof fn lemma_chat_operation_sound(
    operation: Operation,
    s: AppStateView,
    now: Timestamp,
    after: AppStateView,
)
    requires
        sound(s),
        performs(operation, s, now, after),
        operation is RequestChat || operation is AcceptChat || operation is JoinChat
            || operation is ReadDirectory || operation is UpdateDirectory,
    ensures
        sound(after),
{
    if after != s {
        if let Operation::RequestChat { session_id, target, fresh_id } = operation {
            lemma_chat_requested_sound(s, session_id, target, fresh_id, now);
        }
        if let Operation::AcceptChat { request_id, session_id, fresh_id } = operation {
            lemma_accepted_chat_sound(s, request_id, session_id, fresh_id, now);
        }
    }
}

/// Operations on connections keep the state sound.
proof fn lemma_connection_operation_sound(
    operation: Operation,
    s: AppStateView,
    now: Timestamp,
    after: AppStateView,
)
    requires
        sound(s),
        performs(operation, s, now, after),
        operation is OpenRoomSocket || operation is RoomMessage || operation is CloseConnection
            || operation is OpenStatsSocket || operation is StatsMessage
            || operation is CloseStatsSocket || operation is Sweep
            || operation is DropSubscribers,
    ensures
        sound(after),
{
    match operation {
        Operation::OpenRoomSocket { room_id, session_id, connection_id } => {
            let greeting = choose|greeting: RoomGreeting|
                opens_room_socket(s, room_id, session_id, connection_id, now, after, greeting);
            let begun = connected(s, room_id, session_id, connection_id, now);
            lemma_tidies_sound(begun, now, after, view_items(greeting.stats.dispatches@));
        },
        Operation::CloseConnection { connection_id } => {
            let closing = choose|closing: SocketClosing|
                closes_connection(s, connection_id, now, after, closing);
            lemma_closes_sound(s, connection_id, now, after, closing);
        },
        Operation::OpenStatsSocket { claimed, subscriber_id, connection_id } => {
            let greeting = choose|greeting: StatsGreeting|
                opens_stats_socket(
                    s,
                    claimed,
                    subscriber_id,
                    connection_id,
                    now,
                    after,
                    greeting,
                );
            let begun = subscribed(s, claimed, subscriber_id, connection_id, now);
            lemma_tidies_sound(begun, now, after, view_items(greeting.stats.dispatches@));
        },
        Operation::CloseStatsSocket { subscriber_id, connection } => {
            let closing = choose|closing: SocketClosing|
                closes_stats_socket(s, subscriber_id, connection, now, after, closing);
            let without = AppStateView {
                stats_subscribers: s.stats_subscribers.remove(subscriber_id),
                ..s
            };
            match connection {
                Some(connection) => {
                    lemma_closes_sound(without, connection, now, after, closing);
                },
                None => {
                    lemma_tidies_sound(without, now, after, view_items(closing.stats.dispatches@));
                },
            }
        },
        Operation::Sweep => {
            let result = choose|result: StatsBroadcast| sweeps(s, now, after, result);
            lemma_tidies_sound(s, now, after, view_items(result.dispatches@));
        },
        _ => {},
    }
}

/// Every operation, whatever is asked and whatever chance brings, leads from a sound state
/// to a sound state. No room is ever promised to more than eight people.
pub proof fn law_operations_keep_the_state_sound(
    operation: Operation,
    s: AppStateView,
    now: Timestamp,
    after: AppStateView,
)
    requires
        sound(s),
        performs(operation, s, now, after),
    ensures
        sound(after),
{
    if operation is Guest || operation is SignUp || operation is SignIn || operation is SignOut {
        lemma_account_operation_sound(operation, s, now, after);
    } else if operation is StartRoom || operation is JoinMatch || operation is CallRandom
        || operation is EnterRoom || operation is RequestEntry || operation is AcceptEntry {
        lemma_room_operation_sound(operation, s, now, after);
    } else if operation is RequestChat || operation is AcceptChat || operation is JoinChat
        || operation is ReadDirectory || operation is UpdateDirectory {
        lemma_chat_operation_sound(operation, s, now, after);
    } else {
        lemma_connection_operation_sound(operation, s, now, after);
    }
}

/// A service that starts with accounts, and with sessions kept under their identifiers, is
/// sound.
pub proof fn law_a_service_starts_sound(
    users: Map<Seq<char>, UserAccountView>,
    sessions: Map<u128, SessionView>,
)
    requires
        forall|key: u128| #[trigger] sessions.contains_key(key) ==> sessions[key].id == key,
    ensures
        sound(started(users, sessions)),
{
}

/// Whether each operation in turn leads from one state to the next.
pub open spec fn history(states: Seq<AppStateView>, steps: Seq<(Operation, Timestamp)>) -> bool {
    states.len() == steps.len() + 1 && forall|i: int|
        0 <= i < steps.len() ==> performs(
            (#[trigger] steps[i]).0,
            states[i],
            steps[i].1,
            states[i + 1],
        )
}

/// Whatever happens to a service that starts sound, in whatever order, it stays sound.
pub proof fn law_a_service_stays_sound(
    states: Seq<AppStateView>,
    steps: Seq<(Operation, Timestamp)>,
    i: int,
)
    requires
        history(states, steps),
        sound(states[0]),
        0 <= i < states.len(),
    ensures
        sound(states[i]),
    decreases i,
{
    if i > 0 {
        law_a_service_stays_sound(states, steps, i - 1);
        let step = steps[i - 1];
        law_operations_keep_the_state_sound(step.0, states[i - 1], step.1, states[i]);
    }
}

} // verus!
