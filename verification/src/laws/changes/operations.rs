//! Which operations change what, of all that can happen to the service.

use super::people::law_signing_out_ends_one_session;
use super::presence::{law_a_sweep_only_takes_people_out, lemma_tidies_left, only_left};
use super::presence::{people_left, sits_in};
use super::sockets::{law_being_connected_opens_a_channel, law_closing_only_takes_people_out};
use super::sockets::law_whoever_subscribes_is_told_the_counts;
use super::sockets::law_whoever_unsubscribes_is_told_no_more;
use crate::events::DispatchView;
use crate::invariants::sound;
use crate::laws::presence::{lemma_releases, lemma_tidies, place_kept};
use crate::operations::{draws_fresh, performs, Operation};
use crate::presence::{overdue, releases, stale, sweeps, StatsBroadcast};
use crate::rooms::in_room;
use crate::sessions::signs_out;
use crate::sockets::{closes_connection, closes_stats_socket, connected, opens_room_socket};
use crate::sockets::{opens_stats_socket, subscribed, RoomGreeting, SocketClosing, StatsGreeting};
use crate::state::AppStateView;
use crate::tables::view_items;
use crate::time::Timestamp;
use vstd::prelude::*;

verus! {

/// The state that an operation on connections brings about before anyone leaves.
spec fn begun(operation: Operation, s: AppStateView, now: Timestamp) -> AppStateView {
    match operation {
        Operation::SignOut { session_id } => AppStateView {
            sessions: s.sessions.remove(session_id),
            directory: s.directory.remove(session_id),
            ..s
        },
        Operation::OpenRoomSocket { room_id, session_id, connection_id } => connected(
            s,
            room_id,
            session_id,
            connection_id,
            now,
        ),
        Operation::OpenStatsSocket { claimed, subscriber_id, connection_id } => subscribed(
            s,
            claimed,
            subscriber_id,
            connection_id,
            now,
        ),
        Operation::CloseStatsSocket { subscriber_id, .. } => AppStateView {
            stats_subscribers: s.stats_subscribers.remove(subscriber_id),
            ..s
        },
        _ => s,
    }
}

/// Whether people can leave rooms by the operation.
pub open spec fn ends_connections(operation: Operation) -> bool {
    operation is SignOut || operation is OpenRoomSocket || operation is CloseConnection
        || operation is OpenStatsSocket || operation is CloseStatsSocket || operation is Sweep
}

proof fn lemma_people_leave(
    operation: Operation,
    s: AppStateView,
    now: Timestamp,
    after: AppStateView,
)
    requires
        performs(operation, s, now, after),
        ends_connections(operation),
    ensures
        people_left(begun(operation, s, now), after),
{
    match operation {
        Operation::SignOut { session_id } => {
            let dispatches = choose|dispatches: Seq<DispatchView>|
                signs_out(s, session_id, now, after, dispatches);
            law_signing_out_ends_one_session(s, session_id, now, after, dispatches);
        },
        Operation::OpenRoomSocket { room_id, session_id, connection_id } => {
            let greeting = choose|greeting: RoomGreeting|
                opens_room_socket(s, room_id, session_id, connection_id, now, after, greeting);
            lemma_tidies_left(
                connected(s, room_id, session_id, connection_id, now),
                now,
                after,
                view_items(greeting.stats.dispatches@),
            );
        },
        Operation::CloseConnection { connection_id } => {
            let closing = choose|closing: SocketClosing|
                closes_connection(s, connection_id, now, after, closing);
            law_closing_only_takes_people_out(s, connection_id, now, after, closing);
        },
        Operation::OpenStatsSocket { claimed, subscriber_id, connection_id } => {
            let greeting = choose|greeting: StatsGreeting|
                opens_stats_socket(
                    s,
                    claimed,
                    subscriber_id,
                    connection_id,
                    now,
                    after,
                    greeting,
                );
            law_whoever_subscribes_is_told_the_counts(
                s,
                claimed,
                subscriber_id,
                connection_id,
                now,
                after,
                greeting,
            );
        },
        Operation::CloseStatsSocket { subscriber_id, connection } => {
            let closing = choose|closing: SocketClosing|
                closes_stats_socket(s, subscriber_id, connection, now, after, closing);
            law_whoever_unsubscribes_is_told_no_more(
                s,
                subscriber_id,
                connection,
                now,
                after,
                closing,
            );
        },
        _ => {
            let result = choose|result: StatsBroadcast| sweeps(s, now, after, result);
            law_a_sweep_only_takes_people_out(s, now, after, result);
        },
    }
}

/// What becomes of a room, whatever happens: it keeps its identifier, its rules and the time it
/// was opened. Places are promised only by accepting a request. It begins to wait only when
/// someone in it calls for another person, and stops only when someone is matched into it. The
/// host changes only when the host is gone. People come in only by being matched or by entering.
pub proof fn law_a_room_changes_only_as_it_may(
    operation: Operation,
    s: AppStateView,
    now: Timestamp,
    after: AppStateView,
    room_id: u128,
)
    requires
        sound(s),
        performs(operation, s, now, after),
        draws_fresh(operation, s),
        s.rooms.contains_key(room_id),
        after.rooms.contains_key(room_id),
    ensures
        ({
            let was = s.rooms[room_id];
            let became = after.rooms[room_id];
            &&& became.id == was.id
            &&& became.host_controls_joiners == was.host_controls_joiners
            &&& became.share_link_enabled == was.share_link_enabled
            &&& became.created_at == was.created_at
            &&& !(operation is AcceptEntry) ==> became.approved_joiners == was.approved_joiners
            &&& became.waiting_for_random && !was.waiting_for_random ==> (operation
                matches Operation::CallRandom { room_id: called, .. } && called == room_id)
            &&& was.waiting_for_random && !became.waiting_for_random ==> (operation
                matches Operation::JoinMatch { room_id: joined, .. } && joined == room_id) || (
            operation matches Operation::StartRoom { choice, .. } && choice == Some(room_id))
            &&& became.host_session != was.host_session ==> ends_connections(operation)
                && !became.participants.contains(was.host_session)
            &&& forall|x: u128| #[trigger]
                became.participants.contains(x) && !was.participants.contains(x) ==> (operation
                    matches Operation::JoinMatch { session_id, .. } && session_id == x) || (
                operation matches Operation::StartRoom { request, .. } && request.session_id == x)
                    || (operation matches Operation::EnterRoom { session_id, .. } && session_id
                    == x)
            &&& forall|x: u128| #[trigger]
                was.participants.contains(x) && !became.participants.contains(x)
                    ==> ends_connections(operation)
            &&& forall|x: u128| #[trigger]
                became.senders.contains(x) && !was.senders.contains(x) ==> (operation
                    matches Operation::OpenRoomSocket { room_id: opened, session_id, .. } && opened
                    == room_id && session_id == x)
        }),
{
    if ends_connections(operation) {
        lemma_people_leave(operation, s, now, after);
        let start = begun(operation, s, now);
        if let Operation::OpenRoomSocket { room_id, session_id, connection_id } = operation {
            law_being_connected_opens_a_channel(s, room_id, session_id, connection_id, now);
        }
        assert(only_left(start.rooms[room_id], after.rooms[room_id]));
    }
}

/// Rooms are opened only by whoever is matched with nobody and by accepting a chat, and go only
/// when people leave.
pub proof fn law_rooms_open_and_go_only_as_they_may(
    operation: Operation,
    s: AppStateView,
    now: Timestamp,
    after: AppStateView,
    room_id: u128,
)
    requires
        performs(operation, s, now, after),
    ensures
        after.rooms.contains_key(room_id) && !s.rooms.contains_key(room_id) ==> (operation
            matches Operation::StartRoom { choice, fresh_id, .. } && choice is None && fresh_id
            == room_id) || (operation matches Operation::AcceptChat { fresh_id, .. } && fresh_id
            == room_id),
        s.rooms.contains_key(room_id) && !after.rooms.contains_key(room_id) ==> ends_connections(
            operation,
        ),
{
    if ends_connections(operation) {
        lemma_people_leave(operation, s, now, after);
        if let Operation::OpenRoomSocket { room_id, session_id, connection_id } = operation {
            law_being_connected_opens_a_channel(s, room_id, session_id, connection_id, now);
        }
    }
}

/// Listings come only by asking to be listed, and go only by asking not to be, by signing out, or
/// when someone looks or is listed. Connections change only when they open, are heard of or end.
/// Subscribers come and go only by subscribing and unsubscribing, or by not being reachable.
pub proof fn law_the_rest_changes_only_as_it_may(
    operation: Operation,
    s: AppStateView,
    now: Timestamp,
    after: AppStateView,
    key: u128,
)
    requires
        performs(operation, s, now, after),
    ensures
        after.directory.contains_key(key) && !s.directory.contains_key(key) ==> (operation
            matches Operation::UpdateDirectory { listing, .. } && listing.session_id == key
            && listing.available),
        s.directory.contains_key(key) && !after.directory.contains_key(key) ==> operation
            is ReadDirectory || operation is UpdateDirectory || (operation
            matches Operation::SignOut { session_id } && session_id == key),
        !(ends_connections(operation) || operation is RoomMessage || operation is StatsMessage)
            ==> after.presence_connections == s.presence_connections,
        !(operation is OpenStatsSocket || operation is CloseStatsSocket || operation
            is DropSubscribers) ==> after.stats_subscribers == s.stats_subscribers,
        after.join_requests.contains_key(key) && !s.join_requests.contains_key(key) ==> (operation
            matches Operation::RequestEntry { fresh_id, .. } && fresh_id == key),
        s.join_requests.contains_key(key) && !after.join_requests.contains_key(key)
            ==> ends_connections(operation),
        after.direct_chat_requests.contains_key(key) && !s.direct_chat_requests.contains_key(key)
            ==> (operation matches Operation::RequestChat { fresh_id, .. } && fresh_id == key),
        s.direct_chat_requests.contains_key(key) ==> after.direct_chat_requests.contains_key(key),
{
    if ends_connections(operation) {
        lemma_people_leave(operation, s, now, after);
        if let Operation::OpenRoomSocket { room_id, session_id, connection_id } = operation {
            law_being_connected_opens_a_channel(s, room_id, session_id, connection_id, now);
        }
        let start = begun(operation, s, now);
        assert(after.directory.dom() == start.directory.dom());
        assert(after.directory.contains_key(key) == start.directory.contains_key(key));
        assert(after.direct_chat_requests.dom() == start.direct_chat_requests.dom());
        assert(after.direct_chat_requests.contains_key(key)
            == start.direct_chat_requests.contains_key(key));
        assert(start.direct_chat_requests.dom() == s.direct_chat_requests.dom());
        assert(start.direct_chat_requests.contains_key(key)
            == s.direct_chat_requests.contains_key(key));
    }
}

/// Whether the session was not heard of for too long: their connection to the room is stale, or
/// they never connected to it and have had their time.
pub open spec fn silent_in(
    s: AppStateView,
    room_id: u128,
    session_id: u128,
    now: Timestamp,
) -> bool {
    let room = s.rooms[room_id];
    let active = room.connection_ids[session_id];
    if room.connection_ids.contains_key(session_id) {
        s.presence_connections.contains_key(active) && stale(s.presence_connections[active], now)
    } else {
        overdue(room, session_id, now)
    }
}

/// Whether the operation ends the connection that the session has to the room.
pub open spec fn cuts_off(
    operation: Operation,
    s: AppStateView,
    room_id: u128,
    session_id: u128,
) -> bool {
    let active = s.rooms[room_id].connection_ids[session_id];
    s.rooms[room_id].connection_ids.contains_key(session_id) && match operation {
        Operation::SignOut { session_id: leaver } => s.presence_connections.contains_key(active)
            && s.presence_connections[active].session_id == leaver,
        Operation::CloseConnection { connection_id } => connection_id == active,
        Operation::CloseStatsSocket { connection, .. } => connection == Some(active),
        _ => false,
    }
}

/// Whoever is neither silent nor cut off is still in the room after a connection has ended and
/// the silent were swept out.
proof fn lemma_closing_spares(
    s: AppStateView,
    connection_id: u128,
    now: Timestamp,
    after: AppStateView,
    closing: SocketClosing,
    room_id: u128,
    session_id: u128,
)
    requires
        closes_connection(s, connection_id, now, after, closing),
        sits_in(s, room_id, session_id),
        !silent_in(s, room_id, session_id, now),
        s.rooms[room_id].connection_ids.contains_key(session_id)
            ==> s.rooms[room_id].connection_ids[session_id] != connection_id,
    ensures
        sits_in(after, room_id, session_id),
{
    let mid = choose|mid: AppStateView| #[trigger]
        releases(s, connection_id, now, mid, view_items(closing.dispatches@)) && sweeps(
            mid,
            now,
            after,
            closing.stats,
        );
    lemma_releases(s, connection_id, now, mid, view_items(closing.dispatches@));
    assert(in_room(s, room_id, session_id));
    assert(place_kept(s, mid, room_id, session_id));
    lemma_tidies(mid, now, after, view_items(closing.stats.dispatches@));
    assert(in_room(mid, room_id, session_id));
    assert(place_kept(mid, after, room_id, session_id));
}

/// Nobody is taken out of a room, whatever happens, unless their connection to it is ended or
/// they were not heard of for too long.
pub proof fn law_nobody_leaves_without_a_reason(
    operation: Operation,
    s: AppStateView,
    now: Timestamp,
    after: AppStateView,
    room_id: u128,
    session_id: u128,
)
    requires
        sound(s),
        performs(operation, s, now, after),
        draws_fresh(operation, s),
        sits_in(s, room_id, session_id),
        !sits_in(after, room_id, session_id),
    ensures
        silent_in(s, room_id, session_id, now) || cuts_off(operation, s, room_id, session_id),
{
    law_rooms_open_and_go_only_as_they_may(operation, s, now, after, room_id);
    if after.rooms.contains_key(room_id) {
        law_a_room_changes_only_as_it_may(operation, s, now, after, room_id);
        assert(s.rooms[room_id].participants.contains(session_id));
    }
    let start = begun(operation, s, now);
    assert(in_room(s, room_id, session_id));
    match operation {
        Operation::SignOut { session_id: leaver } => {
            let dispatches = choose|dispatches: Seq<DispatchView>|
                signs_out(s, leaver, now, after, dispatches);
            law_signing_out_ends_one_session(s, leaver, now, after, dispatches);
        },
        Operation::OpenRoomSocket { room_id: opened, session_id: opener, connection_id } => {
            let greeting = choose|greeting: RoomGreeting|
                opens_room_socket(s, opened, opener, connection_id, now, after, greeting);
            lemma_tidies(start, now, after, view_items(greeting.stats.dispatches@));
            assert(in_room(start, room_id, session_id));
        },
        Operation::CloseConnection { connection_id } => {
            let closing = choose|closing: SocketClosing|
                closes_connection(s, connection_id, now, after, closing);
            if !silent_in(s, room_id, session_id, now) && !cuts_off(
                operation,
                s,
                room_id,
                session_id,
            ) {
                lemma_closing_spares(s, connection_id, now, after, closing, room_id, session_id);
            }
        },
        Operation::OpenStatsSocket { claimed, subscriber_id, connection_id } => {
            let greeting = choose|greeting: StatsGreeting|
                opens_stats_socket(s, claimed, subscriber_id, connection_id, now, after, greeting);
            lemma_tidies(start, now, after, view_items(greeting.stats.dispatches@));
            assert(in_room(start, room_id, session_id));
        },
        Operation::CloseStatsSocket { subscriber_id, connection } => {
            let closing = choose|closing: SocketClosing|
                closes_stats_socket(s, subscriber_id, connection, now, after, closing);
            if connection is Some {
                if !silent_in(s, room_id, session_id, now) && !cuts_off(
                    operation,
                    s,
                    room_id,
                    session_id,
                ) {
                    lemma_closing_spares(
                        start,
                        connection->0,
                        now,
                        after,
                        closing,
                        room_id,
                        session_id,
                    );
                }
            } else {
                lemma_tidies(start, now, after, view_items(closing.stats.dispatches@));
                assert(in_room(start, room_id, session_id));
            }
        },
        Operation::Sweep => {
            let result = choose|result: StatsBroadcast| sweeps(s, now, after, result);
            lemma_tidies(s, now, after, view_items(result.dispatches@));
        },
        _ => {},
    }
}

} // verus!
