//! What ties rooms, connections and approvals together, as long as chance brings no
//! identifier twice.

use crate::accounts::UserAccountView;
use crate::events::DispatchView;
use crate::invariants::history;
use crate::operations::{draws_fresh, performs, Operation};
use crate::presence::{prunes_stale, prunes_unconnected, releases, releases_all, sweeps};
use crate::presence::{takes_out, takes_out_all, tidies, RemovalView, StatsBroadcast};
use crate::sessions::signs_out;
use crate::sockets::{closes_connection, closes_stats_socket, connected, opens_room_socket};
use crate::sockets::{opens_stats_socket, subscribed, RoomGreeting, SocketClosing};
use crate::sockets::StatsGreeting;
use crate::state::{started, AppStateView, JoinRequestStatus, PresenceConnectionKind};
use crate::state::SessionView;
use crate::tables::view_items;
use crate::time::Timestamp;
use vstd::prelude::*;

verus! {

/// Whether the session's active connection in the room is one that is kept, of that session
/// and for that room.
pub open spec fn connection_kept(s: AppStateView, room_id: u128, session_id: u128) -> bool {
    let connection_id = s.rooms[room_id].connection_ids[session_id];
    &&& s.presence_connections.contains_key(connection_id)
    &&& s.presence_connections[connection_id].session_id == session_id
    &&& s.presence_connections[connection_id].kind == (PresenceConnectionKind::Room { room_id })
}

/// Every active connection is kept.
pub open spec fn connections_kept(s: AppStateView) -> bool {
    forall|room_id: u128, session_id: u128|
        #![trigger s.rooms[room_id].connection_ids.contains_key(session_id)]
        s.rooms.contains_key(room_id) && s.rooms[room_id].connection_ids.contains_key(session_id)
            ==> connection_kept(s, room_id, session_id)
}

/// Whether the room is there and the session is approved in it.
pub open spec fn approved_in(s: AppStateView, room_id: u128, session_id: u128) -> bool {
    s.rooms.contains_key(room_id) && s.rooms[room_id].approved_joiners.contains(session_id)
}

/// Whether, if the join request was accepted, whoever made it is approved in its room.
pub open spec fn request_approved(s: AppStateView, key: u128) -> bool {
    s.join_requests[key].status == JoinRequestStatus::Accepted ==> approved_in(
        s,
        s.join_requests[key].room_id,
        s.join_requests[key].requester_session,
    )
}

/// Whether, if the chat request leads to a room and has not been used, whoever made it is
/// approved in the room.
pub open spec fn chat_approved(s: AppStateView, key: u128) -> bool {
    s.direct_chat_requests[key].consumed_at is None ==> (
    s.direct_chat_requests[key].room_id matches Some(room_id) ==> approved_in(
        s,
        room_id,
        s.direct_chat_requests[key].requester_session,
    ))
}

/// Whoever had a request accepted is approved in its room.
pub open spec fn approvals_kept(s: AppStateView) -> bool {
    &&& forall|key: u128| #[trigger] s.join_requests.contains_key(key) ==> request_approved(s, key)
    &&& forall|key: u128| #[trigger]
        s.direct_chat_requests.contains_key(key) ==> chat_approved(s, key)
}

/// Active connections are kept ones, and what was accepted stays approved.
pub open spec fn linked(s: AppStateView) -> bool {
    connections_kept(s) && approvals_kept(s)
}

proof fn lemma_releases_all_linked(
    s: AppStateView,
    order: Seq<u128>,
    now: Timestamp,
    after: AppStateView,
    dispatches: Seq<DispatchView>,
)
    requires
        linked(s),
        releases_all(s, order, now, after, dispatches),
    ensures
        linked(after),
    decreases order.len(),
{
    if order.len() > 0 {
        let (mid, rest) = choose|mid: AppStateView, rest: Seq<DispatchView>|
            rest.len() <= dispatches.len() && #[trigger] releases(
                mid,
                order.last(),
                now,
                after,
                rest,
            ) && rest == dispatches.skip(dispatches.len() - rest.len()) && releases_all(
                s,
                order.drop_last(),
                now,
                mid,
                dispatches.take(dispatches.len() - rest.len()),
            );
        lemma_releases_all_linked(
            s,
            order.drop_last(),
            now,
            mid,
            dispatches.take(dispatches.len() - rest.len()),
        );
    }
}

proof fn lemma_takes_out_all_linked(
    s: AppStateView,
    order: Seq<(u128, u128)>,
    now: Timestamp,
    after: AppStateView,
    dispatches: Seq<DispatchView>,
)
    requires
        linked(s),
        takes_out_all(s, order, now, after, dispatches),
    ensures
        linked(after),
    decreases order.len(),
{
    if order.len() > 0 {
        let (mid, removal) = choose|mid: AppStateView, removal: RemovalView|
            removal.dispatches.len() <= dispatches.len() && #[trigger] takes_out(
                mid,
                order.last().0,
                order.last().1,
                None,
                now,
                after,
                removal,
            ) && removal.dispatches == dispatches.skip(
                dispatches.len() - removal.dispatches.len(),
            ) && takes_out_all(
                s,
                order.drop_last(),
                now,
                mid,
                dispatches.take(dispatches.len() - removal.dispatches.len()),
            );
        lemma_takes_out_all_linked(
            s,
            order.drop_last(),
            now,
            mid,
            dispatches.take(dispatches.len() - removal.dispatches.len()),
        );
    }
}

proof fn lemma_tidies_linked(
    s: AppStateView,
    now: Timestamp,
    after: AppStateView,
    dispatches: Seq<DispatchView>,
)
    requires
        linked(s),
        tidies(s, now, after, dispatches),
    ensures
        linked(after),
{
    let (mid, first, rest) = choose|
        mid: AppStateView,
        first: Seq<DispatchView>,
        rest: Seq<DispatchView>,
    |
        dispatches == first + rest && #[trigger] prunes_stale(s, now, mid, first)
            && #[trigger] prunes_unconnected(mid, now, after, rest);
    let stale = choose|order: Seq<u128>| #[trigger] releases_all(s, order, now, mid, first);
    lemma_releases_all_linked(s, stale, now, mid, first);
    let overdue = choose|order: Seq<(u128, u128)>| #[trigger]
        takes_out_all(mid, order, now, after, rest);
    lemma_takes_out_all_linked(mid, overdue, now, after, rest);
}

proof fn lemma_closes_linked(
    s: AppStateView,
    connection_id: u128,
    now: Timestamp,
    after: AppStateView,
    closing: SocketClosing,
)
    requires
        linked(s),
        closes_connection(s, connection_id, now, after, closing),
    ensures
        linked(after),
{
    let dispatches = view_items(closing.dispatches@);
    let mid = choose|mid: AppStateView| #[trigger]
        releases(s, connection_id, now, mid, dispatches) && sweeps(mid, now, after, closing.stats);
    lemma_tidies_linked(mid, now, after, view_items(closing.stats.dispatches@));
}

/// Operations that open or end connections keep the links.
proof fn lemma_connection_operation_linked(
    operation: Operation,
    s: AppStateView,
    now: Timestamp,
    after: AppStateView,
)
    requires
        linked(s),
        performs(operation, s, now, after),
        draws_fresh(operation, s),
        operation is SignOut || operation is OpenRoomSocket || operation is CloseConnection
            || operation is OpenStatsSocket || operation is CloseStatsSocket || operation is Sweep,
    ensures
        linked(after),
{
    match operation {
        Operation::SignOut { session_id } => {
            let dispatches = choose|dispatches: Seq<DispatchView>|
                signs_out(s, session_id, now, after, dispatches);
            let without = AppStateView {
                sessions: s.sessions.remove(session_id),
                directory: s.directory.remove(session_id),
                ..s
            };
            let order = choose|order: Seq<u128>| #[trigger]
                releases_all(without, order, now, after, dispatches);
            lemma_releases_all_linked(without, order, now, after, dispatches);
        },
        Operation::OpenRoomSocket { room_id, session_id, connection_id } => {
            let greeting = choose|greeting: RoomGreeting|
                opens_room_socket(s, room_id, session_id, connection_id, now, after, greeting);
            let begun = connected(s, room_id, session_id, connection_id, now);
            lemma_tidies_linked(begun, now, after, view_items(greeting.stats.dispatches@));
        },
        Operation::CloseConnection { connection_id } => {
            let closing = choose|closing: SocketClosing|
                closes_connection(s, connection_id, now, after, closing);
            lemma_closes_linked(s, connection_id, now, after, closing);
        },
        Operation::OpenStatsSocket { claimed, subscriber_id, connection_id } => {
            let greeting = choose|greeting: StatsGreeting|
                opens_stats_socket(
                    s,
                    claimed,
                    subscriber_id,
                    connection_id,
                    now,
                    after,
                    greeting,
                );
            let begun = subscribed(s, claimed, subscriber_id, connection_id, now);
            lemma_tidies_linked(begun, now, after, view_items(greeting.stats.dispatches@));
        },
        Operation::CloseStatsSocket { subscriber_id, connection } => {
            let closing = choose|closing: SocketClosing|
                closes_stats_socket(s, subscriber_id, connection, now, after, closing);
            let without = AppStateView {
                stats_subscribers: s.stats_subscribers.remove(subscriber_id),
                ..s
            };
            match connection {
                Some(connection) => {
                    lemma_closes_linked(without, connection, now, after, closing);
                },
                None => {
                    lemma_tidies_linked(without, now, after, view_items(closing.stats.dispatches@));
                },
            }
        },
        Operation::Sweep => {
            let result = choose|result: StatsBroadcast| sweeps(s, now, after, result);
            lemma_tidies_linked(s, now, after, view_items(result.dispatches@));
        },
        _ => {},
    }
}

/// Every operation that draws identifiers not in use keeps the links: an active connection
/// is always one that is kept, and what was accepted stays approved as long as the room is
/// there.
pub proof fn law_operations_keep_the_links(
    operation: Operation,
    s: AppStateView,
    now: Timestamp,
    after: AppStateView,
)
    requires
        linked(s),
        performs(operation, s, now, after),
        draws_fresh(operation, s),
    ensures
        linked(after),
{
    if operation is SignOut || operation is OpenRoomSocket || operation is CloseConnection
        || operation is OpenStatsSocket || operation is CloseStatsSocket || operation is Sweep {
        lemma_connection_operation_linked(operation, s, now, after);
    }
}

/// A service in which nothing has happened yet has nothing to link.
pub proof fn law_a_service_starts_linked(
    users: Map<Seq<char>, UserAccountView>,
    sessions: Map<u128, SessionView>,
)
    ensures
        linked(started(users, sessions)),
{
}

/// As long as chance brings no identifier twice, the links of a service hold on, whatever
/// happens and in whatever order.
pub proof fn law_a_service_stays_linked(
    states: Seq<AppStateView>,
    steps: Seq<(Operation, Timestamp)>,
    i: int,
)
    requires
        history(states, steps),
        forall|k: int| 0 <= k < steps.len() ==> draws_fresh((#[trigger] steps[k]).0, states[k]),
        linked(states[0]),
        0 <= i < states.len(),
    ensures
        linked(states[i]),
    decreases i,
{
    if i > 0 {
        law_a_service_stays_linked(states, steps, i - 1);
        let step = steps[i - 1];
        law_operations_keep_the_links(step.0, states[i - 1], step.1, states[i]);
    }
}

} // verus!
