//! Promises about connections: who is counted, who is taken out of a room, and who stays.

use crate::events::DispatchView;
use crate::links::{law_operations_keep_the_links, linked};
use crate::operations::Operation;
use crate::presence::{connections_of, departed, in_call, joined_time, leaves, left_room};
use crate::presence::{online, online_sessions, overdue, overdue_participants, peer_left};
use crate::presence::{prunes_stale, prunes_unconnected, releases, releases_all};
use crate::presence::{removes_connection, stale, stale_connections, sweeps, takes_out};
use crate::presence::{takes_out_all, tidies, with_connection, RemovalView, StatsBroadcast};
use crate::presence::PENDING_ROOM_JOIN_TIMEOUT_SECONDS;
use crate::rooms::{in_room, live_room, with_room};
use crate::sessions::signs_out;
use crate::sockets::{closes_connection, connected, opens_room_socket, RoomGreeting};
use crate::sockets::SocketClosing;
use crate::state::{AppStateView, JoinRequestStatus, PresenceConnection};
use crate::state::PresenceConnectionKind;
use crate::tables::{lists, view_items};
use crate::time::{whole_seconds, Timestamp};
use vstd::prelude::*;

verus! {

/// Whether accounts, sessions and subscribers are the same in two states, and the same people
/// are listed.
pub open spec fn people_same(s: AppStateView, after: AppStateView) -> bool {
    &&& after.users == s.users
    &&& after.sessions == s.sessions
    &&& after.stats_subscribers == s.stats_subscribers
    &&& after.directory.dom() == s.directory.dom()
}

/// Whether chat requests, if they changed at all, were only used up.
pub open spec fn chats_only_used(s: AppStateView, after: AppStateView) -> bool {
    forall|key: u128| #[trigger]
        s.direct_chat_requests.contains_key(key) ==> after.direct_chat_requests.contains_key(key)
            && (after.direct_chat_requests[key] == s.direct_chat_requests[key] || (
        s.direct_chat_requests[key].consumed_at is None
            && after.direct_chat_requests[key].consumed_at is Some))
}

/// Whether no room was opened, the join requests for the rooms that are left are as they were,
/// and so are the chat requests that lead to no room yet or have been used.
pub open spec fn requests_spared(s: AppStateView, after: AppStateView) -> bool {
    &&& forall|room_id: u128| #[trigger]
        after.rooms.contains_key(room_id) ==> s.rooms.contains_key(room_id)
    &&& forall|key: u128| #[trigger]
        s.join_requests.contains_key(key) && after.rooms.contains_key(s.join_requests[key].room_id)
            ==> after.join_requests.contains_key(key) && after.join_requests[key]
            == s.join_requests[key]
    &&& forall|key: u128| #[trigger]
        s.direct_chat_requests.contains_key(key) && (s.direct_chat_requests[key].room_id is None
            || s.direct_chat_requests[key].consumed_at is Some)
            ==> after.direct_chat_requests.contains_key(key) && after.direct_chat_requests[key]
            == s.direct_chat_requests[key]
}

/// Whether the session is as much in the room after as before: a participant since the same
/// time, and with the same active connection, if any.
pub open spec fn place_kept(
    s: AppStateView,
    after: AppStateView,
    room_id: u128,
    session_id: u128,
) -> bool {
    let before_ids = s.rooms[room_id].connection_ids;
    let after_ids = after.rooms[room_id].connection_ids;
    &&& in_room(after, room_id, session_id)
    &&& after_ids.contains_key(session_id) == before_ids.contains_key(session_id)
    &&& after_ids.contains_key(session_id) ==> after_ids[session_id] == before_ids[session_id]
    &&& joined_time(after.rooms[room_id], session_id) == joined_time(s.rooms[room_id], session_id)
}

/// Leaving a room touches no connection, account, session or subscriber, and takes nobody
/// else out of any room.
proof fn lemma_takes_out(
    s: AppStateView,
    room_id: u128,
    session_id: u128,
    connection_id: Option<u128>,
    now: Timestamp,
    after: AppStateView,
    removal: RemovalView,
)
    requires
        takes_out(s, room_id, session_id, connection_id, now, after, removal),
    ensures
        people_same(s, after),
        chats_only_used(s, after),
        requests_spared(s, after),
        after.presence_connections == s.presence_connections,
        removal.removed == leaves(s, room_id, session_id, connection_id),
        leaves(s, room_id, session_id, connection_id) ==> !in_room(after, room_id, session_id)
            && (after.rooms.contains_key(room_id)
            ==> !after.rooms[room_id].connection_ids.contains_key(session_id)),
        !leaves(s, room_id, session_id, connection_id) ==> after == s
            && removal.dispatches.len() == 0,
        forall|r: u128, x: u128|
            #![trigger in_room(s, r, x)]
            #![trigger place_kept(s, after, r, x)]
            in_room(s, r, x) && (r != room_id || x != session_id) ==> place_kept(s, after, r, x),
        forall|r: u128, x: u128| #[trigger]
            in_room(after, r, x) ==> in_room(s, r, x) && place_kept(s, after, r, x),
{
    if leaves(s, room_id, session_id, connection_id) {
        assert(after.directory.dom() =~= s.directory.dom());
        assert forall|r: u128, x: u128|
            #![trigger in_room(s, r, x)]
            in_room(s, r, x) && (r != room_id || x != session_id) implies place_kept(
            s,
            after,
            r,
            x,
        ) by {
            if r == room_id {
                assert(s.rooms[room_id].participants.remove(session_id).contains(x));
            }
        }
    }
}

/// The end of a connection takes that one away and no other, and takes out of a room at most
/// the session whose active connection there it was.
pub proof fn lemma_releases(
    s: AppStateView,
    connection_id: u128,
    now: Timestamp,
    after: AppStateView,
    dispatches: Seq<DispatchView>,
)
    requires
        releases(s, connection_id, now, after, dispatches),
    ensures
        people_same(s, after),
        chats_only_used(s, after),
        requests_spared(s, after),
        after.presence_connections == s.presence_connections.remove(connection_id),
        forall|r: u128, x: u128|
            #![trigger in_room(s, r, x)]
            #![trigger place_kept(s, after, r, x)]
            in_room(s, r, x) && !(s.rooms[r].connection_ids.contains_key(x)
                && s.rooms[r].connection_ids[x] == connection_id) ==> place_kept(s, after, r, x),
        forall|r: u128, x: u128| #[trigger]
            in_room(after, r, x) ==> in_room(s, r, x) && place_kept(s, after, r, x),
{
    let without = AppStateView {
        presence_connections: s.presence_connections.remove(connection_id),
        ..s
    };
    if s.presence_connections.contains_key(connection_id) {
        let connection = s.presence_connections[connection_id];
        if let PresenceConnectionKind::Room { room_id } = connection.kind {
            let removed = choose|removed: bool| #[trigger]
                takes_out(
                    without,
                    room_id,
                    connection.session_id,
                    Some(connection_id),
                    now,
                    after,
                    RemovalView { removed, dispatches },
                );
            lemma_takes_out(
                without,
                room_id,
                connection.session_id,
                Some(connection_id),
                now,
                after,
                RemovalView { removed, dispatches },
            );
            assert forall|r: u128, x: u128|
                #![trigger in_room(s, r, x)]
                in_room(s, r, x) && !(s.rooms[r].connection_ids.contains_key(x)
                    && s.rooms[r].connection_ids[x] == connection_id) implies place_kept(
                s,
                after,
                r,
                x,
            ) by {
                if r != room_id || x != connection.session_id {
                    assert(place_kept(without, after, r, x));
                }
            }
        }
    }
}

/// Connections that end one after the other leave everything else as a single one does.
pub proof fn lemma_releases_all(
    s: AppStateView,
    order: Seq<u128>,
    now: Timestamp,
    after: AppStateView,
    dispatches: Seq<DispatchView>,
)
    requires
        releases_all(s, order, now, after, dispatches),
    ensures
        people_same(s, after),
        chats_only_used(s, after),
        requests_spared(s, after),
        forall|key: u128| #[trigger]
            after.presence_connections.contains_key(key) <==> s.presence_connections.contains_key(
                key,
            ) && !order.contains(key),
        forall|key: u128| #[trigger]
            after.presence_connections.contains_key(key) ==> after.presence_connections[key]
                == s.presence_connections[key],
        forall|r: u128, x: u128|
            #![trigger in_room(s, r, x)]
            #![trigger place_kept(s, after, r, x)]
            in_room(s, r, x) && !(s.rooms[r].connection_ids.contains_key(x) && order.contains(
                s.rooms[r].connection_ids[x],
            )) ==> place_kept(s, after, r, x),
        forall|r: u128, x: u128| #[trigger]
            in_room(after, r, x) ==> in_room(s, r, x) && place_kept(s, after, r, x),
    decreases order.len(),
{
    if order.len() > 0 {
        let (mid, rest) = choose|mid: AppStateView, rest: Seq<DispatchView>|
            rest.len() <= dispatches.len() && #[trigger] releases(
                mid,
                order.last(),
                now,
                after,
                rest,
            ) && rest == dispatches.skip(dispatches.len() - rest.len()) && releases_all(
                s,
                order.drop_last(),
                now,
                mid,
                dispatches.take(dispatches.len() - rest.len()),
            );
        let earlier = order.drop_last();
        lemma_releases_all(
            s,
            earlier,
            now,
            mid,
            dispatches.take(dispatches.len() - rest.len()),
        );
        lemma_releases(mid, order.last(), now, after, rest);
        assert forall|key: u128| order.contains(key) == (earlier.contains(key) || key
            == order.last()) by {
            if order.contains(key) {
                let k = choose|k: int| 0 <= k < order.len() && order[k] == key;
                if k < earlier.len() {
                    assert(earlier[k] == key);
                }
            }
        }
    }
}

/// Whoever's active connection in a room is among those that end is no longer in the room.
proof fn lemma_released_leave(
    s: AppStateView,
    order: Seq<u128>,
    now: Timestamp,
    after: AppStateView,
    dispatches: Seq<DispatchView>,
    room_id: u128,
    session_id: u128,
)
    requires
        releases_all(s, order, now, after, dispatches),
        linked(s),
        s.rooms.contains_key(room_id),
        s.rooms[room_id].connection_ids.contains_key(session_id),
        order.contains(s.rooms[room_id].connection_ids[session_id]),
    ensures
        !in_room(after, room_id, session_id),
    decreases order.len(),
{
    let (mid, rest) = choose|mid: AppStateView, rest: Seq<DispatchView>|
        rest.len() <= dispatches.len() && #[trigger] releases(mid, order.last(), now, after, rest)
            && rest == dispatches.skip(dispatches.len() - rest.len()) && releases_all(
            s,
            order.drop_last(),
            now,
            mid,
            dispatches.take(dispatches.len() - rest.len()),
        );
    let earlier = order.drop_last();
    let connection_id = s.rooms[room_id].connection_ids[session_id];
    let first = dispatches.take(dispatches.len() - rest.len());
    lemma_releases_all(s, earlier, now, mid, first);
    lemma_releases(mid, order.last(), now, after, rest);
    if in_room(after, room_id, session_id) {
        if earlier.contains(connection_id) {
            lemma_released_leave(s, earlier, now, mid, first, room_id, session_id);
        } else {
            let k = choose|k: int| 0 <= k < order.len() && order[k] == connection_id;
            if k < earlier.len() {
                assert(earlier[k] == connection_id);
            }
        }
    }
}

proof fn lemma_takes_out_all(
    s: AppStateView,
    order: Seq<(u128, u128)>,
    now: Timestamp,
    after: AppStateView,
    dispatches: Seq<DispatchView>,
)
    requires
        takes_out_all(s, order, now, after, dispatches),
    ensures
        people_same(s, after),
        chats_only_used(s, after),
        requests_spared(s, after),
        after.presence_connections == s.presence_connections,
        forall|r: u128, x: u128|
            #![trigger in_room(s, r, x)]
            #![trigger place_kept(s, after, r, x)]
            in_room(s, r, x) && !order.contains((r, x)) ==> place_kept(s, after, r, x),
        forall|r: u128, x: u128| #[trigger]
            in_room(after, r, x) ==> in_room(s, r, x) && place_kept(s, after, r, x)
                && !order.contains((r, x)),
    decreases order.len(),
{
    if order.len() > 0 {
        let (mid, removal) = choose|mid: AppStateView, removal: RemovalView|
            removal.dispatches.len() <= dispatches.len() && #[trigger] takes_out(
                mid,
                order.last().0,
                order.last().1,
                None,
                now,
                after,
                removal,
            ) && removal.dispatches == dispatches.skip(
                dispatches.len() - removal.dispatches.len(),
            ) && takes_out_all(
                s,
                order.drop_last(),
                now,
                mid,
                dispatches.take(dispatches.len() - removal.dispatches.len()),
            );
        let earlier = order.drop_last();
        lemma_takes_out_all(
            s,
            earlier,
            now,
            mid,
            dispatches.take(dispatches.len() - removal.dispatches.len()),
        );
        lemma_takes_out(mid, order.last().0, order.last().1, None, now, after, removal);
        assert forall|pair: (u128, u128)| order.contains(pair) == (earlier.contains(pair) || pair
            == order.last()) by {
            if order.contains(pair) {
                let k = choose|k: int| 0 <= k < order.len() && order[k] == pair;
                if k < earlier.len() {
                    assert(earlier[k] == pair);
                }
            }
        }
    }
}

/// What a sweep does: stale connections go and no others, overdue participants leave, and
/// whoever is neither late nor lost keeps their place.
pub proof fn lemma_tidies(
    s: AppStateView,
    now: Timestamp,
    after: AppStateView,
    dispatches: Seq<DispatchView>,
)
    requires
        tidies(s, now, after, dispatches),
    ensures
        people_same(s, after),
        chats_only_used(s, after),
        requests_spared(s, after),
        forall|key: u128| #[trigger]
            after.presence_connections.contains_key(key) <==> s.presence_connections.contains_key(
                key,
            ) && !stale(s.presence_connections[key], now),
        forall|key: u128| #[trigger]
            after.presence_connections.contains_key(key) ==> after.presence_connections[key]
                == s.presence_connections[key],
        forall|r: u128, x: u128|
            #![trigger in_room(s, r, x)]
            #![trigger place_kept(s, after, r, x)]
            in_room(s, r, x) && !(s.rooms[r].connection_ids.contains_key(x) && stale_connections(
                s,
                now,
            ).contains(s.rooms[r].connection_ids[x])) && !overdue(s.rooms[r], x, now)
                ==> place_kept(s, after, r, x),
        forall|r: u128, x: u128| #[trigger]
            in_room(after, r, x) ==> in_room(s, r, x) && place_kept(s, after, r, x) && !overdue(
                after.rooms[r],
                x,
                now,
            ),
        stale_connections(s, now).is_empty() && overdue_participants(s, now).is_empty()
            ==> after == s && dispatches.len() == 0,
{
    let (mid, first, rest) = choose|
        mid: AppStateView,
        first: Seq<DispatchView>,
        rest: Seq<DispatchView>,
    |
        dispatches == first + rest && #[trigger] prunes_stale(s, now, mid, first)
            && #[trigger] prunes_unconnected(mid, now, after, rest);
    let lost = choose|order: Seq<u128>|
        lists(order, stale_connections(s, now)) && #[trigger] releases_all(
            s,
            order,
            now,
            mid,
            first,
        );
    lemma_releases_all(s, lost, now, mid, first);
    let late = choose|order: Seq<(u128, u128)>|
        lists(order, overdue_participants(mid, now)) && #[trigger] takes_out_all(
            mid,
            order,
            now,
            after,
            rest,
        );
    lemma_takes_out_all(mid, late, now, after, rest);
    if stale_connections(s, now).is_empty() && overdue_participants(s, now).is_empty() {
        if lost.len() > 0 {
            assert(lost.contains(lost[0]));
        }
        if late.len() > 0 {
            assert(late.contains(late[0]));
        }
    }
}

/// After a sweep no connection is stale and no participant is overdue.
pub proof fn law_a_sweep_leaves_nothing_stale(
    s: AppStateView,
    now: Timestamp,
    after: AppStateView,
    result: StatsBroadcast,
)
    requires
        sweeps(s, now, after, result),
    ensures
        stale_connections(after, now) == Set::<u128>::empty(),
        overdue_participants(after, now) == Set::<(u128, u128)>::empty(),
{
    lemma_tidies(s, now, after, view_items(result.dispatches@));
    assert forall|pair: (u128, u128)| !overdue_participants(after, now).contains(pair) by {
        if overdue_participants(after, now).contains(pair) {
            assert(in_room(after, pair.0, pair.1));
        }
    }
}

/// A sweep ends stale connections and no others, and forgets no account, session or
/// subscriber.
pub proof fn law_a_sweep_ends_only_stale_connections(
    s: AppStateView,
    now: Timestamp,
    after: AppStateView,
    result: StatsBroadcast,
)
    requires
        sweeps(s, now, after, result),
    ensures
        after.presence_connections == s.presence_connections.remove_keys(stale_connections(s, now)),
        people_same(s, after),
{
    lemma_tidies(s, now, after, view_items(result.dispatches@));
}

/// A sweep throws nobody out who is connected to their room, or who came too recently to be
/// expected.
pub proof fn law_a_sweep_spares_the_present(
    s: AppStateView,
    now: Timestamp,
    after: AppStateView,
    result: StatsBroadcast,
    room_id: u128,
    session_id: u128,
)
    requires
        sweeps(s, now, after, result),
        in_room(s, room_id, session_id),
        if s.rooms[room_id].connection_ids.contains_key(session_id) {
            !stale_connections(s, now).contains(s.rooms[room_id].connection_ids[session_id])
        } else {
            whole_seconds(now.elapsed_since(joined_time(s.rooms[room_id], session_id)))
                <= PENDING_ROOM_JOIN_TIMEOUT_SECONDS
        },
    ensures
        place_kept(s, after, room_id, session_id),
{
    lemma_tidies(s, now, after, view_items(result.dispatches@));
}

/// After a sweep, whoever is in a room is online with a connection to it, or came too recently
/// to be expected.
pub proof fn law_the_swept_are_present(
    s: AppStateView,
    now: Timestamp,
    after: AppStateView,
    result: StatsBroadcast,
    room_id: u128,
    session_id: u128,
)
    requires
        sweeps(s, now, after, result),
        linked(s),
        in_room(after, room_id, session_id),
    ensures
        if after.rooms[room_id].connection_ids.contains_key(session_id) {
            online(after, session_id, now)
        } else {
            whole_seconds(now.elapsed_since(joined_time(after.rooms[room_id], session_id)))
                <= PENDING_ROOM_JOIN_TIMEOUT_SECONDS
        },
{
    lemma_tidies(s, now, after, view_items(result.dispatches@));
    law_operations_keep_the_links(Operation::Sweep, s, now, after);
}

/// A second sweep at the same time changes nothing, tells nobody anything new, and counts the
/// same people.
pub proof fn law_a_second_sweep_changes_nothing(
    s: AppStateView,
    now: Timestamp,
    swept: AppStateView,
    first: StatsBroadcast,
    after: AppStateView,
    second: StatsBroadcast,
)
    requires
        sweeps(s, now, swept, first),
        sweeps(swept, now, after, second),
    ensures
        after == swept,
        second.dispatches@.len() == 0,
        second.snapshot == first.snapshot,
{
    law_a_sweep_leaves_nothing_stale(s, now, swept, first);
    lemma_tidies(swept, now, after, view_items(second.dispatches@));
}

/// A sweep changes nothing in who is online: it ends only connections that no longer counted.
pub proof fn law_a_sweep_counts_who_was_online(
    s: AppStateView,
    now: Timestamp,
    after: AppStateView,
    result: StatsBroadcast,
)
    requires
        sweeps(s, now, after, result),
    ensures
        online_sessions(after, now) == online_sessions(s, now),
        result.snapshot.online_count == online_sessions(s, now).len(),
        in_call(after).subset_of(in_call(s)),
{
    lemma_tidies(s, now, after, view_items(result.dispatches@));
    assert forall|x: u128| online(after, x, now) == online(s, x, now) by {
        if online(s, x, now) {
            let key = choose|key: u128| #[trigger]
                s.presence_connections.contains_key(key) && s.presence_connections[key].session_id
                    == x && !stale(s.presence_connections[key], now);
            assert(after.presence_connections.contains_key(key));
        }
    }
    assert forall|x: u128| in_call(after).contains(x) implies in_call(s).contains(x) by {
    }
}

/// Someone who is online already is not counted again for another connection.
pub proof fn law_a_second_connection_is_not_counted(
    s: AppStateView,
    connection_id: u128,
    connection: PresenceConnection,
    now: Timestamp,
)
    requires
        !s.presence_connections.contains_key(connection_id),
        online(s, connection.session_id, now),
    ensures
        online_sessions(with_connection(s, connection_id, connection), now) == online_sessions(
            s,
            now,
        ),
{
    let after = with_connection(s, connection_id, connection);
    assert forall|x: u128| online(after, x, now) == online(s, x, now) by {
        if online(s, x, now) {
            let key = choose|key: u128| #[trigger]
                s.presence_connections.contains_key(key) && s.presence_connections[key].session_id
                    == x && !stale(s.presence_connections[key], now);
            assert(after.presence_connections.contains_key(key));
        }
    }
}

/// To end a connection for head counts is to undo its opening.
pub proof fn law_ending_a_stats_connection_undoes_it(
    s: AppStateView,
    connection_id: u128,
    connection: PresenceConnection,
    now: Timestamp,
    after: AppStateView,
    dispatches: Seq<DispatchView>,
)
    requires
        !s.presence_connections.contains_key(connection_id),
        connection.kind == PresenceConnectionKind::Stats,
        releases(with_connection(s, connection_id, connection), connection_id, now, after, dispatches),
    ensures
        after == s,
        dispatches.len() == 0,
{
}

/// The end of a connection that is no longer the active one takes nobody out of a room: who
/// has reconnected stays.
pub proof fn law_an_old_connection_takes_nobody_out(
    s: AppStateView,
    connection_id: u128,
    now: Timestamp,
    after: AppStateView,
    dispatches: Seq<DispatchView>,
)
    requires
        releases(s, connection_id, now, after, dispatches),
        forall|room_id: u128, session_id: u128|
            #![trigger s.rooms[room_id].connection_ids.contains_key(session_id)]
            s.rooms.contains_key(room_id) && s.rooms[room_id].connection_ids.contains_key(
                session_id,
            ) ==> s.rooms[room_id].connection_ids[session_id] != connection_id,
    ensures
        after.rooms == s.rooms,
        dispatches.len() == 0,
{
}

/// Who leaves a room is no longer in it. A room that they leave empty goes, with every join
/// request for it, and every chat request that led to it is used up.
pub proof fn law_an_empty_room_goes(
    s: AppStateView,
    room_id: u128,
    session_id: u128,
    connection_id: Option<u128>,
    now: Timestamp,
    after: AppStateView,
    removal: RemovalView,
)
    requires
        takes_out(s, room_id, session_id, connection_id, now, after, removal),
        leaves(s, room_id, session_id, connection_id),
    ensures
        !in_room(after, room_id, session_id),
        after.rooms.contains_key(room_id) <==> s.rooms[room_id].participants.remove(
            session_id,
        ) != Set::<u128>::empty(),
        !after.rooms.contains_key(room_id) ==> {
            &&& forall|key: u128| #[trigger]
                after.join_requests.contains_key(key) ==> after.join_requests[key].room_id
                    != room_id
            &&& forall|key: u128| #[trigger]
                after.direct_chat_requests.contains_key(key)
                    && after.direct_chat_requests[key].room_id == Some(room_id)
                    ==> after.direct_chat_requests[key].consumed_at is Some
        },
{
}

/// Whoever is listed in the directory and leaves a room is listed in a room that they are
/// still in, or in none if they are in none.
pub proof fn law_a_listing_follows_its_person_out(
    s: AppStateView,
    room_id: u128,
    session_id: u128,
    connection_id: Option<u128>,
    now: Timestamp,
    after: AppStateView,
    removal: RemovalView,
)
    requires
        takes_out(s, room_id, session_id, connection_id, now, after, removal),
        leaves(s, room_id, session_id, connection_id),
        s.directory.contains_key(session_id),
    ensures
        after.directory.contains_key(session_id),
        live_room(after, session_id, after.directory[session_id].room_id),
        after.directory[session_id].updated_at == now,
{
    let successor = choose|successor: Option<u128>| #[trigger]
        removes_connection(
            s,
            room_id,
            session_id,
            connection_id,
            successor,
            now,
            after,
            removal,
        );
    let left = with_room(s, room_id, left_room(s.rooms[room_id], session_id, successor));
    let live = choose|live: Option<u128>| #[trigger]
        live_room(left, session_id, live) && after == departed(
            s,
            room_id,
            session_id,
            successor,
            live,
            now,
        );
    if live is None {
        assert forall|r: u128| !in_room(after, r, session_id) by {
            assert(!in_room(left, r, session_id));
        }
    }
}

/// A room whose host is in it keeps a host who is in it, whoever leaves.
pub proof fn law_a_room_keeps_a_present_host(
    s: AppStateView,
    room_id: u128,
    session_id: u128,
    connection_id: Option<u128>,
    now: Timestamp,
    after: AppStateView,
    removal: RemovalView,
)
    requires
        takes_out(s, room_id, session_id, connection_id, now, after, removal),
        in_room(s, room_id, s.rooms[room_id].host_session),
        after.rooms.contains_key(room_id),
    ensures
        in_room(after, room_id, after.rooms[room_id].host_session),
        session_id != s.rooms[room_id].host_session ==> after.rooms[room_id].host_session
            == s.rooms[room_id].host_session,
{
}

/// Who leaves is not told; everyone else with a channel in the room is told first who left.
pub proof fn law_the_others_are_told_who_left(
    s: AppStateView,
    room_id: u128,
    session_id: u128,
    connection_id: Option<u128>,
    now: Timestamp,
    after: AppStateView,
    removal: RemovalView,
)
    requires
        takes_out(s, room_id, session_id, connection_id, now, after, removal),
        leaves(s, room_id, session_id, connection_id),
    ensures
        removal.dispatches.len() > 0,
        removal.dispatches[0] == peer_left(s.rooms[room_id], room_id, session_id),
        forall|i: int|
            0 <= i < removal.dispatches.len() ==> !(
            #[trigger] removal.dispatches[i]).recipients.contains(session_id),
{
}

/// Signing out ends the session, takes it from the directory, and ends all its connections;
/// every other connection, session and listing stays. Who had a connection to a room is no
/// longer in it.
pub proof fn law_signing_out_ends_everything(
    s: AppStateView,
    session_id: u128,
    now: Timestamp,
    after: AppStateView,
    dispatches: Seq<DispatchView>,
)
    requires
        signs_out(s, session_id, now, after, dispatches),
    ensures
        after.sessions == s.sessions.remove(session_id),
        after.users == s.users,
        after.directory.dom() == s.directory.dom().remove(session_id),
        connections_of(after, session_id) == Set::<u128>::empty(),
        after.presence_connections == s.presence_connections.remove_keys(
            connections_of(s, session_id),
        ),
        linked(s) ==> forall|room_id: u128|
            s.rooms.contains_key(room_id) && #[trigger] s.rooms[room_id].connection_ids.contains_key(
                session_id,
            ) ==> !in_room(after, room_id, session_id),
{
    let without = AppStateView {
        sessions: s.sessions.remove(session_id),
        directory: s.directory.remove(session_id),
        ..s
    };
    let order = choose|order: Seq<u128>|
        lists(order, connections_of(without, session_id)) && #[trigger] releases_all(
            without,
            order,
            now,
            after,
            dispatches,
        );
    lemma_releases_all(without, order, now, after, dispatches);
    if linked(s) {
        assert forall|room_id: u128|
            s.rooms.contains_key(room_id) && #[trigger] s.rooms[room_id].connection_ids.contains_key(
                session_id,
            ) implies !in_room(after, room_id, session_id) by {
            lemma_released_leave(without, order, now, after, dispatches, room_id, session_id);
        }
    }
}

/// Closing a connection ends it. Whoever's active connection to a room it was is no longer in
/// the room.
pub proof fn law_closing_a_connection_leaves_its_room(
    s: AppStateView,
    connection_id: u128,
    now: Timestamp,
    after: AppStateView,
    closing: SocketClosing,
    room_id: u128,
    session_id: u128,
)
    requires
        closes_connection(s, connection_id, now, after, closing),
        linked(s),
        s.rooms.contains_key(room_id),
        s.rooms[room_id].connection_ids.contains_key(session_id),
        s.rooms[room_id].connection_ids[session_id] == connection_id,
    ensures
        !after.presence_connections.contains_key(connection_id),
        !in_room(after, room_id, session_id),
{
    let dispatches = view_items(closing.dispatches@);
    let mid = choose|mid: AppStateView| #[trigger]
        releases(s, connection_id, now, mid, dispatches) && sweeps(mid, now, after, closing.stats);
    lemma_tidies(mid, now, after, view_items(closing.stats.dispatches@));
}

/// Whoever connects to a room that they are in is online, is connected to it by that
/// connection from then on, and is welcomed. The accepted chat requests that led them there
/// are used.
pub proof fn law_who_connects_is_present(
    s: AppStateView,
    room_id: u128,
    session_id: u128,
    connection_id: u128,
    now: Timestamp,
    after: AppStateView,
    greeting: RoomGreeting,
)
    requires
        opens_room_socket(s, room_id, session_id, connection_id, now, after, greeting),
        in_room(s, room_id, session_id),
    ensures
        in_room(after, room_id, session_id),
        after.rooms[room_id].connection_ids.contains_key(session_id),
        after.rooms[room_id].connection_ids[session_id] == connection_id,
        online(after, session_id, now),
        greeting.welcome is Some,
        forall|key: u128| #[trigger]
            s.direct_chat_requests.contains_key(key)
                && s.direct_chat_requests[key].requester_session == session_id
                && s.direct_chat_requests[key].room_id == Some(room_id)
                && s.direct_chat_requests[key].status == JoinRequestStatus::Accepted
                ==> after.direct_chat_requests[key].consumed_at is Some,
{
    let begun = connected(s, room_id, session_id, connection_id, now);
    lemma_tidies(begun, now, after, view_items(greeting.stats.dispatches@));
    assert(place_kept(begun, after, room_id, session_id));
    assert(after.presence_connections.contains_key(connection_id));
    assert forall|key: u128| #[trigger]
        s.direct_chat_requests.contains_key(key) && s.direct_chat_requests[key].requester_session
            == session_id && s.direct_chat_requests[key].room_id == Some(room_id)
            && s.direct_chat_requests[key].status
            == JoinRequestStatus::Accepted implies after.direct_chat_requests[key].consumed_at
        is Some by {
        assert(begun.direct_chat_requests.contains_key(key));
    }
}

} // verus!
