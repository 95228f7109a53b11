//! What leaving a room, the end of connections and the sweep change.

use super::{nanos_from, no_leap, other_rooms_same, reaches, same_rules, sits_somewhere};
use crate::events::{DispatchView, ServerWsEventView, StatsSnapshot};
use crate::presence::{connections_of, counts, departed, overdue, prunes_stale};
use crate::presence::{prunes_unconnected, releases, releases_all, removes_connection, stale};
use crate::presence::{stale_connections, sweeps, takes_out, takes_out_all, tidies, touched};
use crate::presence::{with_connection, RemovalView, StatsBroadcast};
use crate::rooms::{in_room, live_room, shows_room, with_room};
use crate::state::{AppStateView, DirectChatRequestView, PresenceConnection};
use crate::state::{PresenceConnectionKind, RoomView};
use crate::tables::{lists, view_items};
use crate::time::Timestamp;
use vstd::prelude::*;

verus! {

/// Whether a chat request is the same but for having been used up at `now`.
pub open spec fn used_up(
    was: DirectChatRequestView,
    became: DirectChatRequestView,
    now: Timestamp,
) -> bool {
    &&& became.consumed_at == Some(now)
    &&& became.updated_at == now
    &&& became.id == was.id
    &&& became.requester_session == was.requester_session
    &&& became.requester_display_name == was.requester_display_name
    &&& became.target_session == was.target_session
    &&& became.target_display_name == was.target_display_name
    &&& became.status == was.status
    &&& became.room_id == was.room_id
    &&& became.created_at == was.created_at
    &&& became.accepted_by == was.accepted_by
}

/// Whether the session is to leave the room: whenever no connection is named, and otherwise if
/// the one named is its active one there.
pub open spec fn is_to_leave(
    s: AppStateView,
    room_id: u128,
    session_id: u128,
    connection_id: Option<u128>,
) -> bool {
    s.rooms.contains_key(room_id) && (connection_id is None || (
    s.rooms[room_id].connection_ids.contains_key(session_id)
        && s.rooms[room_id].connection_ids[session_id] == connection_id->0))
}

/// Whether anyone but the session is in the room.
pub open spec fn others_stay(room: RoomView, session_id: u128) -> bool {
    exists|x: u128| #[trigger] room.participants.contains(x) && x != session_id
}

/// Whoever leaves is out, with their channel and connection; whoever stays keeps their place. A
/// room that others stay in keeps its rules and whether it waits, and its host unless it was the
/// host who left, who is followed by one of those who stay. Everyone who stays and listens is
/// told who left, and then how the room looks.
pub proof fn law_leaving_takes_out_one_person(
    s: AppStateView,
    room_id: u128,
    session_id: u128,
    connection_id: Option<u128>,
    now: Timestamp,
    after: AppStateView,
    removal: RemovalView,
)
    requires
        takes_out(s, room_id, session_id, connection_id, now, after, removal),
    ensures
        removal.removed <==> is_to_leave(s, room_id, session_id, connection_id),
        !removal.removed ==> after == s && removal.dispatches.len() == 0,
        after.users == s.users,
        after.sessions == s.sessions,
        after.presence_connections == s.presence_connections,
        after.stats_subscribers == s.stats_subscribers,
        other_rooms_same(s, after, room_id),
        removal.removed ==> {
            let was = s.rooms[room_id];
            &&& removal.dispatches.len() >= 1
            &&& reaches(removal.dispatches[0], room_id, was.senders.remove(session_id))
            &&& removal.dispatches[0].event == (ServerWsEventView::PeerLeft { peer_id: session_id })
            &&& after.rooms.contains_key(room_id) <==> others_stay(was, session_id)
        },
        removal.removed && others_stay(s.rooms[room_id], session_id) ==> {
            let was = s.rooms[room_id];
            let became = after.rooms[room_id];
            &&& same_rules(was, became)
            &&& became.waiting_for_random == was.waiting_for_random
            &&& forall|x: u128| #[trigger]
                became.participants.contains(x) <==> was.participants.contains(x) && x != session_id
            &&& became.participant_joined_at == was.participant_joined_at.remove(session_id)
            &&& became.senders == was.senders.remove(session_id)
            &&& became.connection_ids == was.connection_ids.remove(session_id)
            &&& was.host_session != session_id ==> became.host_session == was.host_session
            &&& was.host_session == session_id ==> became.participants.contains(
                became.host_session,
            )
            &&& after.join_requests == s.join_requests
            &&& after.direct_chat_requests == s.direct_chat_requests
            &&& removal.dispatches.len() == 2
            &&& reaches(removal.dispatches[1], room_id, became.senders)
            &&& removal.dispatches[1].event matches ServerWsEventView::RoomUpdated { room }
                && shows_room(room, after, room_id)
        },
{
    let successor = choose|successor: Option<u128>|
        (s.rooms.contains_key(room_id) ==> crate::presence::drawn_successor(
            s.rooms[room_id],
            session_id,
            successor,
        )) && #[trigger] removes_connection(
            s,
            room_id,
            session_id,
            connection_id,
            successor,
            now,
            after,
            removal,
        );
    if removal.removed {
        let was = s.rooms[room_id];
        let left = was.participants.remove(session_id);
        if others_stay(was, session_id) {
            let x = choose|x: u128| #[trigger] was.participants.contains(x) && x != session_id;
            assert(left.contains(x));
        } else {
            assert forall|x: u128| !left.contains(x) by {
                assert(!(was.participants.contains(x) && x != session_id));
            }
            assert(left =~= Set::empty());
        }
    }
}

/// A room that the last person leaves goes, with the requests for it: join requests for it are
/// dropped, chat requests that led to it are used up, and no other request changes.
pub proof fn law_the_last_to_leave_takes_the_room_along(
    s: AppStateView,
    room_id: u128,
    session_id: u128,
    connection_id: Option<u128>,
    now: Timestamp,
    after: AppStateView,
    removal: RemovalView,
)
    requires
        takes_out(s, room_id, session_id, connection_id, now, after, removal),
        removal.removed,
        !others_stay(s.rooms[room_id], session_id),
    ensures
        !after.rooms.contains_key(room_id),
        removal.dispatches.len() == 1,
        forall|key: u128| #[trigger]
            after.join_requests.contains_key(key) <==> s.join_requests.contains_key(key)
                && s.join_requests[key].room_id != room_id,
        forall|key: u128| #[trigger]
            after.join_requests.contains_key(key) ==> after.join_requests[key]
                == s.join_requests[key],
        after.direct_chat_requests.dom() == s.direct_chat_requests.dom(),
        forall|key: u128| #[trigger]
            s.direct_chat_requests.contains_key(key) ==> {
                let was = s.direct_chat_requests[key];
                let became = after.direct_chat_requests[key];
                if was.room_id == Some(room_id) && was.consumed_at is None {
                    used_up(was, became, now)
                } else {
                    became == was
                }
            },
{
    law_leaving_takes_out_one_person(
        s,
        room_id,
        session_id,
        connection_id,
        now,
        after,
        removal,
    );
}

/// Whoever leaves a room and is listed is listed in a room that they are still in, or in none;
/// otherwise their listing stays, and so does everyone else's.
pub proof fn law_leaving_only_moves_ones_own_listing(
    s: AppStateView,
    room_id: u128,
    session_id: u128,
    connection_id: Option<u128>,
    now: Timestamp,
    after: AppStateView,
    removal: RemovalView,
)
    requires
        takes_out(s, room_id, session_id, connection_id, now, after, removal),
        removal.removed,
    ensures
        after.directory.dom() == s.directory.dom(),
        forall|key: u128|
            key != session_id && #[trigger] s.directory.contains_key(key) ==> after.directory[key]
                == s.directory[key],
        s.directory.contains_key(session_id) ==> {
            let was = s.directory[session_id];
            let became = after.directory[session_id];
            &&& became.session_id == was.session_id
            &&& became.display_name == was.display_name
            &&& became.available == was.available
            &&& became.updated_at == now
            &&& became.room_id matches Some(live) ==> after.rooms.contains_key(live)
                && after.rooms[live].participants.contains(session_id)
            &&& became.room_id is None ==> !sits_somewhere(after, session_id)
        },
{
    let successor = choose|successor: Option<u128>|
        (s.rooms.contains_key(room_id) ==> crate::presence::drawn_successor(
            s.rooms[room_id],
            session_id,
            successor,
        )) && #[trigger] removes_connection(
            s,
            room_id,
            session_id,
            connection_id,
            successor,
            now,
            after,
            removal,
        );
    let room = crate::presence::left_room(s.rooms[room_id], session_id, successor);
    let between = with_room(s, room_id, room);
    let live = choose|live: Option<u128>| #[trigger]
        live_room(between, session_id, live) && after == departed(
            s,
            room_id,
            session_id,
            successor,
            live,
            now,
        );
    if live is None && sits_somewhere(after, session_id) {
        let r = choose|r: u128| #[trigger]
            after.rooms.contains_key(r) && after.rooms[r].participants.contains(session_id);
        assert(in_room(between, r, session_id));
    }
}

/// The end of a connection takes that connection away and no other. One for head counts ends
/// without anyone hearing of it; one to a room takes its session out of that room, if it is the
/// session's active one there, and touches no room otherwise.
pub proof fn law_the_end_of_a_connection(
    s: AppStateView,
    connection_id: u128,
    now: Timestamp,
    after: AppStateView,
    dispatches: Seq<DispatchView>,
)
    requires
        releases(s, connection_id, now, after, dispatches),
    ensures
        forall|key: u128| #[trigger]
            after.presence_connections.contains_key(key) <==> s.presence_connections.contains_key(
                key,
            ) && key != connection_id,
        forall|key: u128| #[trigger]
            after.presence_connections.contains_key(key) ==> after.presence_connections[key]
                == s.presence_connections[key],
        after.users == s.users,
        after.sessions == s.sessions,
        after.stats_subscribers == s.stats_subscribers,
        !s.presence_connections.contains_key(connection_id) ==> after == s && dispatches.len() == 0,
        s.presence_connections.contains_key(connection_id) ==> {
            let connection = s.presence_connections[connection_id];
            match connection.kind {
                PresenceConnectionKind::Stats => {
                    &&& dispatches.len() == 0
                    &&& after.rooms == s.rooms
                    &&& after.directory == s.directory
                    &&& after.join_requests == s.join_requests
                    &&& after.direct_chat_requests == s.direct_chat_requests
                },
                PresenceConnectionKind::Room { room_id } => {
                    &&& other_rooms_same(s, after, room_id)
                    &&& is_to_leave(s, room_id, connection.session_id, Some(connection_id))
                        ==> !(after.rooms.contains_key(room_id)
                        && after.rooms[room_id].participants.contains(connection.session_id))
                    &&& !is_to_leave(s, room_id, connection.session_id, Some(connection_id))
                        ==> after.rooms == s.rooms && dispatches.len() == 0 && after.directory
                        == s.directory
                },
            }
        },
{
    if s.presence_connections.contains_key(connection_id) {
        let connection = s.presence_connections[connection_id];
        let without = AppStateView {
            presence_connections: s.presence_connections.remove(connection_id),
            ..s
        };
        if let PresenceConnectionKind::Room { room_id } = connection.kind {
            let removed = choose|removed: bool| #[trigger]
                takes_out(
                    without,
                    room_id,
                    connection.session_id,
                    Some(connection_id),
                    now,
                    after,
                    RemovalView { removed, dispatches },
                );
            law_leaving_takes_out_one_person(
                without,
                room_id,
                connection.session_id,
                Some(connection_id),
                now,
                after,
                RemovalView { removed, dispatches },
            );
        }
    }
}

/// Whether a room is the same but for people who left: the same rules and waiting, no new
/// participants, and for everyone who stays the same place, channel and connection. It has
/// another host only if the host left, and that is someone who stays.
pub open spec fn only_left(was: RoomView, became: RoomView) -> bool {
    &&& same_rules(was, became)
    &&& became.waiting_for_random == was.waiting_for_random
    &&& forall|x: u128| #[trigger] became.participants.contains(x) ==> was.participants.contains(x)
    &&& forall|x: u128| #[trigger] became.senders.contains(x) ==> was.senders.contains(x)
    &&& forall|x: u128| #[trigger]
        became.connection_ids.contains_key(x) ==> was.connection_ids.contains_key(x)
            && became.connection_ids[x] == was.connection_ids[x]
    &&& forall|x: u128| #[trigger]
        became.participant_joined_at.contains_key(x) ==> was.participant_joined_at.contains_key(x)
            && became.participant_joined_at[x] == was.participant_joined_at[x]
    &&& was.participants.contains(was.host_session) ==> became.participants.contains(
        became.host_session,
    )
    &&& became.host_session != was.host_session ==> became.participants.contains(
        became.host_session,
    ) && !became.participants.contains(was.host_session)
}

/// Whether people left rooms and nothing else happened to rooms, requests and listings: no room
/// is new; requests change only with rooms that are gone; listings stay whose they were.
pub open spec fn people_left(s: AppStateView, after: AppStateView) -> bool {
    &&& forall|room_id: u128| #[trigger]
        after.rooms.contains_key(room_id) ==> s.rooms.contains_key(room_id) && only_left(
            s.rooms[room_id],
            after.rooms[room_id],
        )
    &&& forall|key: u128| #[trigger]
        after.join_requests.contains_key(key) ==> s.join_requests.contains_key(key)
            && after.join_requests[key] == s.join_requests[key] && (s.rooms.contains_key(
            s.join_requests[key].room_id,
        ) ==> after.rooms.contains_key(s.join_requests[key].room_id))
    &&& forall|key: u128| #[trigger]
        s.join_requests.contains_key(key) && !after.join_requests.contains_key(key)
            ==> s.rooms.contains_key(s.join_requests[key].room_id) && !after.rooms.contains_key(
            s.join_requests[key].room_id,
        )
    &&& after.direct_chat_requests.dom() == s.direct_chat_requests.dom()
    &&& forall|key: u128| #[trigger]
        s.direct_chat_requests.contains_key(key) ==> {
            let was = s.direct_chat_requests[key];
            let became = after.direct_chat_requests[key];
            let gone = was.room_id is Some && s.rooms.contains_key(was.room_id->0)
                && !after.rooms.contains_key(was.room_id->0);
            &&& !gone ==> became == was
            &&& gone ==> became.consumed_at is Some
            &&& became.id == was.id && became.requester_session == was.requester_session
                && became.target_session == was.target_session && became.status == was.status
                && became.room_id == was.room_id && became.accepted_by == was.accepted_by
                && became.created_at == was.created_at
        }
    &&& after.directory.dom() == s.directory.dom()
    &&& forall|key: u128| #[trigger]
        s.directory.contains_key(key) ==> after.directory[key].session_id
            == s.directory[key].session_id && after.directory[key].display_name
            == s.directory[key].display_name && after.directory[key].available
            == s.directory[key].available
    &&& after.users == s.users
    &&& after.stats_subscribers == s.stats_subscribers
}

/// If people only left in each of two steps, they only left in both together.
pub proof fn lemma_people_left_twice(s: AppStateView, mid: AppStateView, after: AppStateView)
    requires
        people_left(s, mid),
        people_left(mid, after),
    ensures
        people_left(s, after),
{
    assert forall|room_id: u128| #[trigger] after.rooms.contains_key(room_id) implies only_left(
        s.rooms[room_id],
        after.rooms[room_id],
    ) by {
        assert(mid.rooms.contains_key(room_id));
    }
    assert forall|key: u128| #[trigger] s.direct_chat_requests.contains_key(key) implies ({
        let was = s.direct_chat_requests[key];
        let became = after.direct_chat_requests[key];
        let gone = was.room_id is Some && s.rooms.contains_key(was.room_id->0)
            && !after.rooms.contains_key(was.room_id->0);
        &&& !gone ==> became == was
        &&& gone ==> became.consumed_at is Some
    }) by {
        assert(mid.direct_chat_requests.contains_key(key));
    }
    assert forall|key: u128| #[trigger] s.directory.contains_key(key) implies
        after.directory[key].session_id == s.directory[key].session_id
        && after.directory[key].display_name == s.directory[key].display_name
        && after.directory[key].available == s.directory[key].available by {
        assert(mid.directory.contains_key(key));
    }
    assert forall|key: u128| #[trigger]
        s.join_requests.contains_key(key) && !after.join_requests.contains_key(
            key,
        ) implies s.rooms.contains_key(s.join_requests[key].room_id) && !after.rooms.contains_key(
        s.join_requests[key].room_id,
    ) by {
        if mid.join_requests.contains_key(key) {
            assert(mid.rooms.contains_key(mid.join_requests[key].room_id));
        }
    }
}

proof fn lemma_takes_out_left(
    s: AppStateView,
    room_id: u128,
    session_id: u128,
    connection_id: Option<u128>,
    now: Timestamp,
    after: AppStateView,
    removal: RemovalView,
)
    requires
        takes_out(s, room_id, session_id, connection_id, now, after, removal),
    ensures
        people_left(s, after),
{
    law_leaving_takes_out_one_person(
        s,
        room_id,
        session_id,
        connection_id,
        now,
        after,
        removal,
    );
    if removal.removed {
        law_leaving_only_moves_ones_own_listing(
            s,
            room_id,
            session_id,
            connection_id,
            now,
            after,
            removal,
        );
        if !others_stay(s.rooms[room_id], session_id) {
            law_the_last_to_leave_takes_the_room_along(
                s,
                room_id,
                session_id,
                connection_id,
                now,
                after,
                removal,
            );
        }
    }
}

/// When a connection ends, people only leave.
pub proof fn lemma_releases_left(
    s: AppStateView,
    connection_id: u128,
    now: Timestamp,
    after: AppStateView,
    dispatches: Seq<DispatchView>,
)
    requires
        releases(s, connection_id, now, after, dispatches),
    ensures
        people_left(s, after),
{
    if s.presence_connections.contains_key(connection_id) {
        let connection = s.presence_connections[connection_id];
        let without = AppStateView {
            presence_connections: s.presence_connections.remove(connection_id),
            ..s
        };
        if let PresenceConnectionKind::Room { room_id } = connection.kind {
            let removed = choose|removed: bool| #[trigger]
                takes_out(
                    without,
                    room_id,
                    connection.session_id,
                    Some(connection_id),
                    now,
                    after,
                    RemovalView { removed, dispatches },
                );
            lemma_takes_out_left(
                without,
                room_id,
                connection.session_id,
                Some(connection_id),
                now,
                after,
                RemovalView { removed, dispatches },
            );
        }
    }
}

/// When several connections end, people only leave.
pub proof fn lemma_releases_all_left(
    s: AppStateView,
    order: Seq<u128>,
    now: Timestamp,
    after: AppStateView,
    dispatches: Seq<DispatchView>,
)
    requires
        releases_all(s, order, now, after, dispatches),
    ensures
        people_left(s, after),
    decreases order.len(),
{
    if order.len() > 0 {
        let (mid, rest) = choose|mid: AppStateView, rest: Seq<DispatchView>|
            rest.len() <= dispatches.len() && #[trigger] releases(
                mid,
                order.last(),
                now,
                after,
                rest,
            ) && rest == dispatches.skip(dispatches.len() - rest.len()) && releases_all(
                s,
                order.drop_last(),
                now,
                mid,
                dispatches.take(dispatches.len() - rest.len()),
            );
        lemma_releases_all_left(
            s,
            order.drop_last(),
            now,
            mid,
            dispatches.take(dispatches.len() - rest.len()),
        );
        lemma_releases_left(mid, order.last(), now, after, rest);
        lemma_people_left_twice(s, mid, after);
    }
}

proof fn lemma_takes_out_all_left(
    s: AppStateView,
    order: Seq<(u128, u128)>,
    now: Timestamp,
    after: AppStateView,
    dispatches: Seq<DispatchView>,
)
    requires
        takes_out_all(s, order, now, after, dispatches),
    ensures
        people_left(s, after),
    decreases order.len(),
{
    if order.len() > 0 {
        let (mid, removal) = choose|mid: AppStateView, removal: RemovalView|
            removal.dispatches.len() <= dispatches.len() && #[trigger] takes_out(
                mid,
                order.last().0,
                order.last().1,
                None,
                now,
                after,
                removal,
            ) && removal.dispatches == dispatches.skip(
                dispatches.len() - removal.dispatches.len(),
            ) && takes_out_all(
                s,
                order.drop_last(),
                now,
                mid,
                dispatches.take(dispatches.len() - removal.dispatches.len()),
            );
        lemma_takes_out_all_left(
            s,
            order.drop_last(),
            now,
            mid,
            dispatches.take(dispatches.len() - removal.dispatches.len()),
        );
        lemma_takes_out_left(mid, order.last().0, order.last().1, None, now, after, removal);
        lemma_people_left_twice(s, mid, after);
    }
}

/// When the silent and the overdue are swept out, people only leave.
pub proof fn lemma_tidies_left(
    s: AppStateView,
    now: Timestamp,
    after: AppStateView,
    dispatches: Seq<DispatchView>,
)
    requires
        tidies(s, now, after, dispatches),
    ensures
        people_left(s, after),
{
    let (mid, first, rest) = choose|
        mid: AppStateView,
        first: Seq<DispatchView>,
        rest: Seq<DispatchView>,
    |
        dispatches == first + rest && #[trigger] prunes_stale(s, now, mid, first)
            && #[trigger] prunes_unconnected(mid, now, after, rest);
    let lost = choose|order: Seq<u128>|
        lists(order, stale_connections(s, now)) && #[trigger] releases_all(
            s,
            order,
            now,
            mid,
            first,
        );
    lemma_releases_all_left(s, lost, now, mid, first);
    let late = choose|order: Seq<(u128, u128)>|
        lists(order, crate::presence::overdue_participants(mid, now)) && #[trigger] takes_out_all(
            mid,
            order,
            now,
            after,
            rest,
        );
    lemma_takes_out_all_left(mid, late, now, after, rest);
    lemma_people_left_twice(s, mid, after);
}

/// A sweep takes people out of rooms and does nothing else to rooms, requests and listings. It
/// tells each subscriber, once, the head counts that remain.
pub proof fn law_a_sweep_only_takes_people_out(
    s: AppStateView,
    now: Timestamp,
    after: AppStateView,
    result: StatsBroadcast,
)
    requires
        sweeps(s, now, after, result),
    ensures
        people_left(s, after),
        counts(result.snapshot, after, now),
        forall|x: u128| #[trigger]
            result.subscribers@.contains(x) <==> s.stats_subscribers.contains(x),
        result.subscribers@.no_duplicates(),
        leaving_is_told(s, after, view_items(result.dispatches@)),
{
    lemma_tidies_left(s, now, after, view_items(result.dispatches@));
    law_a_sweep_tells_who_left(s, now, after, view_items(result.dispatches@));
}

/// A connection is stale once nothing was heard on it for forty-six seconds, and not before.
pub proof fn law_silence_is_measured_in_seconds(connection: PresenceConnection, now: Timestamp)
    requires
        no_leap(connection.last_seen, now),
    ensures
        stale(connection, now) <==> nanos_from(connection.last_seen, now) >= 46_000_000_000,
{
}

/// Someone who was given a place in a room and has no connection to it is overdue once they have
/// had thirty-one seconds, and not before; whoever is connected never is.
pub proof fn law_lateness_is_measured_in_seconds(room: RoomView, session_id: u128, now: Timestamp)
    requires
        room.participant_joined_at.contains_key(session_id),
        no_leap(room.participant_joined_at[session_id], now),
    ensures
        overdue(room, session_id, now) <==> room.participants.contains(session_id)
            && !room.connection_ids.contains_key(session_id) && nanos_from(
            room.participant_joined_at[session_id],
            now,
        ) >= 31_000_000_000,
{
}

/// Someone is online as long as one of their own connections is not stale.
pub proof fn law_online_is_being_heard_of(s: AppStateView, session_id: u128, now: Timestamp)
    ensures
        crate::presence::online(s, session_id, now) <==> exists|key: u128| #[trigger]
            s.presence_connections.contains_key(key) && s.presence_connections[key].session_id
                == session_id && !stale(s.presence_connections[key], now),
{
}

/// The head counts are how many people have a connection that is not stale, and how many are a
/// participant of some room, each counted once.
pub proof fn law_head_counts_count_people(stats: StatsSnapshot, s: AppStateView, now: Timestamp)
    requires
        counts(stats, s, now),
    ensures
        stats.online_count == Set::new(
            |x: u128|
                exists|key: u128| #[trigger]
                    s.presence_connections.contains_key(key)
                        && s.presence_connections[key].session_id == x && !stale(
                        s.presence_connections[key],
                        now,
                    ),
        ).len(),
        stats.in_call_count == Set::new(|x: u128| sits_somewhere(s, x)).len(),
{
    let online = Set::new(
        |x: u128|
            exists|key: u128| #[trigger]
                s.presence_connections.contains_key(key) && s.presence_connections[key].session_id
                    == x && !stale(s.presence_connections[key], now),
    );
    let sitting = Set::new(|x: u128| sits_somewhere(s, x));
    assert(online =~= crate::presence::online_sessions(s, now));
    assert forall|x: u128| sitting.contains(x) == crate::presence::in_call(s).contains(x) by {
        if sits_somewhere(s, x) {
            let r = choose|r: u128| #[trigger]
                s.rooms.contains_key(r) && s.rooms[r].participants.contains(x);
            assert(in_room(s, r, x));
        }
        if crate::presence::in_call(s).contains(x) {
            let r = choose|r: u128| in_room(s, r, x);
            assert(s.rooms.contains_key(r));
        }
    }
    assert(sitting =~= crate::presence::in_call(s));
}

/// Hearing from a connection notes when, and changes nothing else; a connection that is not kept
/// is not brought back.
pub proof fn law_hearing_from_a_connection_only_notes_when(
    s: AppStateView,
    connection_id: u128,
    now: Timestamp,
)
    ensures
        ({
            let after = touched(s, connection_id, now);
            &&& after.presence_connections.dom() == s.presence_connections.dom()
            &&& forall|key: u128|
                key != connection_id && #[trigger] s.presence_connections.contains_key(key)
                    ==> after.presence_connections[key] == s.presence_connections[key]
            &&& s.presence_connections.contains_key(connection_id) ==> {
                let was = s.presence_connections[connection_id];
                let became = after.presence_connections[connection_id];
                became.last_seen == now && became.session_id == was.session_id && became.kind
                    == was.kind
            }
            &&& super::all_same_but_connections(s, after)
        }),
{
}

/// Keeping a connection adds it, as it is given, and changes nothing else.
pub proof fn law_keeping_a_connection_adds_it(
    s: AppStateView,
    connection_id: u128,
    connection: PresenceConnection,
)
    ensures
        ({
            let after = with_connection(s, connection_id, connection);
            &&& after.presence_connections.contains_key(connection_id)
            &&& after.presence_connections[connection_id] == connection
            &&& forall|key: u128|
                key != connection_id ==> (#[trigger] after.presence_connections.contains_key(key)
                    <==> s.presence_connections.contains_key(key))
                    && after.presence_connections[key] == s.presence_connections[key]
            &&& super::all_same_but_connections(s, after)
        }),
{
}

/// The connections of someone are those opened in their name.
pub proof fn law_connections_belong_to_their_session(s: AppStateView, session_id: u128, key: u128)
    ensures
        connections_of(s, session_id).contains(key) <==> s.presence_connections.contains_key(key)
            && s.presence_connections[key].session_id == session_id,
{
}

/// Whoever has not connected and whose coming was not noted counts from when the room was opened.
pub proof fn law_lateness_counts_from_the_opening(room: RoomView, session_id: u128, now: Timestamp)
    requires
        !room.participant_joined_at.contains_key(session_id),
        no_leap(room.created_at, now),
    ensures
        overdue(room, session_id, now) <==> room.participants.contains(session_id)
            && !room.connection_ids.contains_key(session_id) && nanos_from(room.created_at, now)
            >= 31_000_000_000,
{
}

/// Whether the session is a participant of the room.
pub open spec fn sits_in(s: AppStateView, room_id: u128, session_id: u128) -> bool {
    s.rooms.contains_key(room_id) && s.rooms[room_id].participants.contains(session_id)
}

/// Whether the dispatch tells a room that someone left: it goes to people who listened there, not
/// to whoever left, and reaches everyone who still listens there.
pub open spec fn tells_who_left(
    dispatch: DispatchView,
    s: AppStateView,
    after: AppStateView,
    room_id: u128,
    session_id: u128,
) -> bool {
    &&& dispatch.room_id == room_id
    &&& dispatch.event == (ServerWsEventView::PeerLeft { peer_id: session_id })
    &&& !dispatch.recipients.contains(session_id)
    &&& forall|x: u128| #[trigger]
        dispatch.recipients.contains(x) ==> s.rooms[room_id].senders.contains(x)
    &&& after.rooms.contains_key(room_id) ==> forall|x: u128| #[trigger]
        after.rooms[room_id].senders.contains(x) && x != session_id
            ==> dispatch.recipients.contains(x)
}

/// Whether everyone who left a room was announced there.
pub open spec fn leaving_is_told(
    s: AppStateView,
    after: AppStateView,
    dispatches: Seq<DispatchView>,
) -> bool {
    forall|room_id: u128, session_id: u128|
        #![trigger sits_in(s, room_id, session_id)]
        sits_in(s, room_id, session_id) && !sits_in(after, room_id, session_id) ==> exists|i: int|
            0 <= i < dispatches.len() && tells_who_left(
                #[trigger] dispatches[i],
                s,
                after,
                room_id,
                session_id,
            )
}

/// If everyone who left was announced in each of two steps, they were in both together.
pub proof fn lemma_leaving_is_told_twice(
    s: AppStateView,
    mid: AppStateView,
    after: AppStateView,
    first: Seq<DispatchView>,
    rest: Seq<DispatchView>,
    dispatches: Seq<DispatchView>,
)
    requires
        people_left(s, mid),
        people_left(mid, after),
        leaving_is_told(s, mid, first),
        leaving_is_told(mid, after, rest),
        dispatches == first + rest,
    ensures
        leaving_is_told(s, after, dispatches),
{
    assert forall|room_id: u128, session_id: u128|
        #![trigger sits_in(s, room_id, session_id)]
        sits_in(s, room_id, session_id) && !sits_in(after, room_id, session_id) implies exists|
        i: int,
    |
        0 <= i < dispatches.len() && tells_who_left(
            #[trigger] dispatches[i],
            s,
            after,
            room_id,
            session_id,
        ) by {
        if sits_in(mid, room_id, session_id) {
            let i = choose|i: int|
                0 <= i < rest.len() && tells_who_left(
                    #[trigger] rest[i],
                    mid,
                    after,
                    room_id,
                    session_id,
                );
            assert(dispatches[first.len() + i] == rest[i]);
            assert(only_left(s.rooms[room_id], mid.rooms[room_id]));
            assert(tells_who_left(dispatches[first.len() + i], s, after, room_id, session_id));
        } else {
            let i = choose|i: int|
                0 <= i < first.len() && tells_who_left(
                    #[trigger] first[i],
                    s,
                    mid,
                    room_id,
                    session_id,
                );
            assert(dispatches[i] == first[i]);
            if after.rooms.contains_key(room_id) {
                assert(only_left(mid.rooms[room_id], after.rooms[room_id]));
            }
            assert(tells_who_left(dispatches[i], s, after, room_id, session_id));
        }
    }
}

proof fn lemma_takes_out_told(
    s: AppStateView,
    room_id: u128,
    session_id: u128,
    connection_id: Option<u128>,
    now: Timestamp,
    after: AppStateView,
    removal: RemovalView,
)
    requires
        takes_out(s, room_id, session_id, connection_id, now, after, removal),
    ensures
        leaving_is_told(s, after, removal.dispatches),
{
    law_leaving_takes_out_one_person(
        s,
        room_id,
        session_id,
        connection_id,
        now,
        after,
        removal,
    );
    assert forall|r: u128, x: u128|
        #![trigger sits_in(s, r, x)]
        sits_in(s, r, x) && !sits_in(after, r, x) implies exists|i: int|
        0 <= i < removal.dispatches.len() && tells_who_left(
            #[trigger] removal.dispatches[i],
            s,
            after,
            r,
            x,
        ) by {
        if r == room_id && x != session_id {
            assert(s.rooms[room_id].participants.contains(x));
            assert(others_stay(s.rooms[room_id], session_id));
        }
        if r != room_id {
            assert(after.rooms.contains_key(r));
        }
        assert(tells_who_left(removal.dispatches[0], s, after, r, x));
    }
}

/// Whoever leaves when a connection ends is announced.
pub proof fn lemma_releases_told(
    s: AppStateView,
    connection_id: u128,
    now: Timestamp,
    after: AppStateView,
    dispatches: Seq<DispatchView>,
)
    requires
        releases(s, connection_id, now, after, dispatches),
    ensures
        leaving_is_told(s, after, dispatches),
{
    if s.presence_connections.contains_key(connection_id) {
        let connection = s.presence_connections[connection_id];
        let without = AppStateView {
            presence_connections: s.presence_connections.remove(connection_id),
            ..s
        };
        if let PresenceConnectionKind::Room { room_id } = connection.kind {
            let removed = choose|removed: bool| #[trigger]
                takes_out(
                    without,
                    room_id,
                    connection.session_id,
                    Some(connection_id),
                    now,
                    after,
                    RemovalView { removed, dispatches },
                );
            lemma_takes_out_told(
                without,
                room_id,
                connection.session_id,
                Some(connection_id),
                now,
                after,
                RemovalView { removed, dispatches },
            );
            assert forall|r: u128, x: u128|
                #![trigger sits_in(s, r, x)]
                sits_in(s, r, x) && !sits_in(after, r, x) implies exists|i: int|
                0 <= i < dispatches.len() && tells_who_left(
                    #[trigger] dispatches[i],
                    s,
                    after,
                    r,
                    x,
                ) by {
                assert(sits_in(without, r, x));
                let i = choose|i: int|
                    0 <= i < dispatches.len() && tells_who_left(
                        #[trigger] dispatches[i],
                        without,
                        after,
                        r,
                        x,
                    );
                assert(tells_who_left(dispatches[i], s, after, r, x));
            }
        }
    }
}

/// Whoever leaves when several connections end is announced.
pub proof fn lemma_releases_all_told(
    s: AppStateView,
    order: Seq<u128>,
    now: Timestamp,
    after: AppStateView,
    dispatches: Seq<DispatchView>,
)
    requires
        releases_all(s, order, now, after, dispatches),
    ensures
        leaving_is_told(s, after, dispatches),
    decreases order.len(),
{
    if order.len() > 0 {
        let (mid, rest) = choose|mid: AppStateView, rest: Seq<DispatchView>|
            rest.len() <= dispatches.len() && #[trigger] releases(
                mid,
                order.last(),
                now,
                after,
                rest,
            ) && rest == dispatches.skip(dispatches.len() - rest.len()) && releases_all(
                s,
                order.drop_last(),
                now,
                mid,
                dispatches.take(dispatches.len() - rest.len()),
            );
        let first = dispatches.take(dispatches.len() - rest.len());
        lemma_releases_all_told(s, order.drop_last(), now, mid, first);
        lemma_releases_all_left(s, order.drop_last(), now, mid, first);
        lemma_releases_told(mid, order.last(), now, after, rest);
        lemma_releases_left(mid, order.last(), now, after, rest);
        assert(dispatches =~= first + rest);
        lemma_leaving_is_told_twice(s, mid, after, first, rest, dispatches);
    }
}

proof fn lemma_takes_out_all_told(
    s: AppStateView,
    order: Seq<(u128, u128)>,
    now: Timestamp,
    after: AppStateView,
    dispatches: Seq<DispatchView>,
)
    requires
        takes_out_all(s, order, now, after, dispatches),
    ensures
        leaving_is_told(s, after, dispatches),
    decreases order.len(),
{
    if order.len() > 0 {
        let (mid, removal) = choose|mid: AppStateView, removal: RemovalView|
            removal.dispatches.len() <= dispatches.len() && #[trigger] takes_out(
                mid,
                order.last().0,
                order.last().1,
                None,
                now,
                after,
                removal,
            ) && removal.dispatches == dispatches.skip(
                dispatches.len() - removal.dispatches.len(),
            ) && takes_out_all(
                s,
                order.drop_last(),
                now,
                mid,
                dispatches.take(dispatches.len() - removal.dispatches.len()),
            );
        let rest = removal.dispatches;
        let first = dispatches.take(dispatches.len() - rest.len());
        lemma_takes_out_all_told(s, order.drop_last(), now, mid, first);
        lemma_takes_out_all_left(s, order.drop_last(), now, mid, first);
        lemma_takes_out_told(mid, order.last().0, order.last().1, None, now, after, removal);
        lemma_takes_out_left(mid, order.last().0, order.last().1, None, now, after, removal);
        assert(dispatches =~= first + rest);
        lemma_leaving_is_told_twice(s, mid, after, first, rest, dispatches);
    }
}

/// Everyone whom a sweep takes out of a room is announced there, to everyone else who listens.
pub proof fn law_a_sweep_tells_who_left(
    s: AppStateView,
    now: Timestamp,
    after: AppStateView,
    dispatches: Seq<DispatchView>,
)
    requires
        tidies(s, now, after, dispatches),
    ensures
        leaving_is_told(s, after, dispatches),
{
    let (mid, first, rest) = choose|
        mid: AppStateView,
        first: Seq<DispatchView>,
        rest: Seq<DispatchView>,
    |
        dispatches == first + rest && #[trigger] prunes_stale(s, now, mid, first)
            && #[trigger] prunes_unconnected(mid, now, after, rest);
    let lost = choose|order: Seq<u128>|
        lists(order, stale_connections(s, now)) && #[trigger] releases_all(
            s,
            order,
            now,
            mid,
            first,
        );
    lemma_releases_all_told(s, lost, now, mid, first);
    lemma_releases_all_left(s, lost, now, mid, first);
    let late = choose|order: Seq<(u128, u128)>|
        lists(order, crate::presence::overdue_participants(mid, now)) && #[trigger] takes_out_all(
            mid,
            order,
            now,
            after,
            rest,
        );
    lemma_takes_out_all_told(mid, late, now, after, rest);
    lemma_takes_out_all_left(mid, late, now, after, rest);
    lemma_leaving_is_told_twice(s, mid, after, first, rest, dispatches);
}

} // verus!
