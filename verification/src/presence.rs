//! Who is connected: connections that come, stay alive and end, and what becomes of the
//! rooms that people leave.

use crate::chance::{choose_one, new_id, random_id_shape};
use crate::events::{sent_to, Dispatch, DispatchView, RoomSnapshotView, ServerWsEvent};
use crate::events::{ServerWsEventView, StatsSnapshot};
use crate::rooms::{broadcast, in_room, live_room, live_room_for_session, room_snapshot};
use crate::rooms::{room_updated, shows_room, with_room};
use crate::state::{AppState, AppStateView, DirectChatRequestView, DirectoryEntryView};
use crate::state::{JoinRequestView, PresenceConnection, PresenceConnectionKind, Room};
use crate::state::RoomView;
use crate::tables::{add_all, group_tables, keys_of, lemma_lists_push, lemma_scanned_all};
use crate::tables::{lemma_view_items_concat, lists, members_of, scanned, view_items};
use crate::time::{clock_time, whole_seconds, Timestamp};
use std::collections::HashSet;
use vstd::prelude::*;

verus! {

broadcast use {vstd::std_specs::hash::group_hash_axioms, group_tables};

/// How long a connection may be silent.
pub const PRESENCE_TIMEOUT_SECONDS: i64 = 45;

/// How long a participant may take to connect to a room.
pub const PENDING_ROOM_JOIN_TIMEOUT_SECONDS: i64 = 30;

/// Whether nothing was heard on the connection for too long.
pub open spec fn stale(connection: PresenceConnection, now: Timestamp) -> bool {
    whole_seconds(now.elapsed_since(connection.last_seen)) > PRESENCE_TIMEOUT_SECONDS
}

/// Whether the session has a connection that is not stale.
pub open spec fn online(s: AppStateView, session_id: u128, now: Timestamp) -> bool {
    exists|key: u128| #[trigger]
        s.presence_connections.contains_key(key) && s.presence_connections[key].session_id
            == session_id && !stale(s.presence_connections[key], now)
}

/// Whether nothing was heard on the connection for too long.
pub fn presence_is_stale(connection: &PresenceConnection, now: Timestamp) -> (result: bool)
    ensures
        result == stale(*connection, now),
{
    now.seconds_since(connection.last_seen) > PRESENCE_TIMEOUT_SECONDS
}

/// Whether the session has a connection that is not stale.
pub fn is_session_online(state: &AppState, session_id: u128, now: Timestamp) -> (result: bool)
    ensures
        result == online(state@, session_id, now),
{
    let keys = keys_of(&state.presence_connections);
    let mut i: usize = 0;
    while i < keys.len()
        invariant
            i <= keys@.len(),
            lists(keys@, state.presence_connections@.dom()),
            forall|k: int|
                0 <= k < i ==> state@.presence_connections[#[trigger] keys@[k]].session_id
                    != session_id || stale(state@.presence_connections[keys@[k]], now),
        decreases keys@.len() - i,
    {
        assert(keys@.contains(keys@[i as int]));
        if let Some(connection) = state.presence_connections.get(&keys[i]) {
            if connection.session_id == session_id && !presence_is_stale(connection, now) {
                assert(state@.presence_connections.contains_key(keys@[i as int]));
                return true;
            }
        }
        i = i + 1;
    }
    assert forall|key: u128| #[trigger] state@.presence_connections.contains_key(key) implies
        state@.presence_connections[key].session_id != session_id || stale(
        state@.presence_connections[key],
        now,
    ) by {
        assert(keys@.contains(key));
    }
    false
}

/// The state with a connection in it.
pub open spec fn with_connection(
    s: AppStateView,
    connection_id: u128,
    connection: PresenceConnection,
) -> AppStateView {
    AppStateView {
        presence_connections: s.presence_connections.insert(connection_id, connection),
        ..s
    }
}

/// Keeps a connection of the session, last heard of at `now`, as `connection_id`.
pub fn register_presence_with(
    state: &mut AppState,
    session_id: u128,
    kind: PresenceConnectionKind,
    connection_id: u128,
    now: Timestamp,
)
    ensures
        final(state)@ == with_connection(
            old(state)@,
            connection_id,
            PresenceConnection { session_id, kind, last_seen: now },
        ),
{
    state.presence_connections.insert(
        connection_id,
        PresenceConnection { session_id, kind, last_seen: now },
    );
}

/// Keeps a new connection of the session, and returns its identifier.
pub fn register_presence(
    state: &mut AppState,
    session_id: u128,
    kind: PresenceConnectionKind,
) -> (connection_id: u128)
    ensures
        random_id_shape(connection_id),
        exists|now: Timestamp|
            clock_time(now) && final(state)@ == #[trigger] with_connection(
                old(state)@,
                connection_id,
                PresenceConnection { session_id, kind, last_seen: now },
            ),
{
    let connection_id: u128 = new_id();
    let now = Timestamp::now();
    register_presence_with(state, session_id, kind, connection_id, now);
    connection_id
}

/// The state with the connection heard of at `now`, if there is such a connection.
pub open spec fn touched(s: AppStateView, connection_id: u128, now: Timestamp) -> AppStateView {
    if s.presence_connections.contains_key(connection_id) {
        with_connection(
            s,
            connection_id,
            PresenceConnection { last_seen: now, ..s.presence_connections[connection_id] },
        )
    } else {
        s
    }
}

/// Notes that the connection was heard of at `now`.
pub fn touch_presence_at(state: &mut AppState, connection_id: u128, now: Timestamp)
    ensures
        final(state)@ == touched(old(state)@, connection_id, now),
{
    if let Some(mut connection) = state.presence_connections.remove(&connection_id) {
        connection.last_seen = now;
        state.presence_connections.insert(connection_id, connection);
    }
}

/// Notes that the connection was heard of.
pub fn touch_presence(state: &mut AppState, connection_id: u128)
    ensures
        exists|now: Timestamp|
            clock_time(now) && final(state)@ == #[trigger] touched(old(state)@, connection_id, now),
{
    let now = Timestamp::now();
    touch_presence_at(state, connection_id, now)
}

/// The request, used up at `now` if it leads to the room and has not been used.
pub open spec fn expired_request(
    request: DirectChatRequestView,
    room_id: u128,
    now: Timestamp,
) -> DirectChatRequestView {
    if request.room_id == Some(room_id) && request.consumed_at is None {
        DirectChatRequestView { consumed_at: Some(now), updated_at: now, ..request }
    } else {
        request
    }
}

/// The chat requests after the room is gone.
pub open spec fn expired_for_room(
    requests: Map<u128, DirectChatRequestView>,
    room_id: u128,
    now: Timestamp,
) -> Map<u128, DirectChatRequestView> {
    requests.map_values(|request: DirectChatRequestView| expired_request(request, room_id, now))
}

/// Uses up at `now` every unused chat request that leads to the room.
pub fn expire_direct_chat_requests_for_room(state: &mut AppState, room_id: u128, now: Timestamp)
    ensures
        final(state)@ == (AppStateView {
            direct_chat_requests: expired_for_room(
                old(state)@.direct_chat_requests,
                room_id,
                now,
            ),
            ..old(state)@
        }),
{
    let keys = keys_of(&state.direct_chat_requests);
    let ghost before = old(state)@;
    let mut i: usize = 0;
    while i < keys.len()
        invariant
            i <= keys@.len(),
            lists(keys@, before.direct_chat_requests.dom()),
            state@ == (AppStateView {
                direct_chat_requests: state@.direct_chat_requests,
                ..before
            }),
            state@.direct_chat_requests.dom() == before.direct_chat_requests.dom(),
            forall|k: int|
                0 <= k < i ==> state@.direct_chat_requests[#[trigger] keys@[k]] == expired_request(
                    before.direct_chat_requests[keys@[k]],
                    room_id,
                    now,
                ),
            forall|k: int|
                i <= k < keys@.len() ==> state@.direct_chat_requests[#[trigger] keys@[k]]
                    == before.direct_chat_requests[keys@[k]],
        decreases keys@.len() - i,
    {
        let key: u128 = keys[i];
        assert(keys@.contains(key));
        if let Some(mut request) = state.direct_chat_requests.remove(&key) {
            let leads_here = match request.room_id {
                Some(target) => target == room_id,
                None => false,
            };
            if leads_here && request.consumed_at.is_none() {
                request.consumed_at = Some(now);
                request.updated_at = now;
            }
            state.direct_chat_requests.insert(key, request);
        }
        i = i + 1;
    }
    proof {
        let expected = expired_for_room(before.direct_chat_requests, room_id, now);
        assert forall|key: u128| expected.contains_key(key) implies #[trigger] expected[key]
            == state@.direct_chat_requests[key] by {
            assert(keys@.contains(key));
        }
    }
}

/// The join requests for other rooms.
pub open spec fn requests_elsewhere(
    requests: Map<u128, JoinRequestView>,
    room_id: u128,
) -> Map<u128, JoinRequestView> {
    Map::new(
        |key: u128| requests.contains_key(key) && requests[key].room_id != room_id,
        |key: u128| requests[key],
    )
}

fn drop_join_requests_for_room(state: &mut AppState, room_id: u128)
    ensures
        final(state)@ == (AppStateView {
            join_requests: requests_elsewhere(old(state)@.join_requests, room_id),
            ..old(state)@
        }),
{
    let keys = keys_of(&state.join_requests);
    let ghost before = old(state)@;
    assert forall|k: int| 0 <= k < keys@.len() implies before.join_requests.contains_key(
        #[trigger] keys@[k],
    ) by {
        assert(keys@.contains(keys@[k]));
    }
    let mut i: usize = 0;
    while i < keys.len()
        invariant
            i <= keys@.len(),
            lists(keys@, before.join_requests.dom()),
            state@ == (AppStateView { join_requests: state@.join_requests, ..before }),
            forall|key: u128| #[trigger]
                state@.join_requests.contains_key(key) ==> before.join_requests.contains_key(key)
                    && state@.join_requests[key] == before.join_requests[key],
            forall|k: int|
                0 <= k < i ==> (state@.join_requests.contains_key(#[trigger] keys@[k])
                    <==> before.join_requests[keys@[k]].room_id != room_id),
            forall|k: int|
                i <= k < keys@.len() ==> state@.join_requests.contains_key(#[trigger] keys@[k]),
        decreases keys@.len() - i,
    {
        let key: u128 = keys[i];
        let goes = match state.join_requests.get(&key) {
            Some(request) => request.room_id == room_id,
            None => false,
        };
        if goes {
            state.join_requests.remove(&key);
        }
        i = i + 1;
    }
    proof {
        let expected = requests_elsewhere(before.join_requests, room_id);
        assert forall|key: u128| #[trigger]
            expected.contains_key(key) == state@.join_requests.contains_key(key) by {
            if before.join_requests.contains_key(key) {
                assert(keys@.contains(key));
            }
        }
    }
}

/// Whether the session is to leave the room: always, or, where a connection is named, if
/// that is the active one.
pub open spec fn leaves(
    s: AppStateView,
    room_id: u128,
    session_id: u128,
    connection_id: Option<u128>,
) -> bool {
    s.rooms.contains_key(room_id) && match connection_id {
        None => true,
        Some(connection) => s.rooms[room_id].connection_ids.contains_key(session_id)
            && s.rooms[room_id].connection_ids[session_id] == connection,
    }
}

/// The room without the session; a host who leaves is followed by `successor`, if there
/// is one.
pub open spec fn left_room(room: RoomView, session_id: u128, successor: Option<u128>) -> RoomView {
    RoomView {
        participants: room.participants.remove(session_id),
        participant_joined_at: room.participant_joined_at.remove(session_id),
        senders: room.senders.remove(session_id),
        connection_ids: room.connection_ids.remove(session_id),
        host_session: match successor {
            Some(next) if room.host_session == session_id => next,
            _ => room.host_session,
        },
        ..room
    }
}

/// The directory in which the session, if listed, is shown in `live`.
pub open spec fn relisted(
    directory: Map<u128, DirectoryEntryView>,
    session_id: u128,
    live: Option<u128>,
    now: Timestamp,
) -> Map<u128, DirectoryEntryView> {
    if directory.contains_key(session_id) {
        directory.insert(
            session_id,
            DirectoryEntryView { room_id: live, updated_at: now, ..directory[session_id] },
        )
    } else {
        directory
    }
}

/// The state after the session left the room. An empty room goes, with the requests for it.
pub open spec fn departed(
    s: AppStateView,
    room_id: u128,
    session_id: u128,
    successor: Option<u128>,
    live: Option<u128>,
    now: Timestamp,
) -> AppStateView {
    let room = left_room(s.rooms[room_id], session_id, successor);
    let directory = relisted(s.directory, session_id, live, now);
    if room.participants.is_empty() {
        AppStateView {
            directory,
            rooms: s.rooms.remove(room_id),
            join_requests: requests_elsewhere(s.join_requests, room_id),
            direct_chat_requests: expired_for_room(s.direct_chat_requests, room_id, now),
            ..s
        }
    } else {
        AppStateView { directory, rooms: s.rooms.insert(room_id, room), ..s }
    }
}

/// The dispatch that tells those still in the room who left.
pub open spec fn peer_left(room: RoomView, room_id: u128, session_id: u128) -> DispatchView {
    sent_to(
        room_id,
        room.senders.remove(session_id),
        ServerWsEventView::PeerLeft { peer_id: session_id },
    )
}

/// Leaving a room: from `s` to `after`, whether anything was removed, and what the others
/// are sent.
pub open spec fn removes_connection(
    s: AppStateView,
    room_id: u128,
    session_id: u128,
    connection_id: Option<u128>,
    successor: Option<u128>,
    now: Timestamp,
    after: AppStateView,
    removal: RemovalView,
) -> bool {
    if leaves(s, room_id, session_id, connection_id) {
        let room = left_room(s.rooms[room_id], session_id, successor);
        &&& removal.removed
        &&& exists|live: Option<u128>| #[trigger]
            live_room(with_room(s, room_id, room), session_id, live) && after == departed(
                s,
                room_id,
                session_id,
                successor,
                live,
                now,
            )
        &&& if room.participants.is_empty() {
            removal.dispatches == seq![peer_left(s.rooms[room_id], room_id, session_id)]
        } else {
            exists|snapshot: RoomSnapshotView| #[trigger]
                shows_room(snapshot, after, room_id) && removal.dispatches == seq![
                    peer_left(s.rooms[room_id], room_id, session_id),
                    room_updated(after, room_id, snapshot),
                ]
        }
    } else {
        after == s && !removal.removed && removal.dispatches == Seq::<DispatchView>::empty()
    }
}

/// What came of taking a session out of a room.
pub struct Removal {
    /// Whether the session was taken out.
    pub removed: bool,
    /// What the members of the room are to be sent.
    pub dispatches: Vec<Dispatch>,
}

#[verifier::ext_equal]
pub struct RemovalView {
    pub removed: bool,
    pub dispatches: Seq<DispatchView>,
}

impl View for Removal {
    type V = RemovalView;

    open spec fn view(&self) -> RemovalView {
        RemovalView { removed: self.removed, dispatches: view_items(self.dispatches@) }
    }
}

fn should_leave(
    state: &AppState,
    room_id: u128,
    session_id: u128,
    connection_id: Option<u128>,
) -> (result: bool)
    ensures
        result == leaves(state@, room_id, session_id, connection_id),
{
    match state.rooms.get(&room_id) {
        Some(room) => match connection_id {
            Some(connection) => match room.connection_ids.get(&session_id) {
                Some(active) => *active == connection,
                None => false,
            },
            None => true,
        },
        None => false,
    }
}

/// Takes a session out of a room at `now`; a host who leaves is followed by `successor`.
/// Where a connection is named, only if it is the session's active one in the room.
pub fn remove_room_connection_with(
    state: &mut AppState,
    room_id: u128,
    session_id: u128,
    connection_id: Option<u128>,
    successor: Option<u128>,
    now: Timestamp,
) -> (result: Removal)
    ensures
        removes_connection(
            old(state)@,
            room_id,
            session_id,
            connection_id,
            successor,
            now,
            final(state)@,
            result@,
        ),
{
    let ghost s = old(state)@;
    let mut dispatches: Vec<Dispatch> = Vec::new();
    if !should_leave(state, room_id, session_id, connection_id) {
        assert(view_items(dispatches@) =~= Seq::<DispatchView>::empty());
        return Removal { removed: false, dispatches };
    }
    let ghost left = left_room(s.rooms[room_id], session_id, successor);
    let mut remove_room = false;
    if let Some(mut room) = state.rooms.remove(&room_id) {
        room.participants.remove(&session_id);
        room.participant_joined_at.remove(&session_id);
        room.senders.remove(&session_id);
        room.connection_ids.remove(&session_id);
        if room.host_session == session_id {
            if let Some(next_host) = successor {
                room.host_session = next_host;
            }
        }
        remove_room = room.participants.is_empty();
        state.rooms.insert(room_id, room);
    }
    assert(state@ =~= with_room(s, room_id, left));
    dispatches.push(broadcast(state, room_id, ServerWsEvent::PeerLeft { peer_id: session_id }));
    assert(view_items(dispatches@) =~= seq![peer_left(s.rooms[room_id], room_id, session_id)]);
    let live_room_id = live_room_for_session(state, session_id);
    if let Some(mut entry) = state.directory.remove(&session_id) {
        entry.room_id = live_room_id;
        entry.updated_at = now;
        state.directory.insert(session_id, entry);
    }
    if remove_room {
        state.rooms.remove(&room_id);
        drop_join_requests_for_room(state, room_id);
        expire_direct_chat_requests_for_room(state, room_id, now);
        assert(state@ =~= departed(s, room_id, session_id, successor, live_room_id, now));
    } else {
        assert(state@ =~= departed(s, room_id, session_id, successor, live_room_id, now));
        if let Ok(snapshot) = room_snapshot(state, room_id) {
            let ghost shown = snapshot@;
            dispatches.push(
                broadcast(state, room_id, ServerWsEvent::RoomUpdated { room: snapshot }),
            );
            assert(view_items(dispatches@) =~= seq![
                peer_left(s.rooms[room_id], room_id, session_id),
                room_updated(state@, room_id, shown),
            ]);
        }
    }
    Removal { removed: true, dispatches }
}

/// Whether `successor` is what a draw among those who stay can bring when the session
/// leaves: a host is followed by one of them, if there is one; nobody else is.
pub open spec fn drawn_successor(room: RoomView, session_id: u128, successor: Option<u128>) -> bool {
    let staying = room.participants.remove(session_id);
    match successor {
        Some(next) => room.host_session == session_id && staying.contains(next),
        None => room.host_session == session_id ==> staying.is_empty(),
    }
}

/// Leaving a room, with the next host drawn at random: from `s` to `after`.
pub open spec fn takes_out(
    s: AppStateView,
    room_id: u128,
    session_id: u128,
    connection_id: Option<u128>,
    now: Timestamp,
    after: AppStateView,
    removal: RemovalView,
) -> bool {
    exists|successor: Option<u128>|
        (s.rooms.contains_key(room_id) ==> drawn_successor(
            s.rooms[room_id],
            session_id,
            successor,
        )) && #[trigger] removes_connection(
            s,
            room_id,
            session_id,
            connection_id,
            successor,
            now,
            after,
            removal,
        )
}

/// The participants of the room other than the session.
fn staying_participants(room: &Room, session_id: u128) -> (result: Vec<u128>)
    ensures
        lists(result@, room@.participants.remove(session_id)),
{
    let everyone = members_of(&room.participants);
    let ghost wanted = room@.participants.remove(session_id);
    let mut staying: Vec<u128> = Vec::new();
    let mut i: usize = 0;
    while i < everyone.len()
        invariant
            i <= everyone@.len(),
            lists(everyone@, room@.participants),
            wanted == room@.participants.remove(session_id),
            lists(staying@, scanned(everyone@, i as int, wanted)),
        decreases everyone@.len() - i,
    {
        let next: u128 = everyone[i];
        proof {
            assert(everyone@.contains(next));
        }
        if next != session_id {
            proof {
                lemma_lists_push(staying@, scanned(everyone@, i as int, wanted), next);
            }
            staying.push(next);
        }
        i = i + 1;
    }
    proof {
        lemma_scanned_all(everyone@, wanted);
    }
    staying
}

/// Takes a session out of a room at `now`; a host who leaves is followed by someone drawn
/// at random among those who stay.
pub fn remove_room_connection(
    state: &mut AppState,
    room_id: u128,
    session_id: u128,
    connection_id: Option<u128>,
    now: Timestamp,
) -> (result: Removal)
    ensures
        takes_out(
            old(state)@,
            room_id,
            session_id,
            connection_id,
            now,
            final(state)@,
            result@,
        ),
{
    let successor = match state.rooms.get(&room_id) {
        Some(room) => if room.host_session == session_id {
            let staying = staying_participants(room, session_id);
            let choice = choose_one(&staying);
            proof {
                let left = room@.participants.remove(session_id);
                if choice is None {
                    assert forall|x: u128| !left.contains(x) by {
                        assert(!staying@.contains(x));
                    }
                }
            }
            choice
        } else {
            None
        },
        None => None,
    };
    remove_room_connection_with(state, room_id, session_id, connection_id, successor, now)
}

/// The end of a connection: from `s` to `after`, and what the members of its room are sent.
/// The session leaves the room that the connection was opened for, if that is still its
/// active connection there.
pub open spec fn releases(
    s: AppStateView,
    connection_id: u128,
    now: Timestamp,
    after: AppStateView,
    dispatches: Seq<DispatchView>,
) -> bool {
    if s.presence_connections.contains_key(connection_id) {
        let connection = s.presence_connections[connection_id];
        let without = AppStateView {
            presence_connections: s.presence_connections.remove(connection_id),
            ..s
        };
        match connection.kind {
            PresenceConnectionKind::Stats => after == without && dispatches == Seq::<
                DispatchView,
            >::empty(),
            PresenceConnectionKind::Room { room_id } => exists|removed: bool| #[trigger]
                takes_out(
                    without,
                    room_id,
                    connection.session_id,
                    Some(connection_id),
                    now,
                    after,
                    RemovalView { removed, dispatches },
                ),
        }
    } else {
        after == s && dispatches == Seq::<DispatchView>::empty()
    }
}

/// Ends a connection at `now`.
pub fn release_presence_at(
    state: &mut AppState,
    connection_id: u128,
    now: Timestamp,
) -> (dispatches: Vec<Dispatch>)
    ensures
        releases(old(state)@, connection_id, now, final(state)@, view_items(dispatches@)),
{
    let ghost s = old(state)@;
    let connection = match state.presence_connections.remove(&connection_id) {
        Some(connection) => connection,
        None => {
            let nothing: Vec<Dispatch> = Vec::new();
            assert(view_items(nothing@) =~= Seq::<DispatchView>::empty());
            assert(state@.presence_connections =~= s.presence_connections);
            return nothing;
        },
    };
    match connection.kind {
        PresenceConnectionKind::Stats => {
            let nothing: Vec<Dispatch> = Vec::new();
            assert(view_items(nothing@) =~= Seq::<DispatchView>::empty());
            nothing
        },
        PresenceConnectionKind::Room { room_id } => {
            let removal = remove_room_connection(
                state,
                room_id,
                connection.session_id,
                Some(connection_id),
                now,
            );
            removal.dispatches
        },
    }
}

/// Ends a connection.
pub fn release_presence(state: &mut AppState, connection_id: u128) -> (dispatches: Vec<Dispatch>)
    ensures
        exists|now: Timestamp|
            clock_time(now) && #[trigger] releases(
                old(state)@,
                connection_id,
                now,
                final(state)@,
                view_items(dispatches@),
            ),
{
    let now = Timestamp::now();
    release_presence_at(state, connection_id, now)
}

/// The end of several connections, one after the other.
pub open spec fn releases_all(
    s: AppStateView,
    order: Seq<u128>,
    now: Timestamp,
    after: AppStateView,
    dispatches: Seq<DispatchView>,
) -> bool
    decreases order.len(),
{
    if order.len() == 0 {
        after == s && dispatches == Seq::<DispatchView>::empty()
    } else {
        exists|mid: AppStateView, rest: Seq<DispatchView>|
            rest.len() <= dispatches.len() && #[trigger] releases(
                mid,
                order.last(),
                now,
                after,
                rest,
            ) && rest == dispatches.skip(dispatches.len() - rest.len()) && releases_all(
                s,
                order.drop_last(),
                now,
                mid,
                dispatches.take(dispatches.len() - rest.len()),
            )
    }
}

/// Ends the connections at `now`, one after the other.
fn release_each(
    state: &mut AppState,
    order: &Vec<u128>,
    now: Timestamp,
) -> (dispatches: Vec<Dispatch>)
    ensures
        releases_all(old(state)@, order@, now, final(state)@, view_items(dispatches@)),
{
    let ghost s = old(state)@;
    let mut dispatches: Vec<Dispatch> = Vec::new();
    let mut i: usize = 0;
    assert(view_items(dispatches@) =~= Seq::<DispatchView>::empty());
    while i < order.len()
        invariant
            i <= order@.len(),
            releases_all(s, order@.take(i as int), now, state@, view_items(dispatches@)),
        decreases order@.len() - i,
    {
        let ghost mid = state@;
        let ghost first = dispatches@;
        let mut more = release_presence_at(state, order[i], now);
        let ghost rest = more@;
        dispatches.append(&mut more);
        proof {
            let longer = order@.take(i + 1);
            assert(longer.drop_last() =~= order@.take(i as int));
            let all = view_items(dispatches@);
            assert(all.take(all.len() - rest.len()) =~= view_items(first));
            assert(all.skip(all.len() - rest.len()) =~= view_items(rest));
            assert(releases(mid, longer.last(), now, state@, view_items(rest)));
        }
        i = i + 1;
    }
    assert(order@.take(i as int) =~= order@);
    dispatches
}

/// The connections of a session.
pub open spec fn connections_of(s: AppStateView, session_id: u128) -> Set<u128> {
    Set::new(
        |key: u128|
            s.presence_connections.contains_key(key) && s.presence_connections[key].session_id
                == session_id,
    )
}

/// The end of every connection of a session, in some order.
pub open spec fn releases_session(
    s: AppStateView,
    session_id: u128,
    now: Timestamp,
    after: AppStateView,
    dispatches: Seq<DispatchView>,
) -> bool {
    exists|order: Seq<u128>|
        lists(order, connections_of(s, session_id)) && #[trigger] releases_all(
            s,
            order,
            now,
            after,
            dispatches,
        )
}

/// Ends every connection of a session at `now`.
pub fn release_session_presence(
    state: &mut AppState,
    session_id: u128,
    now: Timestamp,
) -> (dispatches: Vec<Dispatch>)
    ensures
        releases_session(old(state)@, session_id, now, final(state)@, view_items(dispatches@)),
{
    let keys = keys_of(&state.presence_connections);
    let ghost wanted = connections_of(state@, session_id);
    let mut order: Vec<u128> = Vec::new();
    let mut i: usize = 0;
    while i < keys.len()
        invariant
            i <= keys@.len(),
            state@ == old(state)@,
            wanted == connections_of(state@, session_id),
            lists(keys@, state.presence_connections@.dom()),
            lists(order@, scanned(keys@, i as int, wanted)),
        decreases keys@.len() - i,
    {
        let key: u128 = keys[i];
        if let Some(connection) = state.presence_connections.get(&key) {
            if connection.session_id == session_id {
                proof {
                    lemma_lists_push(order@, scanned(keys@, i as int, wanted), key);
                }
                order.push(key);
            }
        }
        i = i + 1;
    }
    proof {
        lemma_scanned_all(keys@, wanted);
    }
    release_each(state, &order, now)
}

/// The stale connections.
pub open spec fn stale_connections(s: AppStateView, now: Timestamp) -> Set<u128> {
    Set::new(
        |key: u128|
            s.presence_connections.contains_key(key) && stale(s.presence_connections[key], now),
    )
}

/// The end of every stale connection, in some order.
pub open spec fn prunes_stale(
    s: AppStateView,
    now: Timestamp,
    after: AppStateView,
    dispatches: Seq<DispatchView>,
) -> bool {
    exists|order: Seq<u128>|
        lists(order, stale_connections(s, now)) && #[trigger] releases_all(
            s,
            order,
            now,
            after,
            dispatches,
        )
}

/// Ends every stale connection.
pub fn prune_stale_presence(state: &mut AppState, now: Timestamp) -> (dispatches: Vec<Dispatch>)
    ensures
        prunes_stale(old(state)@, now, final(state)@, view_items(dispatches@)),
{
    let keys = keys_of(&state.presence_connections);
    let ghost wanted = stale_connections(state@, now);
    let mut order: Vec<u128> = Vec::new();
    let mut i: usize = 0;
    while i < keys.len()
        invariant
            i <= keys@.len(),
            state@ == old(state)@,
            wanted == stale_connections(state@, now),
            lists(keys@, state.presence_connections@.dom()),
            lists(order@, scanned(keys@, i as int, wanted)),
        decreases keys@.len() - i,
    {
        let key: u128 = keys[i];
        if let Some(connection) = state.presence_connections.get(&key) {
            if presence_is_stale(connection, now) {
                proof {
                    lemma_lists_push(order@, scanned(keys@, i as int, wanted), key);
                }
                order.push(key);
            }
        }
        i = i + 1;
    }
    proof {
        lemma_scanned_all(keys@, wanted);
    }
    release_each(state, &order, now)
}

/// When a participant came into the room.
pub open spec fn joined_time(room: RoomView, session_id: u128) -> Timestamp {
    if room.participant_joined_at.contains_key(session_id) {
        room.participant_joined_at[session_id]
    } else {
        room.created_at
    }
}

/// Whether a participant of the room has no connection to it and took too long to get one.
pub open spec fn overdue(room: RoomView, session_id: u128, now: Timestamp) -> bool {
    &&& room.participants.contains(session_id)
    &&& !room.connection_ids.contains_key(session_id)
    &&& whole_seconds(now.elapsed_since(joined_time(room, session_id)))
        > PENDING_ROOM_JOIN_TIMEOUT_SECONDS
}

/// The rooms with each of their overdue participants.
pub open spec fn overdue_participants(s: AppStateView, now: Timestamp) -> Set<(u128, u128)> {
    Set::new(
        |pair: (u128, u128)|
            s.rooms.contains_key(pair.0) && overdue(s.rooms[pair.0], pair.1, now),
    )
}

/// The overdue participants of one room.
fn overdue_in_room(room: &Room, now: Timestamp) -> (result: Vec<u128>)
    ensures
        lists(result@, Set::new(|session_id: u128| overdue(room@, session_id, now))),
{
    let everyone = members_of(&room.participants);
    let ghost wanted = Set::new(|session_id: u128| overdue(room@, session_id, now));
    let mut late: Vec<u128> = Vec::new();
    let mut i: usize = 0;
    while i < everyone.len()
        invariant
            i <= everyone@.len(),
            lists(everyone@, room@.participants),
            wanted == Set::new(|session_id: u128| overdue(room@, session_id, now)),
            lists(late@, scanned(everyone@, i as int, wanted)),
        decreases everyone@.len() - i,
    {
        let session_id: u128 = everyone[i];
        proof {
            assert(everyone@.contains(session_id));
        }
        if !room.connection_ids.contains_key(&session_id) {
            let joined_at = match room.participant_joined_at.get(&session_id) {
                Some(joined_at) => *joined_at,
                None => room.created_at,
            };
            if now.seconds_since(joined_at) > PENDING_ROOM_JOIN_TIMEOUT_SECONDS {
                proof {
                    lemma_lists_push(late@, scanned(everyone@, i as int, wanted), session_id);
                }
                late.push(session_id);
            }
        }
        i = i + 1;
    }
    proof {
        lemma_scanned_all(everyone@, wanted);
    }
    late
}

/// The rooms with each of their overdue participants.
fn find_overdue(state: &AppState, now: Timestamp) -> (result: Vec<(u128, u128)>)
    ensures
        lists(result@, overdue_participants(state@, now)),
{
    let keys = keys_of(&state.rooms);
    let ghost wanted = overdue_participants(state@, now);
    let ghost mut got: Set<(u128, u128)> = Set::empty();
    let mut found: Vec<(u128, u128)> = Vec::new();
    let mut i: usize = 0;
    while i < keys.len()
        invariant
            i <= keys@.len(),
            lists(keys@, state.rooms@.dom()),
            wanted == overdue_participants(state@, now),
            lists(found@, got),
            forall|pair: (u128, u128)| #[trigger]
                got.contains(pair) <==> wanted.contains(pair) && exists|k: int|
                    0 <= k < i && #[trigger] keys@[k] == pair.0,
        decreases keys@.len() - i,
    {
        let room_id: u128 = keys[i];
        let ghost before = got;
        if let Some(room) = state.rooms.get(&room_id) {
            let late = overdue_in_room(room, now);
            let ghost late_set = Set::new(|session_id: u128| overdue(room@, session_id, now));
            let mut j: usize = 0;
            while j < late.len()
                invariant
                    i < keys@.len(),
                    room_id == keys@[i as int],
                    keys@.no_duplicates(),
                    j <= late@.len(),
                    lists(late@, late_set),
                    lists(found@, got),
                    forall|pair: (u128, u128)| #[trigger]
                        before.contains(pair) ==> exists|k: int|
                            0 <= k < i && #[trigger] keys@[k] == pair.0,
                    forall|pair: (u128, u128)| #[trigger]
                        got.contains(pair) <==> before.contains(pair) || (pair.0 == room_id
                            && exists|m: int| 0 <= m < j && #[trigger] late@[m] == pair.1),
                decreases late@.len() - j,
            {
                let pair: (u128, u128) = (room_id, late[j]);
                let ghost earlier = got;
                proof {
                    lemma_lists_push(found@, earlier, pair);
                    got = earlier.insert(pair);
                }
                found.push(pair);
                j = j + 1;
            }
            proof {
                assert forall|pair: (u128, u128)| #[trigger]
                    got.contains(pair) <==> wanted.contains(pair) && exists|k: int|
                        0 <= k < i + 1 && #[trigger] keys@[k] == pair.0 by {
                    if pair.0 == room_id {
                        assert(late@.contains(pair.1) == late_set.contains(pair.1));
                    }
                }
            }
        }
        i = i + 1;
    }
    proof {
        assert forall|pair: (u128, u128)| wanted.contains(pair) implies got.contains(pair) by {
            assert(keys@.contains(pair.0));
        }
    }
    found
}

/// Taking sessions out of rooms, one after the other.
pub open spec fn takes_out_all(
    s: AppStateView,
    order: Seq<(u128, u128)>,
    now: Timestamp,
    after: AppStateView,
    dispatches: Seq<DispatchView>,
) -> bool
    decreases order.len(),
{
    if order.len() == 0 {
        after == s && dispatches == Seq::<DispatchView>::empty()
    } else {
        exists|mid: AppStateView, removal: RemovalView|
            removal.dispatches.len() <= dispatches.len() && #[trigger] takes_out(
                mid,
                order.last().0,
                order.last().1,
                None,
                now,
                after,
                removal,
            ) && removal.dispatches == dispatches.skip(dispatches.len() - removal.dispatches.len())
                && takes_out_all(
                s,
                order.drop_last(),
                now,
                mid,
                dispatches.take(dispatches.len() - removal.dispatches.len()),
            )
    }
}

/// Taking every overdue participant out of their room, in some order.
pub open spec fn prunes_unconnected(
    s: AppStateView,
    now: Timestamp,
    after: AppStateView,
    dispatches: Seq<DispatchView>,
) -> bool {
    exists|order: Seq<(u128, u128)>|
        lists(order, overdue_participants(s, now)) && #[trigger] takes_out_all(
            s,
            order,
            now,
            after,
            dispatches,
        )
}

/// Takes every overdue participant out of their room.
pub fn prune_unconnected_room_participants(
    state: &mut AppState,
    now: Timestamp,
) -> (dispatches: Vec<Dispatch>)
    ensures
        prunes_unconnected(old(state)@, now, final(state)@, view_items(dispatches@)),
{
    let ghost s = old(state)@;
    let order = find_overdue(state, now);
    let mut dispatches: Vec<Dispatch> = Vec::new();
    let mut i: usize = 0;
    assert(view_items(dispatches@) =~= Seq::<DispatchView>::empty());
    while i < order.len()
        invariant
            i <= order@.len(),
            takes_out_all(s, order@.take(i as int), now, state@, view_items(dispatches@)),
        decreases order@.len() - i,
    {
        let ghost mid = state@;
        let ghost first = dispatches@;
        let mut removal = remove_room_connection(state, order[i].0, order[i].1, None, now);
        let ghost rest = removal@;
        dispatches.append(&mut removal.dispatches);
        proof {
            let longer = order@.take(i + 1);
            assert(longer.drop_last() =~= order@.take(i as int));
            let all = view_items(dispatches@);
            assert(all.take(all.len() - rest.dispatches.len()) =~= view_items(first));
            assert(all.skip(all.len() - rest.dispatches.len()) =~= rest.dispatches);
            assert(takes_out(mid, longer.last().0, longer.last().1, None, now, state@, rest));
        }
        i = i + 1;
    }
    assert(order@.take(i as int) =~= order@);
    dispatches
}

/// Everyone who is in a room.
pub open spec fn in_call(s: AppStateView) -> Set<u128> {
    Set::new(|session_id: u128| exists|room_id: u128| in_room(s, room_id, session_id))
}

/// Everyone who has a connection that is not stale.
pub open spec fn online_sessions(s: AppStateView, now: Timestamp) -> Set<u128> {
    Set::new(|session_id: u128| online(s, session_id, now))
}

/// Whether the head counts are right: everyone is counted once, however many connections
/// they have and rooms they are in.
pub open spec fn counts(stats: StatsSnapshot, s: AppStateView, now: Timestamp) -> bool {
    stats.online_count == online_sessions(s, now).len() && stats.in_call_count == in_call(s).len()
}

fn count_in_call(state: &AppState) -> (count: usize)
    ensures
        count == in_call(state@).len(),
{
    let keys = keys_of(&state.rooms);
    let mut seen: HashSet<u128> = HashSet::new();
    let mut i: usize = 0;
    while i < keys.len()
        invariant
            i <= keys@.len(),
            lists(keys@, state.rooms@.dom()),
            forall|x: u128| #[trigger]
                seen@.contains(x) <==> exists|k: int|
                    0 <= k < i && in_room(state@, #[trigger] keys@[k], x),
        decreases keys@.len() - i,
    {
        if let Some(room) = state.rooms.get(&keys[i]) {
            let members = members_of(&room.participants);
            add_all(&mut seen, &members);
        }
        i = i + 1;
    }
    proof {
        assert forall|x: u128| seen@.contains(x) == in_call(state@).contains(x) by {
            if in_call(state@).contains(x) {
                let room_id = choose|room_id: u128| in_room(state@, room_id, x);
                assert(keys@.contains(room_id));
            }
        }
        assert(seen@ =~= in_call(state@));
    }
    seen.len()
}

fn count_online(state: &AppState, now: Timestamp) -> (count: usize)
    ensures
        count == online_sessions(state@, now).len(),
{
    let keys = keys_of(&state.presence_connections);
    let mut seen: HashSet<u128> = HashSet::new();
    let mut i: usize = 0;
    while i < keys.len()
        invariant
            i <= keys@.len(),
            lists(keys@, state.presence_connections@.dom()),
            forall|x: u128| #[trigger]
                seen@.contains(x) <==> exists|k: int|
                    0 <= k < i && state@.presence_connections[#[trigger] keys@[k]].session_id == x
                        && !stale(state@.presence_connections[keys@[k]], now),
        decreases keys@.len() - i,
    {
        assert(keys@.contains(keys@[i as int]));
        if let Some(connection) = state.presence_connections.get(&keys[i]) {
            if !presence_is_stale(connection, now) {
                seen.insert(connection.session_id);
            }
        }
        i = i + 1;
    }
    proof {
        assert forall|x: u128|
            seen@.contains(x) == online_sessions(state@, now).contains(x) by {
            if seen@.contains(x) {
                let k = choose|k: int|
                    0 <= k < i && state@.presence_connections[#[trigger] keys@[k]].session_id == x
                        && !stale(state@.presence_connections[keys@[k]], now);
                assert(keys@.contains(keys@[k]));
                assert(state@.presence_connections.contains_key(keys@[k]));
            }
            if online(state@, x, now) {
                let key = choose|key: u128| #[trigger]
                    state@.presence_connections.contains_key(key)
                        && state@.presence_connections[key].session_id == x && !stale(
                        state@.presence_connections[key],
                        now,
                    );
                assert(keys@.contains(key));
            }
        }
        assert(seen@ =~= online_sessions(state@, now));
    }
    seen.len()
}

/// The head counts at `now`.
pub fn compute_stats_at(state: &AppState, now: Timestamp) -> (result: StatsSnapshot)
    ensures
        counts(result, state@, now),
{
    StatsSnapshot { online_count: count_online(state, now), in_call_count: count_in_call(state) }
}

/// The head counts.
pub fn compute_stats(state: &AppState) -> (result: StatsSnapshot)
    ensures
        exists|now: Timestamp| clock_time(now) && #[trigger] counts(result, state@, now),
{
    let now = Timestamp::now();
    compute_stats_at(state, now)
}

/// What a round of the presence sweep brings.
pub struct StatsBroadcast {
    pub snapshot: StatsSnapshot,
    /// Those who are to be sent the head counts.
    pub subscribers: Vec<u128>,
    /// What the members of rooms that someone left are to be sent, before the counts.
    pub dispatches: Vec<Dispatch>,
}

/// The tidying of a sweep: stale connections end, then overdue participants leave.
pub open spec fn tidies(
    s: AppStateView,
    now: Timestamp,
    after: AppStateView,
    dispatches: Seq<DispatchView>,
) -> bool {
    exists|mid: AppStateView, first: Seq<DispatchView>, rest: Seq<DispatchView>|
        dispatches == first + rest && #[trigger] prunes_stale(s, now, mid, first)
            && #[trigger] prunes_unconnected(mid, now, after, rest)
}

/// A round of the presence sweep: stale connections end, overdue participants leave, and
/// the subscribers are told the head counts that remain.
pub open spec fn sweeps(
    s: AppStateView,
    now: Timestamp,
    after: AppStateView,
    result: StatsBroadcast,
) -> bool {
    &&& counts(result.snapshot, after, now)
    &&& lists(result.subscribers@, after.stats_subscribers)
    &&& tidies(s, now, after, view_items(result.dispatches@))
}

/// Ends stale connections, takes overdue participants out of their rooms, and counts who
/// is left, all at `now`.
pub fn broadcast_stats_at(state: &mut AppState, now: Timestamp) -> (result: StatsBroadcast)
    ensures
        sweeps(old(state)@, now, final(state)@, result),
{
    let mut dispatches = prune_stale_presence(state, now);
    let ghost first = dispatches@;
    let mut more = prune_unconnected_room_participants(state, now);
    let ghost rest = more@;
    dispatches.append(&mut more);
    proof {
        lemma_view_items_concat(first, rest);
    }
    let snapshot = compute_stats_at(state, now);
    let subscribers = members_of(&state.stats_subscribers);
    StatsBroadcast { snapshot, subscribers, dispatches }
}

/// Ends stale connections, takes overdue participants out of their rooms, and counts who
/// is left.
pub fn broadcast_stats(state: &mut AppState) -> (result: StatsBroadcast)
    ensures
        exists|now: Timestamp|
            clock_time(now) && #[trigger] sweeps(old(state)@, now, final(state)@, result),
{
    let now = Timestamp::now();
    broadcast_stats_at(state, now)
}

/// The state without the subscribers that could not be reached.
pub open spec fn without_subscribers(s: AppStateView, unreachable: Set<u128>) -> AppStateView {
    AppStateView { stats_subscribers: s.stats_subscribers.difference(unreachable), ..s }
}

/// Forgets the subscribers that could not be reached.
pub fn drop_stats_subscribers(state: &mut AppState, unreachable: &Vec<u128>)
    ensures
        final(state)@ == without_subscribers(old(state)@, unreachable@.to_set()),
{
    let ghost before = old(state)@.stats_subscribers;
    let mut i: usize = 0;
    while i < unreachable.len()
        invariant
            i <= unreachable@.len(),
            state@ == (AppStateView { stats_subscribers: state@.stats_subscribers, ..old(state)@ }),
            forall|x: u128| #[trigger]
                state@.stats_subscribers.contains(x) <==> before.contains(x) && !exists|k: int|
                    0 <= k < i && #[trigger] unreachable@[k] == x,
        decreases unreachable@.len() - i,
    {
        state.stats_subscribers.remove(&unreachable[i]);
        i = i + 1;
    }
}

} // verus!
