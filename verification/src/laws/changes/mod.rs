//! What each operation changes and what it leaves as it was, field by field.

use crate::error::{ErrorStatus, ErrorView};
use crate::events::DispatchView;
use crate::state::{AppStateView, RoomView};
use crate::tables::{lists, portrays};
use crate::time::Timestamp;
use vstd::prelude::*;

pub mod chats;
pub mod directory;
pub mod inbox;
pub mod operations;
pub mod people;
pub mod presence;
pub mod refusals;
pub mod requests;
pub mod rooms;
pub mod sockets;
pub mod texts;

verus! {

/// Whether nothing changed but rooms.
pub open spec fn all_same_but_rooms(s: AppStateView, after: AppStateView) -> bool {
    &&& after.users == s.users
    &&& after.sessions == s.sessions
    &&& after.directory == s.directory
    &&& after.join_requests == s.join_requests
    &&& after.direct_chat_requests == s.direct_chat_requests
    &&& after.presence_connections == s.presence_connections
    &&& after.stats_subscribers == s.stats_subscribers
}

/// Whether nothing changed but join requests.
pub open spec fn all_same_but_join_requests(s: AppStateView, after: AppStateView) -> bool {
    &&& after.users == s.users
    &&& after.sessions == s.sessions
    &&& after.rooms == s.rooms
    &&& after.directory == s.directory
    &&& after.direct_chat_requests == s.direct_chat_requests
    &&& after.presence_connections == s.presence_connections
    &&& after.stats_subscribers == s.stats_subscribers
}

/// Whether nothing changed but chat requests.
pub open spec fn all_same_but_chat_requests(s: AppStateView, after: AppStateView) -> bool {
    &&& after.users == s.users
    &&& after.sessions == s.sessions
    &&& after.rooms == s.rooms
    &&& after.directory == s.directory
    &&& after.join_requests == s.join_requests
    &&& after.presence_connections == s.presence_connections
    &&& after.stats_subscribers == s.stats_subscribers
}

/// Whether nothing changed but connections.
pub open spec fn all_same_but_connections(s: AppStateView, after: AppStateView) -> bool {
    &&& after.users == s.users
    &&& after.sessions == s.sessions
    &&& after.rooms == s.rooms
    &&& after.directory == s.directory
    &&& after.join_requests == s.join_requests
    &&& after.direct_chat_requests == s.direct_chat_requests
    &&& after.stats_subscribers == s.stats_subscribers
}

/// Whether no join request but this one changed.
pub open spec fn other_join_requests_same(
    s: AppStateView,
    after: AppStateView,
    request_id: u128,
) -> bool {
    forall|other: u128|
        other != request_id ==> (#[trigger] after.join_requests.contains_key(other)
            <==> s.join_requests.contains_key(other)) && (s.join_requests.contains_key(other)
            ==> after.join_requests[other] == s.join_requests[other])
}

/// Whether no chat request but this one changed.
pub open spec fn other_chat_requests_same(
    s: AppStateView,
    after: AppStateView,
    request_id: u128,
) -> bool {
    forall|other: u128|
        other != request_id ==> (#[trigger] after.direct_chat_requests.contains_key(other)
            <==> s.direct_chat_requests.contains_key(other)) && (
        s.direct_chat_requests.contains_key(other) ==> after.direct_chat_requests[other]
            == s.direct_chat_requests[other])
}

/// Whether no room but this one changed.
pub open spec fn other_rooms_same(s: AppStateView, after: AppStateView, room_id: u128) -> bool {
    forall|other: u128|
        other != room_id ==> (#[trigger] after.rooms.contains_key(other)
            <==> s.rooms.contains_key(other)) && (s.rooms.contains_key(other)
            ==> after.rooms[other] == s.rooms[other])
}

/// Whether a room is the same room under the same rules.
pub open spec fn same_rules(was: RoomView, became: RoomView) -> bool {
    &&& became.id == was.id
    &&& became.host_controls_joiners == was.host_controls_joiners
    &&& became.share_link_enabled == was.share_link_enabled
    &&& became.approved_joiners == was.approved_joiners
    &&& became.created_at == was.created_at
}

/// How many places of a room are taken or promised.
pub open spec fn places(room: RoomView) -> nat {
    room.participants.union(room.approved_joiners).len()
}

/// Whether the answer is a refusal of the given kind.
pub open spec fn refused<T>(result: Result<T, ErrorView>, status: ErrorStatus) -> bool {
    result matches Err(e) && e.status == status
}

/// Whether one event is sent to each of the given people in a room, once.
pub open spec fn reaches(dispatch: DispatchView, room_id: u128, people: Set<u128>) -> bool {
    dispatch.room_id == room_id && dispatch.recipients == people && dispatch.one_copy_each
}

/// Whether neither point in time lies in a leap second.
pub open spec fn no_leap(a: Timestamp, b: Timestamp) -> bool {
    0 <= a.subsec() < 1_000_000_000 && 0 <= b.subsec() < 1_000_000_000
}

/// Nanoseconds from one point in time to another.
pub open spec fn nanos_from(earlier: Timestamp, later: Timestamp) -> int {
    (later.seconds() - earlier.seconds()) * 1_000_000_000 + (later.subsec() - earlier.subsec())
}

/// Whether the session is a participant of some room.
pub open spec fn sits_somewhere(s: AppStateView, session_id: u128) -> bool {
    exists|room_id: u128| #[trigger]
        s.rooms.contains_key(room_id) && s.rooms[room_id].participants.contains(session_id)
}

/// Whether one point in time is not after another.
pub open spec fn not_after(a: Timestamp, b: Timestamp) -> bool {
    a.seconds() < b.seconds() || (a.seconds() == b.seconds() && a.subsec() <= b.subsec())
}

/// The keys that the items of a list stand for, in the order of the list.
pub proof fn lemma_portrayed<T>(
    items: Seq<T>,
    keys: Set<u128>,
    fits: spec_fn(u128, T) -> bool,
) -> (order: Seq<u128>)
    requires
        portrays(items, keys, fits),
    ensures
        lists(order, keys),
        order.len() == items.len(),
        forall|i: int| 0 <= i < items.len() ==> fits(#[trigger] order[i], items[i]),
        forall|i: int| 0 <= i < items.len() ==> keys.contains(#[trigger] order[i]),
        forall|key: u128| #[trigger]
            keys.contains(key) ==> exists|i: int| 0 <= i < order.len() && order[i] == key,
{
    let order = choose|order: Seq<u128>| #[trigger]
        lists(order, keys) && order.len() == items.len() && forall|i: int|
            0 <= i < items.len() ==> fits(order[i], #[trigger] items[i]);
    assert forall|i: int| 0 <= i < items.len() implies fits(#[trigger] order[i], items[i]) by {
        let item = items[i];
    }
    assert forall|i: int| 0 <= i < items.len() implies keys.contains(#[trigger] order[i]) by {
        assert(order.contains(order[i]));
    }
    assert forall|key: u128| #[trigger] keys.contains(key) implies exists|i: int|
        0 <= i < order.len() && order[i] == key by {
        assert(order.contains(key));
    }
    order
}

} // verus!
