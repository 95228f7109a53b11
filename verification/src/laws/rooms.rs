//! Promises about rooms: their size, who is matched into them, and who may enter.

use crate::error::{conflict, forbidden, ErrorView};
use crate::invariants::sound;
use crate::rooms::{asked, calls_random, drawn_match, enters_room, entry_refusal, in_room};
use crate::rooms::{joins_match, match_for, shows_room, starts_room, wanted_size};
use crate::rooms::{RoomResponseView, StartRoomRequest};
use crate::state::{AppStateView, MAX_ROOM_SIZE};
use crate::time::Timestamp;
use vstd::prelude::*;
use vstd::set_lib::lemma_len_subset;

verus! {

/// No room ever holds more than eight people.
pub proof fn law_a_room_holds_at_most_eight(s: AppStateView, room_id: u128)
    requires
        sound(s),
        s.rooms.contains_key(room_id),
    ensures
        s.rooms[room_id].participants.len() <= MAX_ROOM_SIZE,
{
    let room = s.rooms[room_id];
    lemma_len_subset(room.participants, room.reserved());
}

/// Someone who keeps host control is never matched into a room whose host keeps control.
pub proof fn law_host_controlled_rooms_never_meet(
    s: AppStateView,
    size: usize,
    room_id: u128,
)
    requires
        sound(s),
        drawn_match(s, size, true, Some(room_id)),
    ensures
        s.rooms.contains_key(room_id),
        !s.rooms[room_id].host_controls_joiners,
{
}

/// People are matched only into rooms that wait for someone and have a place left among as
/// many as were asked for, which is never more than eight; who asks for nothing meets one
/// other person.
pub proof fn law_matches_have_a_place(
    s: AppStateView,
    request: StartRoomRequest,
    room_id: u128,
)
    requires
        sound(s),
        drawn_match(
            s,
            wanted_size(request.size),
            asked(request.host_controls_joiners),
            Some(room_id),
        ),
    ensures
        s.rooms.contains_key(room_id),
        s.rooms[room_id].waiting_for_random,
        s.rooms[room_id].reserved().len() < wanted_size(request.size) <= MAX_ROOM_SIZE,
        request.size is None ==> s.rooms[room_id].reserved().len() < 2,
{
}

/// Whoever has a session and asks to meet someone gets a room and is in it: one that was
/// open to them, or, if there was none, a new one of which they are the host.
pub proof fn law_everyone_gets_a_room(
    s: AppStateView,
    request: StartRoomRequest,
    choice: Option<u128>,
    fresh_id: u128,
    now: Timestamp,
    after: AppStateView,
    result: Result<RoomResponseView, ErrorView>,
)
    requires
        sound(s),
        s.sessions.contains_key(request.session_id),
        drawn_match(
            s,
            wanted_size(request.size),
            asked(request.host_controls_joiners),
            choice,
        ),
        starts_room(s, request, choice, fresh_id, now, after, result),
    ensures
        result matches Ok(response) && {
            &&& response.joined_existing == (choice is Some)
            &&& in_room(after, response.room.id, request.session_id)
            &&& shows_room(response.room, after, response.room.id)
            &&& choice is None ==> response.room.host_session == request.session_id
        },
{
}

/// Once two people are matched in a room it waits for nobody else, until someone in it calls
/// for another.
pub proof fn law_a_pair_waits_for_nobody(
    s: AppStateView,
    room_id: u128,
    session_id: u128,
    now: Timestamp,
    after: AppStateView,
    result: Result<RoomResponseView, ErrorView>,
)
    requires
        sound(s),
        joins_match(s, room_id, session_id, now, after, result),
        result is Ok,
        exists|other: u128| in_room(s, room_id, other) && other != session_id,
    ensures
        !after.rooms[room_id].waiting_for_random,
{
    let other = choose|other: u128| in_room(s, room_id, other) && other != session_id;
    let participants = after.rooms[room_id].participants;
    lemma_len_subset(set![session_id, other], participants);
}

/// Anyone in a room that is not full can call in another random person, unless the host keeps
/// control and they are not the host. The room is then open to whoever asks for a large
/// enough room, but for two who both keep control.
pub proof fn law_participants_can_call_in_another(
    s: AppStateView,
    room_id: u128,
    session_id: u128,
    after: AppStateView,
    result: Result<RoomResponseView, ErrorView>,
    size: usize,
    host_controls: bool,
)
    requires
        sound(s),
        calls_random(s, room_id, session_id, room_id, after, result),
        in_room(s, room_id, session_id),
        !s.rooms[room_id].full(),
    ensures
        result is Ok <==> !s.rooms[room_id].host_controls_joiners || s.rooms[room_id].host_session
            == session_id,
        result is Ok && s.rooms[room_id].reserved().len() < size && !(
        s.rooms[room_id].host_controls_joiners && host_controls) ==> match_for(
            after,
            size,
            host_controls,
            room_id,
        ),
{
}

/// Whoever was let into a room is in it, and is let in again when they come back.
pub proof fn law_who_enters_is_in(
    s: AppStateView,
    room_id: u128,
    session_id: u128,
    now: Timestamp,
    after: AppStateView,
    result: Result<(), ErrorView>,
)
    requires
        enters_room(s, room_id, session_id, now, after, result),
        result is Ok,
    ensures
        in_room(after, room_id, session_id),
        entry_refusal(after, room_id, session_id) is None,
{
}

/// A room without a share link lets in only those who are in it already or were approved.
pub proof fn law_a_closed_room_needs_approval(s: AppStateView, room_id: u128, session_id: u128)
    requires
        s.sessions.contains_key(session_id),
        s.rooms.contains_key(room_id),
        !s.rooms[room_id].share_link_enabled,
        !s.rooms[room_id].participants.contains(session_id),
        !s.rooms[room_id].approved_joiners.contains(session_id),
    ensures
        entry_refusal(s, room_id, session_id) == Some(
            forbidden("This room requires a share link or an accepted join request."@),
        ),
{
}

/// A share link lets in whoever has a session, as long as there is a place left.
pub proof fn law_a_share_link_opens_the_room(s: AppStateView, room_id: u128, session_id: u128)
    requires
        sound(s),
        s.sessions.contains_key(session_id),
        s.rooms.contains_key(room_id),
        s.rooms[room_id].share_link_enabled,
    ensures
        !s.rooms[room_id].full() ==> entry_refusal(s, room_id, session_id) is None,
        s.rooms[room_id].full() && !s.rooms[room_id].reserved().contains(session_id)
            ==> entry_refusal(s, room_id, session_id) == Some(conflict("Room is full."@)),
{
    let room = s.rooms[room_id];
    lemma_len_subset(room.participants, room.reserved());
}

/// An approval keeps a place: whoever was approved and has a session is let in, however many
/// others have come.
pub proof fn law_an_approval_keeps_a_place(s: AppStateView, room_id: u128, session_id: u128)
    requires
        sound(s),
        s.sessions.contains_key(session_id),
        s.rooms.contains_key(room_id),
        s.rooms[room_id].approved_joiners.contains(session_id),
    ensures
        entry_refusal(s, room_id, session_id) is None,
{
    let room = s.rooms[room_id];
    if !room.participants.contains(session_id) {
        lemma_len_subset(room.participants.insert(session_id), room.reserved());
    }
}

} // verus!
