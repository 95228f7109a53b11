//! With which status each request is refused, and in which order the reasons count.

use super::{places, sits_somewhere};
use crate::direct_chats::{accepts_chat, joins_chat, requests_chat, DirectChatRequestSummaryView};
use crate::error::{ErrorStatus, ErrorView};
use crate::join_requests::{accepts_entry, requests_entry, JoinRequestResponseView};
use crate::rooms::{calls_random, enters_room, RoomResponseView};
use crate::state::{AppStateView, JoinRequestStatus};
use crate::time::Timestamp;
use vstd::prelude::*;

verus! {

/// The status of a refusal; nothing if the request was granted.
pub open spec fn status_of<T>(result: Result<T, ErrorView>) -> Option<ErrorStatus> {
    match result {
        Ok(_) => None,
        Err(e) => Some(e.status),
    }
}

/// Why calling in another person is refused.
pub proof fn law_refusals_to_call_in_another(
    s: AppStateView,
    room_id: u128,
    session_id: u128,
    named_room: u128,
    after: AppStateView,
    result: Result<RoomResponseView, ErrorView>,
)
    requires
        calls_random(s, room_id, session_id, named_room, after, result),
    ensures
        status_of(result) == if room_id != named_room {
            Some(ErrorStatus::BadRequest)
        } else if !s.rooms.contains_key(room_id) {
            Some(ErrorStatus::NotFound)
        } else if !s.rooms[room_id].participants.contains(session_id) {
            Some(ErrorStatus::Unauthorized)
        } else if s.rooms[room_id].host_controls_joiners && s.rooms[room_id].host_session
            != session_id {
            Some(ErrorStatus::Forbidden)
        } else if places(s.rooms[room_id]) >= 8 {
            Some(ErrorStatus::Conflict)
        } else {
            None
        },
{
}

/// Why someone is not let into a room.
pub proof fn law_refusals_to_let_in(
    s: AppStateView,
    room_id: u128,
    session_id: u128,
    now: Timestamp,
    after: AppStateView,
    result: Result<(), ErrorView>,
)
    requires
        enters_room(s, room_id, session_id, now, after, result),
    ensures
        status_of(result) == if !s.sessions.contains_key(session_id) {
            Some(ErrorStatus::Unauthorized)
        } else if !s.rooms.contains_key(room_id) {
            Some(ErrorStatus::NotFound)
        } else if s.rooms[room_id].participants.contains(session_id) {
            None
        } else if !s.rooms[room_id].share_link_enabled
            && !s.rooms[room_id].approved_joiners.contains(session_id) {
            Some(ErrorStatus::Forbidden)
        } else if s.rooms[room_id].participants.len() >= 8 || (
        !s.rooms[room_id].approved_joiners.contains(session_id) && places(s.rooms[room_id]) >= 8) {
            Some(ErrorStatus::Conflict)
        } else {
            None
        },
{
}

/// Why asking for a room is refused.
pub proof fn law_refusals_to_ask_for_a_room(
    s: AppStateView,
    room_id: u128,
    session_id: u128,
    fresh_id: u128,
    now: Timestamp,
    after: AppStateView,
    result: Result<JoinRequestResponseView, ErrorView>,
)
    requires
        requests_entry(s, room_id, session_id, fresh_id, now, after, result),
    ensures
        status_of(result) == if !s.sessions.contains_key(session_id) {
            Some(ErrorStatus::Unauthorized)
        } else if !s.rooms.contains_key(room_id) {
            Some(ErrorStatus::NotFound)
        } else if s.rooms[room_id].participants.contains(session_id) || places(s.rooms[room_id])
            >= 8 {
            Some(ErrorStatus::Conflict)
        } else {
            None
        },
{
}

/// Why letting someone in is refused.
pub proof fn law_refusals_to_accept_a_request(
    s: AppStateView,
    request_id: u128,
    session_id: u128,
    now: Timestamp,
    after: AppStateView,
    result: Result<JoinRequestResponseView, ErrorView>,
)
    requires
        accepts_entry(s, request_id, session_id, now, after, result),
    ensures
        ({
            let request = s.join_requests[request_id];
            let room = s.rooms[request.room_id];
            status_of(result) == if !s.sessions.contains_key(session_id) {
                Some(ErrorStatus::Unauthorized)
            } else if !s.join_requests.contains_key(request_id) || !s.rooms.contains_key(
                request.room_id,
            ) {
                Some(ErrorStatus::NotFound)
            } else if !room.participants.contains(session_id) || (room.host_controls_joiners
                && room.host_session != session_id) {
                Some(ErrorStatus::Forbidden)
            } else if room.participants.contains(request.requester_session) || (
            !room.approved_joiners.contains(request.requester_session) && places(room) >= 8) {
                Some(ErrorStatus::Conflict)
            } else {
                None
            }
        }),
{
}

/// Why asking for a chat is refused.
pub proof fn law_refusals_to_ask_for_a_chat(
    s: AppStateView,
    session_id: u128,
    target: u128,
    fresh_id: u128,
    now: Timestamp,
    after: AppStateView,
    result: Result<DirectChatRequestSummaryView, ErrorView>,
)
    requires
        requests_chat(s, session_id, target, fresh_id, now, after, result),
    ensures
        !s.sessions.contains_key(session_id) ==> status_of(result) == Some(
            ErrorStatus::Unauthorized,
        ),
        s.sessions.contains_key(session_id) && session_id == target ==> status_of(result) == Some(
            ErrorStatus::BadRequest,
        ),
        s.sessions.contains_key(session_id) && session_id != target && !s.sessions.contains_key(
            target,
        ) ==> status_of(result) == Some(ErrorStatus::NotFound),
        s.sessions.contains_key(session_id) && session_id != target && s.sessions.contains_key(
            target,
        ) && result is Err ==> status_of(result) == Some(ErrorStatus::Conflict),
{
}

/// Why accepting a chat is refused.
pub proof fn law_refusals_to_accept_a_chat(
    s: AppStateView,
    request_id: u128,
    session_id: u128,
    fresh_id: u128,
    now: Timestamp,
    after: AppStateView,
    result: Result<DirectChatRequestSummaryView, ErrorView>,
)
    requires
        accepts_chat(s, request_id, session_id, fresh_id, now, after, result),
    ensures
        ({
            let request = s.direct_chat_requests[request_id];
            status_of(result) == if !s.sessions.contains_key(session_id) {
                Some(ErrorStatus::Unauthorized)
            } else if !s.direct_chat_requests.contains_key(request_id) {
                Some(ErrorStatus::NotFound)
            } else if request.target_session != session_id {
                Some(ErrorStatus::Forbidden)
            } else if request.status != JoinRequestStatus::Pending || sits_somewhere(
                s,
                request.requester_session,
            ) || sits_somewhere(s, request.target_session) {
                Some(ErrorStatus::Conflict)
            } else {
                None
            }
        }),
{
    super::chats::law_who_may_accept_a_chat(
        s,
        request_id,
        session_id,
        fresh_id,
        now,
        after,
        result,
    );
}

/// Why joining by a chat request is refused.
pub proof fn law_refusals_to_join_a_chat(
    s: AppStateView,
    request_id: u128,
    session_id: u128,
    now: Timestamp,
    after: AppStateView,
    result: Result<DirectChatRequestSummaryView, ErrorView>,
)
    requires
        joins_chat(s, request_id, session_id, now, after, result),
    ensures
        ({
            let request = s.direct_chat_requests[request_id];
            status_of(result) == if !s.sessions.contains_key(session_id) {
                Some(ErrorStatus::Unauthorized)
            } else if !s.direct_chat_requests.contains_key(request_id) {
                Some(ErrorStatus::NotFound)
            } else if request.requester_session != session_id {
                Some(ErrorStatus::Forbidden)
            } else if request.status != JoinRequestStatus::Accepted || request.consumed_at is Some
                || request.room_id is None || !s.rooms.contains_key(request.room_id->0) {
                Some(ErrorStatus::Conflict)
            } else {
                None
            }
        }),
{
}

} // verus!
