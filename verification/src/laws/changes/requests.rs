//! What asking for a room and letting someone in change, and how join requests are shown.

use super::{all_same_but_join_requests, other_join_requests_same, other_rooms_same, places};
use super::{reaches, refused};
use crate::error::{ErrorStatus, ErrorView};
use crate::events::ServerWsEventView;
use crate::join_requests::{accepts_entry, join_summary, pending_requests, requests_entry};
use crate::join_requests::JoinRequestResponseView;
use crate::state::{AppStateView, JoinRequestStatus, JoinRequestView};
use crate::time::Timestamp;
use vstd::prelude::*;

verus! {

/// Who may ask for a room: whoever has a session and is not in it, while a place is left.
/// Whoever is refused changes nothing.
pub proof fn law_who_may_ask_for_a_room(
    s: AppStateView,
    room_id: u128,
    session_id: u128,
    fresh_id: u128,
    now: Timestamp,
    after: AppStateView,
    result: Result<JoinRequestResponseView, ErrorView>,
)
    requires
        requests_entry(s, room_id, session_id, fresh_id, now, after, result),
    ensures
        result is Ok <==> s.sessions.contains_key(session_id) && s.rooms.contains_key(room_id)
            && !s.rooms[room_id].participants.contains(session_id) && places(s.rooms[room_id]) < 8,
        result is Err ==> after == s,
        !s.sessions.contains_key(session_id) ==> refused(result, ErrorStatus::Unauthorized),
        s.sessions.contains_key(session_id) && !s.rooms.contains_key(room_id) ==> refused(
            result,
            ErrorStatus::NotFound,
        ),
        result is Err && s.sessions.contains_key(session_id) && s.rooms.contains_key(room_id)
            ==> refused(result, ErrorStatus::Conflict),
{
}

/// Asking for a room changes no more than the asker's own request for it: whoever has one keeps
/// it, whoever has none gets one, pending, under their session's name. The answer shows it, and
/// a new one is announced to everyone listening in the room.
pub proof fn law_asking_for_a_room_makes_at_most_one_request(
    s: AppStateView,
    room_id: u128,
    session_id: u128,
    fresh_id: u128,
    now: Timestamp,
    after: AppStateView,
    result: Result<JoinRequestResponseView, ErrorView>,
)
    requires
        requests_entry(s, room_id, session_id, fresh_id, now, after, result),
        result is Ok,
    ensures
        all_same_but_join_requests(s, after),
        ({
            let had = exists|key: u128| #[trigger]
                s.join_requests.contains_key(key) && s.join_requests[key].room_id == room_id
                    && s.join_requests[key].requester_session == session_id;
            let response = result->Ok_0;
            &&& response.request.room_id == room_id
            &&& response.request.requester_session == session_id
            &&& had ==> after == s && response.dispatches.len() == 0 && exists|key: u128| #[trigger]
                s.join_requests.contains_key(key) && s.join_requests[key].room_id == room_id
                    && s.join_requests[key].requester_session == session_id
                    && response.request.id == s.join_requests[key].id
                    && response.request.status == s.join_requests[key].status
                    && response.request.created_at == s.join_requests[key].created_at
                    && response.request.updated_at == s.join_requests[key].updated_at
                    && response.request.accepted_by == s.join_requests[key].accepted_by
                    && response.request.requester_display_name
                    == s.join_requests[key].requester_display_name
            &&& !had ==> {
                let made = after.join_requests[fresh_id];
                &&& other_join_requests_same(s, after, fresh_id)
                &&& after.join_requests.contains_key(fresh_id)
                &&& made.id == fresh_id
                &&& made.room_id == room_id
                &&& made.requester_session == session_id
                &&& made.requester_display_name == s.sessions[session_id].display_name
                &&& made.status == JoinRequestStatus::Pending
                &&& made.created_at == now
                &&& made.updated_at == now
                &&& made.accepted_by is None
                &&& response.request.id == fresh_id
                &&& response.request.status == JoinRequestStatus::Pending
                &&& response.dispatches.len() == 1
                &&& reaches(response.dispatches[0], room_id, s.rooms[room_id].senders)
                &&& response.dispatches[0].event == (ServerWsEventView::JoinRequestsChanged {
                    pending_count: pending_requests(after, room_id).len(),
                    requester_display_name: Some(s.sessions[session_id].display_name),
                    accepted: false,
                })
            }
        }),
{
    if exists|key: u128|
        crate::join_requests::asks_for(s, key, room_id, session_id) {
        let key = choose|key: u128| #[trigger]
            crate::join_requests::asks_for(s, key, room_id, session_id)
                && result->Ok_0.request == join_summary(s, s.join_requests[key], session_id);
        assert(s.join_requests.contains_key(key));
    } else {
        assert forall|key: u128| #[trigger] s.join_requests.contains_key(key) implies !(
        s.join_requests[key].room_id == room_id && s.join_requests[key].requester_session
            == session_id) by {
            assert(!crate::join_requests::asks_for(s, key, room_id, session_id));
        }
    }
}

/// Who may let someone in: a participant, or the host alone where the host keeps control, as
/// long as the requester is not in yet and a place is left or promised to them.
pub proof fn law_who_may_let_someone_in(
    s: AppStateView,
    request_id: u128,
    session_id: u128,
    now: Timestamp,
    after: AppStateView,
    result: Result<JoinRequestResponseView, ErrorView>,
)
    requires
        accepts_entry(s, request_id, session_id, now, after, result),
    ensures
        result is Ok <==> {
            let request = s.join_requests[request_id];
            let room = s.rooms[request.room_id];
            &&& s.sessions.contains_key(session_id)
            &&& s.join_requests.contains_key(request_id)
            &&& s.rooms.contains_key(request.room_id)
            &&& room.participants.contains(session_id)
            &&& room.host_controls_joiners ==> room.host_session == session_id
            &&& !room.participants.contains(request.requester_session)
            &&& room.approved_joiners.contains(request.requester_session) || places(room) < 8
        },
        result is Err ==> after == s,
        !s.sessions.contains_key(session_id) ==> refused(result, ErrorStatus::Unauthorized),
        s.sessions.contains_key(session_id) && !s.join_requests.contains_key(request_id)
            ==> refused(result, ErrorStatus::NotFound),
{
}

/// Letting someone in marks their request as accepted, by whom and when, and promises them a
/// place. The room keeps its host, its rules, its participants and whether it waits; no other
/// request or room changes, nor anything else; everyone listening in the room is told.
pub proof fn law_letting_someone_in_only_promises_a_place(
    s: AppStateView,
    request_id: u128,
    session_id: u128,
    now: Timestamp,
    after: AppStateView,
    result: Result<JoinRequestResponseView, ErrorView>,
)
    requires
        accepts_entry(s, request_id, session_id, now, after, result),
        result is Ok,
    ensures
        ({
            let asked = s.join_requests[request_id];
            let accepted = after.join_requests[request_id];
            let room_id = asked.room_id;
            let was = s.rooms[room_id];
            let became = after.rooms[room_id];
            let response = result->Ok_0;
            &&& after.join_requests.contains_key(request_id)
            &&& accepted.id == asked.id
            &&& accepted.room_id == asked.room_id
            &&& accepted.requester_session == asked.requester_session
            &&& accepted.requester_display_name == asked.requester_display_name
            &&& accepted.created_at == asked.created_at
            &&& accepted.status == JoinRequestStatus::Accepted
            &&& accepted.updated_at == now
            &&& accepted.accepted_by == Some(session_id)
            &&& other_join_requests_same(s, after, request_id)
            &&& after.rooms.contains_key(room_id)
            &&& became.id == was.id
            &&& became.host_session == was.host_session
            &&& became.host_controls_joiners == was.host_controls_joiners
            &&& became.share_link_enabled == was.share_link_enabled
            &&& became.participants == was.participants
            &&& became.participant_joined_at == was.participant_joined_at
            &&& became.senders == was.senders
            &&& became.connection_ids == was.connection_ids
            &&& became.waiting_for_random == was.waiting_for_random
            &&& became.created_at == was.created_at
            &&& forall|x: u128| #[trigger]
                became.approved_joiners.contains(x) <==> was.approved_joiners.contains(x) || x
                    == asked.requester_session
            &&& other_rooms_same(s, after, room_id)
            &&& after.users == s.users
            &&& after.sessions == s.sessions
            &&& after.directory == s.directory
            &&& after.direct_chat_requests == s.direct_chat_requests
            &&& after.presence_connections == s.presence_connections
            &&& after.stats_subscribers == s.stats_subscribers
            &&& response.request == join_summary(after, accepted, session_id)
            &&& response.request.status == JoinRequestStatus::Accepted
            &&& response.request.accepted_by == Some(session_id)
            &&& response.dispatches.len() == 1
            &&& reaches(response.dispatches[0], room_id, was.senders)
            &&& response.dispatches[0].event == (ServerWsEventView::JoinRequestsChanged {
                pending_count: pending_requests(after, room_id).len(),
                requester_display_name: Some(asked.requester_display_name),
                accepted: true,
            })
        }),
{
}

/// What is announced as pending are the requests for the room that nobody has accepted.
pub proof fn law_pending_requests_are_those_not_accepted(s: AppStateView, room_id: u128, key: u128)
    ensures
        pending_requests(s, room_id).contains(key) <==> s.join_requests.contains_key(key)
            && s.join_requests[key].room_id == room_id && s.join_requests[key].status
            == JoinRequestStatus::Pending,
{
}

/// A join request is shown as it is. It can be accepted by whoever sees it if it is pending, a
/// place is left, and they are in the room and may let people in; a room that is gone counts as
/// full.
pub proof fn law_a_join_request_is_shown_as_it_is(
    s: AppStateView,
    request: JoinRequestView,
    viewer: u128,
)
    ensures
        ({
            let shown = join_summary(s, request, viewer);
            let room = s.rooms[request.room_id];
            &&& shown.id == request.id
            &&& shown.room_id == request.room_id
            &&& shown.requester_session == request.requester_session
            &&& shown.requester_display_name == request.requester_display_name
            &&& shown.status == request.status
            &&& shown.created_at == request.created_at
            &&& shown.updated_at == request.updated_at
            &&& shown.accepted_by == request.accepted_by
            &&& shown.can_accept <==> request.status == JoinRequestStatus::Pending
                && s.rooms.contains_key(request.room_id) && room.participants.contains(viewer) && (
            !room.host_controls_joiners || room.host_session == viewer) && places(room) < 8
            &&& shown.room_is_full <==> !s.rooms.contains_key(request.room_id) || places(room) >= 8
        }),
{
}

} // verus!
