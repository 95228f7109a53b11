//! What asking for a chat, accepting it and using it change, and how chat requests are shown.

use super::{all_same_but_chat_requests, other_chat_requests_same, other_rooms_same, refused};
use super::sits_somewhere;
use crate::direct_chats::{accepts_chat, asks_to_chat, direct_summary, joins_chat, requests_chat};
use crate::direct_chats::{with_chats_used, DirectChatRequestSummaryView};
use crate::error::{ErrorStatus, ErrorView};
use crate::invariants::sound;
use crate::presence::online;
use crate::rooms::{in_room, match_for};
use crate::state::{AppStateView, DirectChatRequestView, JoinRequestStatus};
use crate::time::Timestamp;
use vstd::prelude::*;

verus! {

/// Being in some room is being a participant of one.
proof fn lemma_sits_somewhere(s: AppStateView, session_id: u128)
    ensures
        crate::direct_chats::in_some_room(s, session_id) == sits_somewhere(s, session_id),
{
    if sits_somewhere(s, session_id) {
        let room_id = choose|room_id: u128| #[trigger]
            s.rooms.contains_key(room_id) && s.rooms[room_id].participants.contains(session_id);
        assert(in_room(s, room_id, session_id));
    }
    if crate::direct_chats::in_some_room(s, session_id) {
        let room_id = choose|room_id: u128| in_room(s, room_id, session_id);
        assert(s.rooms.contains_key(room_id));
    }
}

/// Who may ask whom for a chat: someone with a session asks someone else with a session who is
/// in no room, wants to be found, and is online. Whoever is refused changes nothing.
pub proof fn law_who_may_ask_for_a_chat(
    s: AppStateView,
    session_id: u128,
    target: u128,
    fresh_id: u128,
    now: Timestamp,
    after: AppStateView,
    result: Result<DirectChatRequestSummaryView, ErrorView>,
)
    requires
        requests_chat(s, session_id, target, fresh_id, now, after, result),
    ensures
        result is Ok <==> {
            &&& s.sessions.contains_key(session_id)
            &&& session_id != target
            &&& s.sessions.contains_key(target)
            &&& !sits_somewhere(s, target)
            &&& s.directory.contains_key(target) && s.directory[target].available
            &&& online(s, target, now)
        },
        result is Err ==> after == s,
        !s.sessions.contains_key(session_id) ==> refused(result, ErrorStatus::Unauthorized),
        s.sessions.contains_key(session_id) && session_id == target ==> refused(
            result,
            ErrorStatus::BadRequest,
        ),
{
    lemma_sits_somewhere(s, target);
}

/// Asking for a chat changes no more than the asker's pending request for it: whoever has one
/// keeps it, whoever has none gets one, under both names, that leads to no room yet.
pub proof fn law_asking_for_a_chat_makes_at_most_one_request(
    s: AppStateView,
    session_id: u128,
    target: u128,
    fresh_id: u128,
    now: Timestamp,
    after: AppStateView,
    result: Result<DirectChatRequestSummaryView, ErrorView>,
)
    requires
        requests_chat(s, session_id, target, fresh_id, now, after, result),
        result is Ok,
    ensures
        all_same_but_chat_requests(s, after),
        result->Ok_0.requester_session == session_id,
        result->Ok_0.target_session == target,
        result->Ok_0.status == JoinRequestStatus::Pending,
        ({
            let had = exists|key: u128| #[trigger]
                s.direct_chat_requests.contains_key(key)
                    && s.direct_chat_requests[key].requester_session == session_id
                    && s.direct_chat_requests[key].target_session == target
                    && s.direct_chat_requests[key].status == JoinRequestStatus::Pending;
            let made = after.direct_chat_requests[fresh_id];
            &&& had ==> after == s
            &&& !had ==> {
                &&& other_chat_requests_same(s, after, fresh_id)
                &&& after.direct_chat_requests.contains_key(fresh_id)
                &&& made.id == fresh_id
                &&& made.requester_session == session_id
                &&& made.target_session == target
                &&& made.requester_display_name == s.sessions[session_id].display_name
                &&& made.target_display_name == s.sessions[target].display_name
                &&& made.status == JoinRequestStatus::Pending
                &&& made.room_id is None
                &&& made.accepted_by is None
                &&& made.consumed_at is None
                &&& made.created_at == now
                &&& made.updated_at == now
                &&& result->Ok_0.id == fresh_id
            }
        }),
{
    if exists|key: u128| asks_to_chat(s, key, session_id, target) {
        let key = choose|key: u128| asks_to_chat(s, key, session_id, target);
        assert(s.direct_chat_requests.contains_key(key));
    } else {
        assert forall|key: u128| #[trigger] s.direct_chat_requests.contains_key(key) implies !(
        s.direct_chat_requests[key].requester_session == session_id
            && s.direct_chat_requests[key].target_session == target
            && s.direct_chat_requests[key].status == JoinRequestStatus::Pending) by {
            assert(!asks_to_chat(s, key, session_id, target));
        }
    }
}

/// Who may accept a chat: the person asked, while the request is pending and neither of the two
/// is in a room. Whoever is refused changes nothing.
pub proof fn law_who_may_accept_a_chat(
    s: AppStateView,
    request_id: u128,
    session_id: u128,
    fresh_id: u128,
    now: Timestamp,
    after: AppStateView,
    result: Result<DirectChatRequestSummaryView, ErrorView>,
)
    requires
        accepts_chat(s, request_id, session_id, fresh_id, now, after, result),
    ensures
        result is Ok <==> {
            let request = s.direct_chat_requests[request_id];
            &&& s.sessions.contains_key(session_id)
            &&& s.direct_chat_requests.contains_key(request_id)
            &&& request.target_session == session_id
            &&& request.status == JoinRequestStatus::Pending
            &&& !sits_somewhere(s, request.requester_session)
            &&& !sits_somewhere(s, request.target_session)
        },
        result is Err ==> after == s,
        !s.sessions.contains_key(session_id) ==> refused(result, ErrorStatus::Unauthorized),
        s.sessions.contains_key(session_id) && !s.direct_chat_requests.contains_key(request_id)
            ==> refused(result, ErrorStatus::NotFound),
{
    lemma_sits_somewhere(s, s.direct_chat_requests[request_id].requester_session);
    lemma_sits_somewhere(s, s.direct_chat_requests[request_id].target_session);
}

/// The room that is opened for a chat is for the two alone: nobody is in it yet, one place is
/// promised to the requester and none to anyone else, the person asked is its host without
/// control over who joins, it has a share link, waits for nobody, and is matched with nobody.
pub proof fn law_a_chat_room_is_for_two(
    s: AppStateView,
    request_id: u128,
    session_id: u128,
    fresh_id: u128,
    now: Timestamp,
    after: AppStateView,
    result: Result<DirectChatRequestSummaryView, ErrorView>,
    size: usize,
    host_controls: bool,
)
    requires
        sound(s),
        !s.rooms.contains_key(fresh_id),
        accepts_chat(s, request_id, session_id, fresh_id, now, after, result),
        result is Ok,
    ensures
        after.rooms.contains_key(fresh_id),
        ({
            let room = after.rooms[fresh_id];
            &&& room.id == fresh_id
            &&& room.host_session == session_id
            &&& !room.host_controls_joiners
            &&& room.share_link_enabled
            &&& !room.waiting_for_random
            &&& room.created_at == now
            &&& forall|x: u128| !#[trigger] room.participants.contains(x)
            &&& forall|x: u128| !#[trigger] room.participant_joined_at.contains_key(x)
            &&& forall|x: u128| !#[trigger] room.senders.contains(x)
            &&& forall|x: u128| !#[trigger] room.connection_ids.contains_key(x)
            &&& forall|x: u128| #[trigger]
                room.approved_joiners.contains(x) <==> x
                    == s.direct_chat_requests[request_id].requester_session
        }),
        !match_for(after, size, host_controls, fresh_id),
{
    if match_for(after, size, host_controls, fresh_id) {
        let key = choose|key: u128| #[trigger]
            after.rooms.contains_key(key) && after.rooms[key].id == fresh_id
                && crate::rooms::open_to(after.rooms[key], size, host_controls);
        if key != fresh_id {
            assert(s.rooms.contains_key(key));
        }
    }
}

/// Accepting a chat marks the request as accepted, by whom, when and with which room, and opens
/// that room. No other request or room changes, nor anything else.
pub proof fn law_accepting_a_chat_only_opens_its_room(
    s: AppStateView,
    request_id: u128,
    session_id: u128,
    fresh_id: u128,
    now: Timestamp,
    after: AppStateView,
    result: Result<DirectChatRequestSummaryView, ErrorView>,
)
    requires
        accepts_chat(s, request_id, session_id, fresh_id, now, after, result),
        result is Ok,
    ensures
        ({
            let asked = s.direct_chat_requests[request_id];
            let accepted = after.direct_chat_requests[request_id];
            &&& after.direct_chat_requests.contains_key(request_id)
            &&& accepted.id == asked.id
            &&& accepted.requester_session == asked.requester_session
            &&& accepted.requester_display_name == asked.requester_display_name
            &&& accepted.target_session == asked.target_session
            &&& accepted.target_display_name == asked.target_display_name
            &&& accepted.created_at == asked.created_at
            &&& accepted.consumed_at == asked.consumed_at
            &&& accepted.status == JoinRequestStatus::Accepted
            &&& accepted.room_id == Some(fresh_id)
            &&& accepted.updated_at == now
            &&& accepted.accepted_by == Some(session_id)
            &&& result->Ok_0 == direct_summary(after, accepted, session_id)
        }),
        other_chat_requests_same(s, after, request_id),
        other_rooms_same(s, after, fresh_id),
        after.users == s.users,
        after.sessions == s.sessions,
        after.directory == s.directory,
        after.join_requests == s.join_requests,
        after.presence_connections == s.presence_connections,
        after.stats_subscribers == s.stats_subscribers,
{
}

/// Who may use a chat request to join: whoever made it, once, after it was accepted and while
/// its room is there. Using it marks when; nothing else changes, least of all a room. An attempt
/// that fails changes nothing, but for one on a room that is gone, which uses the request up.
pub proof fn law_using_a_chat_request_only_marks_it(
    s: AppStateView,
    request_id: u128,
    session_id: u128,
    now: Timestamp,
    after: AppStateView,
    result: Result<DirectChatRequestSummaryView, ErrorView>,
)
    requires
        joins_chat(s, request_id, session_id, now, after, result),
    ensures
        all_same_but_chat_requests(s, after),
        ({
            let was = s.direct_chat_requests[request_id];
            let became = after.direct_chat_requests[request_id];
            let ready = s.sessions.contains_key(session_id) && s.direct_chat_requests.contains_key(
                request_id,
            ) && was.requester_session == session_id && was.status == JoinRequestStatus::Accepted
                && was.consumed_at is None && was.room_id is Some;
            &&& result is Ok <==> ready && s.rooms.contains_key(was.room_id->0)
            &&& !ready ==> after == s
            &&& ready && result is Err ==> refused(result, ErrorStatus::Conflict)
            &&& ready ==> {
                &&& after.direct_chat_requests.contains_key(request_id)
                &&& other_chat_requests_same(s, after, request_id)
                &&& became.consumed_at == Some(now)
                &&& became.updated_at == now
                &&& became.id == was.id
                &&& became.requester_session == was.requester_session
                &&& became.requester_display_name == was.requester_display_name
                &&& became.target_session == was.target_session
                &&& became.target_display_name == was.target_display_name
                &&& became.status == was.status
                &&& became.room_id == was.room_id
                &&& became.created_at == was.created_at
                &&& became.accepted_by == was.accepted_by
            }
            &&& result is Ok ==> result->Ok_0 == direct_summary(after, became, session_id)
        }),
{
}

/// Coming into a room uses the accepted, unused chat requests that lead whoever came there, and
/// no others.
pub proof fn law_coming_in_uses_ones_own_chat_requests(
    s: AppStateView,
    room_id: u128,
    session_id: u128,
    now: Timestamp,
    key: u128,
)
    requires
        s.direct_chat_requests.contains_key(key),
    ensures
        ({
            let after = with_chats_used(s, room_id, session_id, now);
            let was = s.direct_chat_requests[key];
            let became = after.direct_chat_requests[key];
            let leads = was.requester_session == session_id && was.room_id == Some(room_id)
                && was.status == JoinRequestStatus::Accepted && was.consumed_at is None;
            &&& all_same_but_chat_requests(s, after)
            &&& after.direct_chat_requests.dom() == s.direct_chat_requests.dom()
            &&& !leads ==> became == was
            &&& leads ==> became.consumed_at == Some(now) && became.updated_at == now
                && became.status == was.status && became.room_id == was.room_id
                && became.accepted_by == was.accepted_by && became.id == was.id
                && became.created_at == was.created_at && became.requester_session
                == was.requester_session && became.target_session == was.target_session
        }),
{
}

/// A chat request is shown as it is. It can be accepted by the person asked while it is pending,
/// and used by whoever made it once it was accepted, until it is used, while its room is there.
pub proof fn law_a_chat_request_is_shown_as_it_is(
    s: AppStateView,
    request: DirectChatRequestView,
    viewer: u128,
)
    ensures
        ({
            let shown = direct_summary(s, request, viewer);
            &&& shown.id == request.id
            &&& shown.requester_session == request.requester_session
            &&& shown.requester_display_name == request.requester_display_name
            &&& shown.target_session == request.target_session
            &&& shown.target_display_name == request.target_display_name
            &&& shown.status == request.status
            &&& shown.room_id == request.room_id
            &&& shown.created_at == request.created_at
            &&& shown.updated_at == request.updated_at
            &&& shown.accepted_by == request.accepted_by
            &&& shown.consumed_at == request.consumed_at
            &&& shown.can_accept <==> request.status == JoinRequestStatus::Pending
                && request.target_session == viewer
            &&& shown.can_join <==> request.status == JoinRequestStatus::Accepted
                && request.requester_session == viewer && request.consumed_at is None
                && request.room_id is Some && s.rooms.contains_key(request.room_id->0)
        }),
{
}

} // verus!
