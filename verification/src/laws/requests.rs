//! Promises about join requests and chat requests.

use crate::direct_chats::{accepts_chat, asks_to_chat, chat_accept_refusal, chat_join_refusal};
use crate::direct_chats::{direct_summary, in_some_room, joins_chat, requests_chat, usable};
use crate::direct_chats::DirectChatRequestSummaryView;
use crate::error::{conflict, ErrorView};
use crate::events::ServerWsEventView;
use crate::inbox::{incoming_chats, incoming_requests, outgoing_chats, outgoing_requests};
use crate::invariants::{history, law_a_service_stays_sound, one_pending_chat_each};
use crate::invariants::{one_request_each, sound};
use crate::join_requests::{accept_refusal, accepts_entry, asks_for, join_summary};
use crate::join_requests::{pending_requests, requests_changed, requests_entry};
use crate::join_requests::JoinRequestResponseView;
use crate::laws::rooms::law_an_approval_keeps_a_place;
use crate::links::{approved_in, linked};
use crate::operations::Operation;
use crate::rooms::{channels, entry_refusal, in_room, may_accept};
use crate::state::{AppStateView, JoinRequestStatus};
use crate::time::Timestamp;
use vstd::prelude::*;

verus! {

/// Only someone in the room lets people in, and only its host if the host keeps control.
/// Whoever is let in has a place from then on, but has yet to come.
pub proof fn law_accepting_approves(
    s: AppStateView,
    request_id: u128,
    session_id: u128,
    now: Timestamp,
    after: AppStateView,
    result: Result<JoinRequestResponseView, ErrorView>,
)
    requires
        accepts_entry(s, request_id, session_id, now, after, result),
        result is Ok,
    ensures
        ({
            let room_id = s.join_requests[request_id].room_id;
            let requester = s.join_requests[request_id].requester_session;
            &&& may_accept(s.rooms[room_id], session_id)
            &&& approved_in(after, room_id, requester)
            &&& !in_room(after, room_id, requester)
            &&& after.join_requests[request_id].status == JoinRequestStatus::Accepted
            &&& after.join_requests[request_id].accepted_by == Some(session_id)
        }),
{
}

/// Whoever's request was accepted may enter the room at any later time, with or without a
/// share link and however full it has become, as long as they have a session.
pub proof fn law_the_accepted_may_enter(s: AppStateView, request_id: u128)
    requires
        sound(s),
        linked(s),
        s.join_requests.contains_key(request_id),
        s.join_requests[request_id].status == JoinRequestStatus::Accepted,
        s.sessions.contains_key(s.join_requests[request_id].requester_session),
    ensures
        entry_refusal(
            s,
            s.join_requests[request_id].room_id,
            s.join_requests[request_id].requester_session,
        ) is None,
{
    law_an_approval_keeps_a_place(
        s,
        s.join_requests[request_id].room_id,
        s.join_requests[request_id].requester_session,
    );
}

/// Whoever is shown that they can accept a request is not refused when they do, unless its
/// requester has meanwhile come in another way.
pub proof fn law_can_accept_is_kept(s: AppStateView, request_id: u128, viewer: u128)
    requires
        s.sessions.contains_key(viewer),
        s.join_requests.contains_key(request_id),
        join_summary(s, s.join_requests[request_id], viewer).can_accept,
        !in_room(
            s,
            s.join_requests[request_id].room_id,
            s.join_requests[request_id].requester_session,
        ),
    ensures
        accept_refusal(s, request_id, viewer) is None,
{
}

/// Asking a second time for the same room changes nothing, tells nobody, and shows the first
/// request again.
pub proof fn law_asking_twice_is_asking_once(
    s: AppStateView,
    room_id: u128,
    session_id: u128,
    first_id: u128,
    first_time: Timestamp,
    asked: AppStateView,
    first: Result<JoinRequestResponseView, ErrorView>,
    second_id: u128,
    second_time: Timestamp,
    after: AppStateView,
    second: Result<JoinRequestResponseView, ErrorView>,
)
    requires
        sound(s),
        requests_entry(s, room_id, session_id, first_id, first_time, asked, first),
        first is Ok,
        requests_entry(asked, room_id, session_id, second_id, second_time, after, second),
    ensures
        after == asked,
        second is Ok,
        second->Ok_0.request == first->Ok_0.request,
        second->Ok_0.dispatches.len() == 0,
{
    if exists|key: u128| asks_for(s, key, room_id, session_id) {
        let other = choose|key: u128| #[trigger]
            asks_for(s, key, room_id, session_id) && second->Ok_0.request == join_summary(
                s,
                s.join_requests[key],
                session_id,
            );
    } else {
        assert(asks_for(asked, first_id, room_id, session_id));
        let other = choose|key: u128| #[trigger]
            asks_for(asked, key, room_id, session_id) && second->Ok_0.request == join_summary(
                asked,
                asked.join_requests[key],
                session_id,
            );
        if other != first_id {
            assert(asks_for(s, other, room_id, session_id));
        }
    }
}

/// Accepting a chat request opens an empty room that both of them may enter.
pub proof fn law_an_accepted_chat_opens_a_room_for_two(
    s: AppStateView,
    request_id: u128,
    session_id: u128,
    fresh_id: u128,
    now: Timestamp,
    after: AppStateView,
    result: Result<DirectChatRequestSummaryView, ErrorView>,
)
    requires
        sound(s),
        accepts_chat(s, request_id, session_id, fresh_id, now, after, result),
        result is Ok,
    ensures
        ({
            let requester = s.direct_chat_requests[request_id].requester_session;
            let shown = result->Ok_0;
            &&& shown.status == JoinRequestStatus::Accepted
            &&& shown.room_id == Some(fresh_id)
            &&& after.rooms.contains_key(fresh_id)
            &&& after.rooms[fresh_id].participants == Set::<u128>::empty()
            &&& after.rooms[fresh_id].host_session == session_id
            &&& entry_refusal(after, fresh_id, session_id) is None
            &&& s.sessions.contains_key(requester) ==> entry_refusal(after, fresh_id, requester)
                is None
        }),
{
    let requester = s.direct_chat_requests[request_id].requester_session;
    let room = after.rooms[fresh_id];
    assert(room.reserved() =~= set![requester]);
}

/// Whoever is shown that they can join by a chat request is not refused when they do; whoever
/// is not shown it is refused.
pub proof fn law_can_join_is_kept(
    s: AppStateView,
    request_id: u128,
    viewer: u128,
    now: Timestamp,
    after: AppStateView,
    result: Result<DirectChatRequestSummaryView, ErrorView>,
)
    requires
        s.sessions.contains_key(viewer),
        s.direct_chat_requests.contains_key(request_id),
        joins_chat(s, request_id, viewer, now, after, result),
    ensures
        result is Ok <==> direct_summary(s, s.direct_chat_requests[request_id], viewer).can_join,
{
}

/// A chat request can be used once. Whoever has used it is no longer shown it among their
/// requests, and is refused when they try again.
pub proof fn law_a_chat_request_is_used_once(
    s: AppStateView,
    request_id: u128,
    session_id: u128,
    now: Timestamp,
    after: AppStateView,
    result: Result<DirectChatRequestSummaryView, ErrorView>,
    later: Timestamp,
    again: AppStateView,
    second: Result<DirectChatRequestSummaryView, ErrorView>,
)
    requires
        joins_chat(s, request_id, session_id, now, after, result),
        result is Ok,
        joins_chat(after, request_id, session_id, later, again, second),
    ensures
        !result->Ok_0.can_join,
        result->Ok_0.consumed_at == Some(now),
        !outgoing_chats(after, session_id).contains(request_id),
        second == Err::<DirectChatRequestSummaryView, ErrorView>(
            conflict("That chat join link was already used."@),
        ),
        again == after,
{
}

/// A chat request that was accepted and not used leads to a room that is there, and whoever
/// made it is shown it, can use it, and may enter the room.
pub proof fn law_an_accepted_chat_stays_usable(s: AppStateView, request_id: u128)
    requires
        sound(s),
        linked(s),
        s.direct_chat_requests.contains_key(request_id),
        s.direct_chat_requests[request_id].status == JoinRequestStatus::Accepted,
        s.direct_chat_requests[request_id].consumed_at is None,
    ensures
        ({
            let request = s.direct_chat_requests[request_id];
            let requester = request.requester_session;
            &&& usable(s, request, requester)
            &&& outgoing_chats(s, requester).contains(request_id)
            &&& s.sessions.contains_key(requester) ==> chat_join_refusal(
                s,
                request_id,
                requester,
            ) is None && entry_refusal(s, request.room_id->0, requester) is None
        }),
{
    let request = s.direct_chat_requests[request_id];
    if s.sessions.contains_key(request.requester_session) {
        law_an_approval_keeps_a_place(s, request.room_id->0, request.requester_session);
    }
}

/// Only the person who was asked can accept a chat request, and only once.
pub proof fn law_a_chat_request_is_accepted_once(
    s: AppStateView,
    request_id: u128,
    session_id: u128,
    fresh_id: u128,
    now: Timestamp,
    after: AppStateView,
    result: Result<DirectChatRequestSummaryView, ErrorView>,
)
    requires
        accepts_chat(s, request_id, session_id, fresh_id, now, after, result),
        result is Ok,
    ensures
        s.direct_chat_requests[request_id].target_session == session_id,
        chat_accept_refusal(after, request_id, session_id) == Some(
            conflict("That chat request is no longer pending."@),
        ),
{
}

/// Whoever is shown that they can accept a chat request is not refused when they do, unless
/// one of the two is in a room.
pub proof fn law_can_accept_a_chat_is_kept(s: AppStateView, request_id: u128, viewer: u128)
    requires
        s.sessions.contains_key(viewer),
        s.direct_chat_requests.contains_key(request_id),
        direct_summary(s, s.direct_chat_requests[request_id], viewer).can_accept,
    ensures
        chat_accept_refusal(s, request_id, viewer) is None <==> !in_some_room(
            s,
            s.direct_chat_requests[request_id].requester_session,
        ) && !in_some_room(s, viewer),
{
}

/// Asking a second time for the same chat, while the first request is pending, changes
/// nothing and shows the first request again.
pub proof fn law_asking_to_chat_twice_is_asking_once(
    s: AppStateView,
    session_id: u128,
    target: u128,
    first_id: u128,
    first_time: Timestamp,
    asked: AppStateView,
    first: Result<DirectChatRequestSummaryView, ErrorView>,
    second_id: u128,
    second_time: Timestamp,
    after: AppStateView,
    second: Result<DirectChatRequestSummaryView, ErrorView>,
)
    requires
        sound(s),
        requests_chat(s, session_id, target, first_id, first_time, asked, first),
        first is Ok,
        requests_chat(asked, session_id, target, second_id, second_time, after, second),
        second is Ok,
    ensures
        after == asked,
        second->Ok_0 == first->Ok_0,
{
    if exists|key: u128| asks_to_chat(s, key, session_id, target) {
        let other = choose|key: u128| #[trigger]
            asks_to_chat(s, key, session_id, target) && second->Ok_0 == direct_summary(
                s,
                s.direct_chat_requests[key],
                session_id,
            );
    } else {
        assert(asks_to_chat(asked, first_id, session_id, target));
        let other = choose|key: u128| #[trigger]
            asks_to_chat(asked, key, session_id, target) && second->Ok_0 == direct_summary(
                asked,
                asked.direct_chat_requests[key],
                session_id,
            );
        if other != first_id {
            assert(asks_to_chat(s, other, session_id, target));
        }
    }
}

/// A new join request is shown as pending to everyone in the room, and to whoever made it; the
/// room is told of it.
pub proof fn law_a_join_request_is_shown(
    s: AppStateView,
    room_id: u128,
    session_id: u128,
    fresh_id: u128,
    now: Timestamp,
    after: AppStateView,
    result: Result<JoinRequestResponseView, ErrorView>,
    member: u128,
)
    requires
        requests_entry(s, room_id, session_id, fresh_id, now, after, result),
        result is Ok,
        forall|key: u128| !asks_for(s, key, room_id, session_id),
        in_room(s, room_id, member),
    ensures
        incoming_requests(after, member).contains(fresh_id),
        outgoing_requests(after, session_id).contains(fresh_id),
        result->Ok_0.request.id == fresh_id,
        result->Ok_0.request.status == JoinRequestStatus::Pending,
        result->Ok_0.dispatches == seq![
            requests_changed(after, room_id, Some(s.sessions[session_id].display_name), false),
        ],
        pending_requests(after, room_id).contains(fresh_id),
{
}

/// An accepted join request is no longer shown to the room, but still to whoever made it.
pub proof fn law_an_accepted_request_leaves_the_panel(
    s: AppStateView,
    request_id: u128,
    session_id: u128,
    now: Timestamp,
    after: AppStateView,
    result: Result<JoinRequestResponseView, ErrorView>,
    member: u128,
)
    requires
        accepts_entry(s, request_id, session_id, now, after, result),
        result is Ok,
    ensures
        !incoming_requests(after, member).contains(request_id),
        outgoing_requests(after, s.join_requests[request_id].requester_session).contains(
            request_id,
        ),
        !pending_requests(after, s.join_requests[request_id].room_id).contains(request_id),
{
}

/// A new chat request is shown to the person asked, who can accept it, and to whoever made it.
pub proof fn law_a_chat_request_is_shown(
    s: AppStateView,
    session_id: u128,
    target: u128,
    fresh_id: u128,
    now: Timestamp,
    after: AppStateView,
    result: Result<DirectChatRequestSummaryView, ErrorView>,
)
    requires
        requests_chat(s, session_id, target, fresh_id, now, after, result),
        result is Ok,
        forall|key: u128| !asks_to_chat(s, key, session_id, target),
    ensures
        incoming_chats(after, target).contains(fresh_id),
        outgoing_chats(after, session_id).contains(fresh_id),
        direct_summary(after, after.direct_chat_requests[fresh_id], target).can_accept,
        result->Ok_0.id == fresh_id,
        result->Ok_0.status == JoinRequestStatus::Pending,
{
}

/// Whoever asks for a room for the first time adds one pending request, under the name of
/// their session. No room changes, and everyone connected there is told.
pub proof fn law_a_first_ask_adds_one_request(
    s: AppStateView,
    room_id: u128,
    session_id: u128,
    fresh_id: u128,
    now: Timestamp,
    after: AppStateView,
    result: Result<JoinRequestResponseView, ErrorView>,
)
    requires
        requests_entry(s, room_id, session_id, fresh_id, now, after, result),
        result is Ok,
        forall|key: u128| !asks_for(s, key, room_id, session_id),
    ensures
        ({
            let made = after.join_requests[fresh_id];
            &&& after.join_requests.dom() == s.join_requests.dom().insert(fresh_id)
            &&& forall|key: u128|
                key != fresh_id && #[trigger] s.join_requests.contains_key(key)
                    ==> after.join_requests[key] == s.join_requests[key]
            &&& asks_for(after, fresh_id, room_id, session_id)
            &&& made.status == JoinRequestStatus::Pending
            &&& made.accepted_by is None
            &&& made.created_at == now && made.updated_at == now
            &&& made.requester_display_name == s.sessions[session_id].display_name
            &&& after.rooms == s.rooms
            &&& result->Ok_0.dispatches.len() == 1
            &&& result->Ok_0.dispatches[0].recipients == channels(s, room_id)
            &&& result->Ok_0.dispatches[0].event matches ServerWsEventView::JoinRequestsChanged {
                accepted,
                ..
            } && !accepted
        }),
{
}

/// Whoever asks for a chat, and has no pending request for it, adds one pending request, under
/// the names of the two sessions. No room changes.
pub proof fn law_a_first_ask_to_chat_adds_one_request(
    s: AppStateView,
    session_id: u128,
    target: u128,
    fresh_id: u128,
    now: Timestamp,
    after: AppStateView,
    result: Result<DirectChatRequestSummaryView, ErrorView>,
)
    requires
        requests_chat(s, session_id, target, fresh_id, now, after, result),
        result is Ok,
        forall|key: u128| !asks_to_chat(s, key, session_id, target),
    ensures
        ({
            let made = after.direct_chat_requests[fresh_id];
            &&& after.direct_chat_requests.dom() == s.direct_chat_requests.dom().insert(fresh_id)
            &&& forall|key: u128|
                key != fresh_id && #[trigger] s.direct_chat_requests.contains_key(key)
                    ==> after.direct_chat_requests[key] == s.direct_chat_requests[key]
            &&& asks_to_chat(after, fresh_id, session_id, target)
            &&& made.room_id is None && made.accepted_by is None && made.consumed_at is None
            &&& made.created_at == now && made.updated_at == now
            &&& made.requester_display_name == s.sessions[session_id].display_name
            &&& made.target_display_name == s.sessions[target].display_name
            &&& after.rooms == s.rooms
        }),
{
}

/// Whatever happens, nobody ever has two requests for one room, or two pending requests for a
/// chat with one person.
pub proof fn law_nothing_is_asked_twice(
    states: Seq<AppStateView>,
    steps: Seq<(Operation, Timestamp)>,
    i: int,
)
    requires
        history(states, steps),
        sound(states[0]),
        0 <= i < states.len(),
    ensures
        one_request_each(states[i]),
        one_pending_chat_each(states[i]),
{
    law_a_service_stays_sound(states, steps, i);
}

} // verus!
