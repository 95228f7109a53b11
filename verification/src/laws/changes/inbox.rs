//! What everyone finds among the requests that concern them.

use super::{lemma_portrayed, not_after, refused};
use crate::direct_chats::direct_summary;
use crate::error::{ErrorStatus, ErrorView};
use crate::inbox::{chat_shown, incoming_chats, incoming_requests, outgoing_chats};
use crate::inbox::{outgoing_requests, reads_inbox, request_shown, shows_inbox};
use crate::inbox::JoinRequestsResponse;
use crate::invariants::sound;
use crate::join_requests::join_summary;
use crate::state::{AppStateView, JoinRequestStatus};
use crate::tables::view_items;
use vstd::prelude::*;

verus! {

/// Listed as incoming are the pending requests for rooms that the viewer is in, each once, the
/// oldest first, and no others.
pub proof fn law_incoming_requests_are_for_ones_own_rooms(
    response: JoinRequestsResponse,
    s: AppStateView,
    viewer: u128,
)
    requires
        sound(s),
        shows_inbox(response, s, viewer),
    ensures
        forall|i: int|
            0 <= i < response.incoming@.len() ==> {
                let shown = #[trigger] response.incoming@[i];
                let request = s.join_requests[shown.id];
                &&& s.join_requests.contains_key(shown.id)
                &&& request.status == JoinRequestStatus::Pending
                &&& shown.status == JoinRequestStatus::Pending
                &&& shown.room_id == request.room_id
                &&& s.rooms.contains_key(shown.room_id)
                &&& s.rooms[shown.room_id].participants.contains(viewer)
                &&& shown@ == join_summary(s, request, viewer)
            },
        forall|key: u128| #[trigger]
            s.join_requests.contains_key(key) && {
                let request = s.join_requests[key];
                &&& request.status == JoinRequestStatus::Pending
                &&& s.rooms.contains_key(request.room_id)
                &&& s.rooms[request.room_id].participants.contains(viewer)
            } ==> exists|i: int|
                0 <= i < response.incoming@.len() && (#[trigger] response.incoming@[i]).id == key,
        forall|i: int, j: int|
            0 <= i < j < response.incoming@.len() ==> {
                let first = #[trigger] response.incoming@[i];
                let second = #[trigger] response.incoming@[j];
                first.id != second.id && not_after(first.created_at, second.created_at)
            },
{
    let listed = response.incoming@;
    let shown = view_items(listed);
    let order = lemma_portrayed(shown, incoming_requests(s, viewer), request_shown(s, viewer));
    assert forall|i: int| 0 <= i < listed.len() implies (#[trigger] listed[i])@ == join_summary(
        s,
        s.join_requests[order[i]],
        viewer,
    ) && listed[i].id == order[i] && s.join_requests.contains_key(order[i]) by {
        assert(shown[i] == listed[i]@);
        assert(s.join_requests.contains_key(order[i]));
    }
    assert forall|key: u128| #[trigger]
        s.join_requests.contains_key(key) && {
            let request = s.join_requests[key];
                &&& request.status == JoinRequestStatus::Pending
                &&& s.rooms.contains_key(request.room_id)
                &&& s.rooms[request.room_id].participants.contains(viewer)
        } implies exists|i: int| 0 <= i < listed.len() && (#[trigger] listed[i]).id == key by {
        assert(incoming_requests(s, viewer).contains(key));
        let i = choose|i: int| 0 <= i < order.len() && order[i] == key;
        assert(listed[i].id == key);
    }
}

/// Listed as outgoing are the viewer's own requests, pending or accepted, each once, the latest
/// change first, and no others.
pub proof fn law_outgoing_requests_are_ones_own(
    response: JoinRequestsResponse,
    s: AppStateView,
    viewer: u128,
)
    requires
        sound(s),
        shows_inbox(response, s, viewer),
    ensures
        forall|i: int|
            0 <= i < response.outgoing@.len() ==> {
                let shown = #[trigger] response.outgoing@[i];
                let request = s.join_requests[shown.id];
                &&& s.join_requests.contains_key(shown.id)
                &&& request.requester_session == viewer
                &&& shown.requester_session == viewer
                &&& shown@ == join_summary(s, request, viewer)
            },
        forall|key: u128| #[trigger]
            s.join_requests.contains_key(key) && {
                let request = s.join_requests[key];
                request.requester_session == viewer
            } ==> exists|i: int|
                0 <= i < response.outgoing@.len() && (#[trigger] response.outgoing@[i]).id == key,
        forall|i: int, j: int|
            0 <= i < j < response.outgoing@.len() ==> {
                let first = #[trigger] response.outgoing@[i];
                let second = #[trigger] response.outgoing@[j];
                first.id != second.id && not_after(second.updated_at, first.updated_at)
            },
{
    let listed = response.outgoing@;
    let shown = view_items(listed);
    let order = lemma_portrayed(shown, outgoing_requests(s, viewer), request_shown(s, viewer));
    assert forall|i: int| 0 <= i < listed.len() implies (#[trigger] listed[i])@ == join_summary(
        s,
        s.join_requests[order[i]],
        viewer,
    ) && listed[i].id == order[i] && s.join_requests.contains_key(order[i]) by {
        assert(shown[i] == listed[i]@);
        assert(s.join_requests.contains_key(order[i]));
    }
    assert forall|key: u128| #[trigger]
        s.join_requests.contains_key(key) && {
            let request = s.join_requests[key];
                request.requester_session == viewer
        } implies exists|i: int| 0 <= i < listed.len() && (#[trigger] listed[i]).id == key by {
        assert(outgoing_requests(s, viewer).contains(key));
        let i = choose|i: int| 0 <= i < order.len() && order[i] == key;
        assert(listed[i].id == key);
    }
}

/// Listed as incoming chats are the pending requests for a chat with the viewer, each once, the
/// oldest first, and no others.
pub proof fn law_incoming_chats_are_for_oneself(
    response: JoinRequestsResponse,
    s: AppStateView,
    viewer: u128,
)
    requires
        sound(s),
        shows_inbox(response, s, viewer),
    ensures
        forall|i: int|
            0 <= i < response.direct_incoming@.len() ==> {
                let shown = #[trigger] response.direct_incoming@[i];
                let request = s.direct_chat_requests[shown.id];
                &&& s.direct_chat_requests.contains_key(shown.id)
                &&& request.status == JoinRequestStatus::Pending
                &&& request.target_session == viewer
                &&& shown.target_session == viewer
                &&& shown@ == direct_summary(s, request, viewer)
            },
        forall|key: u128| #[trigger]
            s.direct_chat_requests.contains_key(key) && {
                let request = s.direct_chat_requests[key];
                request.status == JoinRequestStatus::Pending && request.target_session == viewer
            } ==> exists|i: int|
                0 <= i < response.direct_incoming@.len() && (
                #[trigger] response.direct_incoming@[i]).id == key,
        forall|i: int, j: int|
            0 <= i < j < response.direct_incoming@.len() ==> {
                let first = #[trigger] response.direct_incoming@[i];
                let second = #[trigger] response.direct_incoming@[j];
                first.id != second.id && not_after(first.created_at, second.created_at)
            },
{
    let listed = response.direct_incoming@;
    let shown = view_items(listed);
    let order = lemma_portrayed(shown, incoming_chats(s, viewer), chat_shown(s, viewer));
    assert forall|i: int| 0 <= i < listed.len() implies (#[trigger] listed[i])@ == direct_summary(
        s,
        s.direct_chat_requests[order[i]],
        viewer,
    ) && listed[i].id == order[i] && s.direct_chat_requests.contains_key(order[i]) by {
        assert(shown[i] == listed[i]@);
        assert(s.direct_chat_requests.contains_key(order[i]));
    }
    assert forall|key: u128| #[trigger]
        s.direct_chat_requests.contains_key(key) && {
            let request = s.direct_chat_requests[key];
                request.status == JoinRequestStatus::Pending && request.target_session == viewer
        } implies exists|i: int| 0 <= i < listed.len() && (#[trigger] listed[i]).id == key by {
        assert(incoming_chats(s, viewer).contains(key));
        let i = choose|i: int| 0 <= i < order.len() && order[i] == key;
        assert(listed[i].id == key);
    }
}

/// Listed as outgoing chats are the viewer's own requests that are pending, or were accepted and
/// lead to a room that is there and have not been used: each once, the latest change first, and
/// no others.
pub proof fn law_outgoing_chats_are_ones_own_and_open(
    response: JoinRequestsResponse,
    s: AppStateView,
    viewer: u128,
)
    requires
        sound(s),
        shows_inbox(response, s, viewer),
    ensures
        forall|i: int|
            0 <= i < response.direct_outgoing@.len() ==> {
                let shown = #[trigger] response.direct_outgoing@[i];
                let request = s.direct_chat_requests[shown.id];
                &&& s.direct_chat_requests.contains_key(shown.id)
                &&& request.requester_session == viewer
                &&& request.status == JoinRequestStatus::Pending || (request.consumed_at is None
                    && request.room_id is Some && s.rooms.contains_key(request.room_id->0))
                &&& shown@ == direct_summary(s, request, viewer)
            },
        forall|key: u128| #[trigger]
            s.direct_chat_requests.contains_key(key) && {
                let request = s.direct_chat_requests[key];
                request.requester_session == viewer && (request.status
                    == JoinRequestStatus::Pending || (request.consumed_at is None
                    && request.room_id is Some && s.rooms.contains_key(request.room_id->0)))
            } ==> exists|i: int|
                0 <= i < response.direct_outgoing@.len() && (
                #[trigger] response.direct_outgoing@[i]).id == key,
        forall|i: int, j: int|
            0 <= i < j < response.direct_outgoing@.len() ==> {
                let first = #[trigger] response.direct_outgoing@[i];
                let second = #[trigger] response.direct_outgoing@[j];
                first.id != second.id && not_after(second.updated_at, first.updated_at)
            },
{
    let listed = response.direct_outgoing@;
    let shown = view_items(listed);
    let order = lemma_portrayed(shown, outgoing_chats(s, viewer), chat_shown(s, viewer));
    assert forall|i: int| 0 <= i < listed.len() implies (#[trigger] listed[i])@ == direct_summary(
        s,
        s.direct_chat_requests[order[i]],
        viewer,
    ) && listed[i].id == order[i] && s.direct_chat_requests.contains_key(order[i]) by {
        assert(shown[i] == listed[i]@);
        assert(s.direct_chat_requests.contains_key(order[i]));
    }
    assert forall|key: u128| #[trigger]
        s.direct_chat_requests.contains_key(key) && {
            let request = s.direct_chat_requests[key];
                request.requester_session == viewer && (request.status
                    == JoinRequestStatus::Pending || (request.consumed_at is None
                    && request.room_id is Some && s.rooms.contains_key(request.room_id->0)))
        } implies exists|i: int| 0 <= i < listed.len() && (#[trigger] listed[i]).id == key by {
        assert(outgoing_chats(s, viewer).contains(key));
        let i = choose|i: int| 0 <= i < order.len() && order[i] == key;
        assert(listed[i].id == key);
    }
}

/// Whoever has a session is shown the requests that concern them, and nobody else is shown any.
pub proof fn law_requests_are_shown_to_whoever_has_a_session(
    s: AppStateView,
    session_id: u128,
    result: Result<JoinRequestsResponse, ErrorView>,
)
    requires
        reads_inbox(s, session_id, result),
    ensures
        result is Ok <==> s.sessions.contains_key(session_id),
        result is Err ==> refused(result, ErrorStatus::Unauthorized),
        result matches Ok(response) ==> shows_inbox(response, s, session_id),
{
}

} // verus!
