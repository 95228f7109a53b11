//! Requests to chat with one other person, who answers with a room for the two.

use crate::chance::{new_id, random_id_shape};
use crate::error::{answer, bad_request, conflict, forbidden, not_found, ApiError, ErrorView};
use crate::ordering::Dated;
use crate::presence::{is_session_online, online};
use crate::rooms::{in_room, live_room_for_session};
use crate::sessions::{ensure_session, name_of, session_refusal};
use crate::state::{AppState, AppStateView, DirectChatRequest, DirectChatRequestView};
use crate::state::{JoinRequestStatus, Room, RoomView};
use crate::tables::{group_tables, keys_of, lists};
use crate::time::{clock_time, Timestamp};
use std::collections::{HashMap, HashSet};
use vstd::prelude::*;

verus! {

broadcast use {vstd::std_specs::hash::group_hash_axioms, group_tables};

/// A chat request as someone sees it.
pub struct DirectChatRequestSummary {
    pub id: u128,
    pub requester_session: u128,
    pub requester_display_name: String,
    pub target_session: u128,
    pub target_display_name: String,
    pub status: JoinRequestStatus,
    pub room_id: Option<u128>,
    pub created_at: Timestamp,
    pub updated_at: Timestamp,
    pub accepted_by: Option<u128>,
    pub consumed_at: Option<Timestamp>,
    pub can_accept: bool,
    pub can_join: bool,
}

#[verifier::ext_equal]
pub struct DirectChatRequestSummaryView {
    pub id: u128,
    pub requester_session: u128,
    pub requester_display_name: Seq<char>,
    pub target_session: u128,
    pub target_display_name: Seq<char>,
    pub status: JoinRequestStatus,
    pub room_id: Option<u128>,
    pub created_at: Timestamp,
    pub updated_at: Timestamp,
    pub accepted_by: Option<u128>,
    pub consumed_at: Option<Timestamp>,
    pub can_accept: bool,
    pub can_join: bool,
}

impl View for DirectChatRequestSummary {
    type V = DirectChatRequestSummaryView;

    open spec fn view(&self) -> DirectChatRequestSummaryView {
        DirectChatRequestSummaryView {
            id: self.id,
            requester_session: self.requester_session,
            requester_display_name: self.requester_display_name@,
            target_session: self.target_session,
            target_display_name: self.target_display_name@,
            status: self.status,
            room_id: self.room_id,
            created_at: self.created_at,
            updated_at: self.updated_at,
            accepted_by: self.accepted_by,
            consumed_at: self.consumed_at,
            can_accept: self.can_accept,
            can_join: self.can_join,
        }
    }
}

impl Dated for DirectChatRequestSummary {
    open spec fn created(&self) -> Timestamp {
        self.created_at
    }

    open spec fn updated(&self) -> Timestamp {
        self.updated_at
    }

    fn creation(&self) -> (result: Timestamp) {
        self.created_at
    }

    fn latest_change(&self) -> (result: Timestamp) {
        self.updated_at
    }
}

/// Whether `viewer` can use the request to join its room: it is their own, it was accepted,
/// it has not been used, and the room is there.
pub open spec fn usable(s: AppStateView, request: DirectChatRequestView, viewer: u128) -> bool {
    &&& request.status == JoinRequestStatus::Accepted
    &&& request.requester_session == viewer
    &&& request.consumed_at is None
    &&& request.room_id matches Some(room_id) && s.rooms.contains_key(room_id)
}

/// Whether `viewer_session` can use the request to join its room.
pub fn direct_chat_request_can_join(
    state: &AppState,
    request: &DirectChatRequest,
    viewer_session: u128,
) -> (result: bool)
    ensures
        result == usable(state@, request@, viewer_session),
{
    request.status == JoinRequestStatus::Accepted && request.requester_session == viewer_session
        && request.consumed_at.is_none() && match request.room_id {
        Some(room_id) => state.rooms.contains_key(&room_id),
        None => false,
    }
}

/// A chat request as `viewer` sees it: whether they can accept it, and whether they can use
/// it to join.
pub open spec fn direct_summary(
    s: AppStateView,
    request: DirectChatRequestView,
    viewer: u128,
) -> DirectChatRequestSummaryView {
    DirectChatRequestSummaryView {
        id: request.id,
        requester_session: request.requester_session,
        requester_display_name: request.requester_display_name,
        target_session: request.target_session,
        target_display_name: request.target_display_name,
        status: request.status,
        room_id: request.room_id,
        created_at: request.created_at,
        updated_at: request.updated_at,
        accepted_by: request.accepted_by,
        consumed_at: request.consumed_at,
        can_accept: request.status == JoinRequestStatus::Pending && request.target_session
            == viewer,
        can_join: usable(s, request, viewer),
    }
}

/// The chat request as `viewer_session` sees it.
pub fn direct_chat_request_summary(
    state: &AppState,
    request: &DirectChatRequest,
    viewer_session: u128,
) -> (result: DirectChatRequestSummary)
    ensures
        result@ == direct_summary(state@, request@, viewer_session),
{
    DirectChatRequestSummary {
        id: request.id,
        requester_session: request.requester_session,
        requester_display_name: request.requester_display_name.clone(),
        target_session: request.target_session,
        target_display_name: request.target_display_name.clone(),
        status: request.status,
        room_id: request.room_id,
        created_at: request.created_at,
        updated_at: request.updated_at,
        accepted_by: request.accepted_by,
        consumed_at: request.consumed_at,
        can_accept: request.status == JoinRequestStatus::Pending && request.target_session
            == viewer_session,
        can_join: direct_chat_request_can_join(state, request, viewer_session),
    }
}

/// Whether the session is a participant of any room.
pub open spec fn in_some_room(s: AppStateView, session_id: u128) -> bool {
    exists|room_id: u128| in_room(s, room_id, session_id)
}

/// Whether the session is listed as available.
pub open spec fn listed_available(s: AppStateView, session_id: u128) -> bool {
    s.directory.contains_key(session_id) && s.directory[session_id].available
}

/// Why a session cannot ask another for a chat at `now`.
pub open spec fn chat_refusal(
    s: AppStateView,
    session_id: u128,
    target: u128,
    now: Timestamp,
) -> Option<ErrorView> {
    if session_refusal(s, session_id) is Some {
        session_refusal(s, session_id)
    } else if session_id == target {
        Some(bad_request("You cannot request a chat with yourself."@))
    } else if !s.sessions.contains_key(target) {
        Some(not_found("That person is no longer online."@))
    } else if in_some_room(s, target) {
        Some(
            conflict("That person is already in a room. Request to join their room instead."@),
        )
    } else if !listed_available(s, target) {
        Some(conflict("That person is not listed as available right now."@))
    } else if !online(s, target, now) {
        Some(conflict("That person is no longer online."@))
    } else {
        None
    }
}

/// Whether `key` is a pending request of the session for a chat with the target.
pub open spec fn asks_to_chat(s: AppStateView, key: u128, session_id: u128, target: u128) -> bool {
    &&& s.direct_chat_requests.contains_key(key)
    &&& s.direct_chat_requests[key].requester_session == session_id
    &&& s.direct_chat_requests[key].target_session == target
    &&& s.direct_chat_requests[key].status == JoinRequestStatus::Pending
}

/// A new request of the session for a chat with the target.
pub open spec fn new_chat_request(
    s: AppStateView,
    session_id: u128,
    target: u128,
    fresh_id: u128,
    now: Timestamp,
) -> DirectChatRequestView {
    DirectChatRequestView {
        id: fresh_id,
        requester_session: session_id,
        requester_display_name: s.sessions[session_id].display_name,
        target_session: target,
        target_display_name: s.sessions[target].display_name,
        status: JoinRequestStatus::Pending,
        room_id: None,
        created_at: now,
        updated_at: now,
        accepted_by: None,
        consumed_at: None,
    }
}

/// Asking for a chat: from `s` to `after`, with the given answer. Whoever has a pending
/// request for the same chat is shown that one again.
pub open spec fn requests_chat(
    s: AppStateView,
    session_id: u128,
    target: u128,
    fresh_id: u128,
    now: Timestamp,
    after: AppStateView,
    result: Result<DirectChatRequestSummaryView, ErrorView>,
) -> bool {
    match (chat_refusal(s, session_id, target, now), result) {
        (Some(refusal), Err(e)) => e == refusal && after == s,
        (None, Ok(shown)) => if exists|key: u128| asks_to_chat(s, key, session_id, target) {
            &&& after == s
            &&& exists|key: u128| #[trigger]
                asks_to_chat(s, key, session_id, target) && shown == direct_summary(
                    s,
                    s.direct_chat_requests[key],
                    session_id,
                )
        } else {
            let request = new_chat_request(s, session_id, target, fresh_id, now);
            &&& after == AppStateView {
                direct_chat_requests: s.direct_chat_requests.insert(fresh_id, request),
                ..s
            }
            &&& shown == direct_summary(after, request, session_id)
        },
        _ => false,
    }
}

/// The pending request of the session for a chat with the target, if there is one.
fn find_chat_request(state: &AppState, session_id: u128, target: u128) -> (result: Option<u128>)
    ensures
        match result {
            Some(key) => asks_to_chat(state@, key, session_id, target),
            None => forall|key: u128| !asks_to_chat(state@, key, session_id, target),
        },
{
    let keys = keys_of(&state.direct_chat_requests);
    let mut i: usize = 0;
    while i < keys.len()
        invariant
            i <= keys@.len(),
            lists(keys@, state.direct_chat_requests@.dom()),
            forall|k: int|
                0 <= k < i ==> !asks_to_chat(state@, #[trigger] keys@[k], session_id, target),
        decreases keys@.len() - i,
    {
        if let Some(request) = state.direct_chat_requests.get(&keys[i]) {
            if request.requester_session == session_id && request.target_session == target
                && request.status == JoinRequestStatus::Pending {
                return Some(keys[i]);
            }
        }
        i = i + 1;
    }
    assert forall|key: u128| !asks_to_chat(state@, key, session_id, target) by {
        if state@.direct_chat_requests.contains_key(key) {
            assert(keys@.contains(key));
        }
    }
    None
}

fn is_listed_available(state: &AppState, session_id: u128) -> (result: bool)
    ensures
        result == listed_available(state@, session_id),
{
    match state.directory.get(&session_id) {
        Some(entry) => entry.available,
        None => false,
    }
}

/// Asks at `now` for a chat with the target; a new request is `fresh_id`.
pub fn create_direct_chat_request_with(
    state: &mut AppState,
    session_id: u128,
    target_session_id: u128,
    fresh_id: u128,
    now: Timestamp,
) -> (result: Result<DirectChatRequestSummary, ApiError>)
    ensures
        requests_chat(
            old(state)@,
            session_id,
            target_session_id,
            fresh_id,
            now,
            final(state)@,
            answer(result),
        ),
{
    ensure_session(state, session_id)?;
    if session_id == target_session_id {
        return Err(ApiError::bad_request("You cannot request a chat with yourself."));
    }
    if !state.sessions.contains_key(&target_session_id) {
        return Err(ApiError::not_found("That person is no longer online."));
    }
    if live_room_for_session(state, target_session_id).is_some() {
        return Err(
            ApiError::conflict(
                "That person is already in a room. Request to join their room instead.",
            ),
        );
    }
    if !is_listed_available(state, target_session_id) {
        return Err(ApiError::conflict("That person is not listed as available right now."));
    }
    if !is_session_online(state, target_session_id, now) {
        return Err(ApiError::conflict("That person is no longer online."));
    }
    if let Some(key) = find_chat_request(state, session_id, target_session_id) {
        if let Some(existing) = state.direct_chat_requests.get(&key) {
            return Ok(direct_chat_request_summary(state, existing, session_id));
        }
    }
    let request = DirectChatRequest {
        id: fresh_id,
        requester_session: session_id,
        requester_display_name: name_of(state, session_id),
        target_session: target_session_id,
        target_display_name: name_of(state, target_session_id),
        status: JoinRequestStatus::Pending,
        room_id: None,
        created_at: now,
        updated_at: now,
        accepted_by: None,
        consumed_at: None,
    };
    state.direct_chat_requests.insert(fresh_id, request);
    match state.direct_chat_requests.get(&fresh_id) {
        Some(request) => Ok(direct_chat_request_summary(state, request, session_id)),
        None => Err(ApiError::not_found("Chat request not found.")),
    }
}

/// Asks for a chat with the target.
pub fn create_direct_chat_request(
    state: &mut AppState,
    session_id: u128,
    target_session_id: u128,
) -> (result: Result<DirectChatRequestSummary, ApiError>)
    ensures
        exists|fresh_id: u128, now: Timestamp|
            clock_time(now) && random_id_shape(fresh_id) && #[trigger] requests_chat(
                old(state)@,
                session_id,
                target_session_id,
                fresh_id,
                now,
                final(state)@,
                answer(result),
            ),
{
    let fresh_id: u128 = new_id();
    let now = Timestamp::now();
    create_direct_chat_request_with(state, session_id, target_session_id, fresh_id, now)
}

/// Why a session cannot accept a chat request.
pub open spec fn chat_accept_refusal(
    s: AppStateView,
    request_id: u128,
    session_id: u128,
) -> Option<ErrorView> {
    let request = s.direct_chat_requests[request_id];
    if session_refusal(s, session_id) is Some {
        session_refusal(s, session_id)
    } else if !s.direct_chat_requests.contains_key(request_id) {
        Some(not_found("Chat request not found."@))
    } else if request.target_session != session_id {
        Some(forbidden("Only the requested person can accept this chat invite."@))
    } else if request.status != JoinRequestStatus::Pending {
        Some(conflict("That chat request is no longer pending."@))
    } else if in_some_room(s, request.requester_session) || in_some_room(
        s,
        request.target_session,
    ) {
        Some(
            conflict(
                "One of you is already in a room. Try again once you are both available."@,
            ),
        )
    } else {
        None
    }
}

/// A new, empty room that `host` opens for `guest`, with a share link.
pub open spec fn chat_room(room_id: u128, host: u128, guest: u128, now: Timestamp) -> RoomView {
    RoomView {
        id: room_id,
        host_session: host,
        host_controls_joiners: false,
        share_link_enabled: true,
        participants: Set::empty(),
        participant_joined_at: Map::empty(),
        approved_joiners: set![guest],
        senders: Set::empty(),
        connection_ids: Map::empty(),
        waiting_for_random: false,
        created_at: now,
    }
}

/// The chat request, accepted at `now` with the room.
pub open spec fn accepted_chat(
    request: DirectChatRequestView,
    session_id: u128,
    room_id: u128,
    now: Timestamp,
) -> DirectChatRequestView {
    DirectChatRequestView {
        status: JoinRequestStatus::Accepted,
        updated_at: now,
        accepted_by: Some(session_id),
        room_id: Some(room_id),
        ..request
    }
}

/// The state with the chat request accepted and its room opened as `fresh_id`.
pub open spec fn with_accepted_chat(
    s: AppStateView,
    request_id: u128,
    session_id: u128,
    fresh_id: u128,
    now: Timestamp,
) -> AppStateView {
    let request = s.direct_chat_requests[request_id];
    AppStateView {
        rooms: s.rooms.insert(
            fresh_id,
            chat_room(fresh_id, request.target_session, request.requester_session, now),
        ),
        direct_chat_requests: s.direct_chat_requests.insert(
            request_id,
            accepted_chat(request, session_id, fresh_id, now),
        ),
        ..s
    }
}

/// Accepting a chat request: from `s` to `after`, with the given answer.
pub open spec fn accepts_chat(
    s: AppStateView,
    request_id: u128,
    session_id: u128,
    fresh_id: u128,
    now: Timestamp,
    after: AppStateView,
    result: Result<DirectChatRequestSummaryView, ErrorView>,
) -> bool {
    match (chat_accept_refusal(s, request_id, session_id), result) {
        (Some(refusal), Err(e)) => e == refusal && after == s,
        (None, Ok(shown)) => {
            &&& after == with_accepted_chat(s, request_id, session_id, fresh_id, now)
            &&& shown == direct_summary(
                after,
                after.direct_chat_requests[request_id],
                session_id,
            )
        },
        _ => false,
    }
}

/// Accepts a chat request at `now` and opens a room for the two as `fresh_id`.
pub fn accept_direct_chat_request_with(
    state: &mut AppState,
    request_id: u128,
    session_id: u128,
    fresh_id: u128,
    now: Timestamp,
) -> (result: Result<DirectChatRequestSummary, ApiError>)
    ensures
        accepts_chat(
            old(state)@,
            request_id,
            session_id,
            fresh_id,
            now,
            final(state)@,
            answer(result),
        ),
{
    ensure_session(state, session_id)?;
    let (requester, target): (u128, u128) = match state.direct_chat_requests.get(&request_id) {
        Some(request) => {
            if request.target_session != session_id {
                return Err(
                    ApiError::forbidden("Only the requested person can accept this chat invite."),
                );
            }
            if request.status != JoinRequestStatus::Pending {
                return Err(ApiError::conflict("That chat request is no longer pending."));
            }
            (request.requester_session, request.target_session)
        },
        None => {
            return Err(ApiError::not_found("Chat request not found."));
        },
    };
    if live_room_for_session(state, requester).is_some() || live_room_for_session(
        state,
        target,
    ).is_some() {
        return Err(
            ApiError::conflict(
                "One of you is already in a room. Try again once you are both available.",
            ),
        );
    }
    let mut approved_joiners: HashSet<u128> = HashSet::new();
    approved_joiners.insert(requester);
    let room = Room {
        id: fresh_id,
        host_session: target,
        host_controls_joiners: false,
        share_link_enabled: true,
        participants: HashSet::new(),
        participant_joined_at: HashMap::new(),
        approved_joiners,
        senders: HashSet::new(),
        connection_ids: HashMap::new(),
        waiting_for_random: false,
        created_at: now,
    };
    state.rooms.insert(fresh_id, room);
    if let Some(mut request) = state.direct_chat_requests.remove(&request_id) {
        request.status = JoinRequestStatus::Accepted;
        request.updated_at = now;
        request.accepted_by = Some(session_id);
        request.room_id = Some(fresh_id);
        state.direct_chat_requests.insert(request_id, request);
    }
    match state.direct_chat_requests.get(&request_id) {
        Some(request) => Ok(direct_chat_request_summary(state, request, session_id)),
        None => Err(ApiError::not_found("Chat request not found.")),
    }
}

/// Accepts a chat request and opens a room for the two.
pub fn accept_direct_chat_request(
    state: &mut AppState,
    request_id: u128,
    session_id: u128,
) -> (result: Result<DirectChatRequestSummary, ApiError>)
    ensures
        exists|fresh_id: u128, now: Timestamp|
            clock_time(now) && random_id_shape(fresh_id) && #[trigger] accepts_chat(
                old(state)@,
                request_id,
                session_id,
                fresh_id,
                now,
                final(state)@,
                answer(result),
            ),
{
    let fresh_id: u128 = new_id();
    let now = Timestamp::now();
    accept_direct_chat_request_with(state, request_id, session_id, fresh_id, now)
}

/// Why a session cannot use a chat request to join, whether or not its room is still there.
pub open spec fn chat_join_refusal(
    s: AppStateView,
    request_id: u128,
    session_id: u128,
) -> Option<ErrorView> {
    let request = s.direct_chat_requests[request_id];
    if session_refusal(s, session_id) is Some {
        session_refusal(s, session_id)
    } else if !s.direct_chat_requests.contains_key(request_id) {
        Some(not_found("Chat request not found."@))
    } else if request.requester_session != session_id {
        Some(forbidden("Only the requester can use this chat join action."@))
    } else if request.status != JoinRequestStatus::Accepted {
        Some(conflict("That chat request is not ready to join."@))
    } else if request.consumed_at is Some {
        Some(conflict("That chat join link was already used."@))
    } else if request.room_id is None {
        Some(conflict("That chat room is not ready yet."@))
    } else {
        None
    }
}

/// The state with the chat request used at `now`.
pub open spec fn with_used_chat(s: AppStateView, request_id: u128, now: Timestamp) -> AppStateView {
    AppStateView {
        direct_chat_requests: s.direct_chat_requests.insert(
            request_id,
            DirectChatRequestView {
                consumed_at: Some(now),
                updated_at: now,
                ..s.direct_chat_requests[request_id]
            },
        ),
        ..s
    }
}

/// Using a chat request to join: from `s` to `after`, with the given answer. It is used up
/// even if its room is gone.
pub open spec fn joins_chat(
    s: AppStateView,
    request_id: u128,
    session_id: u128,
    now: Timestamp,
    after: AppStateView,
    result: Result<DirectChatRequestSummaryView, ErrorView>,
) -> bool {
    match (chat_join_refusal(s, request_id, session_id), result) {
        (Some(refusal), Err(e)) => e == refusal && after == s,
        (None, answered) => {
            &&& after == with_used_chat(s, request_id, now)
            &&& if s.rooms.contains_key(s.direct_chat_requests[request_id].room_id->0) {
                answered == Ok::<DirectChatRequestSummaryView, ErrorView>(
                    direct_summary(after, after.direct_chat_requests[request_id], session_id),
                )
            } else {
                answered == Err::<DirectChatRequestSummaryView, ErrorView>(
                    conflict("That chat room is no longer available."@),
                )
            }
        },
        _ => false,
    }
}

/// Uses a chat request at `now` to join its room.
pub fn join_direct_chat_request_at(
    state: &mut AppState,
    request_id: u128,
    session_id: u128,
    now: Timestamp,
) -> (result: Result<DirectChatRequestSummary, ApiError>)
    ensures
        joins_chat(old(state)@, request_id, session_id, now, final(state)@, answer(result)),
{
    ensure_session(state, session_id)?;
    let room_id: u128 = match state.direct_chat_requests.get(&request_id) {
        Some(request) => {
            if request.requester_session != session_id {
                return Err(
                    ApiError::forbidden("Only the requester can use this chat join action."),
                );
            }
            if request.status != JoinRequestStatus::Accepted {
                return Err(ApiError::conflict("That chat request is not ready to join."));
            }
            if request.consumed_at.is_some() {
                return Err(ApiError::conflict("That chat join link was already used."));
            }
            match request.room_id {
                Some(room_id) => room_id,
                None => {
                    return Err(ApiError::conflict("That chat room is not ready yet."));
                },
            }
        },
        None => {
            return Err(ApiError::not_found("Chat request not found."));
        },
    };
    if let Some(mut request) = state.direct_chat_requests.remove(&request_id) {
        request.consumed_at = Some(now);
        request.updated_at = now;
        state.direct_chat_requests.insert(request_id, request);
    }
    if !state.rooms.contains_key(&room_id) {
        return Err(ApiError::conflict("That chat room is no longer available."));
    }
    match state.direct_chat_requests.get(&request_id) {
        Some(request) => Ok(direct_chat_request_summary(state, request, session_id)),
        None => Err(ApiError::not_found("Chat request not found.")),
    }
}

/// Uses a chat request to join its room.
pub fn join_direct_chat_request(
    state: &mut AppState,
    request_id: u128,
    session_id: u128,
) -> (result: Result<DirectChatRequestSummary, ApiError>)
    ensures
        exists|now: Timestamp|
            clock_time(now) && #[trigger] joins_chat(
                old(state)@,
                request_id,
                session_id,
                now,
                final(state)@,
                answer(result),
            ),
{
    let now = Timestamp::now();
    join_direct_chat_request_at(state, request_id, session_id, now)
}

/// The chat request, used at `now` if it is the session's own, accepted, unused request that
/// leads to the room.
pub open spec fn used_by_entry(
    request: DirectChatRequestView,
    room_id: u128,
    session_id: u128,
    now: Timestamp,
) -> DirectChatRequestView {
    if request.requester_session == session_id && request.room_id == Some(room_id)
        && request.status == JoinRequestStatus::Accepted && request.consumed_at is None {
        DirectChatRequestView { consumed_at: Some(now), updated_at: now, ..request }
    } else {
        request
    }
}

/// The state after the session came into the room: the chat requests that led it there are
/// used.
pub open spec fn with_chats_used(
    s: AppStateView,
    room_id: u128,
    session_id: u128,
    now: Timestamp,
) -> AppStateView {
    AppStateView {
        direct_chat_requests: s.direct_chat_requests.map_values(
            |request: DirectChatRequestView| used_by_entry(request, room_id, session_id, now),
        ),
        ..s
    }
}

/// Uses up at `now` the session's accepted chat requests that lead to the room.
pub fn consume_direct_chat_for_room(
    state: &mut AppState,
    room_id: u128,
    session_id: u128,
    now: Timestamp,
)
    ensures
        final(state)@ == with_chats_used(old(state)@, room_id, session_id, now),
{
    let keys = keys_of(&state.direct_chat_requests);
    let ghost before = old(state)@;
    let mut i: usize = 0;
    while i < keys.len()
        invariant
            i <= keys@.len(),
            lists(keys@, before.direct_chat_requests.dom()),
            state@ == (AppStateView {
                direct_chat_requests: state@.direct_chat_requests,
                ..before
            }),
            state@.direct_chat_requests.dom() == before.direct_chat_requests.dom(),
            forall|k: int|
                0 <= k < i ==> state@.direct_chat_requests[#[trigger] keys@[k]] == used_by_entry(
                    before.direct_chat_requests[keys@[k]],
                    room_id,
                    session_id,
                    now,
                ),
            forall|k: int|
                i <= k < keys@.len() ==> state@.direct_chat_requests[#[trigger] keys@[k]]
                    == before.direct_chat_requests[keys@[k]],
        decreases keys@.len() - i,
    {
        let key: u128 = keys[i];
        assert(keys@.contains(key));
        if let Some(mut request) = state.direct_chat_requests.remove(&key) {
            let leads_here = match request.room_id {
                Some(target) => target == room_id,
                None => false,
            };
            if request.requester_session == session_id && leads_here && request.status
                == JoinRequestStatus::Accepted && request.consumed_at.is_none() {
                request.consumed_at = Some(now);
                request.updated_at = now;
            }
            state.direct_chat_requests.insert(key, request);
        }
        i = i + 1;
    }
    proof {
        let expected = with_chats_used(before, room_id, session_id, now).direct_chat_requests;
        assert forall|key: u128| expected.contains_key(key) implies #[trigger] expected[key]
            == state@.direct_chat_requests[key] by {
            assert(keys@.contains(key));
        }
    }
}

} // verus!
