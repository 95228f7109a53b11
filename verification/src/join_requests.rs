//! Requests to be let into a room.

use crate::chance::{new_id, random_id_shape};
use crate::error::{answer, conflict, forbidden, not_found, ApiError, ErrorView};
use crate::events::{sent_to, Dispatch, DispatchView, ServerWsEvent, ServerWsEventView};
use crate::ordering::Dated;
use crate::rooms::{broadcast, can_accept_join_request, channels, may_accept};
use crate::rooms::reserved_room_count;
use crate::sessions::{ensure_session, name_of, session_refusal};
use crate::state::{optional_text, AppState, AppStateView, JoinRequest, JoinRequestStatus};
use crate::state::{JoinRequestView, RoomView, MAX_ROOM_SIZE};
use crate::tables::{group_tables, keys_of, lemma_scanned_all, lemma_scanned_none};
use crate::tables::{lemma_scanned_step, lists, scanned, view_items};
use crate::time::{clock_time, Timestamp};
use vstd::prelude::*;

verus! {

broadcast use {vstd::std_specs::hash::group_hash_axioms, group_tables};

/// A join request as someone sees it.
pub struct JoinRequestSummary {
    pub id: u128,
    pub room_id: u128,
    pub requester_session: u128,
    pub requester_display_name: String,
    pub status: JoinRequestStatus,
    pub created_at: Timestamp,
    pub updated_at: Timestamp,
    pub accepted_by: Option<u128>,
    pub can_accept: bool,
    pub room_is_full: bool,
}

#[verifier::ext_equal]
pub struct JoinRequestSummaryView {
    pub id: u128,
    pub room_id: u128,
    pub requester_session: u128,
    pub requester_display_name: Seq<char>,
    pub status: JoinRequestStatus,
    pub created_at: Timestamp,
    pub updated_at: Timestamp,
    pub accepted_by: Option<u128>,
    pub can_accept: bool,
    pub room_is_full: bool,
}

impl View for JoinRequestSummary {
    type V = JoinRequestSummaryView;

    open spec fn view(&self) -> JoinRequestSummaryView {
        JoinRequestSummaryView {
            id: self.id,
            room_id: self.room_id,
            requester_session: self.requester_session,
            requester_display_name: self.requester_display_name@,
            status: self.status,
            created_at: self.created_at,
            updated_at: self.updated_at,
            accepted_by: self.accepted_by,
            can_accept: self.can_accept,
            room_is_full: self.room_is_full,
        }
    }
}

impl Dated for JoinRequestSummary {
    open spec fn created(&self) -> Timestamp {
        self.created_at
    }

    open spec fn updated(&self) -> Timestamp {
        self.updated_at
    }

    fn creation(&self) -> (result: Timestamp) {
        self.created_at
    }

    fn latest_change(&self) -> (result: Timestamp) {
        self.updated_at
    }
}

/// A join request as `viewer` sees it: whether they can accept it, and whether its room is
/// full. A room that is gone counts as full.
pub open spec fn join_summary(
    s: AppStateView,
    request: JoinRequestView,
    viewer: u128,
) -> JoinRequestSummaryView {
    JoinRequestSummaryView {
        id: request.id,
        room_id: request.room_id,
        requester_session: request.requester_session,
        requester_display_name: request.requester_display_name,
        status: request.status,
        created_at: request.created_at,
        updated_at: request.updated_at,
        accepted_by: request.accepted_by,
        can_accept: s.rooms.contains_key(request.room_id) && request.status
            == JoinRequestStatus::Pending && may_accept(s.rooms[request.room_id], viewer)
            && !s.rooms[request.room_id].full(),
        room_is_full: s.rooms.contains_key(request.room_id) ==> s.rooms[request.room_id].full(),
    }
}

/// The join request as `viewer_session` sees it.
pub fn join_request_summary(
    state: &AppState,
    request: &JoinRequest,
    viewer_session: u128,
) -> (result: JoinRequestSummary)
    ensures
        result@ == join_summary(state@, request@, viewer_session),
{
    let mut can_accept = false;
    let mut room_is_full = true;
    if let Some(room) = state.rooms.get(&request.room_id) {
        let reserved_count: usize = reserved_room_count(room);
        can_accept = request.status == JoinRequestStatus::Pending && can_accept_join_request(
            room,
            viewer_session,
        ) && reserved_count < MAX_ROOM_SIZE;
        room_is_full = reserved_count >= MAX_ROOM_SIZE;
    }
    JoinRequestSummary {
        id: request.id,
        room_id: request.room_id,
        requester_session: request.requester_session,
        requester_display_name: request.requester_display_name.clone(),
        status: request.status,
        created_at: request.created_at,
        updated_at: request.updated_at,
        accepted_by: request.accepted_by,
        can_accept,
        room_is_full,
    }
}

/// The pending requests for a room.
pub open spec fn pending_requests(s: AppStateView, room_id: u128) -> Set<u128> {
    s.join_requests.dom().filter(
        |key: u128|
            s.join_requests[key].room_id == room_id && s.join_requests[key].status
                == JoinRequestStatus::Pending,
    )
}

/// How many requests for the room are pending.
pub fn pending_request_count_for_room(state: &AppState, room_id: u128) -> (count: usize)
    ensures
        count == pending_requests(state@, room_id).len(),
{
    let keys = keys_of(&state.join_requests);
    let ghost wanted = pending_requests(state@, room_id);
    let mut count: usize = 0;
    let mut i: usize = 0;
    proof {
        lemma_scanned_none(keys@, wanted);
    }
    while i < keys.len()
        invariant
            i <= keys@.len(),
            count <= i,
            lists(keys@, state.join_requests@.dom()),
            wanted == pending_requests(state@, room_id),
            scanned(keys@, i as int, wanted).finite(),
            count == scanned(keys@, i as int, wanted).len(),
        decreases keys@.len() - i,
    {
        proof {
            lemma_scanned_step(keys@, i as int, wanted);
        }
        if let Some(request) = state.join_requests.get(&keys[i]) {
            if request.room_id == room_id && request.status == JoinRequestStatus::Pending {
                count = count + 1;
            }
        }
        i = i + 1;
    }
    proof {
        lemma_scanned_all(keys@, wanted);
    }
    count
}

/// The dispatch that tells a room how many requests are pending, and whose was made or
/// accepted.
pub open spec fn requests_changed(
    s: AppStateView,
    room_id: u128,
    requester_display_name: Option<Seq<char>>,
    accepted: bool,
) -> DispatchView {
    sent_to(
        room_id,
        channels(s, room_id),
        ServerWsEventView::JoinRequestsChanged {
            pending_count: pending_requests(s, room_id).len(),
            requester_display_name,
            accepted,
        },
    )
}

/// Tells a room how many requests are pending, and whose was made or accepted.
pub fn broadcast_join_requests_changed(
    state: &AppState,
    room_id: u128,
    requester_display_name: Option<String>,
    accepted: bool,
) -> (result: Dispatch)
    ensures
        result@ == requests_changed(
            state@,
            room_id,
            optional_text(requester_display_name),
            accepted,
        ),
{
    let pending_count: usize = pending_request_count_for_room(state, room_id);
    broadcast(
        state,
        room_id,
        ServerWsEvent::JoinRequestsChanged { pending_count, requester_display_name, accepted },
    )
}

/// What someone who made or accepted a join request is told.
pub struct JoinRequestResponse {
    pub request: JoinRequestSummary,
    /// What the members of the room are to be sent.
    pub dispatches: Vec<Dispatch>,
}

#[verifier::ext_equal]
pub struct JoinRequestResponseView {
    pub request: JoinRequestSummaryView,
    pub dispatches: Seq<DispatchView>,
}

impl View for JoinRequestResponse {
    type V = JoinRequestResponseView;

    open spec fn view(&self) -> JoinRequestResponseView {
        JoinRequestResponseView {
            request: self.request@,
            dispatches: view_items(self.dispatches@),
        }
    }
}

/// Why a session cannot ask to be let into a room.
pub open spec fn request_refusal(s: AppStateView, room_id: u128, session_id: u128) -> Option<ErrorView> {
    if session_refusal(s, session_id) is Some {
        session_refusal(s, session_id)
    } else if !s.rooms.contains_key(room_id) {
        Some(not_found("Room not found."@))
    } else if s.rooms[room_id].participants.contains(session_id) {
        Some(conflict("You are already in that room."@))
    } else if s.rooms[room_id].full() {
        Some(conflict("That room is already full."@))
    } else {
        None
    }
}

/// Whether `key` is a request of the session for the room.
pub open spec fn asks_for(s: AppStateView, key: u128, room_id: u128, session_id: u128) -> bool {
    s.join_requests.contains_key(key) && s.join_requests[key].room_id == room_id
        && s.join_requests[key].requester_session == session_id
}

/// A new request of the session for the room.
pub open spec fn new_join_request(
    s: AppStateView,
    room_id: u128,
    session_id: u128,
    fresh_id: u128,
    now: Timestamp,
) -> JoinRequestView {
    JoinRequestView {
        id: fresh_id,
        room_id,
        requester_session: session_id,
        requester_display_name: s.sessions[session_id].display_name,
        status: JoinRequestStatus::Pending,
        created_at: now,
        updated_at: now,
        accepted_by: None,
    }
}

/// Asking to be let into a room: from `s` to `after`, with the given answer. Whoever has
/// asked already is shown that request again.
pub open spec fn requests_entry(
    s: AppStateView,
    room_id: u128,
    session_id: u128,
    fresh_id: u128,
    now: Timestamp,
    after: AppStateView,
    result: Result<JoinRequestResponseView, ErrorView>,
) -> bool {
    match (request_refusal(s, room_id, session_id), result) {
        (Some(refusal), Err(e)) => e == refusal && after == s,
        (None, Ok(response)) => if exists|key: u128| asks_for(s, key, room_id, session_id) {
            &&& after == s
            &&& response.dispatches == Seq::<DispatchView>::empty()
            &&& exists|key: u128| #[trigger]
                asks_for(s, key, room_id, session_id) && response.request == join_summary(
                    s,
                    s.join_requests[key],
                    session_id,
                )
        } else {
            let request = new_join_request(s, room_id, session_id, fresh_id, now);
            &&& after == AppStateView {
                join_requests: s.join_requests.insert(fresh_id, request),
                ..s
            }
            &&& response.request == join_summary(after, request, session_id)
            &&& response.dispatches == seq![
                requests_changed(after, room_id, Some(request.requester_display_name), false),
            ]
        },
        _ => false,
    }
}

/// The request of the session for the room, if it has made one.
fn find_join_request(state: &AppState, room_id: u128, session_id: u128) -> (result: Option<u128>)
    ensures
        match result {
            Some(key) => asks_for(state@, key, room_id, session_id),
            None => forall|key: u128| !asks_for(state@, key, room_id, session_id),
        },
{
    let keys = keys_of(&state.join_requests);
    let mut i: usize = 0;
    while i < keys.len()
        invariant
            i <= keys@.len(),
            lists(keys@, state.join_requests@.dom()),
            forall|k: int|
                0 <= k < i ==> !asks_for(state@, #[trigger] keys@[k], room_id, session_id),
        decreases keys@.len() - i,
    {
        if let Some(request) = state.join_requests.get(&keys[i]) {
            if request.room_id == room_id && request.requester_session == session_id {
                return Some(keys[i]);
            }
        }
        i = i + 1;
    }
    assert forall|key: u128| !asks_for(state@, key, room_id, session_id) by {
        if state@.join_requests.contains_key(key) {
            assert(keys@.contains(key));
        }
    }
    None
}

/// Asks at `now` for the session to be let into the room; a new request is `fresh_id`.
pub fn create_join_request_with(
    state: &mut AppState,
    room_id: u128,
    session_id: u128,
    fresh_id: u128,
    now: Timestamp,
) -> (result: Result<JoinRequestResponse, ApiError>)
    ensures
        requests_entry(
            old(state)@,
            room_id,
            session_id,
            fresh_id,
            now,
            final(state)@,
            answer(result),
        ),
{
    ensure_session(state, session_id)?;
    let requester_display_name = name_of(state, session_id);
    match state.rooms.get(&room_id) {
        Some(room) => {
            if room.participants.contains(&session_id) {
                return Err(ApiError::conflict("You are already in that room."));
            }
            if reserved_room_count(room) >= MAX_ROOM_SIZE {
                return Err(ApiError::conflict("That room is already full."));
            }
        },
        None => {
            return Err(ApiError::not_found("Room not found."));
        },
    }
    if let Some(key) = find_join_request(state, room_id, session_id) {
        if let Some(existing) = state.join_requests.get(&key) {
            let response = JoinRequestResponse {
                request: join_request_summary(state, existing, session_id),
                dispatches: Vec::new(),
            };
            assert(response@.dispatches =~= Seq::<DispatchView>::empty());
            return Ok(response);
        }
    }
    let request = JoinRequest {
        id: fresh_id,
        room_id,
        requester_session: session_id,
        requester_display_name,
        status: JoinRequestStatus::Pending,
        created_at: now,
        updated_at: now,
        accepted_by: None,
    };
    let ghost expected = new_join_request(old(state)@, room_id, session_id, fresh_id, now);
    let name = request.requester_display_name.clone();
    state.join_requests.insert(fresh_id, request);
    let summary = match state.join_requests.get(&fresh_id) {
        Some(request) => join_request_summary(state, request, session_id),
        None => {
            return Err(ApiError::not_found("Join request not found."));
        },
    };
    let changed = broadcast_join_requests_changed(state, room_id, Some(name), false);
    let mut dispatches: Vec<Dispatch> = Vec::new();
    dispatches.push(changed);
    let response = JoinRequestResponse { request: summary, dispatches };
    assert(response@.dispatches =~= seq![
        requests_changed(state@, room_id, Some(expected.requester_display_name), false),
    ]);
    Ok(response)
}

/// Asks for the session to be let into the room.
pub fn create_join_request(
    state: &mut AppState,
    room_id: u128,
    session_id: u128,
) -> (result: Result<JoinRequestResponse, ApiError>)
    ensures
        exists|fresh_id: u128, now: Timestamp|
            clock_time(now) && random_id_shape(fresh_id) && #[trigger] requests_entry(
                old(state)@,
                room_id,
                session_id,
                fresh_id,
                now,
                final(state)@,
                answer(result),
            ),
{
    let fresh_id: u128 = new_id();
    let now = Timestamp::now();
    create_join_request_with(state, room_id, session_id, fresh_id, now)
}

/// Why a session cannot accept a join request.
pub open spec fn accept_refusal(s: AppStateView, request_id: u128, session_id: u128) -> Option<ErrorView> {
    let request = s.join_requests[request_id];
    let room = s.rooms[request.room_id];
    if session_refusal(s, session_id) is Some {
        session_refusal(s, session_id)
    } else if !s.join_requests.contains_key(request_id) {
        Some(not_found("Join request not found."@))
    } else if !s.rooms.contains_key(request.room_id) {
        Some(not_found("Room not found."@))
    } else if !may_accept(room, session_id) {
        Some(forbidden("You do not have permission to accept requests for this room."@))
    } else if room.participants.contains(request.requester_session) {
        Some(conflict("That person is already in the room."@))
    } else if !room.approved_joiners.contains(request.requester_session) && room.full() {
        Some(conflict("This room is already full."@))
    } else {
        None
    }
}

/// The request, accepted at `now`.
pub open spec fn accepted_request(
    request: JoinRequestView,
    session_id: u128,
    now: Timestamp,
) -> JoinRequestView {
    JoinRequestView {
        status: JoinRequestStatus::Accepted,
        updated_at: now,
        accepted_by: Some(session_id),
        ..request
    }
}

/// The state with the request accepted and its requester approved in the room.
pub open spec fn with_accepted(
    s: AppStateView,
    request_id: u128,
    session_id: u128,
    now: Timestamp,
) -> AppStateView {
    let request = s.join_requests[request_id];
    let room = s.rooms[request.room_id];
    AppStateView {
        join_requests: s.join_requests.insert(
            request_id,
            accepted_request(request, session_id, now),
        ),
        rooms: s.rooms.insert(
            request.room_id,
            RoomView {
                approved_joiners: room.approved_joiners.insert(request.requester_session),
                ..room
            },
        ),
        ..s
    }
}

/// Accepting a join request: from `s` to `after`, with the given answer.
pub open spec fn accepts_entry(
    s: AppStateView,
    request_id: u128,
    session_id: u128,
    now: Timestamp,
    after: AppStateView,
    result: Result<JoinRequestResponseView, ErrorView>,
) -> bool {
    match (accept_refusal(s, request_id, session_id), result) {
        (Some(refusal), Err(e)) => e == refusal && after == s,
        (None, Ok(response)) => {
            let request = accepted_request(s.join_requests[request_id], session_id, now);
            &&& after == with_accepted(s, request_id, session_id, now)
            &&& response.request == join_summary(after, request, session_id)
            &&& response.dispatches == seq![
                requests_changed(
                    after,
                    request.room_id,
                    Some(request.requester_display_name),
                    true,
                ),
            ]
        },
        _ => false,
    }
}

/// Accepts a join request at `now`: its requester may enter the room.
pub fn accept_join_request_at(
    state: &mut AppState,
    request_id: u128,
    session_id: u128,
    now: Timestamp,
) -> (result: Result<JoinRequestResponse, ApiError>)
    ensures
        accepts_entry(
            old(state)@,
            request_id,
            session_id,
            now,
            final(state)@,
            answer(result),
        ),
{
    ensure_session(state, session_id)?;
    let (room_id, requester): (u128, u128) = match state.join_requests.get(&request_id) {
        Some(request) => (request.room_id, request.requester_session),
        None => {
            return Err(ApiError::not_found("Join request not found."));
        },
    };
    match state.rooms.get(&room_id) {
        Some(room) => {
            if !can_accept_join_request(room, session_id) {
                return Err(
                    ApiError::forbidden(
                        "You do not have permission to accept requests for this room.",
                    ),
                );
            }
            if room.participants.contains(&requester) {
                return Err(ApiError::conflict("That person is already in the room."));
            }
            if !room.approved_joiners.contains(&requester) && reserved_room_count(room)
                >= MAX_ROOM_SIZE {
                return Err(ApiError::conflict("This room is already full."));
            }
        },
        None => {
            return Err(ApiError::not_found("Room not found."));
        },
    }
    if let Some(mut request) = state.join_requests.remove(&request_id) {
        request.status = JoinRequestStatus::Accepted;
        request.updated_at = now;
        request.accepted_by = Some(session_id);
        state.join_requests.insert(request_id, request);
    }
    if let Some(mut room) = state.rooms.remove(&room_id) {
        room.approved_joiners.insert(requester);
        state.rooms.insert(room_id, room);
    }
    let summary = match state.join_requests.get(&request_id) {
        Some(request) => join_request_summary(state, request, session_id),
        None => {
            return Err(ApiError::not_found("Join request not found."));
        },
    };
    let name = summary.requester_display_name.clone();
    let changed = broadcast_join_requests_changed(state, room_id, Some(name), true);
    let mut dispatches: Vec<Dispatch> = Vec::new();
    dispatches.push(changed);
    let response = JoinRequestResponse { request: summary, dispatches };
    assert(response@.dispatches =~= seq![
        requests_changed(state@, room_id, Some(response@.request.requester_display_name), true),
    ]);
    Ok(response)
}

/// Accepts a join request: its requester may enter the room.
pub fn accept_join_request(
    state: &mut AppState,
    request_id: u128,
    session_id: u128,
) -> (result: Result<JoinRequestResponse, ApiError>)
    ensures
        exists|now: Timestamp|
            clock_time(now) && #[trigger] accepts_entry(
                old(state)@,
                request_id,
                session_id,
                now,
                final(state)@,
                answer(result),
            ),
{
    let now = Timestamp::now();
    accept_join_request_at(state, request_id, session_id, now)
}

} // verus!
