//! The join requests and chat requests that concern someone.

use crate::direct_chats::{direct_chat_request_can_join, direct_chat_request_summary};
use crate::direct_chats::{direct_summary, usable, DirectChatRequestSummary};
use crate::direct_chats::DirectChatRequestSummaryView;
use crate::error::{ApiError, ErrorView};
use crate::join_requests::{join_request_summary, join_summary, JoinRequestSummary};
use crate::join_requests::JoinRequestSummaryView;
use crate::ordering::{insert_by_age, insert_by_change, latest_first, oldest_first};
use crate::rooms::in_room;
use crate::sessions::{ensure_session, session_refusal};
use crate::state::{AppState, AppStateView, JoinRequestStatus};
use crate::tables::{group_tables, keys_of, lemma_portrays_insert, lemma_scanned_all};
use crate::tables::{lemma_scanned_none, lemma_scanned_step, lemma_view_items_insert, lists};
use crate::tables::{portrays, scanned, view_items};
use vstd::prelude::*;

verus! {

broadcast use {vstd::std_specs::hash::group_hash_axioms, group_tables};

/// The requests that concern someone.
pub struct JoinRequestsResponse {
    /// Pending requests for the rooms they are in, the oldest first.
    pub incoming: Vec<JoinRequestSummary>,
    /// Their own requests, the latest change first.
    pub outgoing: Vec<JoinRequestSummary>,
    /// Pending requests to chat with them, the oldest first.
    pub direct_incoming: Vec<DirectChatRequestSummary>,
    /// Their own chat requests that are pending or lead to a room, the latest change first.
    pub direct_outgoing: Vec<DirectChatRequestSummary>,
}

/// The pending requests for the rooms that the viewer is in.
pub open spec fn incoming_requests(s: AppStateView, viewer: u128) -> Set<u128> {
    s.join_requests.dom().filter(
        |key: u128|
            s.join_requests[key].status == JoinRequestStatus::Pending && in_room(
                s,
                s.join_requests[key].room_id,
                viewer,
            ),
    )
}

/// The viewer's own requests.
pub open spec fn outgoing_requests(s: AppStateView, viewer: u128) -> Set<u128> {
    s.join_requests.dom().filter(|key: u128| s.join_requests[key].requester_session == viewer)
}

/// The pending requests for a chat with the viewer.
pub open spec fn incoming_chats(s: AppStateView, viewer: u128) -> Set<u128> {
    s.direct_chat_requests.dom().filter(
        |key: u128|
            s.direct_chat_requests[key].status == JoinRequestStatus::Pending
                && s.direct_chat_requests[key].target_session == viewer,
    )
}

/// The viewer's own chat requests that are pending or lead to a room.
pub open spec fn outgoing_chats(s: AppStateView, viewer: u128) -> Set<u128> {
    s.direct_chat_requests.dom().filter(
        |key: u128|
            s.direct_chat_requests[key].requester_session == viewer && (
            s.direct_chat_requests[key].status == JoinRequestStatus::Pending || usable(
                s,
                s.direct_chat_requests[key],
                viewer,
            )),
    )
}

/// How a join request is shown to the viewer.
pub open spec fn request_shown(s: AppStateView, viewer: u128) -> spec_fn(
    u128,
    JoinRequestSummaryView,
) -> bool {
    |key: u128, shown: JoinRequestSummaryView|
        shown == join_summary(s, s.join_requests[key], viewer)
}

/// How a chat request is shown to the viewer.
pub open spec fn chat_shown(s: AppStateView, viewer: u128) -> spec_fn(
    u128,
    DirectChatRequestSummaryView,
) -> bool {
    |key: u128, shown: DirectChatRequestSummaryView|
        shown == direct_summary(s, s.direct_chat_requests[key], viewer)
}

/// Whether `response` shows the viewer what concerns them: every request once, as they see
/// it, and each list in order.
pub open spec fn shows_inbox(
    response: JoinRequestsResponse,
    s: AppStateView,
    viewer: u128,
) -> bool {
    &&& portrays(
        view_items(response.incoming@),
        incoming_requests(s, viewer),
        request_shown(s, viewer),
    )
    &&& oldest_first(response.incoming@)
    &&& portrays(
        view_items(response.outgoing@),
        outgoing_requests(s, viewer),
        request_shown(s, viewer),
    )
    &&& latest_first(response.outgoing@)
    &&& portrays(
        view_items(response.direct_incoming@),
        incoming_chats(s, viewer),
        chat_shown(s, viewer),
    )
    &&& oldest_first(response.direct_incoming@)
    &&& portrays(
        view_items(response.direct_outgoing@),
        outgoing_chats(s, viewer),
        chat_shown(s, viewer),
    )
    &&& latest_first(response.direct_outgoing@)
}

fn is_in_room(state: &AppState, room_id: u128, session_id: u128) -> (result: bool)
    ensures
        result == in_room(state@, room_id, session_id),
{
    match state.rooms.get(&room_id) {
        Some(room) => room.participants.contains(&session_id),
        None => false,
    }
}

/// The pending requests for the rooms that the viewer is in.
fn list_incoming(state: &AppState, viewer: u128) -> (result: Vec<JoinRequestSummary>)
    ensures
        portrays(view_items(result@), incoming_requests(state@, viewer), request_shown(state@, viewer)),
        oldest_first(result@),
{
    let keys = keys_of(&state.join_requests);
    let ghost wanted = incoming_requests(state@, viewer);
    let ghost fits = request_shown(state@, viewer);
    let mut items: Vec<JoinRequestSummary> = Vec::new();
    let mut i: usize = 0;
    proof {
        lemma_scanned_none(keys@, wanted);
    }
    while i < keys.len()
        invariant
            i <= keys@.len(),
            lists(keys@, state.join_requests@.dom()),
            wanted == incoming_requests(state@, viewer),
            fits == request_shown(state@, viewer),
            portrays(view_items(items@), scanned(keys@, i as int, wanted), fits),
            oldest_first(items@),
        decreases keys@.len() - i,
    {
        let key: u128 = keys[i];
        proof {
            lemma_scanned_step(keys@, i as int, wanted);
        }
        if let Some(request) = state.join_requests.get(&key) {
            if request.status == JoinRequestStatus::Pending && is_in_room(state, request.room_id, viewer) {
                let ghost before = items@;
                let summary = join_request_summary(state, request, viewer);
                let at: usize = insert_by_age(&mut items, summary);
                proof {
                    lemma_view_items_insert(before, at as int, summary);
                    lemma_portrays_insert(
                        view_items(before),
                        scanned(keys@, i as int, wanted),
                        fits,
                        at as int,
                        key,
                        summary@,
                    );
                }
            }
        }
        i = i + 1;
    }
    proof {
        lemma_scanned_all(keys@, wanted);
    }
    items
}

/// The viewer's own requests.
fn list_outgoing(state: &AppState, viewer: u128) -> (result: Vec<JoinRequestSummary>)
    ensures
        portrays(view_items(result@), outgoing_requests(state@, viewer), request_shown(state@, viewer)),
        latest_first(result@),
{
    let keys = keys_of(&state.join_requests);
    let ghost wanted = outgoing_requests(state@, viewer);
    let ghost fits = request_shown(state@, viewer);
    let mut items: Vec<JoinRequestSummary> = Vec::new();
    let mut i: usize = 0;
    proof {
        lemma_scanned_none(keys@, wanted);
    }
    while i < keys.len()
        invariant
            i <= keys@.len(),
            lists(keys@, state.join_requests@.dom()),
            wanted == outgoing_requests(state@, viewer),
            fits == request_shown(state@, viewer),
            portrays(view_items(items@), scanned(keys@, i as int, wanted), fits),
            latest_first(items@),
        decreases keys@.len() - i,
    {
        let key: u128 = keys[i];
        proof {
            lemma_scanned_step(keys@, i as int, wanted);
        }
        if let Some(request) = state.join_requests.get(&key) {
            if request.requester_session == viewer {
                let ghost before = items@;
                let summary = join_request_summary(state, request, viewer);
                let at: usize = insert_by_change(&mut items, summary);
                proof {
                    lemma_view_items_insert(before, at as int, summary);
                    lemma_portrays_insert(
                        view_items(before),
                        scanned(keys@, i as int, wanted),
                        fits,
                        at as int,
                        key,
                        summary@,
                    );
                }
            }
        }
        i = i + 1;
    }
    proof {
        lemma_scanned_all(keys@, wanted);
    }
    items
}

/// The pending requests for a chat with the viewer.
fn list_incoming_chats(state: &AppState, viewer: u128) -> (result: Vec<DirectChatRequestSummary>)
    ensures
        portrays(view_items(result@), incoming_chats(state@, viewer), chat_shown(state@, viewer)),
        oldest_first(result@),
{
    let keys = keys_of(&state.direct_chat_requests);
    let ghost wanted = incoming_chats(state@, viewer);
    let ghost fits = chat_shown(state@, viewer);
    let mut items: Vec<DirectChatRequestSummary> = Vec::new();
    let mut i: usize = 0;
    proof {
        lemma_scanned_none(keys@, wanted);
    }
    while i < keys.len()
        invariant
            i <= keys@.len(),
            lists(keys@, state.direct_chat_requests@.dom()),
            wanted == incoming_chats(state@, viewer),
            fits == chat_shown(state@, viewer),
            portrays(view_items(items@), scanned(keys@, i as int, wanted), fits),
            oldest_first(items@),
        decreases keys@.len() - i,
    {
        let key: u128 = keys[i];
        proof {
            lemma_scanned_step(keys@, i as int, wanted);
        }
        if let Some(request) = state.direct_chat_requests.get(&key) {
            if request.status == JoinRequestStatus::Pending && request.target_session == viewer {
                let ghost before = items@;
                let summary = direct_chat_request_summary(state, request, viewer);
                let at: usize = insert_by_age(&mut items, summary);
                proof {
                    lemma_view_items_insert(before, at as int, summary);
                    lemma_portrays_insert(
                        view_items(before),
                        scanned(keys@, i as int, wanted),
                        fits,
                        at as int,
                        key,
                        summary@,
                    );
                }
            }
        }
        i = i + 1;
    }
    proof {
        lemma_scanned_all(keys@, wanted);
    }
    items
}

/// The viewer's own chat requests that are pending or lead to a room.
fn list_outgoing_chats(state: &AppState, viewer: u128) -> (result: Vec<DirectChatRequestSummary>)
    ensures
        portrays(view_items(result@), outgoing_chats(state@, viewer), chat_shown(state@, viewer)),
        latest_first(result@),
{
    let keys = keys_of(&state.direct_chat_requests);
    let ghost wanted = outgoing_chats(state@, viewer);
    let ghost fits = chat_shown(state@, viewer);
    let mut items: Vec<DirectChatRequestSummary> = Vec::new();
    let mut i: usize = 0;
    proof {
        lemma_scanned_none(keys@, wanted);
    }
    while i < keys.len()
        invariant
            i <= keys@.len(),
            lists(keys@, state.direct_chat_requests@.dom()),
            wanted == outgoing_chats(state@, viewer),
            fits == chat_shown(state@, viewer),
            portrays(view_items(items@), scanned(keys@, i as int, wanted), fits),
            latest_first(items@),
        decreases keys@.len() - i,
    {
        let key: u128 = keys[i];
        proof {
            lemma_scanned_step(keys@, i as int, wanted);
        }
        if let Some(request) = state.direct_chat_requests.get(&key) {
            if request.requester_session == viewer && (request.status == JoinRequestStatus::Pending
                || direct_chat_request_can_join(state, request, viewer)) {
                let ghost before = items@;
                let summary = direct_chat_request_summary(state, request, viewer);
                let at: usize = insert_by_change(&mut items, summary);
                proof {
                    lemma_view_items_insert(before, at as int, summary);
                    lemma_portrays_insert(
                        view_items(before),
                        scanned(keys@, i as int, wanted),
                        fits,
                        at as int,
                        key,
                        summary@,
                    );
                }
            }
        }
        i = i + 1;
    }
    proof {
        lemma_scanned_all(keys@, wanted);
    }
    items
}

/// Looking for the requests that concern a session, with the given answer.
pub open spec fn reads_inbox(
    s: AppStateView,
    session_id: u128,
    result: Result<JoinRequestsResponse, ErrorView>,
) -> bool {
    match (session_refusal(s, session_id), result) {
        (Some(refusal), Err(e)) => e == refusal,
        (None, Ok(response)) => shows_inbox(response, s, session_id),
        _ => false,
    }
}

/// The requests that were found, or the refusal.
pub open spec fn inbox_answer(result: Result<JoinRequestsResponse, ApiError>) -> Result<
    JoinRequestsResponse,
    ErrorView,
> {
    match result {
        Ok(response) => Ok(response),
        Err(e) => Err(e@),
    }
}

/// The requests that concern a session.
pub fn list_join_requests(
    state: &AppState,
    session_id: u128,
) -> (result: Result<JoinRequestsResponse, ApiError>)
    ensures
        reads_inbox(state@, session_id, inbox_answer(result)),
{
    ensure_session(state, session_id)?;
    Ok(
        JoinRequestsResponse {
            incoming: list_incoming(state, session_id),
            outgoing: list_outgoing(state, session_id),
            direct_incoming: list_incoming_chats(state, session_id),
            direct_outgoing: list_outgoing_chats(state, session_id),
        },
    )
}

} // verus!
