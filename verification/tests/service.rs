//! The service as a whole, one situation at a time.

use camera_fodder::direct_chats::{
    accept_direct_chat_request, create_direct_chat_request, join_direct_chat_request,
};
use camera_fodder::directory::list_directory;
use camera_fodder::error::ErrorStatus;
use camera_fodder::inbox::list_join_requests;
use camera_fodder::join_requests::{accept_join_request, create_join_request};
use camera_fodder::presence::{
    broadcast_stats, compute_stats, register_presence, release_presence,
    PENDING_ROOM_JOIN_TIMEOUT_SECONDS, PRESENCE_TIMEOUT_SECONDS,
};
use camera_fodder::rooms::find_match;
use camera_fodder::sessions::{
    create_session, get_session, guest, signin, signup, SigninRequest, SignupRequest,
};
use camera_fodder::state::{
    AppState, DirectoryEntry, JoinRequestStatus, PresenceConnectionKind, Room,
};
use camera_fodder::Timestamp;
use std::collections::{HashMap, HashSet};
use uuid::Uuid;

fn new_id() -> u128 {
    Uuid::new_v4().as_u128()
}

fn seconds_ago(seconds: i64) -> Timestamp {
    let now = Timestamp::now();
    Timestamp::new(now.secs() - seconds, now.nanos()).unwrap()
}

fn listing(session_id: u128, name: &str) -> DirectoryEntry {
    DirectoryEntry {
        session_id,
        display_name: name.to_string(),
        room_id: None,
        available: true,
        updated_at: Timestamp::now(),
    }
}

fn room_of_one(room_id: u128, host: u128, joined_at: Timestamp) -> Room {
    Room {
        id: room_id,
        host_session: host,
        host_controls_joiners: false,
        share_link_enabled: false,
        participants: HashSet::from([host]),
        participant_joined_at: HashMap::from([(host, joined_at)]),
        approved_joiners: HashSet::new(),
        senders: HashSet::new(),
        connection_ids: HashMap::new(),
        waiting_for_random: false,
        created_at: joined_at,
    }
}

#[test]
fn host_control_rooms_do_not_match_each_other() {
    let mut state = AppState::default();
    let s1 = create_session(&mut state, "One".into(), None);
    let s2 = create_session(&mut state, "Two".into(), None);
    let room_id = new_id();
    let mut room = room_of_one(room_id, s1.id, Timestamp::now());
    room.host_controls_joiners = true;
    room.waiting_for_random = true;
    state.rooms.insert(room_id, room);
    assert!(find_match(&state, 2, true).is_none());
    assert!(find_match(&state, 2, false).is_some());
    assert_ne!(s1.id, s2.id);
}

#[test]
fn signup_signin_and_session_lookup_work() {
    let mut state = AppState::default();
    let signed_up = signup(
        &mut state,
        &SignupRequest {
            email: "person@example.com".into(),
            password: "correct horse battery staple".into(),
            display_name: "Person".into(),
        },
    )
    .unwrap();
    let signed_in = signin(
        &mut state,
        &SigninRequest {
            email: "person@example.com".into(),
            password: "correct horse battery staple".into(),
        },
    );
    assert!(signed_in.is_ok());
    let found = get_session(&state, signed_up.id).unwrap();
    assert_eq!(found.id, signed_up.id);
    assert_eq!(found.display_name, "Person");
    assert_eq!(found.account_email, Some("person@example.com".to_string()));
}

#[test]
fn online_stats_count_distinct_live_sessions() {
    let mut state = AppState::default();
    let session_id = new_id();
    let first_connection = register_presence(&mut state, session_id, PresenceConnectionKind::Stats);
    let second_connection =
        register_presence(&mut state, session_id, PresenceConnectionKind::Stats);

    assert_eq!(compute_stats(&state).online_count, 1);
    release_presence(&mut state, first_connection);
    assert_eq!(compute_stats(&state).online_count, 1);
    release_presence(&mut state, second_connection);
    assert_eq!(compute_stats(&state).online_count, 0);
}

#[test]
fn stale_room_presence_removes_participant_from_counts() {
    let mut state = AppState::default();
    let session_id = new_id();
    let room_id = new_id();
    let connection_id = register_presence(
        &mut state,
        session_id,
        PresenceConnectionKind::Room { room_id },
    );
    if let Some(connection) = state.presence_connections.get_mut(&connection_id) {
        connection.last_seen = seconds_ago(PRESENCE_TIMEOUT_SECONDS + 1);
    }
    let mut room = room_of_one(room_id, session_id, Timestamp::now());
    room.connection_ids = HashMap::from([(session_id, connection_id)]);
    state.rooms.insert(room_id, room);

    broadcast_stats(&mut state);

    assert_eq!(compute_stats(&state).online_count, 0);
    assert_eq!(compute_stats(&state).in_call_count, 0);
    assert!(!state.rooms.contains_key(&room_id));
}

#[test]
fn pending_room_participant_without_socket_is_pruned() {
    let mut state = AppState::default();
    let session_id = new_id();
    let room_id = new_id();
    let stale_joined_at = seconds_ago(PENDING_ROOM_JOIN_TIMEOUT_SECONDS + 1);
    let mut room = room_of_one(room_id, session_id, stale_joined_at);
    room.waiting_for_random = true;
    state.rooms.insert(room_id, room);

    broadcast_stats(&mut state);

    assert_eq!(compute_stats(&state).in_call_count, 0);
    assert!(!state.rooms.contains_key(&room_id));
}

#[test]
fn directory_hides_opted_in_users_without_active_presence() {
    let mut state = AppState::default();
    let ghost = create_session(&mut state, "Ghost".into(), None);
    state.directory.insert(ghost.id, listing(ghost.id, "Ghost"));

    let entries = list_directory(&mut state);
    assert_eq!(entries.len(), 0);
}

/// A requester and a target who is listed, both online.
fn two_people(state: &mut AppState) -> (u128, u128) {
    let requester = create_session(state, "Requester".into(), None);
    let target = create_session(state, "Target".into(), None);
    state.directory.insert(target.id, listing(target.id, "Target"));
    register_presence(state, target.id, PresenceConnectionKind::Stats);
    register_presence(state, requester.id, PresenceConnectionKind::Stats);
    (requester.id, target.id)
}

#[test]
fn direct_chat_request_creates_room_on_accept() {
    let mut state = AppState::default();
    let (requester, target) = two_people(&mut state);

    let request = create_direct_chat_request(&mut state, requester, target).unwrap();
    let accepted = accept_direct_chat_request(&mut state, request.id, target).unwrap();
    assert!(accepted.status == JoinRequestStatus::Accepted);
    assert!(accepted.room_id.is_some());
}

#[test]
fn direct_chat_join_is_one_time_and_disappears_from_outgoing() {
    let mut state = AppState::default();
    let (requester, target) = two_people(&mut state);

    let request = create_direct_chat_request(&mut state, requester, target).unwrap();
    assert!(accept_direct_chat_request(&mut state, request.id, target).is_ok());

    let inbox = list_join_requests(&state, requester).unwrap();
    assert_eq!(inbox.direct_outgoing.len(), 1);
    assert!(inbox.direct_outgoing[0].can_join);

    let joined = join_direct_chat_request(&mut state, request.id, requester).unwrap();
    assert!(!joined.can_join);
    assert!(joined.consumed_at.is_some());

    let inbox = list_join_requests(&state, requester).unwrap();
    assert!(inbox.direct_outgoing.is_empty());
}

#[test]
fn directory_lists_live_room_membership_for_opted_in_users() {
    let mut state = AppState::default();
    let host = create_session(&mut state, "Host".into(), None);
    let room_id = new_id();
    state.directory.insert(host.id, listing(host.id, "Host"));
    state
        .rooms
        .insert(room_id, room_of_one(room_id, host.id, Timestamp::now()));
    register_presence(
        &mut state,
        host.id,
        PresenceConnectionKind::Room { room_id },
    );

    let entries = list_directory(&mut state);
    assert_eq!(entries[0].room_id, Some(room_id));
}

#[test]
fn guest_name_cannot_match_registered_display_name() {
    let mut state = AppState::default();
    let signed_up = signup(
        &mut state,
        &SignupRequest {
            email: "reserved@example.com".into(),
            password: "correct horse battery staple".into(),
            display_name: "ReservedName".into(),
        },
    );
    assert!(signed_up.is_ok());

    let refusal = guest(&mut state, &Some("ReservedName".into())).err().unwrap();
    assert_eq!(refusal.status, ErrorStatus::Conflict);
    assert_eq!(refusal.status.code(), 409);
}

#[test]
fn guest_name_cannot_be_reused_by_another_session() {
    let mut state = AppState::default();
    assert!(guest(&mut state, &Some("Picklewizard".into())).is_ok());

    let refusal = guest(&mut state, &Some("picklewizard".into())).err().unwrap();
    assert_eq!(refusal.status, ErrorStatus::Conflict);
}

#[test]
fn accepted_directory_request_approves_join_without_share_link() {
    let mut state = AppState::default();
    let host = create_session(&mut state, "Host".into(), None);
    let requester = create_session(&mut state, "Joiner".into(), None);
    let room_id = new_id();
    state
        .rooms
        .insert(room_id, room_of_one(room_id, host.id, Timestamp::now()));

    let asked = create_join_request(&mut state, room_id, requester.id).unwrap();
    assert!(accept_join_request(&mut state, asked.request.id, host.id).is_ok());

    let room = state.rooms.get(&room_id).unwrap();
    assert!(room.approved_joiners.contains(&requester.id));
    assert!(!room.participants.contains(&requester.id));
}
