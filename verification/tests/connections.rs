//! Connections to rooms and to the head counts.

use camera_fodder::direct_chats::create_direct_chat_request_with;
use camera_fodder::events::{ClientWsEvent, Dispatch, ServerWsEvent};
use camera_fodder::presence::{
    broadcast_stats_at, compute_stats_at, drop_stats_subscribers, register_presence_with,
    release_presence_at, release_session_presence, touch_presence_at,
};
use camera_fodder::rooms::{
    broadcast, broadcast_except, enter_room_at, send_to, start_random_room_with, StartRoomRequest,
};
use camera_fodder::sessions::guest_with;
use camera_fodder::sockets::{
    close_connection, close_connection_at, close_stats_socket, close_stats_socket_at,
    open_room_socket, open_room_socket_with, open_stats_socket, open_stats_socket_with,
    room_message, room_message_at, stats_message, stats_message_at, RoomMessage,
};
use camera_fodder::state::{AppState, PresenceConnectionKind};
use camera_fodder::Timestamp;

fn at(secs: i64) -> Timestamp {
    Timestamp::new(secs, 0).unwrap()
}

/// Room 100 with sessions 1 to `count` in it since second 1, named `P1`, `P2` and so on.
fn room_with(count: u128) -> AppState {
    let mut state = AppState::default();
    for id in 1..=count {
        assert!(guest_with(&mut state, &Some(format!("P{id}")), 0, id, at(0)).is_ok());
    }
    let request = StartRoomRequest {
        session_id: 1,
        size: None,
        host_controls_joiners: None,
        share_link_enabled: Some(true),
    };
    assert!(start_random_room_with(&mut state, &request, None, 100, at(1)).is_ok());
    for id in 2..=count {
        assert!(enter_room_at(&mut state, 100, id, at(1)).is_ok());
    }
    state
}

/// The same, with everyone connected at second 2; the connection of session 1 is 1001, and so
/// on.
fn connected_room(count: u128) -> AppState {
    let mut state = room_with(count);
    for id in 1..=count {
        open_room_socket_with(&mut state, 100, id, 1000 + id, at(2));
    }
    state
}

fn recipients(dispatch: &Dispatch) -> Vec<u128> {
    let mut ids = dispatch.recipients.clone();
    ids.sort();
    ids
}

#[test]
fn whoever_connects_is_welcomed_and_announced() {
    let mut state = room_with(2);
    let first = open_room_socket_with(&mut state, 100, 1, 1001, at(2));
    assert_eq!(first.connection_id, 1001);
    assert_eq!(first.display_name, "P1");
    assert!(first.dispatches[0].recipients.is_empty());
    let second = open_room_socket_with(&mut state, 100, 2, 1002, at(3));
    match second.welcome {
        Some(ServerWsEvent::Welcome { room, you }) => {
            assert_eq!(you, 2);
            assert_eq!(room.id, 100);
            assert_eq!(room.participants.len(), 2);
        }
        _ => panic!("expected a welcome"),
    }
    assert_eq!(second.dispatches.len(), 1);
    assert_eq!(second.dispatches[0].recipients, [1]);
    match &second.dispatches[0].event {
        ServerWsEvent::PeerJoined { peer } => {
            assert_eq!(peer.session_id, 2);
            assert_eq!(peer.display_name, "P2");
        }
        _ => panic!("expected an announcement"),
    }
    assert_eq!(second.stats.snapshot.online_count, 2);
    assert_eq!(second.stats.snapshot.in_call_count, 2);
    assert_eq!(state.rooms[&100].connection_ids[&2], 1002);
}

#[test]
fn connecting_to_a_room_that_is_gone_welcomes_nobody() {
    let mut state = AppState::default();
    let greeting = open_room_socket(&mut state, 100, 1);
    assert!(greeting.welcome.is_none());
    assert!(greeting.dispatches.is_empty());
    assert_eq!(greeting.display_name, "Guest");
    assert_eq!(state.presence_connections.len(), 1);
    close_connection(&mut state, greeting.connection_id);
    assert!(state.presence_connections.is_empty());
}

#[test]
fn chat_reaches_everyone_clipped() {
    let mut state = connected_room(3);
    let name = "P1".to_string();
    let text = "é".repeat(501);
    let event = RoomMessage::Event(ClientWsEvent::Chat { text });
    let reply = room_message_at(&mut state, 100, 1, 1001, &name, event, at(9));
    assert!(!reply.leave);
    assert_eq!(reply.dispatches.len(), 1);
    assert_eq!(recipients(&reply.dispatches[0]), [1, 2, 3]);
    match &reply.dispatches[0].event {
        ServerWsEvent::Chat { from, display_name, text, at: when } => {
            assert_eq!(*from, 1);
            assert_eq!(display_name, "P1");
            assert_eq!(text, &"é".repeat(500));
            assert_eq!(*when, at(9));
        }
        _ => panic!("expected a chat line"),
    }
    assert_eq!(state.presence_connections[&1001].last_seen, at(9));
}

#[test]
fn signals_reach_their_target_only() {
    let mut state = connected_room(3);
    let name = "P1".to_string();
    let payload = serde_json::Value::String("offer".into());
    let event = RoomMessage::Event(ClientWsEvent::Signal { to: 3, payload: payload.clone() });
    let reply = room_message(&mut state, 100, 1, 1001, &name, event);
    assert_eq!(reply.dispatches[0].recipients, [3]);
    match &reply.dispatches[0].event {
        ServerWsEvent::Signal { from, payload: handed_on } => {
            assert_eq!(*from, 1);
            assert_eq!(handed_on, &payload);
        }
        _ => panic!("expected a signal"),
    }
    let event = RoomMessage::Event(ClientWsEvent::Signal { to: 9, payload });
    let reply = room_message(&mut state, 100, 1, 1001, &name, event);
    assert!(reply.dispatches[0].recipients.is_empty());
}

#[test]
fn presence_reaches_the_others() {
    let mut state = connected_room(3);
    let name = "P2".to_string();
    let event = RoomMessage::Event(ClientWsEvent::Presence {
        audio_enabled: true,
        video_enabled: false,
        screen_sharing: true,
    });
    let reply = room_message_at(&mut state, 100, 2, 1002, &name, event, at(3));
    assert_eq!(recipients(&reply.dispatches[0]), [1, 3]);
    match reply.dispatches[0].event {
        ServerWsEvent::Presence { from, audio_enabled, video_enabled, screen_sharing } => {
            assert_eq!(from, 2);
            assert!(audio_enabled && !video_enabled && screen_sharing);
        }
        _ => panic!("expected presence"),
    }
}

#[test]
fn other_messages() {
    let mut state = connected_room(2);
    let name = "P1".to_string();
    let reply = room_message_at(&mut state, 100, 1, 1001, &name, RoomMessage::Malformed, at(3));
    assert_eq!(reply.dispatches[0].recipients, [1]);
    match &reply.dispatches[0].event {
        ServerWsEvent::Error { message } => assert_eq!(message, "Malformed websocket event."),
        _ => panic!("expected a complaint"),
    }
    let heartbeat = RoomMessage::Event(ClientWsEvent::Heartbeat);
    let reply = room_message_at(&mut state, 100, 1, 1001, &name, heartbeat, at(4));
    assert!(reply.dispatches.is_empty() && !reply.leave);
    let reply = room_message_at(&mut state, 100, 1, 1001, &name, RoomMessage::Quiet, at(5));
    assert!(reply.dispatches.is_empty() && !reply.leave);
    let leave = RoomMessage::Event(ClientWsEvent::Leave);
    assert!(room_message_at(&mut state, 100, 1, 1001, &name, leave, at(6)).leave);
    assert!(room_message_at(&mut state, 100, 1, 1001, &name, RoomMessage::Close, at(7)).leave);
    assert_eq!(state.presence_connections[&1001].last_seen, at(7));
}

#[test]
fn closing_a_connection_leaves_the_room() {
    let mut state = connected_room(3);
    let closing = close_connection_at(&mut state, 1001, at(4));
    assert!(!state.rooms[&100].participants.contains(&1));
    assert!(!state.presence_connections.contains_key(&1001));
    assert_eq!(closing.dispatches.len(), 2);
    assert_eq!(recipients(&closing.dispatches[0]), [2, 3]);
    assert!(matches!(
        closing.dispatches[0].event,
        ServerWsEvent::PeerLeft { peer_id: 1 }
    ));
    match &closing.dispatches[1].event {
        ServerWsEvent::RoomUpdated { room } => {
            assert_eq!(room.participants.len(), 2);
            assert!(room.host_session == 2 || room.host_session == 3);
        }
        _ => panic!("expected the room"),
    }
    assert_eq!(closing.stats.snapshot.in_call_count, 2);
}

#[test]
fn whoever_reconnected_stays_when_the_old_connection_ends() {
    let mut state = connected_room(2);
    open_room_socket_with(&mut state, 100, 1, 2001, at(3));
    let closing = close_connection_at(&mut state, 1001, at(4));
    assert!(closing.dispatches.is_empty());
    assert!(state.rooms[&100].participants.contains(&1));
    assert_eq!(state.rooms[&100].connection_ids[&1], 2001);
    assert_eq!(closing.stats.snapshot.online_count, 2);
}

#[test]
fn a_sweep_spares_the_present_and_drops_the_rest() {
    let mut state = connected_room(3);
    assert!(guest_with(&mut state, &Some("Late".into()), 0, 4, at(0)).is_ok());
    assert!(guest_with(&mut state, &Some("Soon".into()), 0, 5, at(0)).is_ok());
    assert!(enter_room_at(&mut state, 100, 4, at(17)).is_ok());
    assert!(enter_room_at(&mut state, 100, 5, at(18)).is_ok());
    touch_presence_at(&mut state, 1002, at(3));
    touch_presence_at(&mut state, 1003, at(40));
    // At second 48 the first connection is silent for 46 seconds, the second for 45, and the
    // fourth person has not connected for 31 seconds, the fifth for 30.
    let swept = broadcast_stats_at(&mut state, at(48));
    let mut inside: Vec<_> = state.rooms[&100].participants.iter().copied().collect();
    inside.sort();
    assert_eq!(inside, [2, 3, 5]);
    assert_eq!(swept.snapshot.online_count, 2);
    assert_eq!(swept.snapshot.in_call_count, 3);
    assert_eq!(swept.dispatches.len(), 4);
    assert_eq!(compute_stats_at(&state, at(48)), swept.snapshot);
    // A second sweep finds nothing.
    let again = broadcast_stats_at(&mut state, at(48));
    assert!(again.dispatches.is_empty());
    assert_eq!(again.snapshot, swept.snapshot);
}

#[test]
fn everyone_is_counted_once() {
    let mut state = connected_room(2);
    register_presence_with(&mut state, 1, PresenceConnectionKind::Stats, 7, at(2));
    let request = StartRoomRequest {
        session_id: 1,
        size: None,
        host_controls_joiners: None,
        share_link_enabled: None,
    };
    assert!(start_random_room_with(&mut state, &request, None, 101, at(2)).is_ok());
    let counted = compute_stats_at(&state, at(3));
    assert_eq!((counted.online_count, counted.in_call_count), (2, 2));
}

#[test]
fn subscribers_are_told_the_counts() {
    let mut state = connected_room(1);
    let greeting = open_stats_socket_with(&mut state, Some(1), 70, 71, at(3));
    assert_eq!(greeting.subscriber_id, 70);
    assert_eq!(greeting.connection_id, Some(71));
    assert_eq!(greeting.first.online_count, 1);
    assert_eq!(greeting.stats.subscribers, [70]);
    let stranger = open_stats_socket_with(&mut state, Some(99), 72, 73, at(3));
    assert_eq!(stranger.connection_id, None);
    stats_message_at(&mut state, Some(71), at(9));
    stats_message_at(&mut state, None, at(10));
    stats_message(&mut state, None);
    assert_eq!(state.presence_connections[&71].last_seen, at(9));

    // By now everyone who was heard of at second 9 is long gone.
    let nobody = open_stats_socket(&mut state, None);
    assert_eq!(nobody.connection_id, None);
    assert_eq!(state.stats_subscribers.len(), 3);
    assert_eq!(nobody.stats.snapshot.online_count, 0);
    assert!(state.rooms.is_empty());
}

#[test]
fn a_subscription_ends_with_its_connection() {
    let mut state = connected_room(1);
    open_stats_socket_with(&mut state, Some(1), 70, 71, at(3));
    open_stats_socket_with(&mut state, None, 72, 73, at(3));
    let closing = close_stats_socket_at(&mut state, 70, Some(71), at(4));
    assert!(closing.dispatches.is_empty());
    assert_eq!(closing.stats.subscribers, [72]);
    assert!(!state.presence_connections.contains_key(&71));
    assert!(state.presence_connections.contains_key(&1001));
    close_stats_socket(&mut state, 72, None);
    assert!(state.stats_subscribers.is_empty());
}

#[test]
fn unreachable_subscribers_are_forgotten() {
    let mut state = AppState::default();
    for id in 1..=4 {
        state.stats_subscribers.insert(id);
    }
    drop_stats_subscribers(&mut state, &vec![2, 4, 9]);
    let mut left: Vec<_> = state.stats_subscribers.into_iter().collect();
    left.sort();
    assert_eq!(left, [1, 3]);
}

#[test]
fn ending_a_stats_connection_changes_nothing_else() {
    let mut state = connected_room(1);
    register_presence_with(&mut state, 1, PresenceConnectionKind::Stats, 7, at(3));
    assert!(release_presence_at(&mut state, 7, at(4)).is_empty());
    assert!(release_presence_at(&mut state, 7, at(4)).is_empty());
    assert_eq!(state.presence_connections.len(), 1);
    assert!(state.rooms[&100].participants.contains(&1));
}

#[test]
fn a_session_leaves_every_room_it_is_connected_to() {
    let mut state = connected_room(2);
    register_presence_with(&mut state, 1, PresenceConnectionKind::Stats, 7, at(3));
    let dispatches = release_session_presence(&mut state, 1, at(4));
    assert_eq!(dispatches.len(), 2);
    assert_eq!(state.presence_connections.len(), 1);
    assert!(!state.rooms[&100].participants.contains(&1));
    assert_eq!(state.rooms[&100].host_session, 2);
}

#[test]
fn events_reach_who_they_are_for() {
    let state = connected_room(3);
    let left = || ServerWsEvent::PeerLeft { peer_id: 9 };
    assert_eq!(recipients(&broadcast(&state, 100, left())), [1, 2, 3]);
    assert_eq!(recipients(&broadcast_except(&state, 100, 2, left())), [1, 3]);
    assert_eq!(send_to(&state, 100, 2, left()).recipients, [2]);
    assert!(send_to(&state, 100, 9, left()).recipients.is_empty());
    assert!(broadcast(&state, 5, left()).recipients.is_empty());
    assert!(broadcast_except(&state, 5, 1, left()).recipients.is_empty());
}

#[test]
fn a_silent_person_cannot_be_asked_for_a_chat() {
    let mut state = connected_room(1);
    assert!(guest_with(&mut state, &Some("Asker".into()), 0, 9, at(0)).is_ok());
    let refusal = create_direct_chat_request_with(&mut state, 9, 1, 60, at(3)).err().unwrap();
    assert_eq!(
        refusal.message,
        "That person is already in a room. Request to join their room instead."
    );
}
