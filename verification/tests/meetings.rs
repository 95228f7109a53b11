//! Rooms, join requests and chat requests.

use camera_fodder::direct_chats::{
    accept_direct_chat_request_with, consume_direct_chat_for_room, create_direct_chat_request_with,
    join_direct_chat_request_at,
};
use camera_fodder::error::ErrorStatus;
use camera_fodder::events::ServerWsEvent;
use camera_fodder::inbox::list_join_requests;
use camera_fodder::join_requests::{
    accept_join_request_at, create_join_request_with, join_request_summary,
    pending_request_count_for_room,
};
use camera_fodder::presence::{broadcast_stats_at, register_presence_with, remove_room_connection};
use camera_fodder::rooms::{
    add_random_to_room, can_accept_join_request, enter_room_at, find_match, join_room_locked,
    live_room_for_session, matching_rooms, reserved_room_count, room_snapshot, start_random_room,
    start_random_room_with, StartRoomRequest,
};
use camera_fodder::sessions::guest_with;
use camera_fodder::state::{
    AppState, DirectoryEntry, JoinRequestStatus, PresenceConnectionKind, MAX_ROOM_SIZE,
};
use camera_fodder::Timestamp;

fn at(secs: i64) -> Timestamp {
    Timestamp::new(secs, 0).unwrap()
}

/// A service with sessions 1 to `count`, named `P1`, `P2` and so on.
fn service_with(count: u128) -> AppState {
    let mut state = AppState::default();
    for id in 1..=count {
        assert!(guest_with(&mut state, &Some(format!("P{id}")), 0, id, at(0)).is_ok());
    }
    state
}

fn asks(session_id: u128) -> StartRoomRequest {
    StartRoomRequest {
        session_id,
        size: None,
        host_controls_joiners: None,
        share_link_enabled: None,
    }
}

/// Opens room 100 with session 1 in it.
fn open_room(state: &mut AppState, share_link: bool, host_controls: bool) {
    let request = StartRoomRequest {
        session_id: 1,
        size: Some(8),
        host_controls_joiners: Some(host_controls),
        share_link_enabled: Some(share_link),
    };
    assert!(start_random_room_with(state, &request, None, 100, at(1)).is_ok());
}

#[test]
fn the_first_to_ask_opens_a_room_and_the_second_joins_it() {
    let mut state = service_with(3);
    let first = start_random_room(&mut state, &asks(1)).unwrap();
    assert!(!first.joined_existing);
    assert!(first.dispatches.is_empty());
    assert_eq!(first.room.host_session, 1);
    assert!(first.room.waiting_for_random);
    assert_eq!(first.room.max_size, 8);

    let second = start_random_room(&mut state, &asks(2)).unwrap();
    assert!(second.joined_existing);
    assert_eq!(second.room.id, first.room.id);
    assert!(!second.room.waiting_for_random);
    assert_eq!(second.room.participants.len(), 2);
    assert_eq!(second.room.participants[0].display_name, "P1");
    assert_eq!(second.room.participants[1].display_name, "P2");
    assert_eq!(second.dispatches.len(), 1);

    // The pair waits for nobody.
    let third = start_random_room(&mut state, &asks(3)).unwrap();
    assert!(!third.joined_existing);
    assert_ne!(third.room.id, first.room.id);
}

#[test]
fn a_room_is_offered_only_up_to_the_size_asked_for() {
    let mut state = service_with(4);
    open_room(&mut state, true, false);
    assert!(enter_room_at(&mut state, 100, 2, at(2)).is_ok());
    assert_eq!(matching_rooms(&state, 2, false).len(), 0);
    assert_eq!(matching_rooms(&state, 3, false), [100]);
    assert_eq!(find_match(&state, 3, false), Some(100));
    assert_eq!(find_match(&state, 2, false), None);
    assert_eq!(find_match(&state, 1000, false), Some(100));
}

#[test]
fn sizes_are_kept_between_two_and_eight() {
    for (size, expected) in [(Some(0), false), (Some(1), false), (Some(3), true), (Some(99), true)] {
        let mut state = service_with(3);
        open_room(&mut state, true, false);
        assert!(enter_room_at(&mut state, 100, 2, at(2)).is_ok());
        let request = StartRoomRequest { size, ..asks(3) };
        let answer = start_random_room(&mut state, &request).unwrap();
        assert_eq!(answer.joined_existing, expected, "{size:?}");
    }
}

#[test]
fn host_controlled_rooms_never_meet() {
    let mut state = service_with(2);
    open_room(&mut state, false, true);
    let keeps_control = StartRoomRequest {
        host_controls_joiners: Some(true),
        ..asks(2)
    };
    assert!(!start_random_room(&mut state, &keeps_control).unwrap().joined_existing);
    assert!(start_random_room(&mut service_with(1), &asks(2)).is_err());
}

#[test]
fn whoever_has_no_session_is_refused() {
    let mut state = service_with(1);
    open_room(&mut state, true, false);
    let refused = [
        start_random_room(&mut state, &asks(9)).err().unwrap(),
        enter_room_at(&mut state, 100, 9, at(2)).err().unwrap(),
        create_join_request_with(&mut state, 100, 9, 5, at(2)).err().unwrap(),
        accept_join_request_at(&mut state, 5, 9, at(2)).err().unwrap(),
        create_direct_chat_request_with(&mut state, 9, 1, 5, at(2)).err().unwrap(),
        accept_direct_chat_request_with(&mut state, 5, 9, 6, at(2)).err().unwrap(),
        join_direct_chat_request_at(&mut state, 5, 9, at(2)).err().unwrap(),
        list_join_requests(&state, 9).err().unwrap(),
    ];
    for refusal in refused {
        assert_eq!(refusal.status, ErrorStatus::Unauthorized);
        assert_eq!(refusal.message, "A valid session is required.");
    }
}

#[test]
fn matching_into_a_room_that_is_gone_or_full_is_refused() {
    let mut state = service_with(9);
    assert_eq!(
        join_room_locked(&mut state, 100, 2).err().unwrap().message,
        "Room not found."
    );
    open_room(&mut state, true, false);
    for id in 2..=8 {
        assert!(join_room_locked(&mut state, 100, id).is_ok());
    }
    let refusal = join_room_locked(&mut state, 100, 9).err().unwrap();
    assert_eq!(refusal.status, ErrorStatus::Conflict);
    assert_eq!(refusal.message, "This room is full.");
    assert_eq!(state.rooms[&100].participants.len(), MAX_ROOM_SIZE);
}

#[test]
fn a_share_link_lets_in_eight() {
    let mut state = service_with(9);
    open_room(&mut state, true, false);
    for id in 2..=8 {
        assert!(enter_room_at(&mut state, 100, id, at(2)).is_ok());
    }
    let refusal = enter_room_at(&mut state, 100, 9, at(2)).err().unwrap();
    assert_eq!(refusal.status, ErrorStatus::Conflict);
    assert_eq!(refusal.message, "Room is full.");
    // Those inside may come again.
    assert!(enter_room_at(&mut state, 100, 8, at(7)).is_ok());
    assert_eq!(state.rooms[&100].participant_joined_at[&8], at(7));
    assert_eq!(reserved_room_count(&state.rooms[&100]), 8);
}

#[test]
fn a_closed_room_needs_an_approval_which_keeps_a_place() {
    let mut state = service_with(9);
    open_room(&mut state, false, false);
    let refusal = enter_room_at(&mut state, 100, 2, at(2)).err().unwrap();
    assert_eq!(refusal.status, ErrorStatus::Forbidden);
    assert_eq!(
        refusal.message,
        "This room requires a share link or an accepted join request."
    );
    assert_eq!(enter_room_at(&mut state, 5, 2, at(2)).err().unwrap().message, "Room not found.");

    assert!(create_join_request_with(&mut state, 100, 2, 50, at(3)).is_ok());
    assert!(accept_join_request_at(&mut state, 50, 1, at(4)).is_ok());
    assert_eq!(reserved_room_count(&state.rooms[&100]), 2);
    for id in 3..=8 {
        assert!(join_room_locked(&mut state, 100, id).is_ok());
    }
    // Seven inside and one approved: nobody else gets in, the approved one does.
    assert!(join_room_locked(&mut state, 100, 9).is_err());
    assert!(enter_room_at(&mut state, 100, 2, at(5)).is_ok());
    assert_eq!(state.rooms[&100].participants.len(), 8);
}

#[test]
fn calling_in_another_person() {
    let mut state = service_with(9);
    open_room(&mut state, true, true);
    assert!(enter_room_at(&mut state, 100, 2, at(2)).is_ok());
    state.rooms.get_mut(&100).unwrap().waiting_for_random = false;

    let said = |state: &mut AppState, room, who, named| {
        let refusal = add_random_to_room(state, room, who, named).err().unwrap();
        (refusal.status, refusal.message)
    };
    assert_eq!(
        said(&mut state, 100, 1, 101),
        (
            ErrorStatus::BadRequest,
            "Room URL and request body room_id do not match.".to_string()
        )
    );
    assert_eq!(
        said(&mut state, 101, 1, 101),
        (ErrorStatus::NotFound, "Room not found.".to_string())
    );
    assert_eq!(
        said(&mut state, 100, 3, 100),
        (
            ErrorStatus::Unauthorized,
            "Join the room before inviting random people.".to_string()
        )
    );
    assert_eq!(
        said(&mut state, 100, 2, 100),
        (
            ErrorStatus::Forbidden,
            "The host limited add-person control for this room.".to_string()
        )
    );
    let answer = add_random_to_room(&mut state, 100, 1, 100).unwrap();
    assert!(answer.room.waiting_for_random);
    assert!(!answer.joined_existing);
    assert_eq!(answer.dispatches.len(), 1);
    assert_eq!(find_match(&state, 3, false), Some(100));

    for id in 3..=8 {
        assert!(enter_room_at(&mut state, 100, id, at(2)).is_ok());
    }
    assert_eq!(
        said(&mut state, 100, 1, 100),
        (ErrorStatus::Conflict, "This room is already full.".to_string())
    );
}

#[test]
fn a_room_is_shown_with_its_members_in_order_of_names() {
    let mut state = service_with(3);
    open_room(&mut state, true, false);
    assert!(enter_room_at(&mut state, 100, 3, at(2)).is_ok());
    assert!(enter_room_at(&mut state, 100, 2, at(2)).is_ok());
    state.sessions.get_mut(&1).unwrap().display_name = "Zed".into();
    state.sessions.remove(&2);
    let shown = room_snapshot(&state, 100).unwrap();
    let names: Vec<_> = shown.participants.iter().map(|p| p.display_name.as_str()).collect();
    assert_eq!(names, ["P3", "Zed"]);
    assert_eq!(shown.created_at, at(1));
    assert!(shown.share_link_enabled && !shown.host_controls_joiners);
    assert_eq!(room_snapshot(&state, 7).err().unwrap().status, ErrorStatus::NotFound);
    assert_eq!(live_room_for_session(&state, 3), Some(100));
    assert_eq!(live_room_for_session(&state, 9), None);
}

#[test]
fn asking_to_be_let_in() {
    let mut state = service_with(3);
    open_room(&mut state, false, false);
    state.rooms.get_mut(&100).unwrap().senders.insert(1);
    let answer = create_join_request_with(&mut state, 100, 2, 50, at(3)).unwrap();
    assert_eq!(answer.request.id, 50);
    assert!(answer.request.status == JoinRequestStatus::Pending);
    assert!(!answer.request.can_accept && !answer.request.room_is_full);
    assert_eq!(answer.request.requester_display_name, "P2");
    assert_eq!(answer.dispatches.len(), 1);
    assert_eq!(answer.dispatches[0].recipients, [1]);
    match &answer.dispatches[0].event {
        ServerWsEvent::JoinRequestsChanged { pending_count, requester_display_name, accepted } => {
            assert_eq!(*pending_count, 1);
            assert_eq!(requester_display_name.as_deref(), Some("P2"));
            assert!(!accepted);
        }
        _ => panic!("expected a change of join requests"),
    }
    // A second time shows the first request again.
    let again = create_join_request_with(&mut state, 100, 2, 51, at(4)).unwrap();
    assert_eq!(again.request.id, 50);
    assert!(again.dispatches.is_empty());
    assert_eq!(state.join_requests.len(), 1);

    let said = |state: &mut AppState, room, who| {
        create_join_request_with(state, room, who, 52, at(5)).err().unwrap().message
    };
    assert_eq!(said(&mut state, 7, 2), "Room not found.");
    assert_eq!(said(&mut state, 100, 1), "You are already in that room.");
    for id in 10..=16 {
        state.rooms.get_mut(&100).unwrap().participants.insert(id);
    }
    assert_eq!(said(&mut state, 100, 3), "That room is already full.");
    let shown = join_request_summary(&state, &state.join_requests[&50], 1);
    assert!(shown.room_is_full && !shown.can_accept);
}

#[test]
fn asking_again_later_shows_the_first_request() {
    let mut state = service_with(4);
    open_room(&mut state, false, false);
    assert_eq!(create_join_request_with(&mut state, 100, 2, 50, at(3)).unwrap().request.id, 50);
    assert!(create_join_request_with(&mut state, 100, 3, 51, at(4)).is_ok());
    assert!(accept_join_request_at(&mut state, 51, 1, at(5)).is_ok());
    assert!(enter_room_at(&mut state, 100, 3, at(6)).is_ok());
    assert!(remove_room_connection(&mut state, 100, 3, None, at(7)).removed);
    assert!(accept_join_request_at(&mut state, 50, 1, at(8)).is_ok());
    broadcast_stats_at(&mut state, at(9));
    let again = create_join_request_with(&mut state, 100, 2, 52, at(10)).unwrap();
    assert_eq!(again.request.id, 50);
    assert_eq!(again.request.created_at, at(3));
    assert!(again.request.status == JoinRequestStatus::Accepted);
    assert!(again.dispatches.is_empty());
    assert_eq!(state.join_requests.len(), 2);
}

#[test]
fn letting_someone_in() {
    let mut state = service_with(4);
    open_room(&mut state, false, true);
    state.rooms.get_mut(&100).unwrap().participants.insert(3);
    assert!(create_join_request_with(&mut state, 100, 2, 50, at(3)).is_ok());
    assert!(create_join_request_with(&mut state, 100, 4, 51, at(2)).is_ok());
    assert_eq!(pending_request_count_for_room(&state, 100), 2);
    assert!(can_accept_join_request(&state.rooms[&100], 1));
    assert!(!can_accept_join_request(&state.rooms[&100], 3));

    let inbox = list_join_requests(&state, 1).unwrap();
    let ids: Vec<_> = inbox.incoming.iter().map(|request| request.id).collect();
    assert_eq!(ids, [51, 50]);
    assert!(inbox.incoming[0].can_accept);
    assert!(!list_join_requests(&state, 3).unwrap().incoming[0].can_accept);

    let said = |state: &mut AppState, request, who| {
        accept_join_request_at(state, request, who, at(6)).err().unwrap().message
    };
    assert_eq!(said(&mut state, 9, 1), "Join request not found.");
    assert_eq!(
        said(&mut state, 50, 3),
        "You do not have permission to accept requests for this room."
    );
    let answer = accept_join_request_at(&mut state, 50, 1, at(6)).unwrap();
    assert!(answer.request.status == JoinRequestStatus::Accepted);
    assert_eq!(answer.request.accepted_by, Some(1));
    assert_eq!(answer.request.updated_at, at(6));
    assert_eq!(pending_request_count_for_room(&state, 100), 1);
    assert_eq!(list_join_requests(&state, 1).unwrap().incoming.len(), 1);
    let outgoing = list_join_requests(&state, 2).unwrap().outgoing;
    assert_eq!(outgoing.len(), 1);
    assert!(outgoing[0].status == JoinRequestStatus::Accepted);

    assert!(enter_room_at(&mut state, 100, 2, at(7)).is_ok());
    assert_eq!(said(&mut state, 50, 1), "That person is already in the room.");
    for id in 10..=14 {
        state.rooms.get_mut(&100).unwrap().participants.insert(id);
    }
    assert_eq!(said(&mut state, 51, 1), "This room is already full.");
    state.rooms.remove(&100);
    assert_eq!(said(&mut state, 51, 1), "Room not found.");
}

/// Sessions 1 and 2, of whom 2 is listed and online at second 10.
fn two_strangers() -> AppState {
    let mut state = service_with(3);
    register_presence_with(&mut state, 2, PresenceConnectionKind::Stats, 200, at(10));
    state.directory.insert(
        2,
        DirectoryEntry {
            session_id: 2,
            display_name: "P2".into(),
            room_id: None,
            available: true,
            updated_at: at(10),
        },
    );
    state
}

#[test]
fn asking_for_a_chat() {
    let mut state = two_strangers();
    let request = create_direct_chat_request_with(&mut state, 1, 2, 60, at(11)).unwrap();
    assert_eq!((request.id, request.requester_session, request.target_session), (60, 1, 2));
    assert_eq!(request.target_display_name, "P2");
    assert!(!request.can_accept && !request.can_join);
    let again = create_direct_chat_request_with(&mut state, 1, 2, 61, at(12)).unwrap();
    assert_eq!(again.id, 60);
    assert_eq!(state.direct_chat_requests.len(), 1);
    let inbox = list_join_requests(&state, 2).unwrap();
    assert_eq!(inbox.direct_incoming.len(), 1);
    assert!(inbox.direct_incoming[0].can_accept);
    assert_eq!(list_join_requests(&state, 1).unwrap().direct_outgoing.len(), 1);
}

#[test]
fn asking_for_a_chat_again_later_shows_the_first_request() {
    let mut state = two_strangers();
    assert_eq!(create_direct_chat_request_with(&mut state, 1, 2, 60, at(11)).unwrap().id, 60);
    assert!(create_direct_chat_request_with(&mut state, 3, 2, 61, at(12)).is_ok());
    assert!(start_random_room_with(&mut state, &asks(2), None, 100, at(13)).is_ok());
    assert!(accept_direct_chat_request_with(&mut state, 60, 2, 101, at(14)).is_err());
    assert!(join_direct_chat_request_at(&mut state, 60, 1, at(14)).is_err());
    assert!(remove_room_connection(&mut state, 100, 2, None, at(15)).removed);
    assert!(accept_direct_chat_request_with(&mut state, 61, 2, 102, at(16)).is_ok());
    broadcast_stats_at(&mut state, at(17));
    let again = create_direct_chat_request_with(&mut state, 1, 2, 62, at(18)).unwrap();
    assert_eq!(again.id, 60);
    assert_eq!((again.created_at, again.updated_at), (at(11), at(11)));
    assert_eq!(state.direct_chat_requests.len(), 2);
}

#[test]
fn chats_that_are_refused() {
    let said = |state: &mut AppState, who, target, now| {
        let refusal = create_direct_chat_request_with(state, who, target, 60, at(now)).err().unwrap();
        (refusal.status, refusal.message)
    };
    let mut state = two_strangers();
    assert_eq!(
        said(&mut state, 1, 1, 11),
        (
            ErrorStatus::BadRequest,
            "You cannot request a chat with yourself.".to_string()
        )
    );
    assert_eq!(
        said(&mut state, 1, 9, 11),
        (ErrorStatus::NotFound, "That person is no longer online.".to_string())
    );
    assert_eq!(
        said(&mut state, 1, 3, 11),
        (
            ErrorStatus::Conflict,
            "That person is not listed as available right now.".to_string()
        )
    );
    assert_eq!(
        said(&mut state, 1, 2, 56),
        (ErrorStatus::Conflict, "That person is no longer online.".to_string())
    );
    assert!(start_random_room_with(&mut state, &asks(2), None, 100, at(11)).is_ok());
    assert_eq!(
        said(&mut state, 1, 2, 11),
        (
            ErrorStatus::Conflict,
            "That person is already in a room. Request to join their room instead.".to_string()
        )
    );
    assert!(state.direct_chat_requests.is_empty());
}

#[test]
fn accepting_a_chat_opens_a_room_for_two() {
    let mut state = two_strangers();
    assert!(create_direct_chat_request_with(&mut state, 1, 2, 60, at(11)).is_ok());
    let said = |state: &mut AppState, request, who| {
        accept_direct_chat_request_with(state, request, who, 100, at(12)).err().unwrap().message
    };
    assert_eq!(said(&mut state, 61, 2), "Chat request not found.");
    assert_eq!(
        said(&mut state, 60, 1),
        "Only the requested person can accept this chat invite."
    );
    let accepted = accept_direct_chat_request_with(&mut state, 60, 2, 100, at(12)).unwrap();
    assert_eq!(accepted.room_id, Some(100));
    assert_eq!(accepted.accepted_by, Some(2));
    assert_eq!(said(&mut state, 60, 2), "That chat request is no longer pending.");
    let room = &state.rooms[&100];
    assert_eq!(room.host_session, 2);
    assert!(room.participants.is_empty() && room.share_link_enabled);
    assert!(enter_room_at(&mut state, 100, 1, at(13)).is_ok());
    assert!(enter_room_at(&mut state, 100, 2, at(13)).is_ok());
}

#[test]
fn a_chat_is_not_accepted_from_within_a_room() {
    for who in [1, 2] {
        let mut state = two_strangers();
        assert!(create_direct_chat_request_with(&mut state, 1, 2, 60, at(11)).is_ok());
        assert!(start_random_room_with(&mut state, &asks(who), None, 90, at(11)).is_ok());
        let refusal = accept_direct_chat_request_with(&mut state, 60, 2, 100, at(12)).err().unwrap();
        assert_eq!(refusal.status, ErrorStatus::Conflict);
        assert_eq!(
            refusal.message,
            "One of you is already in a room. Try again once you are both available."
        );
    }
}

#[test]
fn a_chat_request_is_used_once() {
    let mut state = two_strangers();
    assert!(create_direct_chat_request_with(&mut state, 1, 2, 60, at(11)).is_ok());
    let said = |state: &mut AppState, request, who| {
        let refusal = join_direct_chat_request_at(state, request, who, at(14)).err().unwrap();
        (refusal.status, refusal.message)
    };
    assert_eq!(
        said(&mut state, 61, 1),
        (ErrorStatus::NotFound, "Chat request not found.".to_string())
    );
    assert_eq!(
        said(&mut state, 60, 2),
        (
            ErrorStatus::Forbidden,
            "Only the requester can use this chat join action.".to_string()
        )
    );
    assert_eq!(
        said(&mut state, 60, 1),
        (
            ErrorStatus::Conflict,
            "That chat request is not ready to join.".to_string()
        )
    );
    assert!(accept_direct_chat_request_with(&mut state, 60, 2, 100, at(12)).is_ok());
    assert!(list_join_requests(&state, 1).unwrap().direct_outgoing[0].can_join);
    let used = join_direct_chat_request_at(&mut state, 60, 1, at(13)).unwrap();
    assert_eq!(used.consumed_at, Some(at(13)));
    assert_eq!(
        said(&mut state, 60, 1),
        (
            ErrorStatus::Conflict,
            "That chat join link was already used.".to_string()
        )
    );
    let request = state.direct_chat_requests.get_mut(&60).unwrap();
    request.consumed_at = None;
    request.room_id = None;
    assert_eq!(
        said(&mut state, 60, 1),
        (ErrorStatus::Conflict, "That chat room is not ready yet.".to_string())
    );
}

#[test]
fn a_used_chat_request_stays_used() {
    let mut state = two_strangers();
    assert!(create_direct_chat_request_with(&mut state, 1, 2, 60, at(11)).is_ok());
    assert!(accept_direct_chat_request_with(&mut state, 60, 2, 100, at(12)).is_ok());
    assert!(join_direct_chat_request_at(&mut state, 60, 1, at(13)).is_ok());
    assert!(enter_room_at(&mut state, 100, 1, at(14)).is_ok());
    assert!(remove_room_connection(&mut state, 100, 1, None, at(15)).removed);
    assert!(!state.rooms.contains_key(&100));
    assert!(create_direct_chat_request_with(&mut state, 1, 2, 61, at(16)).is_ok());
    assert!(accept_direct_chat_request_with(&mut state, 61, 2, 101, at(17)).is_ok());
    assert!(accept_direct_chat_request_with(&mut state, 60, 2, 102, at(17)).is_err());
    broadcast_stats_at(&mut state, at(18));
    let refusal = join_direct_chat_request_at(&mut state, 60, 1, at(19)).err().unwrap();
    assert_eq!(refusal.message, "That chat join link was already used.");
    assert_eq!(state.direct_chat_requests[&60].consumed_at, Some(at(13)));
    assert!(join_direct_chat_request_at(&mut state, 61, 1, at(20)).is_ok());
}

#[test]
fn a_chat_request_to_a_room_that_is_gone_is_used_up() {
    let mut state = two_strangers();
    assert!(create_direct_chat_request_with(&mut state, 1, 2, 60, at(11)).is_ok());
    assert!(accept_direct_chat_request_with(&mut state, 60, 2, 100, at(12)).is_ok());
    state.rooms.remove(&100);
    let refusal = join_direct_chat_request_at(&mut state, 60, 1, at(13)).err().unwrap();
    assert_eq!(refusal.message, "That chat room is no longer available.");
    assert_eq!(state.direct_chat_requests[&60].consumed_at, Some(at(13)));
}

#[test]
fn coming_into_the_room_uses_the_chat_request() {
    let mut state = two_strangers();
    assert!(create_direct_chat_request_with(&mut state, 1, 2, 60, at(11)).is_ok());
    assert!(accept_direct_chat_request_with(&mut state, 60, 2, 100, at(12)).is_ok());
    consume_direct_chat_for_room(&mut state, 100, 2, at(13));
    assert_eq!(state.direct_chat_requests[&60].consumed_at, None);
    consume_direct_chat_for_room(&mut state, 99, 1, at(13));
    assert_eq!(state.direct_chat_requests[&60].consumed_at, None);
    consume_direct_chat_for_room(&mut state, 100, 1, at(14));
    assert_eq!(state.direct_chat_requests[&60].consumed_at, Some(at(14)));
    assert_eq!(state.direct_chat_requests[&60].updated_at, at(14));
}

#[test]
fn an_empty_room_goes_with_the_requests_for_it() {
    let mut state = two_strangers();
    assert!(create_direct_chat_request_with(&mut state, 1, 2, 60, at(11)).is_ok());
    assert!(accept_direct_chat_request_with(&mut state, 60, 2, 100, at(12)).is_ok());
    assert!(enter_room_at(&mut state, 100, 2, at(13)).is_ok());
    assert!(create_join_request_with(&mut state, 100, 3, 70, at(14)).is_ok());
    let removal = remove_room_connection(&mut state, 100, 2, None, at(15));
    assert!(removal.removed);
    assert!(!state.rooms.contains_key(&100));
    assert!(state.join_requests.is_empty());
    assert_eq!(state.direct_chat_requests[&60].consumed_at, Some(at(15)));
    assert_eq!(state.directory[&2].updated_at, at(15));
    assert_eq!(state.directory[&2].room_id, None);
}

#[test]
fn a_host_who_leaves_is_followed_by_someone_who_stays() {
    let mut state = service_with(3);
    open_room(&mut state, true, false);
    assert!(enter_room_at(&mut state, 100, 2, at(2)).is_ok());
    assert!(enter_room_at(&mut state, 100, 3, at(2)).is_ok());
    let removal = remove_room_connection(&mut state, 100, 1, None, at(3));
    assert!(removal.removed);
    assert_eq!(removal.dispatches.len(), 2);
    let host = state.rooms[&100].host_session;
    assert!(host == 2 || host == 3);
    assert!(state.rooms[&100].participants.contains(&host));
    assert!(!remove_room_connection(&mut state, 5, 1, None, at(3)).removed);
    assert!(!remove_room_connection(&mut state, 100, 2, Some(9), at(3)).removed);
}
