//! Guests, accounts, sessions and the directory.

use camera_fodder::directory::{
    directory_entries, list_directory_at, upsert_directory, upsert_directory_with, DirectoryRequest,
};
use camera_fodder::error::ErrorStatus;
use camera_fodder::presence::{is_session_online, register_presence, register_presence_with};
use camera_fodder::sessions::{
    create_session, display_name_in_use, display_name_reserved_by_account, get_session, guest,
    guest_with, signin, signin_with, signout, signup, signup_with, SigninRequest, SignupRequest,
};
use camera_fodder::state::{AppState, PresenceConnectionKind};
use camera_fodder::error::ApiError;
use camera_fodder::Timestamp;

fn at(secs: i64) -> Timestamp {
    Timestamp::new(secs, 0).unwrap()
}

fn account(email: &str, password: &str, name: &str) -> SignupRequest {
    SignupRequest {
        email: email.into(),
        password: password.into(),
        display_name: name.into(),
    }
}

fn returning(email: &str, password: &str) -> SigninRequest {
    SigninRequest {
        email: email.into(),
        password: password.into(),
    }
}

fn listing(session_id: u128, name: &str, available: bool) -> DirectoryRequest {
    DirectoryRequest {
        session_id,
        display_name: name.into(),
        room_id: None,
        available,
    }
}

#[test]
fn a_guest_gets_a_session() {
    let mut state = AppState::default();
    let session = guest_with(&mut state, &Some("  Bob ".into()), 3, 11, at(5)).unwrap();
    assert_eq!(session.id, 11);
    assert_eq!(session.display_name, "Bob");
    assert_eq!(session.account_email, None);
    assert_eq!(session.created_at, at(5));
    assert_eq!(get_session(&state, 11).unwrap().display_name, "Bob");
}

#[test]
fn a_guest_without_a_name_is_called_guest() {
    let mut state = AppState::default();
    assert_eq!(guest_with(&mut state, &None, 3, 1, at(0)).unwrap().display_name, "Guest");
    assert!(guest_with(&mut state, &None, 3, 2, at(0)).is_err());
    let blank = guest_with(&mut state, &Some("  ".into()), 42, 3, at(0)).unwrap();
    assert_eq!(blank.display_name, "Guest-0042");
    assert_eq!(state.sessions.len(), 2);
}

#[test]
fn a_guest_name_is_taken_in_any_case_and_with_any_space() {
    let mut state = AppState::default();
    assert!(guest(&mut state, &Some("Picklewizard".into())).is_ok());
    let refusal = guest(&mut state, &Some(" PICKLEwizard\t".into())).err().unwrap();
    assert_eq!(refusal.status, ErrorStatus::Conflict);
    assert_eq!(
        refusal.message,
        "That guest name is already in use. Pick another one."
    );
    assert_eq!(state.sessions.len(), 1);
}

#[test]
fn an_account_name_is_reserved() {
    let mut state = AppState::default();
    let taken = account("a@b.c", "long enough", "Reserved");
    assert!(signup_with(&mut state, &taken, Ok("hash".into()), 0, 1, at(0)).is_ok());
    let refusal = guest(&mut state, &Some("reserved".into())).err().unwrap();
    assert_eq!(
        refusal.message,
        "That name belongs to a registered account. Choose a different guest name."
    );
    assert!(display_name_reserved_by_account(&state, " RESERVED "));
    assert!(!display_name_reserved_by_account(&state, "Someone"));
}

#[test]
fn a_name_in_use_can_be_asked_of_all_but_one() {
    let mut state = AppState::default();
    let session = create_session(&mut state, "Bob".into(), None);
    assert!(display_name_in_use(&state, "bob", None));
    assert!(!display_name_in_use(&state, "bob", Some(session.id)));
    assert!(display_name_in_use(&state, "bob", Some(session.id ^ 1)));
    assert!(!display_name_in_use(&state, "alice", None));
}

#[test]
fn an_account_needs_an_address_a_name_and_a_long_password() {
    let mut state = AppState::default();
    for refused in [
        account("  ", "long enough", "A"),
        account("a@b.c", "seven77", "A"),
        account("a@b.c", "long enough", " \t"),
    ] {
        let refusal = signup(&mut state, &refused).err().unwrap();
        assert_eq!(refusal.status, ErrorStatus::BadRequest);
        assert_eq!(
            refusal.message,
            "Email, display name, and an 8+ character password are required."
        );
    }
    assert!(state.sessions.is_empty());
    // Eight bytes are enough, whatever they spell.
    assert!(signup(&mut state, &account("a@b.c", "éééé", "A")).is_ok());
}

#[test]
fn an_address_can_be_registered_once() {
    let mut state = AppState::default();
    let first = account("A@B.c ", "long enough", "A");
    let session = signup_with(&mut state, &first, Ok("hash".into()), 0, 1, at(9)).unwrap();
    assert_eq!(session.account_email, Some("a@b.c".to_string()));
    let kept = state.users.get(&"a@b.c".to_string()).unwrap();
    assert_eq!(kept.display_name, "A");
    assert_eq!(kept.password_hash, "hash");
    assert_eq!(kept.created_at, at(9));
    let refusal = signup(&mut state, &account("a@b.C", "long enough", "B")).err().unwrap();
    assert_eq!(refusal.status, ErrorStatus::Conflict);
    assert_eq!(refusal.message, "That email is already registered.");
    assert_eq!(state.sessions.len(), 1);
}

#[test]
fn a_failed_hash_leaves_no_account() {
    let mut state = AppState::default();
    let failed = Err(ApiError::internal("Unable to hash password."));
    let wanted = account("a@b.c", "long enough", "A");
    let refusal = signup_with(&mut state, &wanted, failed, 0, 1, at(0)).err().unwrap();
    assert_eq!(refusal.status, ErrorStatus::Internal);
    assert_eq!(refusal.message, "Unable to hash password.");
    assert!(state.sessions.is_empty());
    assert!(state.users.records().is_empty());
}

#[test]
fn whoever_registered_can_sign_in() {
    let mut state = AppState::default();
    assert!(signup(&mut state, &account("A@b.c", "long enough", " Ann ")).is_ok());
    let session = signin(&mut state, &returning("  a@B.C ", "long enough")).unwrap();
    assert_eq!(session.display_name, "Ann");
    assert_eq!(session.account_email, Some("a@b.c".to_string()));
    assert_eq!(state.sessions.len(), 2);

    let wrong = signin(&mut state, &returning("a@b.c", "long enougH")).err().unwrap();
    assert_eq!(wrong.status, ErrorStatus::Unauthorized);
    assert_eq!(wrong.message, "Invalid email or password.");
    let unknown = signin(&mut state, &returning("b@b.c", "long enough")).err().unwrap();
    assert_eq!(unknown.status, wrong.status);
    assert_eq!(unknown.message, wrong.message);
    assert_eq!(state.sessions.len(), 2);
}

#[test]
fn signing_in_goes_by_what_the_check_said() {
    let mut state = AppState::default();
    let first = account("a@b.c", "long enough", "A");
    assert!(signup_with(&mut state, &first, Ok("hash".into()), 0, 1, at(0)).is_ok());
    assert!(signin_with(&mut state, "a@b.c", false, 2, at(1)).is_err());
    assert!(signin_with(&mut state, "x@b.c", true, 2, at(1)).is_err());
    let session = signin_with(&mut state, "A@b.c", true, 2, at(1)).unwrap();
    assert_eq!((session.id, session.created_at), (2, at(1)));
}

#[test]
fn a_signed_out_session_is_gone() {
    let mut state = AppState::default();
    let session = guest(&mut state, &Some("Bob".into())).unwrap();
    let other = guest(&mut state, &Some("Eve".into())).unwrap();
    register_presence(&mut state, session.id, PresenceConnectionKind::Stats);
    register_presence(&mut state, other.id, PresenceConnectionKind::Stats);
    assert!(upsert_directory(&mut state, &listing(session.id, "Bob", true)).is_ok());
    assert!(signout(&mut state, session.id).is_empty());

    let refusal = get_session(&state, session.id).err().unwrap();
    assert_eq!(refusal.status, ErrorStatus::Unauthorized);
    assert_eq!(refusal.message, "Session expired. Please sign in again.");
    assert!(state.directory.is_empty());
    assert_eq!(state.presence_connections.len(), 1);
    assert!(get_session(&state, other.id).is_ok());
    // The name is free again.
    assert!(guest(&mut state, &Some("bob".into())).is_ok());
}

#[test]
fn the_directory_shows_whoever_is_online_and_listed() {
    let mut state = AppState::default();
    for (id, name) in [(1, "Cleo"), (2, "Ann"), (3, "Bob")] {
        state.sessions.insert(id, guest_with(&mut AppState::default(), &Some(name.into()), 0, id, at(0)).unwrap());
    }
    register_presence_with(&mut state, 1, PresenceConnectionKind::Stats, 101, at(100));
    register_presence_with(&mut state, 2, PresenceConnectionKind::Stats, 102, at(100));
    register_presence_with(&mut state, 3, PresenceConnectionKind::Stats, 103, at(50));
    for (id, name) in [(1, " Cleo "), (2, "Ann"), (3, "Bob")] {
        assert!(upsert_directory_with(&mut state, &listing(id, name, true), 0, at(95)).is_ok());
    }
    let names = |state: &AppState, now: i64| -> Vec<String> {
        directory_entries(state, at(now)).into_iter().map(|entry| entry.display_name).collect()
    };
    assert_eq!(names(&state, 95), ["Ann", "Bob", "Cleo"]);
    // Forty-five seconds of silence are not too long, forty-six are.
    assert!(is_session_online(&state, 3, at(95)));
    assert!(!is_session_online(&state, 3, at(96)));
    assert_eq!(names(&state, 96), ["Ann", "Cleo"]);
    assert_eq!(state.directory.len(), 3);
    let shown = list_directory_at(&mut state, at(96));
    assert_eq!(shown.len(), 2);
    assert_eq!(state.directory.len(), 2);
    assert_eq!(shown[0].updated_at, at(95));
}

#[test]
fn a_listing_can_be_taken_back() {
    let mut state = AppState::default();
    let session = guest(&mut state, &Some("Bob".into())).unwrap();
    register_presence(&mut state, session.id, PresenceConnectionKind::Stats);
    let shown = upsert_directory(&mut state, &listing(session.id, "Bobby", true)).unwrap();
    assert_eq!(shown.len(), 1);
    assert_eq!(shown[0].display_name, "Bobby");
    assert!(shown[0].available);
    assert_eq!(shown[0].room_id, None);
    let shown = upsert_directory(&mut state, &listing(session.id, "Bobby", false)).unwrap();
    assert!(shown.is_empty());
    assert!(state.directory.is_empty());
}

#[test]
fn a_listing_needs_a_session() {
    let mut state = AppState::default();
    let refusal = upsert_directory(&mut state, &listing(5, "Bob", true)).err().unwrap();
    assert_eq!(refusal.status, ErrorStatus::Unauthorized);
    assert_eq!(refusal.message, "A valid session is required.");
}

#[test]
fn a_listing_keeps_the_room_that_was_given() {
    let mut state = AppState::default();
    let session = guest(&mut state, &Some("Bob".into())).unwrap();
    register_presence(&mut state, session.id, PresenceConnectionKind::Stats);
    let mut request = listing(session.id, "", true);
    request.room_id = Some(77);
    let shown = upsert_directory_with(&mut state, &request, 8, Timestamp::now()).unwrap();
    assert_eq!(shown[0].room_id, Some(77));
    assert_eq!(shown[0].display_name, "Guest-0008");
}
