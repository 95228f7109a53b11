//! Texts, points in time, chance, passwords and settings.

use camera_fodder::accounts::{UserAccount, UserTable};
use camera_fodder::error::{ApiError, ErrorStatus};
use camera_fodder::passwords::{hash_password, hash_password_with, verify_password};
use camera_fodder::sessions::new_session;
use camera_fodder::settings::{bind_addr, AuthData, AuthStore, SaveStep};
use camera_fodder::state::{AppState, Session};
use camera_fodder::text::{
    clean_name, clean_name_with, clip, normalize_display_name, normalize_email, text_at_or_before,
    trim,
};
use camera_fodder::time::{FIRST_SECOND, LAST_SECOND};
use camera_fodder::Timestamp;
use std::collections::HashMap;

fn at(secs: i64) -> Timestamp {
    Timestamp::new(secs, 0).unwrap()
}

#[test]
fn trim_drops_every_kind_of_white_space() {
    for c in '\0'..=char::MAX {
        let text = format!("{c}a{c}b{c}");
        assert_eq!(trim(&text), text.trim(), "{:?}", c);
    }
    assert_eq!(trim(""), "");
    assert_eq!(trim(" \u{3000}\t\n"), "");
    assert_eq!(trim("  in the middle  "), "in the middle");
}

#[test]
fn clip_counts_characters() {
    assert_eq!(clip("héllo", 2), "hé");
    assert_eq!(clip("héllo", 5), "héllo");
    assert_eq!(clip("héllo", 6), "héllo");
    assert_eq!(clip("héllo", 0), "");
}

#[test]
fn normalizing_folds_only_ascii_letters() {
    assert_eq!(normalize_display_name("  PickleWizard "), "picklewizard");
    assert_eq!(normalize_display_name("ÄZ@["), "Äz@[");
    assert_eq!(normalize_email(" Person@Example.COM\n"), "person@example.com");
    assert_eq!(normalize_email("   "), "");
}

#[test]
fn names_are_trimmed_and_clipped() {
    assert_eq!(clean_name_with("  Bob ", 7), "Bob");
    let long = "x".repeat(40);
    assert_eq!(clean_name_with(&long, 7), "x".repeat(32));
    assert_eq!(clean_name("Bob"), "Bob");
}

#[test]
fn empty_names_become_guest_labels() {
    assert_eq!(clean_name_with("", 7), "Guest-0007");
    assert_eq!(clean_name_with(" \t", 123_456), "Guest-3456");
    assert_eq!(clean_name_with("", u32::MAX), "Guest-7295");
    for number in [0, 9, 10, 99, 1000, 9999, 10_000, 65_536] {
        assert_eq!(
            clean_name_with("", number),
            format!("Guest-{:04}", number % 10_000)
        );
    }
    let label = clean_name("   ");
    assert_eq!(label.len(), 10);
    assert!(label.starts_with("Guest-"));
    assert!(label[6..].chars().all(|c| c.is_ascii_digit()));
}

#[test]
fn texts_are_ordered_as_std_orders_them() {
    let texts = ["", "A", "B", "a", "aa", "ab", "b", "é", "z", "\u{10000}", "\u{ffff}"];
    for a in texts {
        for b in texts {
            assert_eq!(text_at_or_before(a, b), a <= b, "{a:?} {b:?}");
        }
    }
}

#[test]
fn timestamps_span_what_chrono_spans() {
    assert_eq!(chrono::DateTime::<chrono::Utc>::MIN_UTC.timestamp(), FIRST_SECOND);
    assert_eq!(chrono::DateTime::<chrono::Utc>::MAX_UTC.timestamp(), LAST_SECOND);
    assert!(Timestamp::new(FIRST_SECOND, 0).is_some());
    assert!(Timestamp::new(FIRST_SECOND - 1, 0).is_none());
    assert!(Timestamp::new(LAST_SECOND, 999_999_999).is_some());
    assert!(Timestamp::new(LAST_SECOND + 1, 0).is_none());
    assert!(Timestamp::new(0, 1_000_000_000).is_none());
}

#[test]
fn leap_seconds_are_kept_and_counted_as_chrono_does() {
    let leap = Timestamp::new(1_483_228_799, 1_500_000_000).unwrap();
    assert_eq!((leap.secs(), leap.nanos()), (1_483_228_799, 1_500_000_000));
    assert!(Timestamp::new(1_483_228_798, 1_500_000_000).is_none());
    assert!(Timestamp::new(1_483_228_799, 2_000_000_000).is_none());
    assert!(Timestamp::new(-1, 1_000_000_000).is_some());
    assert!(Timestamp::new(-2, 1_000_000_000).is_none());
    assert!(Timestamp::new(LAST_SECOND, 1_999_999_999).is_some());

    let mut times = Vec::new();
    for secs in [-86_401, -61, -1, 0, 59, 60, 119, 86_339, 86_399, 86_400, 1_483_228_799] {
        for nanos in [0, 400_000_000, 999_999_999, 1_000_000_000, 1_500_000_000, 1_999_999_999] {
            let date = chrono::DateTime::from_timestamp(secs, nanos);
            let time = Timestamp::new(secs, nanos);
            assert_eq!(time.is_some(), date.is_some(), "{secs} {nanos}");
            if let (Some(time), Some(date)) = (time, date) {
                times.push((time, date));
            }
        }
    }
    for (a, first) in &times {
        for (b, second) in &times {
            assert_eq!(
                a.seconds_since(*b),
                first.signed_duration_since(*second).num_seconds()
            );
            assert_eq!(a.at_or_before(b), first <= second);
        }
    }
    let next = Timestamp::new(119, 0).unwrap();
    let within = Timestamp::new(59, 1_500_000_000).unwrap();
    assert_eq!(next.seconds_since(within), 59);
    assert_eq!(within.seconds_since(next), -59);
}

#[test]
fn seconds_between_round_toward_zero() {
    let early = Timestamp::new(10, 600_000_000).unwrap();
    let late = Timestamp::new(13, 500_000_000).unwrap();
    assert_eq!(late.seconds_since(early), 2);
    assert_eq!(early.seconds_since(late), -2);
    assert_eq!(at(45).seconds_since(at(0)), 45);
    assert_eq!(at(0).seconds_since(at(0)), 0);
    assert_eq!(
        at(LAST_SECOND).seconds_since(at(FIRST_SECOND)),
        LAST_SECOND - FIRST_SECOND
    );
    assert!(early.at_or_before(&late));
    assert!(!late.at_or_before(&early));
    assert!(late.at_or_before(&late));
}

#[test]
fn the_clock_agrees_with_chrono() {
    let before = chrono::Utc::now().timestamp();
    let now = Timestamp::now();
    let after = chrono::Utc::now().timestamp();
    assert!(before <= now.secs() && now.secs() <= after);
    assert!(now.nanos() < 1_000_000_000);
}

#[test]
fn fresh_identifiers_are_random_uuids() {
    let mut seen = std::collections::HashSet::new();
    for _ in 0..100 {
        let session = new_session("Someone".into(), None);
        let id = uuid::Uuid::from_u128(session.id);
        assert_eq!(id.get_version_num(), 4);
        assert_eq!(id.get_variant(), uuid::Variant::RFC4122);
        assert!(seen.insert(session.id));
        assert_eq!(session.display_name, "Someone");
        assert_eq!(session.account_email, None);
    }
}

#[test]
fn a_hash_accepts_its_password_only() {
    let hash = hash_password("correct horse").unwrap();
    assert!(hash.starts_with("$argon2id$v=19$m=19456,t=2,p=1$"));
    assert!(verify_password(&hash, "correct horse"));
    assert!(!verify_password(&hash, "battery staple"));
    assert!(!verify_password("correct horse", "correct horse"));
    assert!(!verify_password("", ""));
}

/// A hash string with the given settings, and with a salt and a digest of zeros.
fn zero_hash(settings: &str) -> String {
    format!("$argon2id$v=19${settings}${}${}", "A".repeat(22), "A".repeat(43))
}

#[test]
fn a_hash_that_names_too_many_lanes_accepts_nothing() {
    for lanes in ["100000000", "536870911", "536870912", "1000000000", "4294967295"] {
        let hash = zero_hash(&format!("m=19456,t=2,p={lanes}"));
        assert!(!verify_password(&hash, "correct horse"), "{lanes}");
    }
    // These are few enough to be asked about, and are refused for other reasons.
    for lanes in ["0", "99999999", "16777216", "2432", "p=1", "000000001"] {
        let hash = zero_hash(&format!("m=19456,t=2,p={lanes}"));
        assert!(!verify_password(&hash, "correct horse"), "{lanes}");
    }
    // Where the lanes are given more than once, the last number counts.
    let hash = hash_password("correct horse").unwrap();
    for lanes in ["p=100000000,p=1", "p=4294967295,p=1", "p=536870912,p=7,p=1"] {
        let repeated = hash.replace("p=1", lanes);
        assert!(verify_password(&repeated, "correct horse"), "{lanes}");
        assert!(!verify_password(&repeated, "battery staple"), "{lanes}");
    }
    for lanes in ["p=1,p=100000000", "p=1,p=536870912", "p=4294967296,p=1", "p=01,p=1"] {
        assert!(!verify_password(&hash.replace("p=1", lanes), "correct horse"), "{lanes}");
    }
    // Digits elsewhere say nothing of lanes.
    let hash = hash_password_with("correct horse", "AAAAp123456789AAAAAAAA").unwrap();
    assert!(verify_password(&hash, "correct horse"));
}

#[test]
fn a_text_that_is_no_hash_accepts_nothing() {
    let hash = hash_password("correct horse").unwrap();
    assert!(verify_password(&hash, "correct horse"));
    let broken = [
        "$".to_string(),
        "$argon2id".to_string(),
        "$argon2id$v=19$m=19456,t=2,p=1".to_string(),
        hash[1..].to_string(),
        format!(" {hash}"),
        format!("{hash} "),
        format!("{hash}$"),
        hash.replace("argon2id", "argon3id"),
        hash.replace("v=19", "v=18"),
        hash.replace("p=1", "p=1,q=1"),
        hash.replace("t=2", "t=é"),
        hash.replace("m=19456,t=2,p=1", "foo"),
        hash.replace("t=2", "t"),
        hash.replace("t=2", "t=2=2"),
        hash.replace("t=2", "t="),
        hash.replace("t=2", "t=2,"),
        hash.replace("t=2", "t=02"),
        hash.replace("v=19$", "v=19$v=19$"),
        hash.replace("$v=19$m=19456,t=2,p=1", "$m=19456,t=2,p=1$v=19"),
    ];
    for text in broken {
        assert!(!verify_password(&text, "correct horse"), "{text}");
    }
    // The version and the settings can be left out where they are the usual ones.
    for part in ["$m=19456,t=2,p=1", ",p=1"] {
        assert!(verify_password(&hash.replace(part, ""), "correct horse"), "{part}");
    }
    assert!(verify_password(&hash.replace("p=1", "p=1,keyid=,data="), "correct horse"));
}

#[test]
fn two_hashes_of_one_password_differ_by_their_salt() {
    let first = hash_password("correct horse").unwrap();
    let second = hash_password("correct horse").unwrap();
    assert_ne!(first, second);
    let salt = first.split('$').nth(4).unwrap();
    assert_eq!(salt.len(), 22);
    assert_eq!(hash_password_with("correct horse", salt).unwrap(), first);
}

#[test]
fn a_salt_that_is_none_is_refused() {
    let refusal = hash_password_with("correct horse", "???").err().unwrap();
    assert_eq!(refusal.status, ErrorStatus::Internal);
    assert_eq!(refusal.message, "Unable to hash password.");
}

#[test]
fn the_address_comes_from_the_settings() {
    assert_eq!(bind_addr(Some("1.2.3.4:5".into()), Some("80".into())), "1.2.3.4:5");
    assert_eq!(bind_addr(None, Some("8080".into())), "0.0.0.0:8080");
    assert_eq!(bind_addr(None, None), "0.0.0.0:3000");
}

#[test]
fn the_store_keeps_accounts_and_sessions() {
    let store = AuthStore::from_setting(None);
    assert_eq!(store.path.as_deref(), Some("data/auth.json"));
    let other = AuthStore::from_setting(Some("/tmp/a.json".into()));
    assert_eq!(other.clone().path.as_deref(), Some("/tmp/a.json"));

    let mut users = UserTable::new();
    users.insert(
        "a@b.c".into(),
        UserAccount {
            display_name: "A".into(),
            password_hash: "h".into(),
            created_at: at(1),
        },
    );
    let session = Session {
        id: 7,
        display_name: "A".into(),
        account_email: Some("a@b.c".into()),
        created_at: at(2),
    };
    let mut state = AppState::start(users, HashMap::from([(7, session)]));
    state.stats_subscribers.insert(3);

    let data = store.save(&state).unwrap();
    let again = store.load(Some(data)).resume();
    assert_eq!(again.users.get(&"a@b.c".to_string()).unwrap().password_hash, "h");
    assert_eq!(again.sessions[&7].display_name, "A");
    assert!(again.stats_subscribers.is_empty());
    assert!(again.rooms.is_empty());
}

#[test]
fn the_memory_store_keeps_nothing() {
    let store = AuthStore::memory();
    let mut state = AppState::default();
    state.sessions.insert(7, new_session("A".into(), None));
    assert!(store.save(&state).is_none());
    let found = AuthData {
        users: UserTable::new(),
        sessions: state.sessions,
    };
    assert!(store.load(Some(found)).sessions.is_empty());
    assert!(AuthStore::from_setting(None).load(None).sessions.is_empty());
}

#[test]
fn each_failed_step_of_saving_has_its_message() {
    let said = |step| {
        let error = AuthStore::save_error(step);
        assert_eq!(error.status, ErrorStatus::Internal);
        error.message
    };
    assert_eq!(said(SaveStep::Prepare), "Unable to prepare auth store.");
    assert_eq!(said(SaveStep::Serialize), "Unable to serialize auth store.");
    assert_eq!(said(SaveStep::Write), "Unable to write auth store.");
    assert_eq!(said(SaveStep::Replace), "Unable to save auth store.");
}

#[test]
fn refusals_have_their_status_codes() {
    assert_eq!(ApiError::bad_request("a").status.code(), 400);
    assert_eq!(ApiError::unauthorized("a").status.code(), 401);
    assert_eq!(ApiError::forbidden("a").status.code(), 403);
    assert_eq!(ApiError::not_found("a").status.code(), 404);
    assert_eq!(ApiError::conflict("a").status.code(), 409);
    assert_eq!(ApiError::internal("a").status.code(), 500);
    assert_eq!(ApiError::conflict("a").message, "a");
}

#[test]
fn an_account_replaces_the_one_under_its_address() {
    let account = |name: &str| UserAccount {
        display_name: name.into(),
        password_hash: "h".into(),
        created_at: at(1),
    };
    let mut users = UserTable::new();
    users.insert("a".into(), account("one"));
    users.insert("b".into(), account("two"));
    users.insert("a".into(), account("three"));
    assert_eq!(users.records().len(), 2);
    assert_eq!(users.get(&"a".to_string()).unwrap().display_name, "three");
    assert_eq!(users.get(&"b".to_string()).unwrap().display_name, "two");
    assert!(users.get(&"c".to_string()).is_none());
    assert_eq!(users.clone().records().len(), 2);
}
