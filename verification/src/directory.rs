//! The directory: people who want to be found.

use crate::chance::random_number;
use crate::error::{ApiError, ErrorView};
use crate::ordering::{by_name, insert_by_name, Named};
use crate::presence::{is_session_online, online};
use crate::rooms::{in_room, live_room, live_room_for_session};
use crate::sessions::{ensure_session, session_refusal};
use crate::state::{AppState, AppStateView, DirectoryEntry, DirectoryEntryView};
use crate::tables::{group_tables, keys_of, lemma_portrays_insert, lemma_scanned_all};
use crate::tables::{lemma_scanned_none, lemma_scanned_step, lemma_view_items_insert, lists};
use crate::tables::{portrays, scanned, view_items};
use crate::text::{clean_name_with, cleaned_name};
use crate::time::{clock_time, Timestamp};
use vstd::prelude::*;

verus! {

broadcast use {vstd::std_specs::hash::group_hash_axioms, group_tables};

impl Named for DirectoryEntry {
    open spec fn name(&self) -> Seq<char> {
        self.display_name@
    }

    fn name_text(&self) -> (result: &str) {
        self.display_name.as_str()
    }
}

/// Whether an entry under `key` stays in the directory: its person wants to be found, has a
/// session, and is online.
pub open spec fn stays_listed(s: AppStateView, key: u128, now: Timestamp) -> bool {
    s.directory.contains_key(key) && s.directory[key].available && s.sessions.contains_key(key)
        && online(s, key, now)
}

/// The state without the directory entries that have become stale.
pub open spec fn directory_pruned(s: AppStateView, now: Timestamp) -> AppStateView {
    AppStateView {
        directory: Map::new(|key: u128| stays_listed(s, key, now), |key: u128| s.directory[key]),
        ..s
    }
}

/// Drops the directory entries of people who do not want to be found, have no session, or
/// are not online.
pub fn prune_stale_directory(state: &mut AppState, now: Timestamp)
    ensures
        final(state)@ == directory_pruned(old(state)@, now),
{
    let keys = keys_of(&state.directory);
    let ghost before = old(state)@;
    assert forall|k: int| 0 <= k < keys@.len() implies before.directory.contains_key(
        #[trigger] keys@[k],
    ) by {
        assert(keys@.contains(keys@[k]));
    }
    let mut i: usize = 0;
    while i < keys.len()
        invariant
            i <= keys@.len(),
            lists(keys@, before.directory.dom()),
            state@ == (AppStateView { directory: state@.directory, ..before }),
            forall|key: u128| #[trigger]
                state@.directory.contains_key(key) ==> before.directory.contains_key(key)
                    && state@.directory[key] == before.directory[key],
            forall|k: int|
                0 <= k < i ==> (state@.directory.contains_key(#[trigger] keys@[k])
                    <==> stays_listed(before, keys@[k], now)),
            forall|k: int|
                i <= k < keys@.len() ==> state@.directory.contains_key(#[trigger] keys@[k]),
        decreases keys@.len() - i,
    {
        let key: u128 = keys[i];
        let stays = match state.directory.get(&key) {
            Some(entry) => entry.available && state.sessions.contains_key(&key)
                && is_session_online(state, key, now),
            None => false,
        };
        if !stays {
            state.directory.remove(&key);
        }
        i = i + 1;
    }
    proof {
        let expected = directory_pruned(before, now).directory;
        assert forall|key: u128| #[trigger]
            expected.contains_key(key) == state@.directory.contains_key(key) by {
            if before.directory.contains_key(key) {
                assert(keys@.contains(key));
            }
        }
    }
}

/// The entries that are shown: those of people who want to be found, have a session, and are
/// online.
pub open spec fn shown_entries(s: AppStateView, now: Timestamp) -> Set<u128> {
    s.directory.dom().filter(
        |key: u128|
            s.directory[key].available && s.sessions.contains_key(s.directory[key].session_id)
                && online(s, s.directory[key].session_id, now),
    )
}

/// Whether `shown` is how an entry is shown: in a room that its person is in, or, if they are
/// in none, in the room that was given.
pub open spec fn entry_shown(
    s: AppStateView,
    entry: DirectoryEntryView,
    shown: DirectoryEntryView,
) -> bool {
    exists|live: Option<u128>| #[trigger]
        live_room(s, entry.session_id, live) && shown == DirectoryEntryView {
            room_id: match live {
                Some(room_id) => Some(room_id),
                None => entry.room_id,
            },
            ..entry
        }
}

/// Whether `entries` show the directory as it is, in order of names.
pub open spec fn shows_directory(
    entries: Seq<DirectoryEntry>,
    s: AppStateView,
    now: Timestamp,
) -> bool {
    &&& portrays(
        view_items(entries),
        shown_entries(s, now),
        |key: u128, shown: DirectoryEntryView| entry_shown(s, s.directory[key], shown),
    )
    &&& by_name(entries)
}

/// The directory as people see it.
pub fn directory_entries(state: &AppState, now: Timestamp) -> (entries: Vec<DirectoryEntry>)
    ensures
        shows_directory(entries@, state@, now),
{
    let keys = keys_of(&state.directory);
    let ghost wanted = shown_entries(state@, now);
    let ghost fits = |key: u128, shown: DirectoryEntryView|
        entry_shown(state@, state@.directory[key], shown);
    let mut entries: Vec<DirectoryEntry> = Vec::new();
    let mut i: usize = 0;
    proof {
        lemma_scanned_none(keys@, wanted);
    }
    while i < keys.len()
        invariant
            i <= keys@.len(),
            lists(keys@, state.directory@.dom()),
            wanted == shown_entries(state@, now),
            fits == (|key: u128, shown: DirectoryEntryView|
                entry_shown(state@, state@.directory[key], shown)),
            portrays(view_items(entries@), scanned(keys@, i as int, wanted), fits),
            by_name(entries@),
        decreases keys@.len() - i,
    {
        let key: u128 = keys[i];
        proof {
            lemma_scanned_step(keys@, i as int, wanted);
        }
        if let Some(entry) = state.directory.get(&key) {
            if entry.available && state.sessions.contains_key(&entry.session_id)
                && is_session_online(state, entry.session_id, now) {
                let live = live_room_for_session(state, entry.session_id);
                let shown = DirectoryEntry {
                    session_id: entry.session_id,
                    display_name: entry.display_name.clone(),
                    room_id: match live {
                        Some(room_id) => Some(room_id),
                        None => entry.room_id,
                    },
                    available: entry.available,
                    updated_at: entry.updated_at,
                };
                let ghost before = entries@;
                let at: usize = insert_by_name(&mut entries, shown);
                proof {
                    lemma_view_items_insert(before, at as int, shown);
                    lemma_portrays_insert(
                        view_items(before),
                        scanned(keys@, i as int, wanted),
                        fits,
                        at as int,
                        key,
                        shown@,
                    );
                }
            }
        }
        i = i + 1;
    }
    proof {
        lemma_scanned_all(keys@, wanted);
    }
    entries
}

/// Looking into the directory: stale entries go, the others are shown.
pub open spec fn reads_directory(
    s: AppStateView,
    now: Timestamp,
    after: AppStateView,
    entries: Seq<DirectoryEntry>,
) -> bool {
    after == directory_pruned(s, now) && shows_directory(entries, after, now)
}

/// The directory at `now`, without stale entries.
pub fn list_directory_at(state: &mut AppState, now: Timestamp) -> (entries: Vec<DirectoryEntry>)
    ensures
        reads_directory(old(state)@, now, final(state)@, entries@),
{
    prune_stale_directory(state, now);
    directory_entries(state, now)
}

/// The directory, without stale entries.
pub fn list_directory(state: &mut AppState) -> (entries: Vec<DirectoryEntry>)
    ensures
        exists|now: Timestamp|
            clock_time(now) && #[trigger] reads_directory(
                old(state)@,
                now,
                final(state)@,
                entries@,
            ),
{
    let now = Timestamp::now();
    list_directory_at(state, now)
}

/// What someone gives who wants to be found, or no longer.
pub struct DirectoryRequest {
    pub session_id: u128,
    pub display_name: String,
    pub room_id: Option<u128>,
    pub available: bool,
}

/// The state with the request's listing in the directory, or without its session's.
pub open spec fn with_listing(
    s: AppStateView,
    request: DirectoryRequest,
    number: u32,
    live: Option<u128>,
    now: Timestamp,
) -> AppStateView {
    AppStateView {
        directory: if request.available {
            s.directory.insert(
                request.session_id,
                DirectoryEntryView {
                    session_id: request.session_id,
                    display_name: cleaned_name(request.display_name@, number),
                    room_id: match request.room_id {
                        Some(room_id) => Some(room_id),
                        None => live,
                    },
                    available: true,
                    updated_at: now,
                },
            )
        } else {
            s.directory.remove(request.session_id)
        },
        ..s
    }
}

/// Entering or leaving the directory: from `s` to `after`, with the given answer. A listing
/// with no room is given one that its person is in; a name that comes to nothing is made of
/// `number`.
pub open spec fn updates_directory(
    s: AppStateView,
    request: DirectoryRequest,
    number: u32,
    now: Timestamp,
    after: AppStateView,
    result: Result<Seq<DirectoryEntry>, ErrorView>,
) -> bool {
    match (session_refusal(s, request.session_id), result) {
        (Some(refusal), Err(e)) => e == refusal && after == s,
        (None, Ok(entries)) => {
            &&& exists|live: Option<u128>| #[trigger]
                live_room(s, request.session_id, live) && after == with_listing(
                    directory_pruned(s, now),
                    request,
                    number,
                    live,
                    now,
                )
            &&& shows_directory(entries, after, now)
        },
        _ => false,
    }
}

/// The entries that were returned, or the refusal.
pub open spec fn entries_answer(result: Result<Vec<DirectoryEntry>, ApiError>) -> Result<
    Seq<DirectoryEntry>,
    ErrorView,
> {
    match result {
        Ok(entries) => Ok(entries@),
        Err(e) => Err(e@),
    }
}

/// Enters or leaves the directory at `now`.
pub fn upsert_directory_with(
    state: &mut AppState,
    request: &DirectoryRequest,
    number: u32,
    now: Timestamp,
) -> (result: Result<Vec<DirectoryEntry>, ApiError>)
    ensures
        updates_directory(
            old(state)@,
            *request,
            number,
            now,
            final(state)@,
            entries_answer(result),
        ),
{
    let ghost s = old(state)@;
    ensure_session(state, request.session_id)?;
    prune_stale_directory(state, now);
    let ghost pruned = state@;
    let live = live_room_for_session(state, request.session_id);
    if request.available {
        let room_id = match request.room_id {
            Some(room_id) => Some(room_id),
            None => live,
        };
        state.directory.insert(
            request.session_id,
            DirectoryEntry {
                session_id: request.session_id,
                display_name: clean_name_with(request.display_name.as_str(), number),
                room_id,
                available: true,
                updated_at: now,
            },
        );
    } else {
        state.directory.remove(&request.session_id);
    }
    proof {
        assert(live_room(s, request.session_id, live)) by {
            if live is None {
                assert forall|room_id: u128|
                    !in_room(s, room_id, request.session_id) by {
                    assert(!in_room(pruned, room_id, request.session_id));
                }
            }
        }
    }
    let entries = directory_entries(state, now);
    Ok(entries)
}

/// Enters or leaves the directory.
pub fn upsert_directory(
    state: &mut AppState,
    request: &DirectoryRequest,
) -> (result: Result<Vec<DirectoryEntry>, ApiError>)
    ensures
        exists|number: u32, now: Timestamp|
            clock_time(now) && #[trigger] updates_directory(
                old(state)@,
                *request,
                number,
                now,
                final(state)@,
                entries_answer(result),
            ),
{
    let number: u32 = random_number();
    let now = Timestamp::now();
    upsert_directory_with(state, request, number, now)
}

} // verus!
