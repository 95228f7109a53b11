//! Promises about the directory.

use crate::direct_chats::in_some_room;
use crate::directory::{entry_shown, reads_directory, shown_entries, shows_directory};
use crate::directory::{stays_listed, updates_directory, DirectoryRequest};
use crate::error::ErrorView;
use crate::invariants::sound;
use crate::join_requests::request_refusal;
use crate::presence::online;
use crate::rooms::{in_room, live_room};
use crate::state::{AppStateView, DirectoryEntry, DirectoryEntryView};
use crate::tables::{lists, view_items};
use crate::text::cleaned_name;
use crate::time::Timestamp;
use vstd::prelude::*;

verus! {

/// Only people are shown who want to be found, have a session, and are online. Whoever is in a
/// room is shown in one that they are in.
pub proof fn law_only_the_reachable_are_shown(
    entries: Seq<DirectoryEntry>,
    s: AppStateView,
    now: Timestamp,
    i: int,
)
    requires
        shows_directory(entries, s, now),
        0 <= i < entries.len(),
    ensures
        entries[i].available,
        s.sessions.contains_key(entries[i].session_id),
        online(s, entries[i].session_id, now),
        in_some_room(s, entries[i].session_id) ==> (entries[i].room_id matches Some(room_id)
            && in_room(s, room_id, entries[i].session_id)),
{
    let shown = view_items(entries);
    let order = choose|order: Seq<u128>| #[trigger]
        lists(order, shown_entries(s, now)) && order.len() == shown.len() && forall|k: int|
            0 <= k < shown.len() ==> entry_shown(s, s.directory[order[k]], #[trigger] shown[k]);
    assert(order.contains(order[i]));
    let entry = s.directory[order[i]];
    let live = choose|live: Option<u128>| #[trigger]
        live_room(s, entry.session_id, live) && shown[i] == DirectoryEntryView {
            room_id: match live {
                Some(room_id) => Some(room_id),
                None => entry.room_id,
            },
            ..entry
        };
}

/// Everyone who wants to be found, has a session, and is online is shown, under the name of
/// their listing.
pub proof fn law_the_reachable_are_shown(
    entries: Seq<DirectoryEntry>,
    s: AppStateView,
    now: Timestamp,
    session_id: u128,
)
    requires
        sound(s),
        shows_directory(entries, s, now),
        stays_listed(s, session_id, now),
    ensures
        exists|i: int|
            0 <= i < entries.len() && (#[trigger] entries[i]).session_id == session_id
                && entries[i].display_name@ == s.directory[session_id].display_name,
{
    let shown = view_items(entries);
    let order = choose|order: Seq<u128>| #[trigger]
        lists(order, shown_entries(s, now)) && order.len() == shown.len() && forall|k: int|
            0 <= k < shown.len() ==> entry_shown(s, s.directory[order[k]], #[trigger] shown[k]);
    assert(order.contains(session_id));
    let i = choose|i: int| 0 <= i < order.len() && order[i] == session_id;
    assert(entry_shown(s, s.directory[order[i]], shown[i]));
}

/// Nobody is shown twice.
pub proof fn law_nobody_is_shown_twice(
    entries: Seq<DirectoryEntry>,
    s: AppStateView,
    now: Timestamp,
    i: int,
    j: int,
)
    requires
        sound(s),
        shows_directory(entries, s, now),
        0 <= i < j < entries.len(),
    ensures
        entries[i].session_id != entries[j].session_id,
{
    let shown = view_items(entries);
    let order = choose|order: Seq<u128>| #[trigger]
        lists(order, shown_entries(s, now)) && order.len() == shown.len() && forall|k: int|
            0 <= k < shown.len() ==> entry_shown(s, s.directory[order[k]], #[trigger] shown[k]);
    assert(entry_shown(s, s.directory[order[i]], shown[i]));
    assert(entry_shown(s, s.directory[order[j]], shown[j]));
    assert(order.contains(order[i]) && order.contains(order[j]));
}

/// Someone without a connection that is alive is dropped from the directory by whoever looks
/// into it, and is not shown.
pub proof fn law_the_absent_are_hidden(
    s: AppStateView,
    now: Timestamp,
    after: AppStateView,
    entries: Seq<DirectoryEntry>,
    session_id: u128,
)
    requires
        reads_directory(s, now, after, entries),
        !online(s, session_id, now),
    ensures
        !after.directory.contains_key(session_id),
        forall|i: int|
            0 <= i < entries.len() ==> (#[trigger] entries[i]).session_id != session_id,
{
    assert forall|i: int| 0 <= i < entries.len() implies (#[trigger] entries[i]).session_id
        != session_id by {
        law_only_the_reachable_are_shown(entries, after, now, i);
    }
}

/// Looking into the directory a second time at the same time changes nothing.
pub proof fn law_looking_twice_changes_nothing(
    s: AppStateView,
    now: Timestamp,
    read: AppStateView,
    first: Seq<DirectoryEntry>,
    after: AppStateView,
    second: Seq<DirectoryEntry>,
)
    requires
        reads_directory(s, now, read, first),
        reads_directory(read, now, after, second),
    ensures
        after == read,
{
}

/// Whoever is online and asks to be listed is shown at once, under the name they gave; whoever
/// asks not to be listed is not shown.
pub proof fn law_a_listing_takes_effect(
    s: AppStateView,
    request: DirectoryRequest,
    number: u32,
    now: Timestamp,
    after: AppStateView,
    result: Result<Seq<DirectoryEntry>, ErrorView>,
)
    requires
        sound(s),
        updates_directory(s, request, number, now, after, result),
        result is Ok,
        online(s, request.session_id, now),
    ensures
        ({
            let entries = result->Ok_0;
            &&& request.available ==> exists|i: int|
                0 <= i < entries.len() && (#[trigger] entries[i]).session_id
                    == request.session_id && entries[i].display_name@ == cleaned_name(
                    request.display_name@,
                    number,
                )
            &&& !request.available ==> forall|i: int|
                0 <= i < entries.len() ==> (#[trigger] entries[i]).session_id
                    != request.session_id
        }),
{
    let entries = result->Ok_0;
    if request.available {
        law_the_reachable_are_shown(entries, after, now, request.session_id);
    } else {
        let shown = view_items(entries);
        let order = choose|order: Seq<u128>| #[trigger]
            lists(order, shown_entries(after, now)) && order.len() == shown.len() && forall|k: int|
                0 <= k < shown.len() ==> entry_shown(
                    after,
                    after.directory[order[k]],
                    #[trigger] shown[k],
                );
        assert forall|i: int| 0 <= i < entries.len() implies (#[trigger] entries[i]).session_id
            != request.session_id by {
            assert(entry_shown(after, after.directory[order[i]], shown[i]));
            assert(order.contains(order[i]));
        }
    }
}

/// Whoever is not in the room that someone is shown in, and has a session, can ask to be let
/// into it, as long as it is not full.
pub proof fn law_a_shown_room_can_be_asked_for(
    entries: Seq<DirectoryEntry>,
    s: AppStateView,
    now: Timestamp,
    i: int,
    viewer: u128,
)
    requires
        shows_directory(entries, s, now),
        0 <= i < entries.len(),
        in_some_room(s, entries[i].session_id),
        s.sessions.contains_key(viewer),
    ensures
        entries[i].room_id matches Some(room_id) && (!in_room(s, room_id, viewer)
            && !s.rooms[room_id].full() ==> request_refusal(s, room_id, viewer) is None),
{
    law_only_the_reachable_are_shown(entries, s, now, i);
}

} // verus!
