//! What looking into the directory and being listed in it change, and who is shown.

use super::{lemma_portrayed, refused, sits_somewhere};
use crate::directory::{entry_shown, reads_directory, shown_entries, shows_directory};
use crate::directory::{updates_directory, with_listing, DirectoryRequest};
use crate::error::{ErrorStatus, ErrorView};
use crate::invariants::sound;
use crate::presence::online;
use crate::rooms::{in_room, live_room};
use crate::state::{AppStateView, DirectoryEntry, DirectoryEntryView};
use crate::tables::view_items;
use crate::text::{bytes_le, cleaned_name};
use crate::time::Timestamp;
use vstd::prelude::*;
use vstd::utf8::encode_utf8;

verus! {

/// Whether nothing changed but the directory.
pub open spec fn all_same_but_directory(s: AppStateView, after: AppStateView) -> bool {
    &&& after.users == s.users
    &&& after.sessions == s.sessions
    &&& after.rooms == s.rooms
    &&& after.join_requests == s.join_requests
    &&& after.direct_chat_requests == s.direct_chat_requests
    &&& after.presence_connections == s.presence_connections
    &&& after.stats_subscribers == s.stats_subscribers
}

/// Who is shown: everyone whose listing says that they want to be found, who has a session and
/// is online, and nobody else, each once, in order of names.
pub proof fn law_the_directory_shows_whoever_can_be_found(
    entries: Seq<DirectoryEntry>,
    s: AppStateView,
    now: Timestamp,
)
    requires
        sound(s),
        shows_directory(entries, s, now),
    ensures
        forall|key: u128| #[trigger]
            s.directory.contains_key(key) && s.directory[key].available && s.sessions.contains_key(
                key,
            ) && online(s, key, now) ==> exists|i: int|
                0 <= i < entries.len() && (#[trigger] entries[i]).session_id == key,
        forall|i: int|
            0 <= i < entries.len() ==> {
                let shown = #[trigger] entries[i];
                let listing = s.directory[shown.session_id];
                &&& s.directory.contains_key(shown.session_id)
                &&& listing.available
                &&& shown.available
                &&& s.sessions.contains_key(shown.session_id)
                &&& online(s, shown.session_id, now)
                &&& shown.display_name@ == listing.display_name
                &&& shown.updated_at == listing.updated_at
                &&& sits_somewhere(s, shown.session_id) ==> shown.room_id is Some
                    && s.rooms.contains_key(shown.room_id->0)
                    && s.rooms[shown.room_id->0].participants.contains(shown.session_id)
                &&& !sits_somewhere(s, shown.session_id) ==> shown.room_id == listing.room_id
            },
        forall|i: int, j: int|
            0 <= i < j < entries.len() ==> {
                let first = #[trigger] entries[i];
                let second = #[trigger] entries[j];
                &&& first.session_id != second.session_id
                &&& bytes_le(encode_utf8(first.display_name@), encode_utf8(second.display_name@))
            },
{
    let shown = view_items(entries);
    let order = lemma_portrayed(
        shown,
        shown_entries(s, now),
        |key: u128, shown: DirectoryEntryView| entry_shown(s, s.directory[key], shown),
    );
    assert forall|i: int| 0 <= i < entries.len() implies {
        let item = #[trigger] entries[i];
        let listing = s.directory[item.session_id];
        &&& item.session_id == order[i]
        &&& s.directory.contains_key(item.session_id)
        &&& listing.available
        &&& item.available
        &&& s.sessions.contains_key(item.session_id)
        &&& online(s, item.session_id, now)
        &&& item.display_name@ == listing.display_name
        &&& item.updated_at == listing.updated_at
        &&& sits_somewhere(s, item.session_id) ==> item.room_id is Some && s.rooms.contains_key(
            item.room_id->0,
        ) && s.rooms[item.room_id->0].participants.contains(item.session_id)
        &&& !sits_somewhere(s, item.session_id) ==> item.room_id == listing.room_id
    } by {
        let key = order[i];
        assert(s.directory.contains_key(key));
        assert(entry_shown(s, s.directory[key], shown[i]));
        let live = choose|live: Option<u128>| #[trigger]
            live_room(s, s.directory[key].session_id, live) && shown[i] == DirectoryEntryView {
                room_id: match live {
                    Some(room_id) => Some(room_id),
                    None => s.directory[key].room_id,
                },
                ..s.directory[key]
            };
        assert(shown[i] == entries[i]@);
        if live is Some {
            assert(s.rooms.contains_key(live->0));
        } else if sits_somewhere(s, key) {
            let room_id = choose|room_id: u128| #[trigger]
                s.rooms.contains_key(room_id) && s.rooms[room_id].participants.contains(key);
            assert(in_room(s, room_id, key));
        }
    }
    assert forall|key: u128| #[trigger]
        s.directory.contains_key(key) && s.directory[key].available && s.sessions.contains_key(key)
            && online(s, key, now) implies exists|i: int|
        0 <= i < entries.len() && (#[trigger] entries[i]).session_id == key by {
        assert(shown_entries(s, now).contains(key));
        let i = choose|i: int| 0 <= i < order.len() && order[i] == key;
        assert(entries[i].session_id == key);
    }
}

/// Looking into the directory keeps every listing of someone who wants to be found, has a
/// session and is online, as it is, whatever room it names; it drops the others; and it changes
/// nothing else.
pub proof fn law_looking_keeps_whoever_can_be_found(
    s: AppStateView,
    now: Timestamp,
    after: AppStateView,
    entries: Seq<DirectoryEntry>,
)
    requires
        sound(s),
        reads_directory(s, now, after, entries),
    ensures
        all_same_but_directory(s, after),
        forall|key: u128| #[trigger]
            after.directory.contains_key(key) <==> s.directory.contains_key(key)
                && s.directory[key].available && s.sessions.contains_key(key) && online(
                s,
                key,
                now,
            ),
        forall|key: u128| #[trigger]
            after.directory.contains_key(key) ==> after.directory[key] == s.directory[key],
        forall|key: u128| #[trigger]
            s.directory.contains_key(key) && s.directory[key].available && s.sessions.contains_key(
                key,
            ) && online(s, key, now) ==> exists|i: int|
                0 <= i < entries.len() && (#[trigger] entries[i]).session_id == key,
        forall|i: int|
            0 <= i < entries.len() ==> s.directory.contains_key(
                (#[trigger] entries[i]).session_id,
            ) && online(s, entries[i].session_id, now),
{
    assert(sound(after)) by {
        assert(crate::operations::performs(
            crate::operations::Operation::ReadDirectory,
            s,
            now,
            after,
        ));
        crate::invariants::law_operations_keep_the_state_sound(
            crate::operations::Operation::ReadDirectory,
            s,
            now,
            after,
        );
    }
    law_the_directory_shows_whoever_can_be_found(entries, after, now);
    assert forall|key: u128| #[trigger]
        s.directory.contains_key(key) && s.directory[key].available && s.sessions.contains_key(key)
            && online(s, key, now) implies exists|i: int|
        0 <= i < entries.len() && (#[trigger] entries[i]).session_id == key by {
        assert(after.directory.contains_key(key));
        assert(online(after, key, now)) by {
            let c = choose|c: u128| #[trigger]
                s.presence_connections.contains_key(c) && s.presence_connections[c].session_id
                    == key && !crate::presence::stale(s.presence_connections[c], now);
            assert(after.presence_connections.contains_key(c));
        }
    }
}

/// Being listed, or no longer, changes one's own listing: whoever asks is listed under the name
/// they gave and in the room they named, or else in one that they are in. Of the other listings
/// those stay that belong to someone who wants to be found, has a session and is online, as they
/// are; nothing else changes.
pub proof fn law_being_listed_only_changes_ones_own_listing(
    s: AppStateView,
    request: DirectoryRequest,
    number: u32,
    now: Timestamp,
    after: AppStateView,
    result: Result<Seq<DirectoryEntry>, ErrorView>,
)
    requires
        sound(s),
        updates_directory(s, request, number, now, after, result),
    ensures
        result is Ok <==> s.sessions.contains_key(request.session_id),
        result is Err ==> after == s && refused(result, ErrorStatus::Unauthorized),
        all_same_but_directory(s, after),
        result is Ok ==> {
            let me = request.session_id;
            let mine = after.directory[me];
            &&& after.directory.contains_key(me) <==> request.available
            &&& request.available ==> {
                &&& mine.session_id == me
                &&& mine.display_name == cleaned_name(request.display_name@, number)
                &&& mine.available
                &&& mine.updated_at == now
                &&& request.room_id is Some ==> mine.room_id == request.room_id
                &&& request.room_id is None && sits_somewhere(s, me) ==> mine.room_id is Some
                    && s.rooms.contains_key(mine.room_id->0)
                    && s.rooms[mine.room_id->0].participants.contains(me)
                &&& request.room_id is None && !sits_somewhere(s, me) ==> mine.room_id is None
            }
            &&& forall|key: u128|
                key != me ==> (#[trigger] after.directory.contains_key(key)
                    <==> s.directory.contains_key(key) && s.directory[key].available
                    && s.sessions.contains_key(key) && online(s, key, now))
            &&& forall|key: u128|
                key != me && #[trigger] after.directory.contains_key(key) ==> after.directory[key]
                    == s.directory[key]
            &&& shows_directory(result->Ok_0, after, now)
        },
{
    if result is Ok {
        let me = request.session_id;
        let live = choose|live: Option<u128>| #[trigger]
            live_room(s, me, live) && after == with_listing(
                crate::directory::directory_pruned(s, now),
                request,
                number,
                live,
                now,
            );
        if live is Some {
            assert(s.rooms.contains_key(live->0));
        } else if sits_somewhere(s, me) {
            let room_id = choose|room_id: u128| #[trigger]
                s.rooms.contains_key(room_id) && s.rooms[room_id].participants.contains(me);
            assert(in_room(s, room_id, me));
        }
    }
}

/// Someone else's change to the directory keeps showing everyone else who can be found.
pub proof fn law_anothers_listing_hides_nobody(
    s: AppStateView,
    request: DirectoryRequest,
    number: u32,
    now: Timestamp,
    after: AppStateView,
    result: Result<Seq<DirectoryEntry>, ErrorView>,
    key: u128,
)
    requires
        sound(s),
        updates_directory(s, request, number, now, after, result),
        result is Ok,
        key != request.session_id,
        s.directory.contains_key(key),
        s.directory[key].available,
        s.sessions.contains_key(key),
        online(s, key, now),
    ensures
        after.directory.contains_key(key),
        after.directory[key] == s.directory[key],
        exists|i: int|
            0 <= i < result->Ok_0.len() && (#[trigger] result->Ok_0[i]).session_id == key,
{
    law_being_listed_only_changes_ones_own_listing(s, request, number, now, after, result);
    let operation = crate::operations::Operation::UpdateDirectory { listing: request, number };
    if let crate::operations::Operation::UpdateDirectory { listing, number: drawn } = operation {
        assert(updates_directory(s, listing, drawn, now, after, result));
    }
    crate::invariants::law_operations_keep_the_state_sound(operation, s, now, after);
    law_the_directory_shows_whoever_can_be_found(result->Ok_0, after, now);
    assert(online(after, key, now)) by {
        let c = choose|c: u128| #[trigger]
            s.presence_connections.contains_key(c) && s.presence_connections[c].session_id == key
                && !crate::presence::stale(s.presence_connections[c], now);
        assert(after.presence_connections.contains_key(c));
    }
}

} // verus!
