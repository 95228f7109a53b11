//! What matching, calling in another person and entering change in a room.

use super::{all_same_but_rooms, other_rooms_same, places, reaches, refused, same_rules};
use crate::chance::random_id_shape;
use crate::error::{ErrorStatus, ErrorView};
use crate::events::{sent_to, RoomSnapshotView, ServerWsEventView};
use crate::invariants::sound;
use crate::rooms::{asked, calls_random, channels, drawn_match, enters_room, identified};
use crate::rooms::{joins_match, live_room, may_accept, meets_at_random, open_rooms, shows_room};
use crate::rooms::{starts_room, wanted_size, RoomResponseView, StartRoomRequest};
use crate::state::{AppStateView, RoomView};
use crate::text::bytes_le;
use crate::time::{clock_time, Timestamp};
use vstd::prelude::*;
use vstd::utf8::encode_utf8;

verus! {

/// Whoever is matched into a room is added to its participants. The room keeps its host, its
/// rules, its other participants and their connections, waits for nobody once two are in it,
/// and nothing else in the service changes.
pub proof fn law_matching_only_adds_a_participant(
    s: AppStateView,
    room_id: u128,
    session_id: u128,
    now: Timestamp,
    after: AppStateView,
    result: Result<RoomResponseView, ErrorView>,
)
    requires
        joins_match(s, room_id, session_id, now, after, result),
        result is Ok,
    ensures
        s.rooms.contains_key(room_id),
        after.rooms.contains_key(room_id),
        ({
            let was = s.rooms[room_id];
            let became = after.rooms[room_id];
            &&& same_rules(was, became)
            &&& became.host_session == was.host_session
            &&& became.senders == was.senders
            &&& became.connection_ids == was.connection_ids
            &&& forall|x: u128| #[trigger]
                became.participants.contains(x) <==> was.participants.contains(x) || x == session_id
            &&& became.participant_joined_at.contains_key(session_id)
            &&& became.participant_joined_at[session_id] == now
            &&& forall|x: u128|
                x != session_id ==> (#[trigger] became.participant_joined_at.contains_key(x)
                    <==> was.participant_joined_at.contains_key(x))
                    && became.participant_joined_at[x] == was.participant_joined_at[x]
            &&& became.participants.len() >= 2 ==> !became.waiting_for_random
            &&& became.participants.len() < 2 ==> became.waiting_for_random
                == was.waiting_for_random
        }),
        other_rooms_same(s, after, room_id),
        all_same_but_rooms(s, after),
        result->Ok_0.joined_existing,
        result->Ok_0.room.host_session == s.rooms[room_id].host_session,
        shows_room(result->Ok_0.room, after, room_id),
        result->Ok_0.dispatches.len() == 1,
        reaches(result->Ok_0.dispatches[0], room_id, s.rooms[room_id].senders),
        result->Ok_0.dispatches[0].event == (ServerWsEventView::RoomUpdated {
            room: result->Ok_0.room,
        }),
{
}

/// Matching is refused only if the room is not there, or all eight places are taken.
pub proof fn law_matching_is_refused_for_want_of_a_place(
    s: AppStateView,
    room_id: u128,
    session_id: u128,
    now: Timestamp,
    after: AppStateView,
    result: Result<RoomResponseView, ErrorView>,
)
    requires
        joins_match(s, room_id, session_id, now, after, result),
    ensures
        !s.rooms.contains_key(room_id) ==> refused(result, ErrorStatus::NotFound),
        s.rooms.contains_key(room_id) && places(s.rooms[room_id]) >= 8 ==> refused(
            result,
            ErrorStatus::Conflict,
        ),
        s.rooms.contains_key(room_id) && places(s.rooms[room_id]) < 8 ==> result is Ok,
        result is Err ==> after == s,
{
}

/// A draw brings a room that waits, has a place within the size asked for, and is not under
/// host control if the asker wants that too. It brings nothing only if there is no such room.
pub proof fn law_a_draw_is_among_the_rooms_that_wait(
    s: AppStateView,
    size: usize,
    host_controls: bool,
    choice: Option<u128>,
)
    requires
        sound(s),
        drawn_match(s, size, host_controls, choice),
    ensures
        choice matches Some(room_id) ==> {
            &&& s.rooms.contains_key(room_id)
            &&& s.rooms[room_id].waiting_for_random
            &&& places(s.rooms[room_id]) < size
            &&& places(s.rooms[room_id]) < 8
            &&& !(host_controls && s.rooms[room_id].host_controls_joiners)
        },
        choice is None ==> forall|room_id: u128| #[trigger]
            s.rooms.contains_key(room_id) ==> !s.rooms[room_id].waiting_for_random || places(
                s.rooms[room_id],
            ) >= size || places(s.rooms[room_id]) >= 8 || (host_controls
                && s.rooms[room_id].host_controls_joiners),
{
    if choice is None {
        assert forall|room_id: u128| #[trigger] s.rooms.contains_key(room_id) implies
            !s.rooms[room_id].waiting_for_random || places(s.rooms[room_id]) >= size || places(
            s.rooms[room_id],
        ) >= 8 || (host_controls && s.rooms[room_id].host_controls_joiners) by {
            assert(s.rooms[room_id].id == room_id);
            assert(!crate::rooms::match_for(s, size, host_controls, room_id));
        }
    }
}

/// Two is the size of room that is looked for where none is asked; what is asked is kept
/// between two and eight.
pub proof fn law_a_size_is_two_to_eight(size: Option<usize>)
    ensures
        2 <= wanted_size(size) <= 8,
        size is None ==> wanted_size(size) == 2,
        size matches Some(asked) ==> (2 <= asked <= 8 ==> wanted_size(size) == asked) && (asked
            > 8 ==> wanted_size(size) == 8) && (asked < 2 ==> wanted_size(size) == 2),
{
}

/// Whoever is matched with nobody opens a room of their own: they are its host and only
/// participant, it has the rules they asked for, promises nobody a place, waits for someone,
/// and nothing else changes.
pub proof fn law_an_unmatched_asker_opens_a_room(
    s: AppStateView,
    request: StartRoomRequest,
    fresh_id: u128,
    now: Timestamp,
    after: AppStateView,
    result: Result<RoomResponseView, ErrorView>,
)
    requires
        starts_room(s, request, None, fresh_id, now, after, result),
    ensures
        result is Ok <==> s.sessions.contains_key(request.session_id),
        result is Err ==> refused(result, ErrorStatus::Unauthorized) && after == s,
        result is Ok ==> {
            let room = after.rooms[fresh_id];
            &&& after.rooms.contains_key(fresh_id)
            &&& room.id == fresh_id
            &&& room.host_session == request.session_id
            &&& room.host_controls_joiners == (request.host_controls_joiners == Some(true))
            &&& room.share_link_enabled == (request.share_link_enabled == Some(true))
            &&& forall|x: u128| #[trigger]
                room.participants.contains(x) <==> x == request.session_id
            &&& room.participant_joined_at.contains_key(request.session_id)
            &&& room.participant_joined_at[request.session_id] == now
            &&& forall|x: u128| !#[trigger] room.approved_joiners.contains(x)
            &&& forall|x: u128| !#[trigger] room.senders.contains(x)
            &&& forall|x: u128| !#[trigger] room.connection_ids.contains_key(x)
            &&& room.waiting_for_random
            &&& room.created_at == now
            &&& other_rooms_same(s, after, fresh_id)
            &&& all_same_but_rooms(s, after)
            &&& !result->Ok_0.joined_existing
            &&& shows_room(result->Ok_0.room, after, fresh_id)
            &&& result->Ok_0.dispatches.len() == 0
        },
{
}

/// Whoever is drawn a room is matched into that room and opens none.
pub proof fn law_a_matched_asker_joins_the_room_drawn(
    s: AppStateView,
    request: StartRoomRequest,
    room_id: u128,
    fresh_id: u128,
    now: Timestamp,
    after: AppStateView,
    result: Result<RoomResponseView, ErrorView>,
)
    requires
        starts_room(s, request, Some(room_id), fresh_id, now, after, result),
        s.sessions.contains_key(request.session_id),
        s.rooms.contains_key(room_id),
        places(s.rooms[room_id]) < 8,
    ensures
        result is Ok,
        result->Ok_0.joined_existing,
        after.rooms.dom() == s.rooms.dom(),
        after.rooms[room_id].participants == s.rooms[room_id].participants.insert(
            request.session_id,
        ),
        after.rooms[room_id].host_session == s.rooms[room_id].host_session,
        result->Ok_0.room.host_session == s.rooms[room_id].host_session,
        same_rules(s.rooms[room_id], after.rooms[room_id]),
        other_rooms_same(s, after, room_id),
        all_same_but_rooms(s, after),
{
}

/// Calling in another person makes the room wait and changes nothing else. Only a participant
/// may, only the host where the host keeps control, and only while a place is left.
pub proof fn law_calling_in_another_only_makes_the_room_wait(
    s: AppStateView,
    room_id: u128,
    session_id: u128,
    named_room: u128,
    after: AppStateView,
    result: Result<RoomResponseView, ErrorView>,
)
    requires
        calls_random(s, room_id, session_id, named_room, after, result),
    ensures
        result is Ok <==> room_id == named_room && s.rooms.contains_key(room_id)
            && s.rooms[room_id].participants.contains(session_id) && (
        !s.rooms[room_id].host_controls_joiners || s.rooms[room_id].host_session == session_id)
            && places(s.rooms[room_id]) < 8,
        result is Err ==> after == s,
        room_id != named_room ==> refused(result, ErrorStatus::BadRequest),
        result is Ok ==> {
            let was = s.rooms[room_id];
            let became = after.rooms[room_id];
            &&& after.rooms.contains_key(room_id)
            &&& became.waiting_for_random
            &&& same_rules(was, became)
            &&& became.host_session == was.host_session
            &&& became.participants == was.participants
            &&& became.participant_joined_at == was.participant_joined_at
            &&& became.senders == was.senders
            &&& became.connection_ids == was.connection_ids
            &&& other_rooms_same(s, after, room_id)
            &&& all_same_but_rooms(s, after)
            &&& !result->Ok_0.joined_existing
            &&& shows_room(result->Ok_0.room, after, room_id)
            &&& result->Ok_0.dispatches.len() == 1
            &&& reaches(result->Ok_0.dispatches[0], room_id, was.senders)
            &&& result->Ok_0.dispatches[0].event == (ServerWsEventView::RoomUpdated {
                room: result->Ok_0.room,
            })
        },
{
}

/// Who is let into a room: whoever is in it already; and, while fewer than eight are in it,
/// whoever has an approval, or comes by a share link while a place is free.
pub proof fn law_who_is_let_in(
    s: AppStateView,
    room_id: u128,
    session_id: u128,
    now: Timestamp,
    after: AppStateView,
    result: Result<(), ErrorView>,
)
    requires
        enters_room(s, room_id, session_id, now, after, result),
    ensures
        result is Ok <==> {
            let room = s.rooms[room_id];
            &&& s.sessions.contains_key(session_id)
            &&& s.rooms.contains_key(room_id)
            &&& room.participants.contains(session_id) || (room.participants.len() < 8 && (
            room.approved_joiners.contains(session_id) || (room.share_link_enabled && places(room)
                < 8)))
        },
        result is Err ==> after == s,
        !s.sessions.contains_key(session_id) ==> refused(result, ErrorStatus::Unauthorized),
        s.sessions.contains_key(session_id) && !s.rooms.contains_key(room_id) ==> refused(
            result,
            ErrorStatus::NotFound,
        ),
{
}

/// Entering a room adds a participant and notes when they came. The room keeps its host, its
/// rules, its other participants and whether it waits, and nothing else changes.
pub proof fn law_entering_only_adds_a_participant(
    s: AppStateView,
    room_id: u128,
    session_id: u128,
    now: Timestamp,
    after: AppStateView,
    result: Result<(), ErrorView>,
)
    requires
        enters_room(s, room_id, session_id, now, after, result),
        result is Ok,
    ensures
        after.rooms.contains_key(room_id),
        ({
            let was = s.rooms[room_id];
            let became = after.rooms[room_id];
            &&& same_rules(was, became)
            &&& became.host_session == was.host_session
            &&& became.waiting_for_random == was.waiting_for_random
            &&& became.senders == was.senders
            &&& became.connection_ids == was.connection_ids
            &&& forall|x: u128| #[trigger]
                became.participants.contains(x) <==> was.participants.contains(x) || x == session_id
            &&& became.participant_joined_at.contains_key(session_id)
            &&& became.participant_joined_at[session_id] == now
            &&& forall|x: u128|
                x != session_id ==> (#[trigger] became.participant_joined_at.contains_key(x)
                    <==> was.participant_joined_at.contains_key(x))
                    && became.participant_joined_at[x] == was.participant_joined_at[x]
        }),
        other_rooms_same(s, after, room_id),
        all_same_but_rooms(s, after),
{
}

/// A snapshot tells the truth of a room: its identifier, host and rules, whether it waits, that
/// it holds eight, and each participant who has a session, once, under that session's name, in
/// order of names.
pub proof fn law_a_snapshot_is_true(snapshot: RoomSnapshotView, s: AppStateView, room_id: u128)
    requires
        shows_room(snapshot, s, room_id),
    ensures
        s.rooms.contains_key(room_id),
        snapshot.id == s.rooms[room_id].id,
        snapshot.host_session == s.rooms[room_id].host_session,
        snapshot.host_controls_joiners == s.rooms[room_id].host_controls_joiners,
        snapshot.share_link_enabled == s.rooms[room_id].share_link_enabled,
        snapshot.waiting_for_random == s.rooms[room_id].waiting_for_random,
        snapshot.created_at == s.rooms[room_id].created_at,
        snapshot.max_size == 8,
        forall|i: int|
            0 <= i < snapshot.participants.len() ==> {
                let shown = #[trigger] snapshot.participants[i];
                &&& s.rooms[room_id].participants.contains(shown.session_id)
                &&& s.sessions.contains_key(shown.session_id)
                &&& shown.display_name == s.sessions[shown.session_id].display_name
            },
        forall|x: u128| #[trigger]
            s.rooms[room_id].participants.contains(x) && s.sessions.contains_key(x)
                ==> exists|i: int|
                0 <= i < snapshot.participants.len() && (
                #[trigger] snapshot.participants[i]).session_id
                    == x,
        forall|i: int, j: int|
            0 <= i < j < snapshot.participants.len() ==> {
                let first = #[trigger] snapshot.participants[i];
                let second = #[trigger] snapshot.participants[j];
                &&& first.session_id != second.session_id
                &&& bytes_le(encode_utf8(first.display_name), encode_utf8(second.display_name))
            },
{
    let shown = snapshot.participants;
    assert forall|i: int| 0 <= i < shown.len() implies {
        let p = #[trigger] shown[i];
        &&& s.rooms[room_id].participants.contains(p.session_id)
        &&& s.sessions.contains_key(p.session_id)
        &&& p.display_name == s.sessions[p.session_id].display_name
    } by {
        assert(shown.contains(shown[i]));
    }
    assert forall|x: u128| #[trigger]
        s.rooms[room_id].participants.contains(x) && s.sessions.contains_key(x) implies exists|
        i: int,
    | 0 <= i < shown.len() && (#[trigger] shown[i]).session_id == x by {
        let p = crate::events::ParticipantView {
            session_id: x,
            display_name: s.sessions[x].display_name,
        };
        assert(shown.contains(p));
    }
}

/// Whoever listens in a room has an open channel there.
pub proof fn law_channels_are_those_of_the_room(s: AppStateView, room_id: u128, session_id: u128)
    ensures
        channels(s, room_id).contains(session_id) <==> s.rooms.contains_key(room_id)
            && s.rooms[room_id].senders.contains(session_id),
{
}

/// An event goes to the people it is sent to, in the room that it is sent in, once each.
pub proof fn law_an_event_goes_where_it_is_sent(
    room_id: u128,
    people: Set<u128>,
    event: ServerWsEventView,
)
    ensures
        reaches(sent_to(room_id, people, event), room_id, people),
        sent_to(room_id, people, event).event == event,
{
}

/// A place is taken by each participant, and by each person who was let in, counted once.
pub proof fn law_places_are_counted_once(room: RoomView, session_id: u128)
    requires
        room.participants.finite(),
        room.approved_joiners.finite(),
    ensures
        room.reserved().contains(session_id) <==> room.participants.contains(session_id)
            || room.approved_joiners.contains(session_id),
        room.reserved().len() == places(room),
        room.full() <==> places(room) >= 8,
{
}

/// Participants let people in, or the host alone where the host keeps control.
pub proof fn law_who_lets_people_in(room: RoomView, session_id: u128)
    ensures
        !room.participants.contains(session_id) ==> !may_accept(room, session_id),
        room.participants.contains(session_id) && room.host_session == session_id ==> may_accept(
            room,
            session_id,
        ),
        room.participants.contains(session_id) && room.host_session != session_id ==> (may_accept(
            room,
            session_id,
        ) <==> !room.host_controls_joiners),
{
}

/// The room found for someone is one that they are in; nothing is found only if they are in
/// none.
pub proof fn law_a_room_found_is_one_they_are_in(
    s: AppStateView,
    session_id: u128,
    found: Option<u128>,
)
    requires
        live_room(s, session_id, found),
    ensures
        found matches Some(room_id) ==> s.rooms.contains_key(room_id)
            && s.rooms[room_id].participants.contains(session_id),
        found is None ==> forall|room_id: u128| #[trigger]
            s.rooms.contains_key(room_id) ==> !s.rooms[room_id].participants.contains(session_id),
{
    if found is None {
        assert forall|room_id: u128| #[trigger] s.rooms.contains_key(room_id) implies
            !s.rooms[room_id].participants.contains(session_id) by {
            assert(!crate::rooms::in_room(s, room_id, session_id));
        }
    }
}

/// Whether someone who asks for a room of the given size, keeping host control or not, may be
/// matched into the room.
pub open spec fn may_be_matched(room: RoomView, size: Option<usize>, host_controls: bool) -> bool {
    &&& room.waiting_for_random
    &&& places(room) < 8
    &&& size is None || size->0 < 2 ==> places(room) < 2
    &&& size is Some && 2 <= size->0 <= 8 ==> places(room) < size->0
    &&& !(host_controls && room.host_controls_joiners)
}

/// Whoever asks to meet someone is put into a room that waits, has a place within the size asked
/// for, and is not under host control if they want that too, without becoming its host. They get
/// a room of their own, with themselves as host, only if there is no such room.
pub proof fn law_meeting_someone_at_random(
    s: AppStateView,
    request: StartRoomRequest,
    after: AppStateView,
    result: Result<RoomResponseView, ErrorView>,
)
    requires
        sound(s),
        meets_at_random(s, request, after, result),
    ensures
        result is Ok <==> s.sessions.contains_key(request.session_id),
        result is Err ==> after == s,
        result is Ok ==> {
            let shown = result->Ok_0.room;
            let wants_control = request.host_controls_joiners == Some(true);
            let one_waits = exists|key: u128| #[trigger]
                s.rooms.contains_key(key) && may_be_matched(
                    s.rooms[key],
                    request.size,
                    wants_control,
                );
            &&& result->Ok_0.joined_existing <==> one_waits
            &&& after.rooms.contains_key(shown.id)
            &&& after.rooms[shown.id].participants.contains(request.session_id)
            &&& one_waits ==> s.rooms.contains_key(shown.id) && may_be_matched(
                s.rooms[shown.id],
                request.size,
                wants_control,
            ) && after.rooms[shown.id].host_session == s.rooms[shown.id].host_session
                && shown.host_session == s.rooms[shown.id].host_session
            &&& !one_waits ==> after.rooms[shown.id].host_session == request.session_id
                && after.rooms[shown.id].participants == set![request.session_id]
        },
{
    let (choice, fresh_id, now) = choose|choice: Option<u128>, fresh_id: u128, now: Timestamp|
        clock_time(now) && drawn_match(
            s,
            wanted_size(request.size),
            asked(request.host_controls_joiners),
            choice,
        ) && random_id_shape(fresh_id) && #[trigger] starts_room(
            s,
            request,
            choice,
            fresh_id,
            now,
            after,
            result,
        );
    law_a_draw_is_among_the_rooms_that_wait(
        s,
        wanted_size(request.size),
        asked(request.host_controls_joiners),
        choice,
    );
    if s.sessions.contains_key(request.session_id) {
        match choice {
            Some(room_id) => {
                assert(s.rooms[room_id].id == room_id);
                law_a_matched_asker_joins_the_room_drawn(
                    s,
                    request,
                    room_id,
                    fresh_id,
                    now,
                    after,
                    result,
                );
                assert(may_be_matched(
                    s.rooms[room_id],
                    request.size,
                    request.host_controls_joiners == Some(true),
                ));
            },
            None => {},
        }
    }
}

/// The rooms that someone can be matched into are all that wait, have a place within the size
/// asked for, and are not under host control if they want that too.
pub proof fn law_matching_rooms_are_those_that_wait(
    s: AppStateView,
    size: usize,
    host_controls: bool,
    key: u128,
    room_id: u128,
)
    ensures
        open_rooms(s, size, host_controls).contains(key) <==> s.rooms.contains_key(key)
            && s.rooms[key].waiting_for_random && places(s.rooms[key]) < size && places(
            s.rooms[key],
        ) < 8 && !(host_controls && s.rooms[key].host_controls_joiners),
        identified(s)(key, room_id) <==> room_id == s.rooms[key].id,
{
}

} // verus!
