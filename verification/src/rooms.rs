//! Rooms: who has a place, who is let in, who is matched with whom, and what the members
//! are told.

use crate::chance::{choose_one, new_id, random_id_shape};
use crate::error::{answer, bad_request, conflict, forbidden, not_found, unauthorized};
use crate::error::{ApiError, ErrorView};
use crate::events::{sent_to, Dispatch, DispatchView, Participant, ParticipantView};
use crate::events::{RoomSnapshot, RoomSnapshotView, ServerWsEvent, ServerWsEventView};
use crate::ordering::{by_name, insert_by_name, Named};
use crate::sessions::{ensure_session, session_refusal};
use crate::state::{AppState, AppStateView, Room, RoomView, MAX_ROOM_SIZE};
use crate::tables::{add_all, group_tables, keys_of, lemma_lists_insert, lemma_lists_push};
use crate::tables::{lemma_portrays_insert, lemma_scanned_all, lemma_scanned_none};
use crate::tables::{lemma_scanned_step, lemma_view_items_insert, lists, members_of, portrays};
use crate::tables::{scanned, view_items};
use crate::text::text_le;
use crate::time::{clock_time, Timestamp};
use std::collections::{HashMap, HashSet};
use vstd::prelude::*;

verus! {

broadcast use {vstd::std_specs::hash::group_hash_axioms, group_tables};

/// Whether the session is a participant of the room.
pub open spec fn in_room(s: AppStateView, room_id: u128, session_id: u128) -> bool {
    s.rooms.contains_key(room_id) && s.rooms[room_id].participants.contains(session_id)
}

/// Whether `found` is a room that the session is in, or nothing because it is in none.
pub open spec fn live_room(s: AppStateView, session_id: u128, found: Option<u128>) -> bool {
    match found {
        Some(room_id) => in_room(s, room_id, session_id),
        None => forall|room_id: u128| !in_room(s, room_id, session_id),
    }
}

/// The participants of a room who have a session, under their session's name.
pub open spec fn roster(s: AppStateView, room: RoomView) -> Set<ParticipantView> {
    Set::new(
        |p: ParticipantView|
            room.participants.contains(p.session_id) && s.sessions.contains_key(p.session_id)
                && s.sessions[p.session_id].display_name == p.display_name,
    )
}

/// Whether `snapshot` shows the room as it is: its settings, and its roster in order of
/// names.
pub open spec fn shows_room(snapshot: RoomSnapshotView, s: AppStateView, room_id: u128) -> bool {
    &&& s.rooms.contains_key(room_id)
    &&& snapshot.id == s.rooms[room_id].id
    &&& snapshot.host_session == s.rooms[room_id].host_session
    &&& snapshot.host_controls_joiners == s.rooms[room_id].host_controls_joiners
    &&& snapshot.share_link_enabled == s.rooms[room_id].share_link_enabled
    &&& snapshot.waiting_for_random == s.rooms[room_id].waiting_for_random
    &&& snapshot.created_at == s.rooms[room_id].created_at
    &&& snapshot.max_size == MAX_ROOM_SIZE
    &&& lists(snapshot.participants, roster(s, s.rooms[room_id]))
    &&& forall|i: int, j: int|
        0 <= i < j < snapshot.participants.len() ==> text_le(
            (#[trigger] snapshot.participants[i]).display_name,
            (#[trigger] snapshot.participants[j]).display_name,
        )
}

/// The sessions with an open channel in the room.
pub open spec fn channels(s: AppStateView, room_id: u128) -> Set<u128> {
    if s.rooms.contains_key(room_id) {
        s.rooms[room_id].senders
    } else {
        Set::empty()
    }
}

/// How many people have a place in the room: participants, and those who were let in and
/// have not come yet.
pub fn reserved_room_count(room: &Room) -> (count: usize)
    ensures
        count == room@.reserved().len(),
{
    let participants = members_of(&room.participants);
    let approved = members_of(&room.approved_joiners);
    let mut reserved: HashSet<u128> = HashSet::new();
    add_all(&mut reserved, &participants);
    add_all(&mut reserved, &approved);
    proof {
        assert(reserved@ =~= room@.reserved());
    }
    reserved.len()
}

/// Whether the session may let people into the room: its participants may, or only the
/// host if the host keeps control.
pub open spec fn may_accept(room: RoomView, session_id: u128) -> bool {
    room.participants.contains(session_id) && (!room.host_controls_joiners || room.host_session
        == session_id)
}

/// Whether the session may let people into the room.
pub fn can_accept_join_request(room: &Room, session_id: u128) -> (result: bool)
    ensures
        result == may_accept(room@, session_id),
{
    room.participants.contains(&session_id) && (!room.host_controls_joiners || room.host_session
        == session_id)
}

/// A room that the session is in, if there is one.
pub fn live_room_for_session(state: &AppState, session_id: u128) -> (result: Option<u128>)
    ensures
        live_room(state@, session_id, result),
{
    let keys = keys_of(&state.rooms);
    let mut i: usize = 0;
    while i < keys.len()
        invariant
            i <= keys@.len(),
            lists(keys@, state.rooms@.dom()),
            forall|k: int| 0 <= k < i ==> !in_room(state@, #[trigger] keys@[k], session_id),
        decreases keys@.len() - i,
    {
        if let Some(room) = state.rooms.get(&keys[i]) {
            if room.participants.contains(&session_id) {
                return Some(keys[i]);
            }
        }
        i = i + 1;
    }
    assert forall|room_id: u128| !in_room(state@, room_id, session_id) by {
        if state@.rooms.contains_key(room_id) {
            assert(keys@.contains(room_id));
        }
    }
    None
}

/// The room as its members see it.
pub fn room_snapshot(state: &AppState, room_id: u128) -> (result: Result<RoomSnapshot, ApiError>)
    ensures
        match answer(result) {
            Ok(snapshot) => shows_room(snapshot, state@, room_id),
            Err(e) => !state@.rooms.contains_key(room_id) && e == not_found("Room not found."@),
        },
{
    let room = match state.rooms.get(&room_id) {
        Some(room) => room,
        None => {
            return Err(ApiError::not_found("Room not found."));
        },
    };
    let ids = members_of(&room.participants);
    let mut participants: Vec<Participant> = Vec::new();
    let ghost mut listed: Set<ParticipantView> = Set::empty();
    let mut i: usize = 0;
    while i < ids.len()
        invariant
            i <= ids@.len(),
            lists(ids@, room.participants@),
            by_name(participants@),
            lists(view_items(participants@), listed),
            forall|p: ParticipantView| #[trigger]
                listed.contains(p) <==> roster(state@, room@).contains(p) && exists|k: int|
                    0 <= k < i && #[trigger] ids@[k] == p.session_id,
        decreases ids@.len() - i,
    {
        let ghost before = listed;
        let ghost items_before = participants@;
        let id: u128 = ids[i];
        assert(ids@.contains(id));
        if let Some(session) = state.sessions.get(&id) {
            let participant = Participant {
                session_id: id,
                display_name: session.display_name.clone(),
            };
            let at: usize = insert_by_name(&mut participants, participant);
            proof {
                lemma_view_items_insert(items_before, at as int, participant);
                lemma_lists_insert(view_items(items_before), before, at as int, participant@);
                listed = before.insert(participant@);
            }
        }
        i = i + 1;
    }
    proof {
        assert forall|p: ParticipantView| roster(state@, room@).contains(p) implies
            listed.contains(p) by {
            assert(ids@.contains(p.session_id));
        }
    }
    Ok(
        RoomSnapshot {
            id: room.id,
            host_session: room.host_session,
            host_controls_joiners: room.host_controls_joiners,
            share_link_enabled: room.share_link_enabled,
            participants,
            waiting_for_random: room.waiting_for_random,
            created_at: room.created_at,
            max_size: MAX_ROOM_SIZE,
        },
    )
}

/// Sends `event` to everyone with an open channel in the room.
pub fn broadcast(state: &AppState, room_id: u128, event: ServerWsEvent) -> (result: Dispatch)
    ensures
        result@ == sent_to(room_id, channels(state@, room_id), event@),
{
    let recipients = match state.rooms.get(&room_id) {
        Some(room) => members_of(&room.senders),
        None => Vec::new(),
    };
    Dispatch { room_id, recipients, event }
}

/// Sends `event` to everyone with an open channel in the room but one.
pub fn broadcast_except(
    state: &AppState,
    room_id: u128,
    except: u128,
    event: ServerWsEvent,
) -> (result: Dispatch)
    ensures
        result@ == sent_to(room_id, channels(state@, room_id).remove(except), event@),
{
    let everyone = match state.rooms.get(&room_id) {
        Some(room) => members_of(&room.senders),
        None => Vec::new(),
    };
    let ghost wanted = channels(state@, room_id).remove(except);
    let mut recipients: Vec<u128> = Vec::new();
    let mut i: usize = 0;
    while i < everyone.len()
        invariant
            i <= everyone@.len(),
            lists(everyone@, channels(state@, room_id)),
            wanted == channels(state@, room_id).remove(except),
            lists(recipients@, scanned(everyone@, i as int, wanted)),
        decreases everyone@.len() - i,
    {
        let next: u128 = everyone[i];
        proof {
            assert(everyone@.contains(next));
        }
        if next != except {
            proof {
                lemma_lists_push(recipients@, scanned(everyone@, i as int, wanted), next);
            }
            recipients.push(next);
        }
        i = i + 1;
    }
    proof {
        lemma_scanned_all(everyone@, wanted);
    }
    Dispatch { room_id, recipients, event }
}

/// Sends `event` to one person, if they have an open channel in the room.
pub fn send_to(
    state: &AppState,
    room_id: u128,
    to: u128,
    event: ServerWsEvent,
) -> (result: Dispatch)
    ensures
        result@ == sent_to(room_id, channels(state@, room_id).intersect(set![to]), event@),
{
    let mut recipients: Vec<u128> = Vec::new();
    if let Some(room) = state.rooms.get(&room_id) {
        if room.senders.contains(&to) {
            recipients.push(to);
            assert(recipients@[0] == to);
        }
    }
    Dispatch { room_id, recipients, event }
}

/// Whether someone who asks for a room of `size`, and keeps host control or not, can be
/// matched into the room.
pub open spec fn open_to(room: RoomView, size: usize, host_controls: bool) -> bool {
    &&& room.waiting_for_random
    &&& room.reserved().len() < size
    &&& room.reserved().len() < MAX_ROOM_SIZE
    &&& !(room.host_controls_joiners && host_controls)
}

/// Whether `room_id` is the identifier of a room that the asker can be matched into.
pub open spec fn match_for(s: AppStateView, size: usize, host_controls: bool, room_id: u128) -> bool {
    exists|key: u128| #[trigger]
        s.rooms.contains_key(key) && s.rooms[key].id == room_id && open_to(
            s.rooms[key],
            size,
            host_controls,
        )
}

/// The rooms, by the key they are kept under, that the asker can be matched into.
pub open spec fn open_rooms(s: AppStateView, size: usize, host_controls: bool) -> Set<u128> {
    s.rooms.dom().filter(|key: u128| open_to(s.rooms[key], size, host_controls))
}

/// The identifier of a room.
pub open spec fn identified(s: AppStateView) -> spec_fn(u128, u128) -> bool {
    |key: u128, room_id: u128| s.rooms[key].id == room_id
}

/// The identifiers of the rooms that someone who asks for a room of `requested_size` can be
/// matched into, each room once.
pub fn matching_rooms(
    state: &AppState,
    requested_size: usize,
    requester_host_controls: bool,
) -> (result: Vec<u128>)
    ensures
        portrays(
            result@,
            open_rooms(state@, requested_size, requester_host_controls),
            identified(state@),
        ),
{
    let keys = keys_of(&state.rooms);
    let ghost wanted = open_rooms(state@, requested_size, requester_host_controls);
    let ghost fits = identified(state@);
    let mut found: Vec<u128> = Vec::new();
    let mut i: usize = 0;
    proof {
        lemma_scanned_none(keys@, wanted);
    }
    while i < keys.len()
        invariant
            i <= keys@.len(),
            lists(keys@, state.rooms@.dom()),
            wanted == open_rooms(state@, requested_size, requester_host_controls),
            fits == identified(state@),
            portrays(found@, scanned(keys@, i as int, wanted), fits),
        decreases keys@.len() - i,
    {
        let key: u128 = keys[i];
        proof {
            lemma_scanned_step(keys@, i as int, wanted);
        }
        if let Some(room) = state.rooms.get(&key) {
            let count: usize = reserved_room_count(room);
            if room.waiting_for_random && count < requested_size && count < MAX_ROOM_SIZE && !(
            room.host_controls_joiners && requester_host_controls) {
                let ghost before = found@;
                found.push(room.id);
                proof {
                    let at = before.len() as int;
                    lemma_portrays_insert(
                        before,
                        scanned(keys@, i as int, wanted),
                        fits,
                        at,
                        key,
                        room.id,
                    );
                    assert(found@ =~= before.insert(at, room.id));
                }
            }
        }
        i = i + 1;
    }
    proof {
        lemma_scanned_all(keys@, wanted);
    }
    found
}

/// The identifiers listed are those of the rooms that the asker can be matched into.
proof fn lemma_matching_rooms(
    s: AppStateView,
    size: usize,
    host_controls: bool,
    found: Seq<u128>,
    room_id: u128,
)
    requires
        portrays(found, open_rooms(s, size, host_controls), identified(s)),
    ensures
        found.contains(room_id) <==> match_for(s, size, host_controls, room_id),
{
    let fits = identified(s);
    let order = choose|order: Seq<u128>| #[trigger]
        lists(order, open_rooms(s, size, host_controls)) && order.len() == found.len() && forall|
            i: int,
        |
            0 <= i < found.len() ==> fits(order[i], #[trigger] found[i]);
    if found.contains(room_id) {
        let i = choose|i: int| 0 <= i < found.len() && found[i] == room_id;
        assert(order.contains(order[i]));
    }
    if match_for(s, size, host_controls, room_id) {
        let key = choose|key: u128| #[trigger]
            s.rooms.contains_key(key) && s.rooms[key].id == room_id && open_to(
                s.rooms[key],
                size,
                host_controls,
            );
        assert(order.contains(key));
        let i = choose|i: int| 0 <= i < order.len() && order[i] == key;
        assert(fits(order[i], found[i]));
    }
}

/// Whether `choice` is what a draw among the matching rooms can bring: one of them, or
/// nothing because there is none.
pub open spec fn drawn_match(
    s: AppStateView,
    size: usize,
    host_controls: bool,
    choice: Option<u128>,
) -> bool {
    match choice {
        Some(room_id) => match_for(s, size, host_controls, room_id),
        None => forall|room_id: u128| !match_for(s, size, host_controls, room_id),
    }
}

/// A room to match someone into, drawn at random; nothing if no room is open to them.
pub fn find_match(
    state: &AppState,
    requested_size: usize,
    requester_host_controls: bool,
) -> (result: Option<u128>)
    ensures
        drawn_match(state@, requested_size, requester_host_controls, result),
{
    let rooms = matching_rooms(state, requested_size, requester_host_controls);
    let choice = choose_one(&rooms);
    proof {
        assert forall|room_id: u128|
            rooms@.contains(room_id) == #[trigger] match_for(
                state@,
                requested_size,
                requester_host_controls,
                room_id,
            ) by {
            lemma_matching_rooms(
                state@,
                requested_size,
                requester_host_controls,
                rooms@,
                room_id,
            );
        }
    }
    choice
}

/// What someone who asked for a room is told.
pub struct RoomResponse {
    pub room: RoomSnapshot,
    pub joined_existing: bool,
    /// What the members of the room are to be sent.
    pub dispatches: Vec<Dispatch>,
}

#[verifier::ext_equal]
pub struct RoomResponseView {
    pub room: RoomSnapshotView,
    pub joined_existing: bool,
    pub dispatches: Seq<DispatchView>,
}

impl View for RoomResponse {
    type V = RoomResponseView;

    open spec fn view(&self) -> RoomResponseView {
        RoomResponseView {
            room: self.room@,
            joined_existing: self.joined_existing,
            dispatches: view_items(self.dispatches@),
        }
    }
}

/// The dispatch that shows everyone in a room what it looks like now.
pub open spec fn room_updated(s: AppStateView, room_id: u128, room: RoomSnapshotView) -> DispatchView {
    sent_to(room_id, channels(s, room_id), ServerWsEventView::RoomUpdated { room })
}

/// The room with one more participant, who came at `now`; nobody else is waited for.
pub open spec fn joined(room: RoomView, session_id: u128, now: Timestamp) -> RoomView {
    RoomView {
        participants: room.participants.insert(session_id),
        participant_joined_at: room.participant_joined_at.insert(session_id, now),
        waiting_for_random: room.waiting_for_random && room.participants.insert(session_id).len()
            < 2,
        ..room
    }
}

/// The state with one room changed.
pub open spec fn with_room(s: AppStateView, room_id: u128, room: RoomView) -> AppStateView {
    AppStateView { rooms: s.rooms.insert(room_id, room), ..s }
}

/// Why a session cannot be matched into a room.
pub open spec fn match_refusal(s: AppStateView, room_id: u128) -> Option<ErrorView> {
    if !s.rooms.contains_key(room_id) {
        Some(not_found("Room not found."@))
    } else if s.rooms[room_id].full() {
        Some(conflict("This room is full."@))
    } else {
        None
    }
}

/// Matching a session into a room: from `s` to `after`, with the given answer.
pub open spec fn joins_match(
    s: AppStateView,
    room_id: u128,
    session_id: u128,
    now: Timestamp,
    after: AppStateView,
    result: Result<RoomResponseView, ErrorView>,
) -> bool {
    match (match_refusal(s, room_id), result) {
        (Some(refusal), Err(e)) => e == refusal && after == s,
        (None, Ok(response)) => {
            &&& after == with_room(s, room_id, joined(s.rooms[room_id], session_id, now))
            &&& shows_room(response.room, after, room_id)
            &&& response.joined_existing
            &&& response.dispatches == seq![room_updated(after, room_id, response.room)]
        },
        _ => false,
    }
}

/// Matches a session into a room at `now`.
pub fn join_room_locked_at(
    state: &mut AppState,
    room_id: u128,
    session_id: u128,
    now: Timestamp,
) -> (result: Result<RoomResponse, ApiError>)
    ensures
        joins_match(old(state)@, room_id, session_id, now, final(state)@, answer(result)),
{
    match state.rooms.get(&room_id) {
        Some(room) => {
            if reserved_room_count(room) >= MAX_ROOM_SIZE {
                return Err(ApiError::conflict("This room is full."));
            }
        },
        None => {
            return Err(ApiError::not_found("Room not found."));
        },
    }
    if let Some(mut room) = state.rooms.remove(&room_id) {
        room.participants.insert(session_id);
        room.participant_joined_at.insert(session_id, now);
        if room.participants.len() >= 2 {
            room.waiting_for_random = false;
        }
        state.rooms.insert(room_id, room);
    }
    let snapshot = room_snapshot(state, room_id)?;
    let update = broadcast(
        state,
        room_id,
        ServerWsEvent::RoomUpdated { room: snapshot.clone() },
    );
    let mut dispatches: Vec<Dispatch> = Vec::new();
    dispatches.push(update);
    let response = RoomResponse { room: snapshot, joined_existing: true, dispatches };
    assert(response@.dispatches =~= seq![room_updated(state@, room_id, response@.room)]);
    Ok(response)
}

/// Matches a session into a room.
pub fn join_room_locked(
    state: &mut AppState,
    room_id: u128,
    session_id: u128,
) -> (result: Result<RoomResponse, ApiError>)
    ensures
        exists|now: Timestamp|
            clock_time(now) && #[trigger] joins_match(
                old(state)@,
                room_id,
                session_id,
                now,
                final(state)@,
                answer(result),
            ),
{
    let now = Timestamp::now();
    join_room_locked_at(state, room_id, session_id, now)
}

/// The size of room that is looked for: two to eight, two if nothing was asked.
pub open spec fn wanted_size(size: Option<usize>) -> usize {
    match size {
        Some(size) => if size < 2 {
            2
        } else if size > MAX_ROOM_SIZE {
            MAX_ROOM_SIZE
        } else {
            size
        },
        None => 2,
    }
}

/// What was asked, or no.
pub open spec fn asked(option: Option<bool>) -> bool {
    option == Some(true)
}

/// A new room with its host in it, waiting for someone to be matched.
pub open spec fn opened_room(
    room_id: u128,
    host: u128,
    host_controls: bool,
    share_link_enabled: bool,
    now: Timestamp,
) -> RoomView {
    RoomView {
        id: room_id,
        host_session: host,
        host_controls_joiners: host_controls,
        share_link_enabled,
        participants: set![host],
        participant_joined_at: map![host => now],
        approved_joiners: Set::empty(),
        senders: Set::empty(),
        connection_ids: Map::empty(),
        waiting_for_random: true,
        created_at: now,
    }
}

/// What someone asks for who wants to meet someone at random.
pub struct StartRoomRequest {
    pub session_id: u128,
    pub size: Option<usize>,
    pub host_controls_joiners: Option<bool>,
    pub share_link_enabled: Option<bool>,
}

/// Meeting someone at random: from `s` to `after`, with the given answer, when `choice`
/// was drawn among the matching rooms and `fresh_id` is the identifier of a new room.
pub open spec fn starts_room(
    s: AppStateView,
    request: StartRoomRequest,
    choice: Option<u128>,
    fresh_id: u128,
    now: Timestamp,
    after: AppStateView,
    result: Result<RoomResponseView, ErrorView>,
) -> bool {
    match session_refusal(s, request.session_id) {
        Some(refusal) => result == Err::<RoomResponseView, ErrorView>(refusal) && after == s,
        None => match choice {
            Some(room_id) => joins_match(s, room_id, request.session_id, now, after, result),
            None => {
                &&& after == with_room(
                    s,
                    fresh_id,
                    opened_room(
                        fresh_id,
                        request.session_id,
                        asked(request.host_controls_joiners),
                        asked(request.share_link_enabled),
                        now,
                    ),
                )
                &&& result matches Ok(response) && {
                    &&& shows_room(response.room, after, fresh_id)
                    &&& !response.joined_existing
                    &&& response.dispatches == Seq::<DispatchView>::empty()
                }
            },
        },
    }
}

fn asked_for(option: Option<bool>) -> (result: bool)
    ensures
        result == asked(option),
{
    match option {
        Some(yes) => yes,
        None => false,
    }
}

/// Puts someone into the room that was drawn for them, or opens a new one for them.
pub fn start_random_room_with(
    state: &mut AppState,
    request: &StartRoomRequest,
    choice: Option<u128>,
    fresh_id: u128,
    now: Timestamp,
) -> (result: Result<RoomResponse, ApiError>)
    ensures
        starts_room(
            old(state)@,
            *request,
            choice,
            fresh_id,
            now,
            final(state)@,
            answer(result),
        ),
{
    ensure_session(state, request.session_id)?;
    if let Some(room_id) = choice {
        return join_room_locked_at(state, room_id, request.session_id, now);
    }
    let mut participants: HashSet<u128> = HashSet::new();
    participants.insert(request.session_id);
    let mut participant_joined_at: HashMap<u128, Timestamp> = HashMap::new();
    participant_joined_at.insert(request.session_id, now);
    let room = Room {
        id: fresh_id,
        host_session: request.session_id,
        host_controls_joiners: asked_for(request.host_controls_joiners),
        share_link_enabled: asked_for(request.share_link_enabled),
        participants,
        participant_joined_at,
        approved_joiners: HashSet::new(),
        senders: HashSet::new(),
        connection_ids: HashMap::new(),
        waiting_for_random: true,
        created_at: now,
    };
    state.rooms.insert(fresh_id, room);
    let snapshot = room_snapshot(state, fresh_id)?;
    let response = RoomResponse { room: snapshot, joined_existing: false, dispatches: Vec::new() };
    assert(response@.dispatches =~= Seq::<DispatchView>::empty());
    Ok(response)
}

/// Meeting someone at random, with a room drawn among those that are open to them: from `s` to
/// `after`, with the given answer.
pub open spec fn meets_at_random(
    s: AppStateView,
    request: StartRoomRequest,
    after: AppStateView,
    result: Result<RoomResponseView, ErrorView>,
) -> bool {
    exists|choice: Option<u128>, fresh_id: u128, now: Timestamp|
        clock_time(now) && drawn_match(
            s,
            wanted_size(request.size),
            asked(request.host_controls_joiners),
            choice,
        ) && random_id_shape(fresh_id) && #[trigger] starts_room(
            s,
            request,
            choice,
            fresh_id,
            now,
            after,
            result,
        )
}

/// Puts someone into a random room that is open to them, or opens a new one for them.
pub fn start_random_room(
    state: &mut AppState,
    request: &StartRoomRequest,
) -> (result: Result<RoomResponse, ApiError>)
    ensures
        meets_at_random(old(state)@, *request, final(state)@, answer(result)),
{
    let size: usize = match request.size {
        Some(size) => if size < 2 {
            2
        } else if size > MAX_ROOM_SIZE {
            MAX_ROOM_SIZE
        } else {
            size
        },
        None => 2,
    };
    let choice = find_match(state, size, asked_for(request.host_controls_joiners));
    let fresh_id: u128 = new_id();
    let now = Timestamp::now();
    start_random_room_with(state, request, choice, fresh_id, now)
}

/// Why a session cannot have another random person called into a room.
pub open spec fn call_refusal(
    s: AppStateView,
    room_id: u128,
    session_id: u128,
    named_room: u128,
) -> Option<ErrorView> {
    if room_id != named_room {
        Some(bad_request("Room URL and request body room_id do not match."@))
    } else if !s.rooms.contains_key(room_id) {
        Some(not_found("Room not found."@))
    } else if !s.rooms[room_id].participants.contains(session_id) {
        Some(unauthorized("Join the room before inviting random people."@))
    } else if s.rooms[room_id].host_controls_joiners && s.rooms[room_id].host_session
        != session_id {
        Some(forbidden("The host limited add-person control for this room."@))
    } else if s.rooms[room_id].full() {
        Some(conflict("This room is already full."@))
    } else {
        None
    }
}

/// Calling another random person into a room: from `s` to `after`, with the given answer.
pub open spec fn calls_random(
    s: AppStateView,
    room_id: u128,
    session_id: u128,
    named_room: u128,
    after: AppStateView,
    result: Result<RoomResponseView, ErrorView>,
) -> bool {
    match (call_refusal(s, room_id, session_id, named_room), result) {
        (Some(refusal), Err(e)) => e == refusal && after == s,
        (None, Ok(response)) => {
            &&& after == with_room(
                s,
                room_id,
                (RoomView { waiting_for_random: true, ..s.rooms[room_id] }),
            )
            &&& shows_room(response.room, after, room_id)
            &&& !response.joined_existing
            &&& response.dispatches == seq![room_updated(after, room_id, response.room)]
        },
        _ => false,
    }
}

/// Calls another random person into the room: it waits for someone to be matched. The
/// request names the room twice, in `room_id` and in `named_room`.
pub fn add_random_to_room(
    state: &mut AppState,
    room_id: u128,
    session_id: u128,
    named_room: u128,
) -> (result: Result<RoomResponse, ApiError>)
    ensures
        calls_random(
            old(state)@,
            room_id,
            session_id,
            named_room,
            final(state)@,
            answer(result),
        ),
{
    if room_id != named_room {
        return Err(ApiError::bad_request("Room URL and request body room_id do not match."));
    }
    match state.rooms.get(&room_id) {
        Some(room) => {
            if !room.participants.contains(&session_id) {
                return Err(ApiError::unauthorized("Join the room before inviting random people."));
            }
            if room.host_controls_joiners && room.host_session != session_id {
                return Err(
                    ApiError::forbidden("The host limited add-person control for this room."),
                );
            }
            if reserved_room_count(room) >= MAX_ROOM_SIZE {
                return Err(ApiError::conflict("This room is already full."));
            }
        },
        None => {
            return Err(ApiError::not_found("Room not found."));
        },
    }
    if let Some(mut room) = state.rooms.remove(&room_id) {
        room.waiting_for_random = true;
        state.rooms.insert(room_id, room);
    }
    let snapshot = room_snapshot(state, room_id)?;
    let update = broadcast(
        state,
        room_id,
        ServerWsEvent::RoomUpdated { room: snapshot.clone() },
    );
    let mut dispatches: Vec<Dispatch> = Vec::new();
    dispatches.push(update);
    let response = RoomResponse { room: snapshot, joined_existing: false, dispatches };
    assert(response@.dispatches =~= seq![room_updated(state@, room_id, response@.room)]);
    Ok(response)
}

/// Why a session is not let into a room. Those already in are let in again; others need a
/// share link or an approval, and a place: approval keeps one for them.
pub open spec fn entry_refusal(s: AppStateView, room_id: u128, session_id: u128) -> Option<ErrorView> {
    let room = s.rooms[room_id];
    if session_refusal(s, session_id) is Some {
        session_refusal(s, session_id)
    } else if !s.rooms.contains_key(room_id) {
        Some(not_found("Room not found."@))
    } else if room.participants.contains(session_id) {
        None
    } else if !room.share_link_enabled && !room.approved_joiners.contains(session_id) {
        Some(forbidden("This room requires a share link or an accepted join request."@))
    } else if room.participants.len() >= MAX_ROOM_SIZE {
        Some(conflict("Room is full."@))
    } else if !room.approved_joiners.contains(session_id) && room.full() {
        Some(conflict("Room is full."@))
    } else {
        None
    }
}

/// The room with the session in it, who came at `now`.
pub open spec fn entered(room: RoomView, session_id: u128, now: Timestamp) -> RoomView {
    RoomView {
        participants: room.participants.insert(session_id),
        participant_joined_at: room.participant_joined_at.insert(session_id, now),
        ..room
    }
}

/// Entering a room: from `s` to `after`, with the given answer.
pub open spec fn enters_room(
    s: AppStateView,
    room_id: u128,
    session_id: u128,
    now: Timestamp,
    after: AppStateView,
    result: Result<(), ErrorView>,
) -> bool {
    match (entry_refusal(s, room_id, session_id), result) {
        (Some(refusal), Err(e)) => e == refusal && after == s,
        (None, Ok(_)) => after == with_room(
            s,
            room_id,
            entered(s.rooms[room_id], session_id, now),
        ),
        _ => false,
    }
}

/// Lets a session into a room at `now`, or refuses it.
pub fn enter_room_at(
    state: &mut AppState,
    room_id: u128,
    session_id: u128,
    now: Timestamp,
) -> (result: Result<(), ApiError>)
    ensures
        enters_room(old(state)@, room_id, session_id, now, final(state)@, answer(result)),
{
    ensure_session(state, session_id)?;
    match state.rooms.get(&room_id) {
        Some(room) => {
            let is_new_joiner = !room.participants.contains(&session_id);
            let has_join_approval = room.approved_joiners.contains(&session_id);
            if is_new_joiner && !room.share_link_enabled && !has_join_approval {
                return Err(
                    ApiError::forbidden(
                        "This room requires a share link or an accepted join request.",
                    ),
                );
            }
            if is_new_joiner && room.participants.len() >= MAX_ROOM_SIZE {
                return Err(ApiError::conflict("Room is full."));
            }
            if is_new_joiner && !has_join_approval && reserved_room_count(room) >= MAX_ROOM_SIZE {
                return Err(ApiError::conflict("Room is full."));
            }
        },
        None => {
            return Err(ApiError::not_found("Room not found."));
        },
    }
    if let Some(mut room) = state.rooms.remove(&room_id) {
        room.participants.insert(session_id);
        room.participant_joined_at.insert(session_id, now);
        state.rooms.insert(room_id, room);
    }
    Ok(())
}

/// Lets a session into a room, or refuses it.
pub fn enter_room(
    state: &mut AppState,
    room_id: u128,
    session_id: u128,
) -> (result: Result<(), ApiError>)
    ensures
        exists|now: Timestamp|
            clock_time(now) && #[trigger] enters_room(
                old(state)@,
                room_id,
                session_id,
                now,
                final(state)@,
                answer(result),
            ),
{
    let now = Timestamp::now();
    enter_room_at(state, room_id, session_id, now)
}

} // verus!
