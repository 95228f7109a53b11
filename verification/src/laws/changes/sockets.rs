//! What opening, using and closing a connection change, and who hears what.

use super::presence::{law_a_sweep_tells_who_left, leaving_is_told, lemma_leaving_is_told_twice};
use super::presence::{lemma_people_left_twice, lemma_releases_left, lemma_releases_told};
use super::presence::{lemma_tidies_left, only_left, people_left};
use super::{reaches, same_rules};
use crate::events::{ClientWsEvent, ServerWsEventView};
use crate::invariants::sound;
use crate::laws::presence::{lemma_releases, lemma_tidies, place_kept};
use crate::presence::{counts, releases, stale, sweeps};
use crate::rooms::{in_room, shows_room};
use crate::sockets::{closes_connection, closes_stats_socket, connected, opens_room_socket};
use crate::sockets::{opens_stats_socket, room_reply, subscribed, subscriber_touched};
use crate::sockets::{takes_message, RoomGreeting, RoomMessage, RoomReplyView, SocketClosing};
use crate::sockets::StatsGreeting;
use crate::state::{AppStateView, JoinRequestStatus, PresenceConnectionKind};
use crate::tables::view_items;
use crate::time::Timestamp;
use vstd::prelude::*;

verus! {

/// Being connected opens a channel and makes the connection the active one there. The room keeps
/// its host, its rules, its participants and whether it waits, and no other room changes.
pub proof fn law_being_connected_opens_a_channel(
    s: AppStateView,
    room_id: u128,
    session_id: u128,
    connection_id: u128,
    now: Timestamp,
)
    ensures
        ({
            let after = connected(s, room_id, session_id, connection_id, now);
            let kept = after.presence_connections[connection_id];
            let was = s.rooms[room_id];
            let became = after.rooms[room_id];
            &&& after.presence_connections.contains_key(connection_id)
            &&& kept.session_id == session_id
            &&& kept.kind == (PresenceConnectionKind::Room { room_id })
            &&& kept.last_seen == now
            &&& forall|key: u128|
                key != connection_id ==> (#[trigger] after.presence_connections.contains_key(key)
                    <==> s.presence_connections.contains_key(key))
                    && after.presence_connections[key] == s.presence_connections[key]
            &&& after.rooms.dom() == s.rooms.dom()
            &&& super::other_rooms_same(s, after, room_id)
            &&& s.rooms.contains_key(room_id) ==> {
                &&& same_rules(was, became)
                &&& became.host_session == was.host_session
                &&& became.waiting_for_random == was.waiting_for_random
                &&& became.participants == was.participants
                &&& became.participant_joined_at == was.participant_joined_at
                &&& forall|x: u128| #[trigger]
                    became.senders.contains(x) <==> was.senders.contains(x) || x == session_id
                &&& became.connection_ids.contains_key(session_id)
                &&& became.connection_ids[session_id] == connection_id
                &&& forall|x: u128|
                    x != session_id ==> (#[trigger] became.connection_ids.contains_key(x)
                        <==> was.connection_ids.contains_key(x)) && became.connection_ids[x]
                        == was.connection_ids[x]
            }
            &&& after.users == s.users
            &&& after.sessions == s.sessions
            &&& after.directory == s.directory
            &&& after.join_requests == s.join_requests
            &&& after.stats_subscribers == s.stats_subscribers
            &&& after.direct_chat_requests.dom() == s.direct_chat_requests.dom()
            &&& forall|key: u128| #[trigger]
                s.direct_chat_requests.contains_key(key) ==> {
                    let request = s.direct_chat_requests[key];
                    let leads = request.requester_session == session_id && request.room_id == Some(
                        room_id,
                    ) && request.status == JoinRequestStatus::Accepted && request.consumed_at
                        is None;
                    &&& !leads ==> after.direct_chat_requests[key] == request
                    &&& leads ==> super::presence::used_up(
                        request,
                        after.direct_chat_requests[key],
                        now,
                    )
                }
        }),
{
    assert(connected(s, room_id, session_id, connection_id, now).rooms.dom() =~= s.rooms.dom());
}

/// Whoever connects to a room that they are in stays in it, connected by the new connection, and
/// their connection is kept. They are welcomed with the room as it is and their own identifier;
/// the others who listen, and they alone, are told who came and under which name. Beyond that,
/// people only leave.
pub proof fn law_whoever_connects_is_welcomed(
    s: AppStateView,
    room_id: u128,
    session_id: u128,
    connection_id: u128,
    now: Timestamp,
    after: AppStateView,
    greeting: RoomGreeting,
)
    requires
        sound(s),
        opens_room_socket(s, room_id, session_id, connection_id, now, after, greeting),
        s.rooms.contains_key(room_id),
        s.rooms[room_id].participants.contains(session_id),
    ensures
        greeting.connection_id == connection_id,
        s.sessions.contains_key(session_id) ==> greeting.display_name@
            == s.sessions[session_id].display_name,
        !s.sessions.contains_key(session_id) ==> greeting.display_name@ == "Guest"@,
        people_left(connected(s, room_id, session_id, connection_id, now), after),
        after.sessions == s.sessions,
        after.presence_connections.contains_key(connection_id),
        after.presence_connections[connection_id].session_id == session_id,
        forall|key: u128|
            key != connection_id ==> (#[trigger] after.presence_connections.contains_key(key)
                <==> s.presence_connections.contains_key(key) && !stale(
                s.presence_connections[key],
                now,
            )),
        after.rooms.contains_key(room_id),
        ({
            let was = s.rooms[room_id];
            let became = after.rooms[room_id];
            &&& became.participants.contains(session_id)
            &&& became.connection_ids.contains_key(session_id)
            &&& became.connection_ids[session_id] == connection_id
            &&& same_rules(was, became)
            &&& became.waiting_for_random == was.waiting_for_random
            &&& greeting.welcome matches Some(welcome)
                && welcome@ matches ServerWsEventView::Welcome {
                room,
                you,
            } && you == session_id && shows_room(room, after, room_id)
            &&& greeting.dispatches@.len() == 1
            &&& reaches(greeting.dispatches@[0]@, room_id, became.senders.remove(session_id))
            &&& greeting.dispatches@[0]@.event matches ServerWsEventView::PeerJoined { peer }
                && peer.session_id == session_id && peer.display_name == greeting.display_name@
            &&& counts(greeting.stats.snapshot, after, now)
        }),
{
    let begun = connected(s, room_id, session_id, connection_id, now);
    law_being_connected_opens_a_channel(s, room_id, session_id, connection_id, now);
    lemma_tidies(begun, now, after, view_items(greeting.stats.dispatches@));
    lemma_tidies_left(begun, now, after, view_items(greeting.stats.dispatches@));
    assert(in_room(begun, room_id, session_id));
    assert(!stale(begun.presence_connections[connection_id], now));
    assert(after.presence_connections.contains_key(connection_id));
    assert(place_kept(begun, after, room_id, session_id));
    assert(only_left(begun.rooms[room_id], after.rooms[room_id]));
    let told = view_items(greeting.dispatches@);
    assert(told.len() == 1);
    assert(told[0] == greeting.dispatches@[0]@);
}

/// Whoever connects to a room that is gone is not welcomed, and nobody is told.
pub proof fn law_nobody_is_welcomed_where_no_room_is(
    s: AppStateView,
    room_id: u128,
    session_id: u128,
    connection_id: u128,
    now: Timestamp,
    after: AppStateView,
    greeting: RoomGreeting,
)
    requires
        opens_room_socket(s, room_id, session_id, connection_id, now, after, greeting),
        !after.rooms.contains_key(room_id),
    ensures
        greeting.welcome is None,
        greeting.dispatches@.len() == 0,
{
}

/// Who hears what someone sends: a signal, whoever it is for; a change of presence, everyone
/// else who listens; a chat line, cut to five hundred characters and under the writer's name,
/// everyone who listens; a complaint, whoever sent what is no event. Heartbeats and other frames
/// are heard by nobody; only leaving and closing end the connection.
pub proof fn law_who_hears_what(
    s: AppStateView,
    room_id: u128,
    session_id: u128,
    display_name: Seq<char>,
    message: RoomMessage,
    now: Timestamp,
)
    requires
        s.rooms.contains_key(room_id),
    ensures
        ({
            let reply = room_reply(s, room_id, session_id, display_name, message, now);
            let listeners = s.rooms[room_id].senders;
            match message {
                RoomMessage::Event(event) => match event {
                    ClientWsEvent::Signal { to, payload } => {
                        &&& !reply.leave
                        &&& reply.dispatches.len() == 1
                        &&& reply.dispatches[0].room_id == room_id
                        &&& reply.dispatches[0].one_copy_each
                        &&& forall|x: u128| #[trigger]
                            reply.dispatches[0].recipients.contains(x) <==> x == to
                                && listeners.contains(x)
                        &&& reply.dispatches[0].event == (ServerWsEventView::Signal {
                            from: session_id,
                            payload,
                        })
                    },
                    ClientWsEvent::Presence { audio_enabled, video_enabled, screen_sharing } => {
                        &&& !reply.leave
                        &&& reply.dispatches.len() == 1
                        &&& reaches(reply.dispatches[0], room_id, listeners.remove(session_id))
                        &&& reply.dispatches[0].event == (ServerWsEventView::Presence {
                            from: session_id,
                            audio_enabled,
                            video_enabled,
                            screen_sharing,
                        })
                    },
                    ClientWsEvent::Chat { text } => {
                        &&& !reply.leave
                        &&& reply.dispatches.len() == 1
                        &&& reaches(reply.dispatches[0], room_id, listeners)
                        &&& reply.dispatches[0].event matches ServerWsEventView::Chat {
                            from,
                            display_name: name,
                            text: line,
                            at,
                        } && from == session_id && name == display_name && at == now && (
                        text@.len() <= 500 ==> line == text@) && (text@.len() > 500 ==> line
                            == text@.take(500))
                    },
                    ClientWsEvent::Heartbeat => !reply.leave && reply.dispatches.len() == 0,
                    ClientWsEvent::Leave => reply.leave && reply.dispatches.len() == 0,
                },
                RoomMessage::Malformed => {
                    &&& !reply.leave
                    &&& reply.dispatches.len() == 1
                    &&& reply.dispatches[0].room_id == room_id
                    &&& reply.dispatches[0].one_copy_each
                    &&& forall|x: u128| #[trigger]
                        reply.dispatches[0].recipients.contains(x) <==> x == session_id
                            && listeners.contains(x)
                    &&& reply.dispatches[0].event is Error
                },
                RoomMessage::Quiet => !reply.leave && reply.dispatches.len() == 0,
                RoomMessage::Close => reply.leave && reply.dispatches.len() == 0,
            }
        }),
{
}

/// Nobody hears what is sent in a room that is gone.
pub proof fn law_nobody_hears_what_is_sent_where_no_room_is(
    s: AppStateView,
    room_id: u128,
    session_id: u128,
    display_name: Seq<char>,
    message: RoomMessage,
    now: Timestamp,
    i: int,
)
    requires
        !s.rooms.contains_key(room_id),
        0 <= i < room_reply(s, room_id, session_id, display_name, message, now).dispatches.len(),
    ensures
        room_reply(
            s,
            room_id,
            session_id,
            display_name,
            message,
            now,
        ).dispatches[i].recipients == Set::<u128>::empty(),
{
}

/// The end of a connection, and the sweep that follows it, take people out of rooms and do
/// nothing else to rooms, requests and listings. The connection is gone, with those that were
/// stale, and no others.
pub proof fn law_closing_only_takes_people_out(
    s: AppStateView,
    connection_id: u128,
    now: Timestamp,
    after: AppStateView,
    closing: SocketClosing,
)
    requires
        closes_connection(s, connection_id, now, after, closing),
    ensures
        people_left(s, after),
        after.sessions == s.sessions,
        forall|key: u128| #[trigger]
            after.presence_connections.contains_key(key) <==> s.presence_connections.contains_key(
                key,
            ) && key != connection_id && !stale(s.presence_connections[key], now),
        forall|key: u128| #[trigger]
            after.presence_connections.contains_key(key) ==> after.presence_connections[key]
                == s.presence_connections[key],
        counts(closing.stats.snapshot, after, now),
        forall|x: u128| #[trigger]
            closing.stats.subscribers@.contains(x) <==> s.stats_subscribers.contains(x),
        leaving_is_told(
            s,
            after,
            view_items(closing.dispatches@) + view_items(closing.stats.dispatches@),
        ),
{
    let dispatches = view_items(closing.dispatches@);
    let mid = choose|mid: AppStateView| #[trigger]
        releases(s, connection_id, now, mid, dispatches) && sweeps(mid, now, after, closing.stats);
    super::presence::law_the_end_of_a_connection(s, connection_id, now, mid, dispatches);
    lemma_releases(s, connection_id, now, mid, dispatches);
    lemma_releases_left(s, connection_id, now, mid, dispatches);
    lemma_tidies(mid, now, after, view_items(closing.stats.dispatches@));
    lemma_tidies_left(mid, now, after, view_items(closing.stats.dispatches@));
    lemma_people_left_twice(s, mid, after);
    lemma_releases_told(s, connection_id, now, mid, dispatches);
    law_a_sweep_tells_who_left(mid, now, after, view_items(closing.stats.dispatches@));
    lemma_leaving_is_told_twice(
        s,
        mid,
        after,
        dispatches,
        view_items(closing.stats.dispatches@),
        dispatches + view_items(closing.stats.dispatches@),
    );
}

/// Whoever subscribes to the head counts is a subscriber from then on, beside those there were.
/// If they named a session that there is, a connection for head counts is kept for it, and
/// otherwise none; the first counts count them. Beyond that, people only leave.
pub proof fn law_whoever_subscribes_is_told_the_counts(
    s: AppStateView,
    session_id: Option<u128>,
    subscriber_id: u128,
    connection_id: u128,
    now: Timestamp,
    after: AppStateView,
    greeting: StatsGreeting,
)
    requires
        opens_stats_socket(s, session_id, subscriber_id, connection_id, now, after, greeting),
    ensures
        ({
            let known = session_id is Some && s.sessions.contains_key(session_id->0);
            let begun = subscribed(s, session_id, subscriber_id, connection_id, now);
            let kept = after.presence_connections[connection_id];
            &&& greeting.subscriber_id == subscriber_id
            &&& greeting.connection_id == if known {
                Some(connection_id)
            } else {
                None
            }
            &&& forall|x: u128| #[trigger]
                after.stats_subscribers.contains(x) <==> s.stats_subscribers.contains(x) || x
                    == subscriber_id
            &&& known ==> after.presence_connections.contains_key(connection_id) && kept.session_id
                == session_id->0 && kept.kind == PresenceConnectionKind::Stats && kept.last_seen
                == now
            &&& forall|key: u128|
                (!known || key != connection_id) ==> (
                #[trigger] after.presence_connections.contains_key(key)
                    <==> s.presence_connections.contains_key(key) && !stale(
                    s.presence_connections[key],
                    now,
                ))
            &&& begun.rooms == s.rooms
            &&& begun.sessions == s.sessions
            &&& begun.users == s.users
            &&& begun.directory == s.directory
            &&& begun.join_requests == s.join_requests
            &&& begun.direct_chat_requests == s.direct_chat_requests
            &&& people_left(begun, after)
            &&& after.sessions == s.sessions
            &&& counts(greeting.first, begun, now)
            &&& counts(greeting.stats.snapshot, after, now)
            &&& forall|x: u128| #[trigger]
                greeting.stats.subscribers@.contains(x) <==> after.stats_subscribers.contains(x)
        }),
{
    let begun = subscribed(s, session_id, subscriber_id, connection_id, now);
    lemma_tidies(begun, now, after, view_items(greeting.stats.dispatches@));
    lemma_tidies_left(begun, now, after, view_items(greeting.stats.dispatches@));
    if session_id is Some && s.sessions.contains_key(session_id->0) {
        assert(begun.presence_connections.contains_key(connection_id));
        assert(!stale(begun.presence_connections[connection_id], now));
        assert(after.presence_connections.contains_key(connection_id));
    }
}

/// Whoever ends a subscription is no longer a subscriber; the others stay. Their connection ends,
/// if they had one, and people only leave.
pub proof fn law_whoever_unsubscribes_is_told_no_more(
    s: AppStateView,
    subscriber_id: u128,
    connection_id: Option<u128>,
    now: Timestamp,
    after: AppStateView,
    closing: SocketClosing,
)
    requires
        closes_stats_socket(s, subscriber_id, connection_id, now, after, closing),
    ensures
        forall|x: u128| #[trigger]
            after.stats_subscribers.contains(x) <==> s.stats_subscribers.contains(x) && x
                != subscriber_id,
        after.sessions == s.sessions,
        people_left(
            AppStateView { stats_subscribers: s.stats_subscribers.remove(subscriber_id), ..s },
            after,
        ),
        forall|key: u128| #[trigger]
            after.presence_connections.contains_key(key) <==> s.presence_connections.contains_key(
                key,
            ) && connection_id != Some(key) && !stale(s.presence_connections[key], now),
        forall|x: u128| #[trigger]
            closing.stats.subscribers@.contains(x) <==> after.stats_subscribers.contains(x),
{
    let without = AppStateView {
        stats_subscribers: s.stats_subscribers.remove(subscriber_id),
        ..s
    };
    match connection_id {
        Some(connection) => {
            law_closing_only_takes_people_out(without, connection, now, after, closing);
        },
        None => {
            lemma_tidies(without, now, after, view_items(closing.stats.dispatches@));
            lemma_tidies_left(without, now, after, view_items(closing.stats.dispatches@));
        },
    }
}

/// Hearing from a subscriber notes when on their own connection, if they have one, and changes
/// nothing else.
pub proof fn law_hearing_from_a_subscriber_only_notes_when(
    s: AppStateView,
    connection_id: Option<u128>,
    now: Timestamp,
)
    ensures
        ({
            let after = subscriber_touched(s, connection_id, now);
            &&& super::all_same_but_connections(s, after)
            &&& after.presence_connections.dom() == s.presence_connections.dom()
            &&& forall|key: u128| #[trigger]
                s.presence_connections.contains_key(key) ==> {
                    let was = s.presence_connections[key];
                    let became = after.presence_connections[key];
                    &&& became.session_id == was.session_id
                    &&& became.kind == was.kind
                    &&& connection_id == Some(key) ==> became.last_seen == now
                    &&& connection_id != Some(key) ==> became.last_seen == was.last_seen
                }
        }),
{
}

/// Whatever someone sends is taken as a sign of life of their connection, and sets off what it
/// sets off in their room; nothing else changes.
pub proof fn law_every_message_is_a_sign_of_life(
    s: AppStateView,
    room_id: u128,
    session_id: u128,
    connection_id: u128,
    display_name: Seq<char>,
    message: RoomMessage,
    now: Timestamp,
    after: AppStateView,
    reply: RoomReplyView,
)
    requires
        takes_message(
            s,
            room_id,
            session_id,
            connection_id,
            display_name,
            message,
            now,
            after,
            reply,
        ),
    ensures
        super::all_same_but_connections(s, after),
        after.presence_connections.dom() == s.presence_connections.dom(),
        forall|key: u128| #[trigger]
            s.presence_connections.contains_key(key) ==> {
                let was = s.presence_connections[key];
                let became = after.presence_connections[key];
                &&& became.session_id == was.session_id
                &&& became.kind == was.kind
                &&& key == connection_id ==> became.last_seen == now
                &&& key != connection_id ==> became.last_seen == was.last_seen
            },
        reply == room_reply(s, room_id, session_id, display_name, message, now),
{
}

/// Whoever connects is welcomed if and only if the room is there afterwards, and then everyone
/// else who listens there is told.
pub proof fn law_a_welcome_needs_a_room(
    s: AppStateView,
    room_id: u128,
    session_id: u128,
    connection_id: u128,
    now: Timestamp,
    after: AppStateView,
    greeting: RoomGreeting,
)
    requires
        opens_room_socket(s, room_id, session_id, connection_id, now, after, greeting),
    ensures
        greeting.welcome is Some <==> after.rooms.contains_key(room_id),
        greeting.welcome matches Some(welcome) ==> (welcome@ matches ServerWsEventView::Welcome {
            room,
            you,
        } && you == session_id && shows_room(room, after, room_id)),
        greeting.welcome is Some ==> {
            &&& greeting.dispatches@.len() == 1
            &&& reaches(
                greeting.dispatches@[0]@,
                room_id,
                after.rooms[room_id].senders.remove(session_id),
            )
            &&& greeting.dispatches@[0]@.event matches ServerWsEventView::PeerJoined { peer }
                && peer.session_id == session_id && peer.display_name == greeting.display_name@
        },
{
    if greeting.welcome is Some {
        let told = view_items(greeting.dispatches@);
        assert(told.len() == 1);
        assert(told[0] == greeting.dispatches@[0]@);
    }
}

} // verus!
