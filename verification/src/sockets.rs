//! The life of a connection: what happens when it opens, when something comes in on it, and
//! when it closes.

use crate::chance::{new_id, random_id_shape};
use crate::direct_chats::{consume_direct_chat_for_room, with_chats_used};
use crate::events::{sent_to, ClientWsEvent, Dispatch, DispatchView, Participant};
use crate::events::{ParticipantView, RoomSnapshotView, ServerWsEvent, ServerWsEventView};
use crate::events::StatsSnapshot;
use crate::presence::{broadcast_stats_at, compute_stats_at, counts, register_presence_with};
use crate::presence::{release_presence_at, releases, sweeps, touch_presence_at, touched};
use crate::presence::{with_connection, StatsBroadcast};
use crate::rooms::{broadcast, broadcast_except, channels, room_snapshot, send_to, shows_room};
use crate::rooms::with_room;
use crate::sessions::{known_name, name_of};
use crate::state::{AppState, AppStateView, PresenceConnection, PresenceConnectionKind};
use crate::state::RoomView;
use crate::tables::{group_tables, view_items};
use crate::text::{clip, clipped, MAX_CHAT_CHARS};
use crate::time::{clock_time, Timestamp};
use vstd::prelude::*;

verus! {

broadcast use {vstd::std_specs::hash::group_hash_axioms, group_tables};

/// What happens when someone connects to a room.
pub struct RoomGreeting {
    /// The connection that was kept.
    pub connection_id: u128,
    /// The name that they go by while they are connected.
    pub display_name: String,
    /// The sweep that their coming sets off; its dispatches come first.
    pub stats: StatsBroadcast,
    /// What they are sent themselves, if the room is there.
    pub welcome: Option<ServerWsEvent>,
    /// What the others in the room are sent.
    pub dispatches: Vec<Dispatch>,
}

/// The state with the session's channel open in the room, if the room is there.
pub open spec fn with_channel(
    s: AppStateView,
    room_id: u128,
    session_id: u128,
    connection_id: u128,
) -> AppStateView {
    if s.rooms.contains_key(room_id) {
        let room = s.rooms[room_id];
        with_room(
            s,
            room_id,
            RoomView {
                senders: room.senders.insert(session_id),
                connection_ids: room.connection_ids.insert(session_id, connection_id),
                ..room
            },
        )
    } else {
        s
    }
}

/// The state once the session is connected to the room: the connection is its active one
/// there, and the chat requests that led it there are used.
pub open spec fn connected(
    s: AppStateView,
    room_id: u128,
    session_id: u128,
    connection_id: u128,
    now: Timestamp,
) -> AppStateView {
    let kept = with_connection(
        s,
        connection_id,
        PresenceConnection {
            session_id,
            kind: PresenceConnectionKind::Room { room_id },
            last_seen: now,
        },
    );
    with_chats_used(
        with_channel(kept, room_id, session_id, connection_id),
        room_id,
        session_id,
        now,
    )
}

/// The dispatch that tells the others in a room who came.
pub open spec fn peer_joined(s: AppStateView, room_id: u128, peer: ParticipantView) -> DispatchView {
    sent_to(
        room_id,
        channels(s, room_id).remove(peer.session_id),
        ServerWsEventView::PeerJoined { peer },
    )
}

/// Connecting to a room: from `s` to `after`, and what everyone is sent.
pub open spec fn opens_room_socket(
    s: AppStateView,
    room_id: u128,
    session_id: u128,
    connection_id: u128,
    now: Timestamp,
    after: AppStateView,
    greeting: RoomGreeting,
) -> bool {
    &&& greeting.connection_id == connection_id
    &&& greeting.display_name@ == known_name(s, session_id)
    &&& sweeps(
        connected(s, room_id, session_id, connection_id, now),
        now,
        after,
        greeting.stats,
    )
    &&& match greeting.welcome {
        Some(event) => {
            &&& exists|room: RoomSnapshotView| #[trigger]
                shows_room(room, after, room_id) && event@ == (ServerWsEventView::Welcome {
                    room,
                    you: session_id,
                })
            &&& view_items(greeting.dispatches@) == seq![
                peer_joined(
                    after,
                    room_id,
                    ParticipantView { session_id, display_name: known_name(s, session_id) },
                ),
            ]
        },
        None => !after.rooms.contains_key(room_id) && greeting.dispatches@.len() == 0,
    }
}

/// Connects the session to the room at `now`, as `connection_id`.
pub fn open_room_socket_with(
    state: &mut AppState,
    room_id: u128,
    session_id: u128,
    connection_id: u128,
    now: Timestamp,
) -> (greeting: RoomGreeting)
    ensures
        opens_room_socket(
            old(state)@,
            room_id,
            session_id,
            connection_id,
            now,
            final(state)@,
            greeting,
        ),
{
    let ghost s = old(state)@;
    let display_name = name_of(state, session_id);
    register_presence_with(
        state,
        session_id,
        PresenceConnectionKind::Room { room_id },
        connection_id,
        now,
    );
    if let Some(mut room) = state.rooms.remove(&room_id) {
        room.senders.insert(session_id);
        room.connection_ids.insert(session_id, connection_id);
        state.rooms.insert(room_id, room);
    }
    consume_direct_chat_for_room(state, room_id, session_id, now);
    assert(state@ == connected(s, room_id, session_id, connection_id, now));
    let stats = broadcast_stats_at(state, now);
    let mut welcome: Option<ServerWsEvent> = None;
    let mut dispatches: Vec<Dispatch> = Vec::new();
    if let Ok(room) = room_snapshot(state, room_id) {
        let peer = Participant { session_id, display_name: display_name.clone() };
        welcome = Some(ServerWsEvent::Welcome { room, you: session_id });
        dispatches.push(
            broadcast_except(state, room_id, session_id, ServerWsEvent::PeerJoined { peer }),
        );
        assert(view_items(dispatches@) =~= seq![
            peer_joined(
                state@,
                room_id,
                ParticipantView { session_id, display_name: known_name(s, session_id) },
            ),
        ]);
    }
    RoomGreeting { connection_id, display_name, stats, welcome, dispatches }
}

/// Connects the session to the room.
pub fn open_room_socket(
    state: &mut AppState,
    room_id: u128,
    session_id: u128,
) -> (greeting: RoomGreeting)
    ensures
        exists|connection_id: u128, now: Timestamp|
            clock_time(now) && random_id_shape(connection_id) && #[trigger] opens_room_socket(
                old(state)@,
                room_id,
                session_id,
                connection_id,
                now,
                final(state)@,
                greeting,
            ),
{
    let connection_id: u128 = new_id();
    let now = Timestamp::now();
    open_room_socket_with(state, room_id, session_id, connection_id, now)
}

/// What comes in on a connection to a room.
pub enum RoomMessage {
    Event(ClientWsEvent),
    /// A text that is no event.
    Malformed,
    /// Anything that is neither text nor the end.
    Quiet,
    Close,
}

/// What a message sets off.
pub struct RoomReply {
    /// What the members of the room are to be sent.
    pub dispatches: Vec<Dispatch>,
    /// Whether the connection is to be closed.
    pub leave: bool,
}

#[verifier::ext_equal]
pub struct RoomReplyView {
    pub dispatches: Seq<DispatchView>,
    pub leave: bool,
}

impl View for RoomReply {
    type V = RoomReplyView;

    open spec fn view(&self) -> RoomReplyView {
        RoomReplyView { dispatches: view_items(self.dispatches@), leave: self.leave }
    }
}

/// What the message of a session sets off in its room: a signal goes to the one it is for,
/// a change of presence to the others, a chat line to everyone, a complaint back to whoever
/// sent what is no event.
pub open spec fn room_reply(
    s: AppStateView,
    room_id: u128,
    session_id: u128,
    display_name: Seq<char>,
    message: RoomMessage,
    now: Timestamp,
) -> RoomReplyView {
    match message {
        RoomMessage::Event(event) => match event {
            ClientWsEvent::Signal { to, payload } => RoomReplyView {
                dispatches: seq![
                    sent_to(
                        room_id,
                        channels(s, room_id).intersect(set![to]),
                        ServerWsEventView::Signal { from: session_id, payload },
                    ),
                ],
                leave: false,
            },
            ClientWsEvent::Presence { audio_enabled, video_enabled, screen_sharing } => {
                RoomReplyView {
                    dispatches: seq![
                        sent_to(
                            room_id,
                            channels(s, room_id).remove(session_id),
                            ServerWsEventView::Presence {
                                from: session_id,
                                audio_enabled,
                                video_enabled,
                                screen_sharing,
                            },
                        ),
                    ],
                    leave: false,
                }
            },
            ClientWsEvent::Chat { text } => RoomReplyView {
                dispatches: seq![
                    sent_to(
                        room_id,
                        channels(s, room_id),
                        ServerWsEventView::Chat {
                            from: session_id,
                            display_name,
                            text: clipped(text@, MAX_CHAT_CHARS as nat),
                            at: now,
                        },
                    ),
                ],
                leave: false,
            },
            ClientWsEvent::Heartbeat => RoomReplyView { dispatches: Seq::empty(), leave: false },
            ClientWsEvent::Leave => RoomReplyView { dispatches: Seq::empty(), leave: true },
        },
        RoomMessage::Malformed => RoomReplyView {
            dispatches: seq![
                sent_to(
                    room_id,
                    channels(s, room_id).intersect(set![session_id]),
                    ServerWsEventView::Error { message: "Malformed websocket event."@ },
                ),
            ],
            leave: false,
        },
        RoomMessage::Quiet => RoomReplyView { dispatches: Seq::empty(), leave: false },
        RoomMessage::Close => RoomReplyView { dispatches: Seq::empty(), leave: true },
    }
}

fn one_dispatch(dispatch: Dispatch) -> (result: RoomReply)
    ensures
        result@ == (RoomReplyView { dispatches: seq![dispatch@], leave: false }),
{
    let mut dispatches: Vec<Dispatch> = Vec::new();
    dispatches.push(dispatch);
    RoomReply { dispatches, leave: false }
}

fn no_dispatch(leave: bool) -> (result: RoomReply)
    ensures
        result@ == (RoomReplyView { dispatches: Seq::empty(), leave }),
{
    let dispatches: Vec<Dispatch> = Vec::new();
    RoomReply { dispatches, leave }
}

/// Taking in what a session sends on its connection to a room: from `s` to `after`, and what it
/// sets off.
pub open spec fn takes_message(
    s: AppStateView,
    room_id: u128,
    session_id: u128,
    connection_id: u128,
    display_name: Seq<char>,
    message: RoomMessage,
    now: Timestamp,
    after: AppStateView,
    reply: RoomReplyView,
) -> bool {
    after == touched(s, connection_id, now) && reply == room_reply(
        after,
        room_id,
        session_id,
        display_name,
        message,
        now,
    )
}

/// Takes in at `now` what a session sends on its connection to a room.
pub fn room_message_at(
    state: &mut AppState,
    room_id: u128,
    session_id: u128,
    connection_id: u128,
    display_name: &String,
    message: RoomMessage,
    now: Timestamp,
) -> (reply: RoomReply)
    ensures
        takes_message(
            old(state)@,
            room_id,
            session_id,
            connection_id,
            display_name@,
            message,
            now,
            final(state)@,
            reply@,
        ),
{
    touch_presence_at(state, connection_id, now);
    match message {
        RoomMessage::Event(event) => match event {
            ClientWsEvent::Signal { to, payload } => one_dispatch(
                send_to(
                    state,
                    room_id,
                    to,
                    ServerWsEvent::Signal { from: session_id, payload },
                ),
            ),
            ClientWsEvent::Presence { audio_enabled, video_enabled, screen_sharing } => {
                one_dispatch(
                    broadcast_except(
                        state,
                        room_id,
                        session_id,
                        ServerWsEvent::Presence {
                            from: session_id,
                            audio_enabled,
                            video_enabled,
                            screen_sharing,
                        },
                    ),
                )
            },
            ClientWsEvent::Chat { text } => {
                let clipped = clip(text.as_str(), MAX_CHAT_CHARS);
                one_dispatch(
                    broadcast(
                        state,
                        room_id,
                        ServerWsEvent::Chat {
                            from: session_id,
                            display_name: display_name.clone(),
                            text: clipped,
                            at: now,
                        },
                    ),
                )
            },
            ClientWsEvent::Heartbeat => no_dispatch(false),
            ClientWsEvent::Leave => no_dispatch(true),
        },
        RoomMessage::Malformed => one_dispatch(
            send_to(
                state,
                room_id,
                session_id,
                ServerWsEvent::Error { message: "Malformed websocket event.".to_owned() },
            ),
        ),
        RoomMessage::Quiet => no_dispatch(false),
        RoomMessage::Close => no_dispatch(true),
    }
}

/// Takes in what a session sends on its connection to a room.
pub fn room_message(
    state: &mut AppState,
    room_id: u128,
    session_id: u128,
    connection_id: u128,
    display_name: &String,
    message: RoomMessage,
) -> (reply: RoomReply)
    ensures
        exists|now: Timestamp|
            clock_time(now) && #[trigger] takes_message(
                old(state)@,
                room_id,
                session_id,
                connection_id,
                display_name@,
                message,
                now,
                final(state)@,
                reply@,
            ),
{
    let now = Timestamp::now();
    room_message_at(state, room_id, session_id, connection_id, display_name, message, now)
}

/// What the end of a connection sets off.
pub struct SocketClosing {
    /// What the members of the room that was left are to be sent, before anything else.
    pub dispatches: Vec<Dispatch>,
    /// The sweep that follows.
    pub stats: StatsBroadcast,
}

/// The end of a connection: from `s` to `after`, and what everyone is sent.
pub open spec fn closes_connection(
    s: AppStateView,
    connection_id: u128,
    now: Timestamp,
    after: AppStateView,
    closing: SocketClosing,
) -> bool {
    exists|mid: AppStateView| #[trigger]
        releases(s, connection_id, now, mid, view_items(closing.dispatches@)) && sweeps(
            mid,
            now,
            after,
            closing.stats,
        )
}

/// Ends a connection at `now`.
pub fn close_connection_at(
    state: &mut AppState,
    connection_id: u128,
    now: Timestamp,
) -> (closing: SocketClosing)
    ensures
        closes_connection(old(state)@, connection_id, now, final(state)@, closing),
{
    let dispatches = release_presence_at(state, connection_id, now);
    let ghost mid = state@;
    let stats = broadcast_stats_at(state, now);
    let closing = SocketClosing { dispatches, stats };
    assert(releases(old(state)@, connection_id, now, mid, view_items(closing.dispatches@)));
    closing
}

/// Ends a connection.
pub fn close_connection(state: &mut AppState, connection_id: u128) -> (closing: SocketClosing)
    ensures
        exists|now: Timestamp|
            clock_time(now) && #[trigger] closes_connection(
                old(state)@,
                connection_id,
                now,
                final(state)@,
                closing,
            ),
{
    let now = Timestamp::now();
    close_connection_at(state, connection_id, now)
}

/// What happens when someone subscribes to the head counts.
pub struct StatsGreeting {
    /// The subscription.
    pub subscriber_id: u128,
    /// The connection that was kept, if the subscriber has a session.
    pub connection_id: Option<u128>,
    /// The head counts that the subscriber is sent first.
    pub first: StatsSnapshot,
    /// The sweep that their coming sets off.
    pub stats: StatsBroadcast,
}

/// Whether the subscriber named a session that there is.
pub open spec fn has_session(s: AppStateView, session_id: Option<u128>) -> bool {
    session_id matches Some(id) && s.sessions.contains_key(id)
}

/// The state with the subscriber, and with their connection if they have a session.
pub open spec fn subscribed(
    s: AppStateView,
    session_id: Option<u128>,
    subscriber_id: u128,
    connection_id: u128,
    now: Timestamp,
) -> AppStateView {
    let kept = if has_session(s, session_id) {
        with_connection(
            s,
            connection_id,
            PresenceConnection {
                session_id: session_id->0,
                kind: PresenceConnectionKind::Stats,
                last_seen: now,
            },
        )
    } else {
        s
    };
    AppStateView { stats_subscribers: kept.stats_subscribers.insert(subscriber_id), ..kept }
}

/// Subscribing to the head counts: from `s` to `after`, and what is sent.
pub open spec fn opens_stats_socket(
    s: AppStateView,
    session_id: Option<u128>,
    subscriber_id: u128,
    connection_id: u128,
    now: Timestamp,
    after: AppStateView,
    greeting: StatsGreeting,
) -> bool {
    let begun = subscribed(s, session_id, subscriber_id, connection_id, now);
    &&& greeting.subscriber_id == subscriber_id
    &&& greeting.connection_id == if has_session(s, session_id) {
        Some(connection_id)
    } else {
        None
    }
    &&& counts(greeting.first, begun, now)
    &&& sweeps(begun, now, after, greeting.stats)
}

/// Subscribes to the head counts at `now`, as `subscriber_id` and `connection_id`.
pub fn open_stats_socket_with(
    state: &mut AppState,
    session_id: Option<u128>,
    subscriber_id: u128,
    connection_id: u128,
    now: Timestamp,
) -> (greeting: StatsGreeting)
    ensures
        opens_stats_socket(
            old(state)@,
            session_id,
            subscriber_id,
            connection_id,
            now,
            final(state)@,
            greeting,
        ),
{
    let mut kept: Option<u128> = None;
    if let Some(session) = session_id {
        if state.sessions.contains_key(&session) {
            register_presence_with(
                state,
                session,
                PresenceConnectionKind::Stats,
                connection_id,
                now,
            );
            kept = Some(connection_id);
        }
    }
    state.stats_subscribers.insert(subscriber_id);
    let first = compute_stats_at(state, now);
    let stats = broadcast_stats_at(state, now);
    StatsGreeting { subscriber_id, connection_id: kept, first, stats }
}

/// Subscribes to the head counts.
pub fn open_stats_socket(
    state: &mut AppState,
    session_id: Option<u128>,
) -> (greeting: StatsGreeting)
    ensures
        exists|subscriber_id: u128, connection_id: u128, now: Timestamp|
            clock_time(now) && random_id_shape(subscriber_id) && random_id_shape(connection_id)
                && #[trigger] opens_stats_socket(
                old(state)@,
                session_id,
                subscriber_id,
                connection_id,
                now,
                final(state)@,
                greeting,
            ),
{
    let subscriber_id: u128 = new_id();
    let connection_id: u128 = new_id();
    let now = Timestamp::now();
    open_stats_socket_with(state, session_id, subscriber_id, connection_id, now)
}

/// The state with a subscriber's connection, if they have one, heard of at `now`.
pub open spec fn subscriber_touched(
    s: AppStateView,
    connection_id: Option<u128>,
    now: Timestamp,
) -> AppStateView {
    match connection_id {
        Some(connection) => touched(s, connection, now),
        None => s,
    }
}

/// Notes that a subscriber was heard of at `now`.
pub fn stats_message_at(state: &mut AppState, connection_id: Option<u128>, now: Timestamp)
    ensures
        final(state)@ == subscriber_touched(old(state)@, connection_id, now),
{
    if let Some(connection) = connection_id {
        touch_presence_at(state, connection, now);
    }
}

/// Notes that a subscriber was heard of.
pub fn stats_message(state: &mut AppState, connection_id: Option<u128>)
    ensures
        exists|now: Timestamp|
            clock_time(now) && final(state)@ == #[trigger] subscriber_touched(
                old(state)@,
                connection_id,
                now,
            ),
{
    let now = Timestamp::now();
    stats_message_at(state, connection_id, now)
}

/// The end of a subscription: from `s` to `after`, and what is sent.
pub open spec fn closes_stats_socket(
    s: AppStateView,
    subscriber_id: u128,
    connection_id: Option<u128>,
    now: Timestamp,
    after: AppStateView,
    closing: SocketClosing,
) -> bool {
    let without = AppStateView {
        stats_subscribers: s.stats_subscribers.remove(subscriber_id),
        ..s
    };
    match connection_id {
        Some(connection) => closes_connection(without, connection, now, after, closing),
        None => closing.dispatches@.len() == 0 && sweeps(without, now, after, closing.stats),
    }
}

/// Ends a subscription at `now`, with the subscriber's connection if they have one.
pub fn close_stats_socket_at(
    state: &mut AppState,
    subscriber_id: u128,
    connection_id: Option<u128>,
    now: Timestamp,
) -> (closing: SocketClosing)
    ensures
        closes_stats_socket(
            old(state)@,
            subscriber_id,
            connection_id,
            now,
            final(state)@,
            closing,
        ),
{
    state.stats_subscribers.remove(&subscriber_id);
    match connection_id {
        Some(connection) => close_connection_at(state, connection, now),
        None => {
            let stats = broadcast_stats_at(state, now);
            SocketClosing { dispatches: Vec::new(), stats }
        },
    }
}

/// Ends a subscription, with the subscriber's connection if they have one.
pub fn close_stats_socket(
    state: &mut AppState,
    subscriber_id: u128,
    connection_id: Option<u128>,
) -> (closing: SocketClosing)
    ensures
        exists|now: Timestamp|
            clock_time(now) && #[trigger] closes_stats_socket(
                old(state)@,
                subscriber_id,
                connection_id,
                now,
                final(state)@,
                closing,
            ),
{
    let now = Timestamp::now();
    close_stats_socket_at(state, subscriber_id, connection_id, now)
}

} // verus!
