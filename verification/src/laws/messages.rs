//! Promises about what the members of a room send each other.

use crate::events::{ClientWsEvent, ServerWsEventView};
use crate::presence::{online, stale, touched, PRESENCE_TIMEOUT_SECONDS};
use crate::rooms::channels;
use crate::sockets::{room_reply, RoomMessage};
use crate::state::AppStateView;
use crate::text::MAX_CHAT_CHARS;
use crate::time::{Timestamp, NANOS_PER_SECOND};
use vstd::prelude::*;

verus! {

/// What someone says in a room stays in the room: it reaches only those with a channel there,
/// and nobody twice.
pub proof fn law_messages_stay_in_the_room(
    s: AppStateView,
    room_id: u128,
    session_id: u128,
    display_name: Seq<char>,
    message: RoomMessage,
    now: Timestamp,
    i: int,
)
    requires
        0 <= i < room_reply(s, room_id, session_id, display_name, message, now).dispatches.len(),
    ensures
        ({
            let dispatch = room_reply(
                s,
                room_id,
                session_id,
                display_name,
                message,
                now,
            ).dispatches[i];
            &&& dispatch.room_id == room_id
            &&& dispatch.one_copy_each
            &&& dispatch.recipients.subset_of(channels(s, room_id))
        }),
{
}

/// A chat line reaches everyone in the room, its writer too, under the writer's name, and is
/// clipped to five hundred characters.
pub proof fn law_a_chat_line_reaches_everyone(
    s: AppStateView,
    room_id: u128,
    session_id: u128,
    display_name: Seq<char>,
    text: String,
    now: Timestamp,
)
    ensures
        ({
            let dispatches = room_reply(
                s,
                room_id,
                session_id,
                display_name,
                RoomMessage::Event(ClientWsEvent::Chat { text }),
                now,
            ).dispatches;
            &&& dispatches.len() == 1
            &&& dispatches[0].recipients == channels(s, room_id)
            &&& dispatches[0].event matches ServerWsEventView::Chat {
                from,
                display_name: name,
                text: line,
                at,
            } && {
                &&& from == session_id
                &&& name == display_name
                &&& at == now
                &&& line.len() <= MAX_CHAT_CHARS
                &&& line.is_prefix_of(text@)
                &&& text@.len() <= MAX_CHAT_CHARS ==> line == text@
            }
        }),
{
}

/// A signal reaches nobody but the one it is for.
pub proof fn law_a_signal_reaches_only_its_target(
    s: AppStateView,
    room_id: u128,
    session_id: u128,
    display_name: Seq<char>,
    to: u128,
    payload: serde_json::Value,
    now: Timestamp,
)
    ensures
        ({
            let dispatches = room_reply(
                s,
                room_id,
                session_id,
                display_name,
                RoomMessage::Event(ClientWsEvent::Signal { to, payload }),
                now,
            ).dispatches;
            &&& dispatches.len() == 1
            &&& dispatches[0].event == (ServerWsEventView::Signal { from: session_id, payload })
            &&& forall|x: u128| #[trigger]
                dispatches[0].recipients.contains(x) <==> x == to && channels(
                    s,
                    room_id,
                ).contains(to)
        }),
{
}

/// A change of presence reaches everyone in the room but whoever it is about.
pub proof fn law_presence_is_not_echoed(
    s: AppStateView,
    room_id: u128,
    session_id: u128,
    display_name: Seq<char>,
    audio_enabled: bool,
    video_enabled: bool,
    screen_sharing: bool,
    now: Timestamp,
)
    ensures
        ({
            let dispatches = room_reply(
                s,
                room_id,
                session_id,
                display_name,
                RoomMessage::Event(
                    ClientWsEvent::Presence { audio_enabled, video_enabled, screen_sharing },
                ),
                now,
            ).dispatches;
            &&& dispatches.len() == 1
            &&& dispatches[0].event == (ServerWsEventView::Presence {
                from: session_id,
                audio_enabled,
                video_enabled,
                screen_sharing,
            })
            &&& forall|x: u128| #[trigger]
                dispatches[0].recipients.contains(x) <==> x != session_id && channels(
                    s,
                    room_id,
                ).contains(x)
        }),
{
}

/// Whatever comes in on a connection keeps it, and its session, alive for another forty-five
/// seconds.
pub proof fn law_a_message_keeps_a_connection_alive(
    s: AppStateView,
    connection_id: u128,
    now: Timestamp,
    later: Timestamp,
)
    requires
        s.presence_connections.contains_key(connection_id),
        later.elapsed_since(now) <= PRESENCE_TIMEOUT_SECONDS * NANOS_PER_SECOND,
    ensures
        ({
            let after = touched(s, connection_id, now);
            &&& !stale(after.presence_connections[connection_id], later)
            &&& online(after, s.presence_connections[connection_id].session_id, later)
        }),
{
    let after = touched(s, connection_id, now);
    assert(after.presence_connections.contains_key(connection_id));
}

} // verus!
