//! What rooms are told, and what their members say.

use crate::ordering::Named;
use crate::tables::view_items;
use crate::time::Timestamp;
use vstd::prelude::*;

verus! {

/// A JSON value, as `serde_json` holds it. The service hands it on and never looks inside.
#[verifier::external_type_specification]
#[verifier::external_body]
pub struct ExJsonValue(serde_json::Value);

/// Someone in a room, as the others see them.
pub struct Participant {
    pub session_id: u128,
    pub display_name: String,
}

#[verifier::ext_equal]
pub struct ParticipantView {
    pub session_id: u128,
    pub display_name: Seq<char>,
}

impl View for Participant {
    type V = ParticipantView;

    open spec fn view(&self) -> ParticipantView {
        ParticipantView { session_id: self.session_id, display_name: self.display_name@ }
    }
}

impl Named for Participant {
    open spec fn name(&self) -> Seq<char> {
        self.display_name@
    }

    fn name_text(&self) -> (result: &str) {
        self.display_name.as_str()
    }
}

/// A room as its members see it.
pub struct RoomSnapshot {
    pub id: u128,
    pub host_session: u128,
    pub host_controls_joiners: bool,
    pub share_link_enabled: bool,
    pub participants: Vec<Participant>,
    pub waiting_for_random: bool,
    pub created_at: Timestamp,
    pub max_size: usize,
}

#[verifier::ext_equal]
pub struct RoomSnapshotView {
    pub id: u128,
    pub host_session: u128,
    pub host_controls_joiners: bool,
    pub share_link_enabled: bool,
    pub participants: Seq<ParticipantView>,
    pub waiting_for_random: bool,
    pub created_at: Timestamp,
    pub max_size: usize,
}

impl View for RoomSnapshot {
    type V = RoomSnapshotView;

    open spec fn view(&self) -> RoomSnapshotView {
        RoomSnapshotView {
            id: self.id,
            host_session: self.host_session,
            host_controls_joiners: self.host_controls_joiners,
            share_link_enabled: self.share_link_enabled,
            participants: view_items(self.participants@),
            waiting_for_random: self.waiting_for_random,
            created_at: self.created_at,
            max_size: self.max_size,
        }
    }
}

impl Clone for Participant {
    fn clone(&self) -> (result: Self)
        ensures
            result == *self,
    {
        Participant { session_id: self.session_id, display_name: self.display_name.clone() }
    }
}

impl Clone for RoomSnapshot {
    fn clone(&self) -> (result: Self)
        ensures
            result@ == self@,
    {
        let mut participants: Vec<Participant> = Vec::new();
        let mut i: usize = 0;
        while i < self.participants.len()
            invariant
                i <= self.participants@.len(),
                participants@ == self.participants@.take(i as int),
            decreases self.participants@.len() - i,
        {
            participants.push(self.participants[i].clone());
            i = i + 1;
        }
        RoomSnapshot {
            id: self.id,
            host_session: self.host_session,
            host_controls_joiners: self.host_controls_joiners,
            share_link_enabled: self.share_link_enabled,
            participants,
            waiting_for_random: self.waiting_for_random,
            created_at: self.created_at,
            max_size: self.max_size,
        }
    }
}

/// How many people are connected, and how many of them sit in a room.
#[derive(Clone, Copy, Debug, PartialEq, Eq, Structural)]
pub struct StatsSnapshot {
    pub online_count: usize,
    pub in_call_count: usize,
}

/// What a member of a room sends.
pub enum ClientWsEvent {
    Signal { to: u128, payload: serde_json::Value },
    Presence { audio_enabled: bool, video_enabled: bool, screen_sharing: bool },
    Chat { text: String },
    Heartbeat,
    Leave,
}

/// What members of a room are sent.
pub enum ServerWsEvent {
    Welcome { room: RoomSnapshot, you: u128 },
    PeerJoined { peer: Participant },
    PeerLeft { peer_id: u128 },
    Signal { from: u128, payload: serde_json::Value },
    Presence { from: u128, audio_enabled: bool, video_enabled: bool, screen_sharing: bool },
    Chat { from: u128, display_name: String, text: String, at: Timestamp },
    RoomUpdated { room: RoomSnapshot },
    JoinRequestsChanged {
        pending_count: usize,
        requester_display_name: Option<String>,
        accepted: bool,
    },
    Error { message: String },
}

#[verifier::ext_equal]
pub enum ServerWsEventView {
    Welcome { room: RoomSnapshotView, you: u128 },
    PeerJoined { peer: ParticipantView },
    PeerLeft { peer_id: u128 },
    Signal { from: u128, payload: serde_json::Value },
    Presence { from: u128, audio_enabled: bool, video_enabled: bool, screen_sharing: bool },
    Chat { from: u128, display_name: Seq<char>, text: Seq<char>, at: Timestamp },
    RoomUpdated { room: RoomSnapshotView },
    JoinRequestsChanged {
        pending_count: nat,
        requester_display_name: Option<Seq<char>>,
        accepted: bool,
    },
    Error { message: Seq<char> },
}

impl View for ServerWsEvent {
    type V = ServerWsEventView;

    open spec fn view(&self) -> ServerWsEventView {
        match *self {
            ServerWsEvent::Welcome { room, you } => ServerWsEventView::Welcome { room: room@, you },
            ServerWsEvent::PeerJoined { peer } => ServerWsEventView::PeerJoined { peer: peer@ },
            ServerWsEvent::PeerLeft { peer_id } => ServerWsEventView::PeerLeft { peer_id },
            ServerWsEvent::Signal { from, payload } => ServerWsEventView::Signal { from, payload },
            ServerWsEvent::Presence { from, audio_enabled, video_enabled, screen_sharing } => {
                ServerWsEventView::Presence { from, audio_enabled, video_enabled, screen_sharing }
            },
            ServerWsEvent::Chat { from, display_name, text, at } => {
                ServerWsEventView::Chat { from, display_name: display_name@, text: text@, at }
            },
            ServerWsEvent::RoomUpdated { room } => ServerWsEventView::RoomUpdated { room: room@ },
            ServerWsEvent::JoinRequestsChanged { pending_count, requester_display_name, accepted } => {
                ServerWsEventView::JoinRequestsChanged {
                    pending_count: pending_count as nat,
                    requester_display_name: match requester_display_name {
                        Some(name) => Some(name@),
                        None => None,
                    },
                    accepted,
                }
            },
            ServerWsEvent::Error { message } => ServerWsEventView::Error { message: message@ },
        }
    }
}

/// An event on its way: every recipient is to be sent a copy on the channel that it has
/// open in the room.
pub struct Dispatch {
    pub room_id: u128,
    pub recipients: Vec<u128>,
    pub event: ServerWsEvent,
}

#[verifier::ext_equal]
pub struct DispatchView {
    pub room_id: u128,
    pub recipients: Set<u128>,
    /// Whether no recipient is sent two copies.
    pub one_copy_each: bool,
    pub event: ServerWsEventView,
}

impl View for Dispatch {
    type V = DispatchView;

    open spec fn view(&self) -> DispatchView {
        DispatchView {
            room_id: self.room_id,
            recipients: self.recipients@.to_set(),
            one_copy_each: self.recipients@.no_duplicates(),
            event: self.event@,
        }
    }
}

/// The dispatch of `event` to each of `recipients` in a room.
pub open spec fn sent_to(
    room_id: u128,
    recipients: Set<u128>,
    event: ServerWsEventView,
) -> DispatchView {
    DispatchView { room_id, recipients, one_copy_each: true, event }
}

} // verus!
