//! Everything the service knows while it runs.

use crate::accounts::{UserAccountView, UserTable};
use crate::tables::{group_tables, view_values};
use crate::time::Timestamp;
use std::collections::{HashMap, HashSet};
use vstd::prelude::*;

verus! {

broadcast use {vstd::std_specs::hash::group_hash_axioms, group_tables};

/// How many people a room holds at most.
pub const MAX_ROOM_SIZE: usize = 8;

/// A guest's or account holder's session.
pub struct Session {
    pub id: u128,
    pub display_name: String,
    pub account_email: Option<String>,
    pub created_at: Timestamp,
}

#[verifier::ext_equal]
pub struct SessionView {
    pub id: u128,
    pub display_name: Seq<char>,
    pub account_email: Option<Seq<char>>,
    pub created_at: Timestamp,
}

/// The text of an optional string.
pub open spec fn optional_text(text: Option<String>) -> Option<Seq<char>> {
    match text {
        Some(text) => Some(text@),
        None => None,
    }
}

impl View for Session {
    type V = SessionView;

    open spec fn view(&self) -> SessionView {
        SessionView {
            id: self.id,
            display_name: self.display_name@,
            account_email: optional_text(self.account_email),
            created_at: self.created_at,
        }
    }
}

impl Clone for Session {
    fn clone(&self) -> (result: Self)
        ensures
            result == *self,
    {
        Session {
            id: self.id,
            display_name: self.display_name.clone(),
            account_email: match &self.account_email {
                Some(email) => Some(email.clone()),
                None => None,
            },
            created_at: self.created_at,
        }
    }
}

/// A directory listing: someone who wants to be found.
pub struct DirectoryEntry {
    pub session_id: u128,
    pub display_name: String,
    pub room_id: Option<u128>,
    pub available: bool,
    pub updated_at: Timestamp,
}

#[verifier::ext_equal]
pub struct DirectoryEntryView {
    pub session_id: u128,
    pub display_name: Seq<char>,
    pub room_id: Option<u128>,
    pub available: bool,
    pub updated_at: Timestamp,
}

impl View for DirectoryEntry {
    type V = DirectoryEntryView;

    open spec fn view(&self) -> DirectoryEntryView {
        DirectoryEntryView {
            session_id: self.session_id,
            display_name: self.display_name@,
            room_id: self.room_id,
            available: self.available,
            updated_at: self.updated_at,
        }
    }
}

/// A room: who is in it, who may come in, and who hears what is said in it.
pub struct Room {
    pub id: u128,
    pub host_session: u128,
    pub host_controls_joiners: bool,
    pub share_link_enabled: bool,
    pub participants: HashSet<u128>,
    pub participant_joined_at: HashMap<u128, Timestamp>,
    pub approved_joiners: HashSet<u128>,
    /// The sessions with an open channel in the room.
    pub senders: HashSet<u128>,
    /// The active connection of each session that is connected to the room.
    pub connection_ids: HashMap<u128, u128>,
    pub waiting_for_random: bool,
    pub created_at: Timestamp,
}

#[verifier::ext_equal]
pub struct RoomView {
    pub id: u128,
    pub host_session: u128,
    pub host_controls_joiners: bool,
    pub share_link_enabled: bool,
    pub participants: Set<u128>,
    pub participant_joined_at: Map<u128, Timestamp>,
    pub approved_joiners: Set<u128>,
    pub senders: Set<u128>,
    pub connection_ids: Map<u128, u128>,
    pub waiting_for_random: bool,
    pub created_at: Timestamp,
}

impl View for Room {
    type V = RoomView;

    open spec fn view(&self) -> RoomView {
        RoomView {
            id: self.id,
            host_session: self.host_session,
            host_controls_joiners: self.host_controls_joiners,
            share_link_enabled: self.share_link_enabled,
            participants: self.participants@,
            participant_joined_at: self.participant_joined_at@,
            approved_joiners: self.approved_joiners@,
            senders: self.senders@,
            connection_ids: self.connection_ids@,
            waiting_for_random: self.waiting_for_random,
            created_at: self.created_at,
        }
    }
}

impl RoomView {
    /// Everyone who has a place in the room: its participants, and those who were let in
    /// and have not come yet.
    pub open spec fn reserved(self) -> Set<u128> {
        self.participants.union(self.approved_joiners)
    }

    /// Whether every place in the room is taken.
    pub open spec fn full(self) -> bool {
        self.reserved().len() >= MAX_ROOM_SIZE
    }
}

/// What a connection was opened for.
#[derive(Clone, Copy, Debug, PartialEq, Eq, Structural)]
pub enum PresenceConnectionKind {
    Stats,
    Room { room_id: u128 },
}

/// An open connection, and when something was last heard on it.
#[derive(Clone, Copy, Debug)]
pub struct PresenceConnection {
    pub session_id: u128,
    pub kind: PresenceConnectionKind,
    pub last_seen: Timestamp,
}

impl View for PresenceConnection {
    type V = PresenceConnection;

    open spec fn view(&self) -> PresenceConnection {
        *self
    }
}

#[derive(Clone, Copy, Debug, PartialEq, Eq, Structural)]
pub enum JoinRequestStatus {
    Pending,
    Accepted,
}

/// Someone's request to be let into a room.
pub struct JoinRequest {
    pub id: u128,
    pub room_id: u128,
    pub requester_session: u128,
    pub requester_display_name: String,
    pub status: JoinRequestStatus,
    pub created_at: Timestamp,
    pub updated_at: Timestamp,
    pub accepted_by: Option<u128>,
}

#[verifier::ext_equal]
pub struct JoinRequestView {
    pub id: u128,
    pub room_id: u128,
    pub requester_session: u128,
    pub requester_display_name: Seq<char>,
    pub status: JoinRequestStatus,
    pub created_at: Timestamp,
    pub updated_at: Timestamp,
    pub accepted_by: Option<u128>,
}

impl View for JoinRequest {
    type V = JoinRequestView;

    open spec fn view(&self) -> JoinRequestView {
        JoinRequestView {
            id: self.id,
            room_id: self.room_id,
            requester_session: self.requester_session,
            requester_display_name: self.requester_display_name@,
            status: self.status,
            created_at: self.created_at,
            updated_at: self.updated_at,
            accepted_by: self.accepted_by,
        }
    }
}

/// Someone's request to chat with one other person in a new room.
pub struct DirectChatRequest {
    pub id: u128,
    pub requester_session: u128,
    pub requester_display_name: String,
    pub target_session: u128,
    pub target_display_name: String,
    pub status: JoinRequestStatus,
    pub room_id: Option<u128>,
    pub created_at: Timestamp,
    pub updated_at: Timestamp,
    pub accepted_by: Option<u128>,
    pub consumed_at: Option<Timestamp>,
}

#[verifier::ext_equal]
pub struct DirectChatRequestView {
    pub id: u128,
    pub requester_session: u128,
    pub requester_display_name: Seq<char>,
    pub target_session: u128,
    pub target_display_name: Seq<char>,
    pub status: JoinRequestStatus,
    pub room_id: Option<u128>,
    pub created_at: Timestamp,
    pub updated_at: Timestamp,
    pub accepted_by: Option<u128>,
    pub consumed_at: Option<Timestamp>,
}

impl View for DirectChatRequest {
    type V = DirectChatRequestView;

    open spec fn view(&self) -> DirectChatRequestView {
        DirectChatRequestView {
            id: self.id,
            requester_session: self.requester_session,
            requester_display_name: self.requester_display_name@,
            target_session: self.target_session,
            target_display_name: self.target_display_name@,
            status: self.status,
            room_id: self.room_id,
            created_at: self.created_at,
            updated_at: self.updated_at,
            accepted_by: self.accepted_by,
            consumed_at: self.consumed_at,
        }
    }
}

/// The state of the service.
pub struct AppState {
    pub users: UserTable,
    pub sessions: HashMap<u128, Session>,
    pub rooms: HashMap<u128, Room>,
    pub directory: HashMap<u128, DirectoryEntry>,
    pub join_requests: HashMap<u128, JoinRequest>,
    pub direct_chat_requests: HashMap<u128, DirectChatRequest>,
    pub presence_connections: HashMap<u128, PresenceConnection>,
    /// Those who are sent the head counts.
    pub stats_subscribers: HashSet<u128>,
}

#[verifier::ext_equal]
pub struct AppStateView {
    pub users: Map<Seq<char>, UserAccountView>,
    pub sessions: Map<u128, SessionView>,
    pub rooms: Map<u128, RoomView>,
    pub directory: Map<u128, DirectoryEntryView>,
    pub join_requests: Map<u128, JoinRequestView>,
    pub direct_chat_requests: Map<u128, DirectChatRequestView>,
    pub presence_connections: Map<u128, PresenceConnection>,
    pub stats_subscribers: Set<u128>,
}

impl View for AppState {
    type V = AppStateView;

    open spec fn view(&self) -> AppStateView {
        AppStateView {
            users: self.users@,
            sessions: view_values(self.sessions@),
            rooms: view_values(self.rooms@),
            directory: view_values(self.directory@),
            join_requests: view_values(self.join_requests@),
            direct_chat_requests: view_values(self.direct_chat_requests@),
            presence_connections: view_values(self.presence_connections@),
            stats_subscribers: self.stats_subscribers@,
        }
    }
}

/// A service with the given accounts and sessions, in which nothing has happened yet.
pub open spec fn started(
    users: Map<Seq<char>, UserAccountView>,
    sessions: Map<u128, SessionView>,
) -> AppStateView {
    AppStateView {
        users,
        sessions,
        rooms: Map::empty(),
        directory: Map::empty(),
        join_requests: Map::empty(),
        direct_chat_requests: Map::empty(),
        presence_connections: Map::empty(),
        stats_subscribers: Set::empty(),
    }
}

impl AppState {
    /// A service with the given accounts and sessions, in which nothing has happened yet.
    pub fn start(users: UserTable, sessions: HashMap<u128, Session>) -> (result: Self)
        ensures
            result@ == started(users@, view_values(sessions@)),
    {
        AppState {
            users,
            sessions,
            rooms: HashMap::new(),
            directory: HashMap::new(),
            join_requests: HashMap::new(),
            direct_chat_requests: HashMap::new(),
            presence_connections: HashMap::new(),
            stats_subscribers: HashSet::new(),
        }
    }
}

impl Default for AppState {
    fn default() -> (result: Self)
        ensures
            result@ == started(Map::empty(), Map::empty()),
    {
        AppState::start(UserTable::new(), HashMap::new())
    }
}

} // verus!
