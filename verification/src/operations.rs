//! Everything that can happen to the service, one operation at a time.

use crate::direct_chats::{accepts_chat, joins_chat, requests_chat};
use crate::direct_chats::DirectChatRequestSummaryView;
use crate::directory::{reads_directory, updates_directory, DirectoryRequest};
use crate::error::ErrorView;
use crate::events::DispatchView;
use crate::join_requests::{accepts_entry, requests_entry, JoinRequestResponseView};
use crate::presence::{sweeps, touched, without_subscribers, StatsBroadcast};
use crate::rooms::{calls_random, enters_room, joins_match, starts_room, RoomResponseView};
use crate::rooms::StartRoomRequest;
use crate::sessions::{admits_guest, signs_in, signs_out, signs_up, SignupRequest};
use crate::sockets::{closes_connection, closes_stats_socket, opens_room_socket};
use crate::sockets::{opens_stats_socket, subscriber_touched, RoomGreeting, SocketClosing};
use crate::sockets::StatsGreeting;
use crate::state::{AppStateView, DirectoryEntry, SessionView};
use crate::time::Timestamp;
use vstd::prelude::*;

verus! {

/// An operation, with what was asked and what chance brought.
pub enum Operation {
    Guest { display_name: Option<Seq<char>>, number: u32, fresh_id: u128 },
    SignUp {
        account: SignupRequest,
        hash: Result<Seq<char>, ErrorView>,
        number: u32,
        fresh_id: u128,
    },
    SignIn { email: Seq<char>, accepted: bool, fresh_id: u128 },
    SignOut { session_id: u128 },
    StartRoom { request: StartRoomRequest, choice: Option<u128>, fresh_id: u128 },
    JoinMatch { room_id: u128, session_id: u128 },
    CallRandom { room_id: u128, session_id: u128, named_room: u128 },
    EnterRoom { room_id: u128, session_id: u128 },
    RequestEntry { room_id: u128, session_id: u128, fresh_id: u128 },
    AcceptEntry { request_id: u128, session_id: u128 },
    RequestChat { session_id: u128, target: u128, fresh_id: u128 },
    AcceptChat { request_id: u128, session_id: u128, fresh_id: u128 },
    JoinChat { request_id: u128, session_id: u128 },
    ReadDirectory,
    UpdateDirectory { listing: DirectoryRequest, number: u32 },
    OpenRoomSocket { room_id: u128, session_id: u128, connection_id: u128 },
    RoomMessage { connection_id: u128 },
    CloseConnection { connection_id: u128 },
    OpenStatsSocket { claimed: Option<u128>, subscriber_id: u128, connection_id: u128 },
    StatsMessage { connection: Option<u128> },
    CloseStatsSocket { subscriber_id: u128, connection: Option<u128> },
    Sweep,
    DropSubscribers { unreachable: Set<u128> },
}

/// Whether the operation, at `now`, can lead from `s` to `after`.
pub open spec fn performs(
    operation: Operation,
    s: AppStateView,
    now: Timestamp,
    after: AppStateView,
) -> bool {
    match operation {
        Operation::Guest { display_name, number, fresh_id } => exists|
            result: Result<SessionView, ErrorView>,
        | admits_guest(s, display_name, number, fresh_id, now, after, result),
        Operation::SignUp { account, hash, number, fresh_id } => exists|
            result: Result<SessionView, ErrorView>,
        | signs_up(s, account, hash, number, fresh_id, now, after, result),
        Operation::SignIn { email, accepted, fresh_id } => exists|
            result: Result<SessionView, ErrorView>,
        | signs_in(s, email, accepted, fresh_id, now, after, result),
        Operation::SignOut { session_id } => exists|dispatches: Seq<DispatchView>|
            signs_out(s, session_id, now, after, dispatches),
        Operation::StartRoom { request, choice, fresh_id } => exists|
            result: Result<RoomResponseView, ErrorView>,
        | starts_room(s, request, choice, fresh_id, now, after, result),
        Operation::JoinMatch { room_id, session_id } => exists|
            result: Result<RoomResponseView, ErrorView>,
        | joins_match(s, room_id, session_id, now, after, result),
        Operation::CallRandom { room_id, session_id, named_room } => exists|
            result: Result<RoomResponseView, ErrorView>,
        | calls_random(s, room_id, session_id, named_room, after, result),
        Operation::EnterRoom { room_id, session_id } => exists|result: Result<(), ErrorView>|
            enters_room(s, room_id, session_id, now, after, result),
        Operation::RequestEntry { room_id, session_id, fresh_id } => exists|
            result: Result<JoinRequestResponseView, ErrorView>,
        | requests_entry(s, room_id, session_id, fresh_id, now, after, result),
        Operation::AcceptEntry { request_id, session_id } => exists|
            result: Result<JoinRequestResponseView, ErrorView>,
        | accepts_entry(s, request_id, session_id, now, after, result),
        Operation::RequestChat { session_id, target, fresh_id } => exists|
            result: Result<DirectChatRequestSummaryView, ErrorView>,
        | requests_chat(s, session_id, target, fresh_id, now, after, result),
        Operation::AcceptChat { request_id, session_id, fresh_id } => exists|
            result: Result<DirectChatRequestSummaryView, ErrorView>,
        | accepts_chat(s, request_id, session_id, fresh_id, now, after, result),
        Operation::JoinChat { request_id, session_id } => exists|
            result: Result<DirectChatRequestSummaryView, ErrorView>,
        | joins_chat(s, request_id, session_id, now, after, result),
        Operation::ReadDirectory => exists|entries: Seq<DirectoryEntry>|
            reads_directory(s, now, after, entries),
        Operation::UpdateDirectory { listing, number } => exists|
            result: Result<Seq<DirectoryEntry>, ErrorView>,
        | updates_directory(s, listing, number, now, after, result),
        Operation::OpenRoomSocket { room_id, session_id, connection_id } => exists|
            greeting: RoomGreeting,
        | opens_room_socket(s, room_id, session_id, connection_id, now, after, greeting),
        Operation::RoomMessage { connection_id } => after == touched(s, connection_id, now),
        Operation::CloseConnection { connection_id } => exists|closing: SocketClosing|
            closes_connection(s, connection_id, now, after, closing),
        Operation::OpenStatsSocket { claimed, subscriber_id, connection_id } => exists|
            greeting: StatsGreeting,
        | opens_stats_socket(s, claimed, subscriber_id, connection_id, now, after, greeting),
        Operation::StatsMessage { connection } => after == subscriber_touched(
            s,
            connection,
            now,
        ),
        Operation::CloseStatsSocket { subscriber_id, connection } => exists|
            closing: SocketClosing,
        | closes_stats_socket(s, subscriber_id, connection, now, after, closing),
        Operation::Sweep => exists|result: StatsBroadcast| sweeps(s, now, after, result),
        Operation::DropSubscribers { unreachable } => after == without_subscribers(
            s,
            unreachable,
        ),
    }
}

/// Whether the identifiers that chance brought are not in use yet.
pub open spec fn draws_fresh(operation: Operation, s: AppStateView) -> bool {
    match operation {
        Operation::StartRoom { fresh_id, .. } => !s.rooms.contains_key(fresh_id),
        Operation::AcceptChat { fresh_id, .. } => !s.rooms.contains_key(fresh_id),
        Operation::OpenRoomSocket { connection_id, .. } => {
            !s.presence_connections.contains_key(connection_id)
        },
        Operation::OpenStatsSocket { connection_id, .. } => {
            !s.presence_connections.contains_key(connection_id)
        },
        _ => true,
    }
}

} // verus!
