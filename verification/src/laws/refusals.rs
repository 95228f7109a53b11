//! Promises about requests that are refused.

use crate::direct_chats::{accepts_chat, chat_join_refusal, joins_chat, requests_chat};
use crate::direct_chats::DirectChatRequestSummaryView;
use crate::directory::{updates_directory, DirectoryRequest};
use crate::error::{unauthorized, ErrorView};
use crate::join_requests::{accepts_entry, requests_entry, JoinRequestResponseView};
use crate::rooms::{calls_random, enters_room, joins_match, starts_room, RoomResponseView};
use crate::rooms::StartRoomRequest;
use crate::sessions::{admits_guest, signs_in, signs_up, SignupRequest};
use crate::state::{AppStateView, DirectoryEntry, SessionView};
use crate::time::Timestamp;
use vstd::prelude::*;

verus! {

/// Someone who is refused as a guest, as a new account, or as an account holder leaves
/// everything as it was.
pub proof fn law_refused_people_change_nothing(
    s: AppStateView,
    display_name: Option<Seq<char>>,
    account: SignupRequest,
    hash: Result<Seq<char>, ErrorView>,
    email: Seq<char>,
    accepted: bool,
    number: u32,
    fresh_id: u128,
    now: Timestamp,
    after: AppStateView,
    refusal: ErrorView,
)
    requires
        ({
            let refused = Err::<SessionView, ErrorView>(refusal);
            ||| admits_guest(s, display_name, number, fresh_id, now, after, refused)
            ||| signs_up(s, account, hash, number, fresh_id, now, after, refused)
            ||| signs_in(s, email, accepted, fresh_id, now, after, refused)
        }),
    ensures
        after == s,
{
}

/// Someone who is refused a room, a match, a caller or an entry leaves everything as it was.
pub proof fn law_refused_rooms_change_nothing(
    s: AppStateView,
    request: StartRoomRequest,
    choice: Option<u128>,
    fresh_id: u128,
    room_id: u128,
    session_id: u128,
    named_room: u128,
    now: Timestamp,
    after: AppStateView,
    refusal: ErrorView,
)
    requires
        ({
            let refused = Err::<RoomResponseView, ErrorView>(refusal);
            ||| starts_room(s, request, choice, fresh_id, now, after, refused)
            ||| joins_match(s, room_id, session_id, now, after, refused)
            ||| calls_random(s, room_id, session_id, named_room, after, refused)
            ||| enters_room(s, room_id, session_id, now, after, Err(refusal))
        }),
    ensures
        after == s,
{
}

/// Someone whose request or acceptance is refused leaves everything as it was; so does someone
/// who is refused the use of a chat request, unless it led to a room that is gone.
pub proof fn law_refused_requests_change_nothing(
    s: AppStateView,
    room_id: u128,
    request_id: u128,
    session_id: u128,
    target: u128,
    fresh_id: u128,
    now: Timestamp,
    after: AppStateView,
    refusal: ErrorView,
)
    requires
        ({
            let refused = Err::<JoinRequestResponseView, ErrorView>(refusal);
            let refused_chat = Err::<DirectChatRequestSummaryView, ErrorView>(refusal);
            ||| requests_entry(s, room_id, session_id, fresh_id, now, after, refused)
            ||| accepts_entry(s, request_id, session_id, now, after, refused)
            ||| requests_chat(s, session_id, target, fresh_id, now, after, refused_chat)
            ||| accepts_chat(s, request_id, session_id, fresh_id, now, after, refused_chat)
            ||| joins_chat(s, request_id, session_id, now, after, refused_chat)
                && chat_join_refusal(s, request_id, session_id) is Some
        }),
    ensures
        after == s,
{
}

/// Without a session nothing is granted: whoever asks for a room, to enter one, to be let in,
/// to let in, to chat or to be listed is answered that a session is required.
pub proof fn law_a_session_is_required(
    s: AppStateView,
    session_id: u128,
    start: StartRoomRequest,
    listing: DirectoryRequest,
    choice: Option<u128>,
    room_id: u128,
    request_id: u128,
    target: u128,
    fresh_id: u128,
    number: u32,
    now: Timestamp,
    after: AppStateView,
    room: Result<RoomResponseView, ErrorView>,
    entry: Result<(), ErrorView>,
    request: Result<JoinRequestResponseView, ErrorView>,
    chat: Result<DirectChatRequestSummaryView, ErrorView>,
    entries: Result<Seq<DirectoryEntry>, ErrorView>,
)
    requires
        !s.sessions.contains_key(session_id),
        start.session_id == session_id,
        listing.session_id == session_id,
    ensures
        ({
            let refusal = unauthorized("A valid session is required."@);
            &&& starts_room(s, start, choice, fresh_id, now, after, room) ==> room == Err::<
                RoomResponseView,
                ErrorView,
            >(refusal)
            &&& enters_room(s, room_id, session_id, now, after, entry) ==> entry == Err::<
                (),
                ErrorView,
            >(refusal)
            &&& requests_entry(s, room_id, session_id, fresh_id, now, after, request)
                || accepts_entry(s, request_id, session_id, now, after, request) ==> request
                == Err::<JoinRequestResponseView, ErrorView>(refusal)
            &&& requests_chat(s, session_id, target, fresh_id, now, after, chat) || accepts_chat(
                s,
                request_id,
                session_id,
                fresh_id,
                now,
                after,
                chat,
            ) || joins_chat(s, request_id, session_id, now, after, chat) ==> chat == Err::<
                DirectChatRequestSummaryView,
                ErrorView,
            >(refusal)
            &&& updates_directory(s, listing, number, now, after, entries) ==> entries == Err::<
                Seq<DirectoryEntry>,
                ErrorView,
            >(refusal)
        }),
{
}

} // verus!
