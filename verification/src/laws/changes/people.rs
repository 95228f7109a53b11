//! What coming in, registering, signing in and signing out change.

use super::presence::{leaving_is_told, lemma_releases_all_left, lemma_releases_all_told};
use super::presence::{people_left, sits_in, tells_who_left};
use super::refused;
use crate::error::{ErrorStatus, ErrorView};
use crate::events::DispatchView;
use crate::laws::presence::{law_signing_out_ends_everything, lemma_releases_all};
use crate::passwords::{hash_accepts, lanes_at, lanes_char, password_matches, too_many_lanes};
use crate::passwords::LANES_LENGTH;
use crate::presence::{connections_of, releases_all, without_subscribers};
use crate::rooms::in_room;
use crate::sessions::{account_accepts, admits_guest, comes_back, known_name, looked_up};
use crate::sessions::{name_in_use, registers, session_refusal, signs_in, signs_out, signs_up};
use crate::sessions::{with_session, SignupRequest};
use crate::settings::{brought_back, lasting, listen_address, to_keep, AuthDataView};
use crate::state::{started, AppStateView, SessionView};
use crate::tables::lists;
use crate::text::{cleaned_name, normalized, trimmed};
use crate::time::Timestamp;
use vstd::prelude::*;
use vstd::utf8::encode_utf8;

verus! {

/// Whether nothing changed but accounts and sessions.
pub open spec fn all_same_but_people(s: AppStateView, after: AppStateView) -> bool {
    &&& after.rooms == s.rooms
    &&& after.directory == s.directory
    &&& after.join_requests == s.join_requests
    &&& after.direct_chat_requests == s.direct_chat_requests
    &&& after.presence_connections == s.presence_connections
    &&& after.stats_subscribers == s.stats_subscribers
}

/// Whether one session was opened, or replaced, and no other changed.
pub open spec fn only_session_opened(
    s: AppStateView,
    after: AppStateView,
    session: SessionView,
) -> bool {
    &&& after.sessions.contains_key(session.id)
    &&& after.sessions[session.id] == session
    &&& forall|other: u128|
        other != session.id ==> (#[trigger] after.sessions.contains_key(other)
            <==> s.sessions.contains_key(other)) && (s.sessions.contains_key(other)
            ==> after.sessions[other] == s.sessions[other])
}

/// A guest comes in unless an account or a session goes by the same name. Coming in opens one
/// session, under the name asked for and without an account, and changes nothing else.
pub proof fn law_coming_in_as_a_guest(
    s: AppStateView,
    display_name: Option<Seq<char>>,
    number: u32,
    fresh_id: u128,
    now: Timestamp,
    after: AppStateView,
    result: Result<SessionView, ErrorView>,
)
    requires
        admits_guest(s, display_name, number, fresh_id, now, after, result),
    ensures
        ({
            let name = cleaned_name(
                if display_name is Some {
                    display_name->0
                } else {
                    "Guest"@
                },
                number,
            );
            let taken_by_account = exists|email: Seq<char>| #[trigger]
                s.users.contains_key(email) && normalized(s.users[email].display_name)
                    == normalized(name);
            let taken_by_session = exists|key: u128| #[trigger]
                s.sessions.contains_key(key) && normalized(s.sessions[key].display_name)
                    == normalized(name);
            &&& result is Ok <==> !taken_by_account && !taken_by_session
            &&& result is Err ==> after == s && refused(result, ErrorStatus::Conflict)
            &&& result is Ok ==> {
                let session = result->Ok_0;
                &&& session.id == fresh_id
                &&& session.display_name == name
                &&& session.account_email is None
                &&& session.created_at == now
                &&& only_session_opened(s, after, session)
                &&& after.users == s.users
                &&& all_same_but_people(s, after)
            }
        }),
{
    let name = cleaned_name(crate::sessions::asked_name(display_name), number);
    let taken_by_session = exists|key: u128| #[trigger]
        s.sessions.contains_key(key) && normalized(s.sessions[key].display_name) == normalized(
            name,
        );
    assert(crate::sessions::name_in_use(s, name, None) == taken_by_session) by {
        if taken_by_session {
            let key = choose|key: u128| #[trigger]
                s.sessions.contains_key(key) && normalized(s.sessions[key].display_name)
                    == normalized(name);
            assert(s.sessions.contains_key(key));
        }
    }
}

/// An account is registered unless the address or the name is blank, the password is shorter
/// than eight bytes, the address is registered already, or the password cannot be hashed.
/// Registering adds the account, with the hash and never the password, and one session of it,
/// and changes nothing else.
pub proof fn law_registering_adds_an_account_and_a_session(
    s: AppStateView,
    request: SignupRequest,
    hash: Result<Seq<char>, ErrorView>,
    number: u32,
    fresh_id: u128,
    now: Timestamp,
    after: AppStateView,
    result: Result<SessionView, ErrorView>,
)
    requires
        signs_up(s, request, hash, number, fresh_id, now, after, result),
    ensures
        ({
            let email = normalized(request.email@);
            let complete = trimmed(request.email@).len() > 0 && trimmed(
                request.display_name@,
            ).len() > 0 && encode_utf8(request.password@).len() >= 8;
            &&& result is Ok <==> complete && !s.users.contains_key(email) && hash is Ok
            &&& result is Err ==> after == s
            &&& !complete ==> refused(result, ErrorStatus::BadRequest)
            &&& complete && s.users.contains_key(email) ==> refused(result, ErrorStatus::Conflict)
            &&& result is Ok ==> {
                let session = result->Ok_0;
                let account = after.users[email];
                &&& session.id == fresh_id
                &&& session.display_name == cleaned_name(request.display_name@, number)
                &&& session.account_email == Some(email)
                &&& session.created_at == now
                &&& only_session_opened(s, after, session)
                &&& after.users.contains_key(email)
                &&& account.display_name == session.display_name
                &&& account.password_hash == hash->Ok_0
                &&& account.created_at == now
                &&& forall|other: Seq<char>|
                    other != email ==> (#[trigger] after.users.contains_key(other)
                        <==> s.users.contains_key(other)) && (s.users.contains_key(other)
                        ==> after.users[other] == s.users[other])
                &&& all_same_but_people(s, after)
            }
        }),
{
}

/// Whoever signs in to an account that accepts their password gets one more session of it, under
/// the account's name and address; everyone else is refused. Nothing else changes.
pub proof fn law_signing_in_opens_one_session(
    s: AppStateView,
    email: Seq<char>,
    accepted: bool,
    fresh_id: u128,
    now: Timestamp,
    after: AppStateView,
    result: Result<SessionView, ErrorView>,
)
    requires
        signs_in(s, email, accepted, fresh_id, now, after, result),
    ensures
        ({
            let address = normalized(email);
            &&& result is Ok <==> s.users.contains_key(address) && accepted
            &&& result is Err ==> after == s && refused(result, ErrorStatus::Unauthorized)
            &&& result is Ok ==> {
                let session = result->Ok_0;
                &&& session.id == fresh_id
                &&& session.display_name == s.users[address].display_name
                &&& session.account_email == Some(address)
                &&& session.created_at == now
                &&& only_session_opened(s, after, session)
                &&& after.users == s.users
                &&& all_same_but_people(s, after)
            }
        }),
{
}

/// An account accepts a password if there is one under the address, whatever the case and the
/// space around it, and its hash accepts the password.
pub proof fn law_an_account_is_found_by_its_address(
    s: AppStateView,
    email: Seq<char>,
    password: Seq<char>,
)
    ensures
        account_accepts(s, email, password) <==> s.users.contains_key(normalized(email))
            && crate::passwords::hash_accepts(
            s.users[normalized(email)].password_hash,
            password,
        ),
{
}

/// Signing out ends one session, with its listing and its connections. Every account, every other
/// session, everyone else's listing and every other connection stay; people only leave rooms.
pub proof fn law_signing_out_ends_one_session(
    s: AppStateView,
    session_id: u128,
    now: Timestamp,
    after: AppStateView,
    dispatches: Seq<DispatchView>,
)
    requires
        signs_out(s, session_id, now, after, dispatches),
    ensures
        forall|key: u128| #[trigger]
            after.sessions.contains_key(key) <==> s.sessions.contains_key(key) && key != session_id,
        forall|key: u128| #[trigger]
            after.sessions.contains_key(key) ==> after.sessions[key] == s.sessions[key],
        forall|key: u128| #[trigger]
            after.directory.contains_key(key) <==> s.directory.contains_key(key) && key
                != session_id,
        forall|key: u128| #[trigger]
            after.presence_connections.contains_key(key) <==> s.presence_connections.contains_key(
                key,
            ) && s.presence_connections[key].session_id != session_id,
        forall|key: u128| #[trigger]
            after.presence_connections.contains_key(key) ==> after.presence_connections[key]
                == s.presence_connections[key],
        people_left(
            AppStateView {
                sessions: s.sessions.remove(session_id),
                directory: s.directory.remove(session_id),
                ..s
            },
            after,
        ),
        leaving_is_told(s, after, dispatches),
        forall|room_id: u128, x: u128|
            #![trigger sits_in(s, room_id, x)]
            sits_in(s, room_id, x) && !sits_in(after, room_id, x) ==> {
                let active = s.rooms[room_id].connection_ids[x];
                &&& s.rooms[room_id].connection_ids.contains_key(x)
                &&& s.presence_connections.contains_key(active)
                &&& s.presence_connections[active].session_id == session_id
            },
{
    law_signing_out_ends_everything(s, session_id, now, after, dispatches);
    let without = AppStateView {
        sessions: s.sessions.remove(session_id),
        directory: s.directory.remove(session_id),
        ..s
    };
    let order = choose|order: Seq<u128>|
        lists(order, connections_of(without, session_id)) && #[trigger] releases_all(
            without,
            order,
            now,
            after,
            dispatches,
        );
    lemma_releases_all_left(without, order, now, after, dispatches);
    lemma_releases_all_told(without, order, now, after, dispatches);
    lemma_releases_all(without, order, now, after, dispatches);
    assert forall|room_id: u128, x: u128|
        #![trigger sits_in(s, room_id, x)]
        sits_in(s, room_id, x) && !sits_in(after, room_id, x) implies ({
        let active = s.rooms[room_id].connection_ids[x];
        &&& s.rooms[room_id].connection_ids.contains_key(x)
        &&& s.presence_connections.contains_key(active)
        &&& s.presence_connections[active].session_id == session_id
        &&& exists|i: int|
            0 <= i < dispatches.len() && tells_who_left(
                #[trigger] dispatches[i],
                s,
                after,
                room_id,
                x,
            )
    }) by {
        assert(sits_in(without, room_id, x));
        assert(in_room(without, room_id, x));
        if in_room(after, room_id, x) {
            assert(sits_in(after, room_id, x));
        }
        let active = s.rooms[room_id].connection_ids[x];
        assert(order.contains(active));
        assert(connections_of(without, session_id).contains(active));
        let i = choose|i: int|
            0 <= i < dispatches.len() && tells_who_left(
                #[trigger] dispatches[i],
                without,
                after,
                room_id,
                x,
            );
        assert(tells_who_left(dispatches[i], s, after, room_id, x));
    }
    assert forall|key: u128| #[trigger]
        after.directory.contains_key(key) <==> s.directory.contains_key(key) && key
            != session_id by {
        assert(after.directory.dom().contains(key) == s.directory.dom().remove(
            session_id,
        ).contains(key));
    }
}

/// A session is looked up as it is; whoever has none is refused.
pub proof fn law_a_session_is_looked_up_as_it_is(s: AppStateView, session_id: u128)
    ensures
        s.sessions.contains_key(session_id) ==> looked_up(s, session_id) == Ok::<
            SessionView,
            ErrorView,
        >(s.sessions[session_id]),
        !s.sessions.contains_key(session_id) ==> refused(
            looked_up(s, session_id),
            ErrorStatus::Unauthorized,
        ),
        session_refusal(s, session_id) is None <==> s.sessions.contains_key(session_id),
        session_refusal(s, session_id) matches Some(e) ==> e.status == ErrorStatus::Unauthorized,
        s.sessions.contains_key(session_id) ==> known_name(s, session_id)
            == s.sessions[session_id].display_name,
        !s.sessions.contains_key(session_id) ==> known_name(s, session_id) == "Guest"@,
{
}

/// Opening a session adds it and changes nothing else.
pub proof fn law_opening_a_session_adds_it(s: AppStateView, session: SessionView)
    ensures
        only_session_opened(s, with_session(s, session), session),
        with_session(s, session).users == s.users,
        all_same_but_people(s, with_session(s, session)),
{
}

/// What is kept when the service stops are all accounts and sessions; what it starts with again
/// are those, and no rooms, listings, requests, connections or subscribers.
pub proof fn law_a_restart_forgets_what_is_live(s: AppStateView, key: u128)
    ensures
        lasting(s).users == s.users,
        lasting(s).sessions == s.sessions,
        ({
            let again = started(lasting(s).users, lasting(s).sessions);
            &&& again.users == s.users
            &&& again.sessions == s.sessions
            &&& !again.rooms.contains_key(key)
            &&& !again.directory.contains_key(key)
            &&& !again.join_requests.contains_key(key)
            &&& !again.direct_chat_requests.contains_key(key)
            &&& !again.presence_connections.contains_key(key)
            &&& !again.stats_subscribers.contains(key)
        }),
{
}

/// The address that was set is listened on as it is, whatever port was set; a port alone is
/// listened on at every interface; port 3000 if nothing was set.
pub proof fn law_the_address_set_comes_first(address: Seq<char>, port: Option<Seq<char>>)
    ensures
        listen_address(Some(address), port) == address,
        port matches Some(p) ==> listen_address(None, port) == "0.0.0.0:"@ + p,
        port is None ==> listen_address(None, port) == "0.0.0.0:3000"@,
{
}

/// The status codes of refusals.
pub proof fn law_refusals_have_their_status_code(status: ErrorStatus)
    ensures
        status.http_code() == match status {
            ErrorStatus::BadRequest => 400u16,
            ErrorStatus::Unauthorized => 401u16,
            ErrorStatus::Forbidden => 403u16,
            ErrorStatus::NotFound => 404u16,
            ErrorStatus::Conflict => 409u16,
            ErrorStatus::Internal => 500u16,
        },
{
}

/// Whoever registers can come back with the password they gave.
pub proof fn law_whoever_registers_is_accepted(
    s: AppStateView,
    request: SignupRequest,
    after: AppStateView,
    result: Result<SessionView, ErrorView>,
    email: Seq<char>,
    later: AppStateView,
    answered: Result<SessionView, ErrorView>,
)
    requires
        registers(s, request, after, result),
        result is Ok,
        normalized(email) == normalized(request.email@),
        comes_back(after, email, request.password@, later, answered),
    ensures
        answered is Ok,
        answered->Ok_0.display_name == result->Ok_0.display_name,
        answered->Ok_0.account_email == result->Ok_0.account_email,
{
}

/// Registering succeeds for every complete request with an address that is not registered and a
/// password that fits a 32-bit length.
pub proof fn law_registering_is_open_to_all(
    s: AppStateView,
    request: SignupRequest,
    after: AppStateView,
    result: Result<SessionView, ErrorView>,
)
    requires
        registers(s, request, after, result),
        trimmed(request.email@).len() > 0,
        trimmed(request.display_name@).len() > 0,
        8 <= encode_utf8(request.password@).len() <= u32::MAX,
        !s.users.contains_key(normalized(request.email@)),
    ensures
        result is Ok,
{
}

/// Whoever comes back is let in if and only if there is an account under the address whose hash
/// accepts the password.
pub proof fn law_whoever_comes_back_needs_the_password(
    s: AppStateView,
    email: Seq<char>,
    password: Seq<char>,
    after: AppStateView,
    result: Result<SessionView, ErrorView>,
)
    requires
        comes_back(s, email, password, after, result),
    ensures
        result is Ok <==> s.users.contains_key(normalized(email)) && hash_accepts(
            s.users[normalized(email)].password_hash,
            password,
        ),
        after.users == s.users,
        all_same_but_people(s, after),
{
}

/// A hash that asks for no more than ninety-nine million lanes accepts what Argon2 accepts it for.
pub proof fn law_an_ordinary_hash_is_left_to_argon2(hash: Seq<char>, password: Seq<char>)
    requires
        forall|from: int, k: int|
            #![trigger hash[from], hash[k]]
            0 <= from && from + 1 < hash.len() && hash[from] == 'p' && hash[from + 1] == '=' && k
                == from + 10 ==> k >= hash.len() || !('0' <= hash[k] <= '9'),
    ensures
        hash_accepts(hash, password) <==> password_matches(hash, password),
{
    if too_many_lanes(hash) {
        let from = choose|from: int|
            from + LANES_LENGTH <= hash.len() && #[trigger] lanes_at(
                hash,
                from,
                LANES_LENGTH as int,
            ) && forall|other: int| #[trigger]
                lanes_at(hash, other, 2) && other + 2 <= hash.len() ==> other <= from;
        assert(lanes_char(0, hash[from + 0]));
        assert(lanes_char(1, hash[from + 1]));
        assert(lanes_char(10, hash[from + 10]));
        let k = from + 10;
        assert(hash[from] == 'p' && '0' <= hash[k] <= '9');
    }
}

/// Someone goes by a name if one of the sessions other than the one left out has it, whatever the
/// case and the space around it.
pub proof fn law_a_name_is_in_use_by_another(s: AppStateView, name: Seq<char>, except: u128)
    ensures
        name_in_use(s, name, Some(except)) <==> exists|key: u128| #[trigger]
            s.sessions.contains_key(key) && key != except && normalized(
                s.sessions[key].display_name,
            ) == normalized(name),
{
    if name_in_use(s, name, Some(except)) {
        let key = choose|key: u128| #[trigger]
            s.sessions.contains_key(key) && Some(except) != Some(key) && normalized(
                s.sessions[key].display_name,
            ) == normalized(name);
        assert(s.sessions.contains_key(key));
    }
}

/// A store brings back what it was given to keep: all accounts and all sessions. One that keeps
/// nothing is given nothing and brings nothing back.
pub proof fn law_what_is_kept_is_brought_back(s: AppStateView, found: Option<AuthDataView>)
    ensures
        brought_back(true, to_keep(true, s)).users == s.users,
        brought_back(true, to_keep(true, s)).sessions == s.sessions,
        found matches Some(data) ==> brought_back(true, found) == data,
        to_keep(false, s) is None,
        forall|email: Seq<char>| !#[trigger] brought_back(false, found).users.contains_key(email),
        forall|key: u128| !#[trigger] brought_back(false, found).sessions.contains_key(key),
        forall|key: u128| !#[trigger] brought_back(true, None).sessions.contains_key(key),
        forall|email: Seq<char>| !#[trigger] brought_back(true, None).users.contains_key(email),
{
}

/// Subscribers that could not be reached are forgotten, the others are not, and nothing else
/// changes.
pub proof fn law_only_the_unreachable_are_forgotten(
    s: AppStateView,
    unreachable: Set<u128>,
    key: u128,
)
    ensures
        without_subscribers(s, unreachable).stats_subscribers.contains(key)
            <==> s.stats_subscribers.contains(key) && !unreachable.contains(key),
        without_subscribers(s, unreachable).users == s.users,
        without_subscribers(s, unreachable).sessions == s.sessions,
        without_subscribers(s, unreachable).rooms == s.rooms,
        without_subscribers(s, unreachable).directory == s.directory,
        without_subscribers(s, unreachable).join_requests == s.join_requests,
        without_subscribers(s, unreachable).direct_chat_requests == s.direct_chat_requests,
        without_subscribers(s, unreachable).presence_connections == s.presence_connections,
{
}

} // verus!
