//! Promises about accounts, sessions and names.

use crate::error::{conflict, unauthorized, ErrorView};
use crate::events::DispatchView;
use crate::invariants::history;
use crate::laws::presence::{law_signing_out_ends_everything, lemma_releases, lemma_tidies};
use crate::laws::presence::people_same;
use crate::operations::{performs, Operation};
use crate::passwords::drawn_hash;
use crate::presence::{releases, sweeps, StatsBroadcast};
use crate::sessions::{account_accepts, admits_guest, guest_name_refusal, looked_up};
use crate::sessions::{name_reserved, signs_in, signs_out, signs_up, signup_refusal};
use crate::sessions::SignupRequest;
use crate::settings::lasting;
use crate::sockets::{closes_connection, closes_stats_socket, connected, opens_room_socket};
use crate::sockets::{opens_stats_socket, subscribed, RoomGreeting, SocketClosing};
use crate::sockets::StatsGreeting;
use crate::state::{started, AppStateView, DirectChatRequestView, DirectoryEntryView};
use crate::state::{JoinRequestView, PresenceConnection, RoomView, SessionView};
use crate::tables::view_items;
use crate::text::{cleaned_name, clipped, guest_label, lowered, normalized, trimmed};
use crate::text::{white_space, without_leading_space, without_trailing_space, MAX_NAME_CHARS};
use crate::time::Timestamp;
use vstd::prelude::*;
use vstd::utf8::encode_utf8;

verus! {

/// Whoever was admitted as a guest has a session that can be looked up.
pub proof fn law_a_guest_has_a_session(
    s: AppStateView,
    display_name: Option<Seq<char>>,
    number: u32,
    fresh_id: u128,
    now: Timestamp,
    after: AppStateView,
    result: Result<SessionView, ErrorView>,
)
    requires
        admits_guest(s, display_name, number, fresh_id, now, after, result),
        result is Ok,
    ensures
        looked_up(after, result->Ok_0.id) == result,
        result->Ok_0.account_email is None,
{
}

/// Whoever registered an account has a session of it that can be looked up.
pub proof fn law_an_account_has_a_session(
    s: AppStateView,
    request: SignupRequest,
    hash: Result<Seq<char>, ErrorView>,
    number: u32,
    fresh_id: u128,
    now: Timestamp,
    after: AppStateView,
    result: Result<SessionView, ErrorView>,
)
    requires
        signs_up(s, request, hash, number, fresh_id, now, after, result),
        result is Ok,
    ensures
        looked_up(after, result->Ok_0.id) == result,
        result->Ok_0.account_email == Some(normalized(request.email@)),
{
}

/// Whoever signed in has a session of their account that can be looked up, and goes by the
/// account's name.
pub proof fn law_signing_in_opens_a_session(
    s: AppStateView,
    email: Seq<char>,
    accepted: bool,
    fresh_id: u128,
    now: Timestamp,
    after: AppStateView,
    result: Result<SessionView, ErrorView>,
)
    requires
        signs_in(s, email, accepted, fresh_id, now, after, result),
        result is Ok,
    ensures
        looked_up(after, result->Ok_0.id) == result,
        result->Ok_0.display_name == s.users[normalized(email)].display_name,
{
}

/// A session that was signed out cannot be looked up any more.
pub proof fn law_a_signed_out_session_is_gone(
    s: AppStateView,
    session_id: u128,
    now: Timestamp,
    after: AppStateView,
    dispatches: Seq<DispatchView>,
)
    requires
        signs_out(s, session_id, now, after, dispatches),
    ensures
        looked_up(after, session_id) == Err::<SessionView, ErrorView>(
            unauthorized("Session expired. Please sign in again."@),
        ),
{
    law_signing_out_ends_everything(s, session_id, now, after, dispatches);
}

/// A new account accepts the password it was registered with, under its address in any case
/// and with any space around it.
pub proof fn law_a_new_account_accepts_its_password(
    s: AppStateView,
    request: SignupRequest,
    hash: Result<Seq<char>, ErrorView>,
    number: u32,
    fresh_id: u128,
    now: Timestamp,
    after: AppStateView,
    result: Result<SessionView, ErrorView>,
    email: Seq<char>,
)
    requires
        signs_up(s, request, hash, number, fresh_id, now, after, result),
        drawn_hash(request.password@, hash),
        result is Ok,
        normalized(email) == normalized(request.email@),
    ensures
        account_accepts(after, email, request.password@),
{
}

/// Whoever is not refused for what they gave gets their account, as long as the password fits
/// a 32-bit length.
pub proof fn law_registering_succeeds(
    s: AppStateView,
    request: SignupRequest,
    hash: Result<Seq<char>, ErrorView>,
    number: u32,
    fresh_id: u128,
    now: Timestamp,
    after: AppStateView,
    result: Result<SessionView, ErrorView>,
)
    requires
        signup_refusal(s, request) is None,
        encode_utf8(request.password@).len() <= u32::MAX,
        drawn_hash(request.password@, hash),
        signs_up(s, request, hash, number, fresh_id, now, after, result),
    ensures
        result is Ok,
{
}

/// An account is not registered twice under one address, whatever the case and the space
/// around it.
pub proof fn law_an_address_is_registered_once(
    s: AppStateView,
    request: SignupRequest,
    hash: Result<Seq<char>, ErrorView>,
    number: u32,
    fresh_id: u128,
    now: Timestamp,
    after: AppStateView,
    result: Result<SessionView, ErrorView>,
    again: SignupRequest,
)
    requires
        signs_up(s, request, hash, number, fresh_id, now, after, result),
        result is Ok,
        normalized(again.email@) == normalized(request.email@),
        signup_refusal(s, again) is None,
    ensures
        signup_refusal(after, again) == Some(conflict("That email is already registered."@)),
{
}

/// Whoever fails to sign in is told the same, whether there is no such account or the password
/// is wrong.
pub proof fn law_failed_sign_ins_sound_alike(
    s: AppStateView,
    unknown: Seq<char>,
    known: Seq<char>,
    accepted: bool,
    fresh_id: u128,
    now: Timestamp,
    after_unknown: AppStateView,
    to_unknown: Result<SessionView, ErrorView>,
    after_known: AppStateView,
    to_known: Result<SessionView, ErrorView>,
)
    requires
        !s.users.contains_key(normalized(unknown)),
        s.users.contains_key(normalized(known)),
        signs_in(s, unknown, accepted, fresh_id, now, after_unknown, to_unknown),
        signs_in(s, known, false, fresh_id, now, after_known, to_known),
    ensures
        to_unknown is Err,
        to_known == to_unknown,
        after_known == after_unknown,
{
}

/// No operation forgets or changes an account; only registering adds one.
pub proof fn law_accounts_stay(
    operation: Operation,
    s: AppStateView,
    now: Timestamp,
    after: AppStateView,
    email: Seq<char>,
)
    requires
        performs(operation, s, now, after),
    ensures
        s.users.contains_key(email) ==> after.users.contains_key(email) && after.users[email]
            == s.users[email],
        !(operation is SignUp) ==> after.users == s.users,
{
    lemma_people(operation, s, now, after);
}

/// Sessions come only by admitting a guest, registering and signing in, and go only by signing
/// out.
pub proof fn law_sessions_change_only_by_signing(
    operation: Operation,
    s: AppStateView,
    now: Timestamp,
    after: AppStateView,
)
    requires
        performs(operation, s, now, after),
        !(operation is Guest || operation is SignUp || operation is SignIn
            || operation is SignOut),
    ensures
        after.sessions == s.sessions,
{
    lemma_people(operation, s, now, after);
}

proof fn lemma_people(
    operation: Operation,
    s: AppStateView,
    now: Timestamp,
    after: AppStateView,
)
    requires
        performs(operation, s, now, after),
    ensures
        !(operation is SignUp) ==> after.users == s.users,
        !(operation is Guest || operation is SignUp || operation is SignIn
            || operation is SignOut) ==> after.sessions == s.sessions,
{
    match operation {
        Operation::SignOut { session_id } => {
            let dispatches = choose|dispatches: Seq<DispatchView>|
                signs_out(s, session_id, now, after, dispatches);
            law_signing_out_ends_everything(s, session_id, now, after, dispatches);
        },
        Operation::OpenRoomSocket { room_id, session_id, connection_id } => {
            let greeting = choose|greeting: RoomGreeting|
                opens_room_socket(s, room_id, session_id, connection_id, now, after, greeting);
            lemma_tidies(
                connected(s, room_id, session_id, connection_id, now),
                now,
                after,
                view_items(greeting.stats.dispatches@),
            );
        },
        Operation::CloseConnection { connection_id } => {
            let closing = choose|closing: SocketClosing|
                closes_connection(s, connection_id, now, after, closing);
            lemma_closes(s, connection_id, now, after, closing);
        },
        Operation::OpenStatsSocket { claimed, subscriber_id, connection_id } => {
            let greeting = choose|greeting: StatsGreeting|
                opens_stats_socket(
                    s,
                    claimed,
                    subscriber_id,
                    connection_id,
                    now,
                    after,
                    greeting,
                );
            lemma_tidies(
                subscribed(s, claimed, subscriber_id, connection_id, now),
                now,
                after,
                view_items(greeting.stats.dispatches@),
            );
        },
        Operation::CloseStatsSocket { subscriber_id, connection } => {
            let closing = choose|closing: SocketClosing|
                closes_stats_socket(s, subscriber_id, connection, now, after, closing);
            let without = AppStateView {
                stats_subscribers: s.stats_subscribers.remove(subscriber_id),
                ..s
            };
            match connection {
                Some(connection) => {
                    lemma_closes(without, connection, now, after, closing);
                },
                None => {
                    lemma_tidies(without, now, after, view_items(closing.stats.dispatches@));
                },
            }
        },
        Operation::Sweep => {
            let result = choose|result: StatsBroadcast| sweeps(s, now, after, result);
            lemma_tidies(s, now, after, view_items(result.dispatches@));
        },
        _ => {},
    }
}

proof fn lemma_closes(
    s: AppStateView,
    connection_id: u128,
    now: Timestamp,
    after: AppStateView,
    closing: SocketClosing,
)
    requires
        closes_connection(s, connection_id, now, after, closing),
    ensures
        people_same(s, after),
{
    let dispatches = view_items(closing.dispatches@);
    let mid = choose|mid: AppStateView| #[trigger]
        releases(s, connection_id, now, mid, dispatches) && sweeps(mid, now, after, closing.stats);
    lemma_releases(s, connection_id, now, mid, dispatches);
    lemma_tidies(mid, now, after, view_items(closing.stats.dispatches@));
}

/// Whoever registered an account can sign in at any later time, whatever has happened since:
/// with the same password, and with the address in any case and with any space around it.
pub proof fn law_whoever_registered_can_sign_in(
    states: Seq<AppStateView>,
    steps: Seq<(Operation, Timestamp)>,
    registered: int,
    later: int,
    email: Seq<char>,
    fresh_id: u128,
    now: Timestamp,
    after: AppStateView,
    result: Result<SessionView, ErrorView>,
)
    requires
        history(states, steps),
        0 <= registered < steps.len(),
        registered < later < states.len(),
        steps[registered].0 is SignUp,
        ({
            let request = steps[registered].0->account;
            &&& signup_refusal(states[registered], request) is None
            &&& drawn_hash(request.password@, steps[registered].0->hash)
            &&& steps[registered].0->hash is Ok
            &&& normalized(email) == normalized(request.email@)
            &&& signs_in(
                states[later],
                email,
                account_accepts(states[later], email, request.password@),
                fresh_id,
                now,
                after,
                result,
            )
        }),
    ensures
        result is Ok,
        looked_up(after, fresh_id) == result,
{
    lemma_account_kept(states, steps, registered + 1, later, normalized(email));
}

proof fn lemma_account_kept(
    states: Seq<AppStateView>,
    steps: Seq<(Operation, Timestamp)>,
    from: int,
    to: int,
    email: Seq<char>,
)
    requires
        history(states, steps),
        0 <= from <= to < states.len(),
        states[from].users.contains_key(email),
    ensures
        states[to].users.contains_key(email),
        states[to].users[email] == states[from].users[email],
    decreases to - from,
{
    if from < to {
        lemma_account_kept(states, steps, from, to - 1, email);
        let step = steps[to - 1];
        law_accounts_stay(step.0, states[to - 1], step.1, states[to], email);
    }
}

/// A guest cannot go by a name that someone goes by already, whatever the case and the space
/// around it.
pub proof fn law_a_name_in_use_is_refused(s: AppStateView, key: u128, name: Seq<char>)
    requires
        s.sessions.contains_key(key),
        normalized(name) == normalized(s.sessions[key].display_name),
        !name_reserved(s, name),
    ensures
        guest_name_refusal(s, name) == Some(
            conflict("That guest name is already in use. Pick another one."@),
        ),
{
}

/// A guest cannot go by the name of an account, whatever the case and the space around it.
pub proof fn law_an_account_name_is_refused(s: AppStateView, email: Seq<char>, name: Seq<char>)
    requires
        s.users.contains_key(email),
        normalized(name) == normalized(s.users[email].display_name),
    ensures
        guest_name_refusal(s, name) == Some(
            conflict(
                "That name belongs to a registered account. Choose a different guest name."@,
            ),
        ),
{
}

/// No two guests go by one name.
pub open spec fn guests_distinct(s: AppStateView) -> bool {
    forall|a: u128, b: u128|
        #![trigger s.sessions.contains_key(a), s.sessions.contains_key(b)]
        s.sessions.contains_key(a) && s.sessions.contains_key(b) && a != b
            && s.sessions[a].account_email is None && s.sessions[b].account_email is None
            ==> normalized(s.sessions[a].display_name) != normalized(s.sessions[b].display_name)
}

/// Whatever happens, no two guests ever go by one name.
pub proof fn law_guests_stay_distinct(
    operation: Operation,
    s: AppStateView,
    now: Timestamp,
    after: AppStateView,
)
    requires
        guests_distinct(s),
        performs(operation, s, now, after),
    ensures
        guests_distinct(after),
{
    lemma_people(operation, s, now, after);
    if let Operation::SignOut { session_id } = operation {
        let dispatches = choose|dispatches: Seq<DispatchView>|
            signs_out(s, session_id, now, after, dispatches);
        law_signing_out_ends_everything(s, session_id, now, after, dispatches);
    }
}

/// A display name is never empty and has at most thirty-two characters. One that was given is
/// kept as it is, but for the space around it and what is too long.
pub proof fn law_display_names_are_short(name: Seq<char>, number: u32)
    ensures
        0 < cleaned_name(name, number).len() <= MAX_NAME_CHARS,
        trimmed(name).len() > 0 ==> cleaned_name(name, number) == clipped(
            trimmed(name),
            MAX_NAME_CHARS as nat,
        ),
        trimmed(name).len() == 0 ==> cleaned_name(name, number) == guest_label(number),
{
    reveal_strlit("Guest-");
}

proof fn lemma_leading_lowered(s: Seq<char>)
    ensures
        without_leading_space(lowered(s)) == lowered(without_leading_space(s)),
    decreases s.len(),
{
    if s.len() > 0 {
        if white_space(s.first()) {
            assert(lowered(s).drop_first() =~= lowered(s.drop_first()));
            lemma_leading_lowered(s.drop_first());
        }
    }
}

proof fn lemma_trailing_lowered(s: Seq<char>)
    ensures
        without_trailing_space(lowered(s)) == lowered(without_trailing_space(s)),
    decreases s.len(),
{
    if s.len() > 0 {
        if white_space(s.last()) {
            assert(lowered(s).drop_last() =~= lowered(s.drop_last()));
            lemma_trailing_lowered(s.drop_last());
        }
    }
}

/// Whether `s` is nothing but white space.
pub open spec fn blank(s: Seq<char>) -> bool {
    forall|i: int| 0 <= i < s.len() ==> white_space(#[trigger] s[i])
}

proof fn lemma_leading_blank(before: Seq<char>, s: Seq<char>)
    requires
        blank(before),
    ensures
        without_leading_space(before + s) == without_leading_space(s),
    decreases before.len(),
{
    if before.len() > 0 {
        assert((before + s).drop_first() =~= before.drop_first() + s);
        lemma_leading_blank(before.drop_first(), s);
    }
}

proof fn lemma_trailing_blank(s: Seq<char>, behind: Seq<char>)
    requires
        blank(behind),
    ensures
        without_trailing_space(s + behind) == without_trailing_space(s),
    decreases behind.len(),
{
    if behind.len() > 0 {
        assert((s + behind).drop_last() =~= s + behind.drop_last());
        lemma_trailing_blank(s, behind.drop_last());
    }
}

proof fn lemma_trimmed_blank_behind(s: Seq<char>, behind: Seq<char>)
    requires
        blank(behind),
    ensures
        trimmed(s + behind) == trimmed(s),
    decreases s.len(),
{
    if s.len() == 0 {
        lemma_leading_blank(behind, Seq::empty());
    } else if white_space(s.first()) {
        assert((s + behind).drop_first() =~= s.drop_first() + behind);
        lemma_trimmed_blank_behind(s.drop_first(), behind);
    } else {
        lemma_trailing_blank(s, behind);
    }
}

/// Two names, or two addresses, that differ only in the case of the letters `A` to `Z` and in
/// the space around them count as one.
pub proof fn law_case_and_space_do_not_count(
    before: Seq<char>,
    text: Seq<char>,
    behind: Seq<char>,
)
    requires
        blank(before),
        blank(behind),
    ensures
        normalized(before + text + behind) == normalized(text),
        normalized(lowered(text)) == normalized(text),
{
    assert(before + text + behind =~= before + (text + behind));
    lemma_leading_blank(before, text + behind);
    lemma_trimmed_blank_behind(text, behind);
    lemma_leading_lowered(text);
    lemma_trailing_lowered(without_leading_space(text));
}

/// A service that stops and starts again knows the accounts and sessions it knew, and has
/// forgotten everything else.
pub proof fn law_a_restart_keeps_accounts_and_sessions(s: AppStateView)
    ensures
        ({
            let kept = lasting(s);
            let again = started(kept.users, kept.sessions);
            &&& again.users == s.users
            &&& again.sessions == s.sessions
            &&& again.rooms == Map::<u128, RoomView>::empty()
            &&& again.directory == Map::<u128, DirectoryEntryView>::empty()
            &&& again.join_requests == Map::<u128, JoinRequestView>::empty()
            &&& again.direct_chat_requests == Map::<u128, DirectChatRequestView>::empty()
            &&& again.presence_connections == Map::<u128, PresenceConnection>::empty()
            &&& again.stats_subscribers == Set::<u128>::empty()
            &&& lasting(again) == kept
        }),
{
}

} // verus!
