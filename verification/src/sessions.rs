//! Sessions: guests and account holders, and the names they go by.

use crate::accounts::{UserAccount, UserAccountView};
use crate::chance::{new_id, random_id_shape, random_number};
use crate::error::{answer, bad_request, conflict, unauthorized, ApiError, ErrorView};
use crate::events::{Dispatch, DispatchView};
use crate::passwords::{drawn_hash, hash_accepts, hash_password, hash_shape, verify_password};
use crate::presence::{release_session_presence, releases_session};
use crate::state::{optional_text, AppState, AppStateView, Session, SessionView};
use crate::tables::{group_tables, keys_of, lists, view_items};
use crate::text::{clean_name_with, cleaned_name, normalize_display_name, normalize_email};
use crate::text::{normalized, trim, trimmed};
use crate::time::{clock_time, Timestamp};
use vstd::prelude::*;
use vstd::utf8::encode_utf8;

verus! {

broadcast use {vstd::std_specs::hash::group_hash_axioms, group_tables};

/// The shortest password, in bytes.
pub const MIN_PASSWORD_BYTES: usize = 8;

/// The refusal of whoever has no session.
pub open spec fn session_refusal(s: AppStateView, session_id: u128) -> Option<ErrorView> {
    if s.sessions.contains_key(session_id) {
        None
    } else {
        Some(unauthorized("A valid session is required."@))
    }
}

/// Refuses whoever has no session.
pub fn ensure_session(state: &AppState, session_id: u128) -> (result: Result<(), ApiError>)
    ensures
        match result {
            Ok(_) => session_refusal(state@, session_id) is None,
            Err(e) => session_refusal(state@, session_id) == Some(e@),
        },
{
    if state.sessions.contains_key(&session_id) {
        Ok(())
    } else {
        Err(ApiError::unauthorized("A valid session is required."))
    }
}

/// The name that a session goes by; whoever has no session is a `Guest`.
pub open spec fn known_name(s: AppStateView, session_id: u128) -> Seq<char> {
    if s.sessions.contains_key(session_id) {
        s.sessions[session_id].display_name
    } else {
        "Guest"@
    }
}

/// The name that a session goes by.
pub fn name_of(state: &AppState, session_id: u128) -> (result: String)
    ensures
        result@ == known_name(state@, session_id),
{
    match state.sessions.get(&session_id) {
        Some(session) => session.display_name.clone(),
        None => "Guest".to_owned(),
    }
}

/// The state with a session in it.
pub open spec fn with_session(s: AppStateView, session: SessionView) -> AppStateView {
    AppStateView { sessions: s.sessions.insert(session.id, session), ..s }
}

/// A session that begins at `now`, as `fresh_id`.
pub fn new_session_with(
    display_name: String,
    account_email: Option<String>,
    fresh_id: u128,
    now: Timestamp,
) -> (result: Session)
    ensures
        result@ == (SessionView {
            id: fresh_id,
            display_name: display_name@,
            account_email: optional_text(account_email),
            created_at: now,
        }),
{
    Session { id: fresh_id, display_name, account_email, created_at: now }
}

/// A session that begins now.
pub fn new_session(display_name: String, account_email: Option<String>) -> (result: Session)
    ensures
        random_id_shape(result.id),
        result.display_name@ == display_name@,
        optional_text(result.account_email) == optional_text(account_email),
        clock_time(result.created_at),
{
    let fresh_id: u128 = new_id();
    let now = Timestamp::now();
    new_session_with(display_name, account_email, fresh_id, now)
}

/// Opens a session that begins now.
pub fn create_session(
    state: &mut AppState,
    display_name: String,
    account_email: Option<String>,
) -> (result: Session)
    ensures
        random_id_shape(result.id),
        result.display_name@ == display_name@,
        optional_text(result.account_email) == optional_text(account_email),
        clock_time(result.created_at),
        final(state)@ == with_session(old(state)@, result@),
{
    let session = new_session(display_name, account_email);
    state.sessions.insert(session.id, session.clone());
    session
}

/// What a request for a session is answered.
pub open spec fn looked_up(s: AppStateView, session_id: u128) -> Result<SessionView, ErrorView> {
    if s.sessions.contains_key(session_id) {
        Ok(s.sessions[session_id])
    } else {
        Err(unauthorized("Session expired. Please sign in again."@))
    }
}

/// The session with the given identifier.
pub fn get_session(state: &AppState, session_id: u128) -> (result: Result<Session, ApiError>)
    ensures
        answer(result) == looked_up(state@, session_id),
{
    match state.sessions.get(&session_id) {
        Some(session) => Ok(session.clone()),
        None => Err(ApiError::unauthorized("Session expired. Please sign in again.")),
    }
}

/// Whether a session other than `except` goes by `name`, whatever the case and the space
/// around it.
pub open spec fn name_in_use(s: AppStateView, name: Seq<char>, except: Option<u128>) -> bool {
    exists|key: u128| #[trigger]
        s.sessions.contains_key(key) && except != Some(key) && normalized(
            s.sessions[key].display_name,
        ) == normalized(name)
}

/// Whether a session other than `except_session` goes by `name`.
pub fn display_name_in_use(
    state: &AppState,
    name: &str,
    except_session: Option<u128>,
) -> (result: bool)
    ensures
        result == name_in_use(state@, name@, except_session),
{
    let wanted = normalize_display_name(name);
    let keys = keys_of(&state.sessions);
    let mut i: usize = 0;
    while i < keys.len()
        invariant
            i <= keys@.len(),
            wanted@ == normalized(name@),
            lists(keys@, state.sessions@.dom()),
            forall|k: int|
                0 <= k < i ==> except_session == Some(#[trigger] keys@[k]) || normalized(
                    state@.sessions[keys@[k]].display_name,
                ) != normalized(name@),
        decreases keys@.len() - i,
    {
        let key: u128 = keys[i];
        assert(keys@.contains(key));
        let excepted = match except_session {
            Some(except) => except == key,
            None => false,
        };
        if let Some(session) = state.sessions.get(&key) {
            if !excepted && normalize_display_name(session.display_name.as_str()) == wanted {
                assert(state@.sessions.contains_key(key));
                return true;
            }
        }
        i = i + 1;
    }
    assert forall|key: u128| #[trigger] state@.sessions.contains_key(key) implies except_session
        == Some(key) || normalized(state@.sessions[key].display_name) != normalized(name@) by {
        assert(keys@.contains(key));
    }
    false
}

/// Whether an account goes by `name`, whatever the case and the space around it.
pub open spec fn name_reserved(s: AppStateView, name: Seq<char>) -> bool {
    exists|email: Seq<char>| #[trigger]
        s.users.contains_key(email) && normalized(s.users[email].display_name) == normalized(name)
}

/// Whether an account goes by `name`.
pub fn display_name_reserved_by_account(state: &AppState, name: &str) -> (result: bool)
    ensures
        result == name_reserved(state@, name@),
{
    let wanted = normalize_display_name(name);
    let records = state.users.records();
    let mut i: usize = 0;
    while i < records.len()
        invariant
            i <= records@.len(),
            wanted@ == normalized(name@),
            forall|k: int|
                0 <= k < records@.len() ==> state@.users.contains_key(
                    (#[trigger] records@[k]).email@,
                ) && state@.users[records@[k].email@] == records@[k].account@,
            forall|k: int|
                0 <= k < i ==> normalized((#[trigger] records@[k]).account.display_name@)
                    != normalized(name@),
        decreases records@.len() - i,
    {
        let taken = normalize_display_name(records[i].account.display_name.as_str());
        if taken == wanted {
            return true;
        }
        i = i + 1;
    }
    false
}

/// Why a guest cannot go by `name`.
pub open spec fn guest_name_refusal(s: AppStateView, name: Seq<char>) -> Option<ErrorView> {
    if name_reserved(s, name) {
        Some(
            conflict(
                "That name belongs to a registered account. Choose a different guest name."@,
            ),
        )
    } else if name_in_use(s, name, None) {
        Some(conflict("That guest name is already in use. Pick another one."@))
    } else {
        None
    }
}

/// Refuses a guest name that an account or another session goes by.
pub fn ensure_guest_display_name_available(
    state: &AppState,
    name: &str,
) -> (result: Result<(), ApiError>)
    ensures
        match result {
            Ok(_) => guest_name_refusal(state@, name@) is None,
            Err(e) => guest_name_refusal(state@, name@) == Some(e@),
        },
{
    if display_name_reserved_by_account(state, name) {
        return Err(
            ApiError::conflict(
                "That name belongs to a registered account. Choose a different guest name.",
            ),
        );
    }
    if display_name_in_use(state, name, None) {
        return Err(ApiError::conflict("That guest name is already in use. Pick another one."));
    }
    Ok(())
}

/// The name a guest asked for, or `Guest`.
pub open spec fn asked_name(display_name: Option<Seq<char>>) -> Seq<char> {
    match display_name {
        Some(name) => name,
        None => "Guest"@,
    }
}

/// Coming in as a guest: from `s` to `after`, with the given answer. A guest whose name
/// comes to nothing is named after `number`.
pub open spec fn admits_guest(
    s: AppStateView,
    display_name: Option<Seq<char>>,
    number: u32,
    fresh_id: u128,
    now: Timestamp,
    after: AppStateView,
    result: Result<SessionView, ErrorView>,
) -> bool {
    let name = cleaned_name(asked_name(display_name), number);
    match (guest_name_refusal(s, name), result) {
        (Some(refusal), Err(e)) => e == refusal && after == s,
        (None, Ok(session)) => {
            &&& session == SessionView {
                id: fresh_id,
                display_name: name,
                account_email: None,
                created_at: now,
            }
            &&& after == with_session(s, session)
        },
        _ => false,
    }
}

/// Opens a guest's session at `now`, as `fresh_id`; a guest whose name comes to nothing is
/// named after `number`.
pub fn guest_with(
    state: &mut AppState,
    display_name: &Option<String>,
    number: u32,
    fresh_id: u128,
    now: Timestamp,
) -> (result: Result<Session, ApiError>)
    ensures
        admits_guest(
            old(state)@,
            optional_text(*display_name),
            number,
            fresh_id,
            now,
            final(state)@,
            answer(result),
        ),
{
    let name = match display_name {
        Some(name) => clean_name_with(name.as_str(), number),
        None => clean_name_with("Guest", number),
    };
    ensure_guest_display_name_available(state, name.as_str())?;
    let session = new_session_with(name, None, fresh_id, now);
    state.sessions.insert(session.id, session.clone());
    Ok(session)
}

/// Opens a guest's session.
pub fn guest(
    state: &mut AppState,
    display_name: &Option<String>,
) -> (result: Result<Session, ApiError>)
    ensures
        exists|number: u32, fresh_id: u128, now: Timestamp|
            clock_time(now) && random_id_shape(fresh_id) && #[trigger] admits_guest(
                old(state)@,
                optional_text(*display_name),
                number,
                fresh_id,
                now,
                final(state)@,
                answer(result),
            ),
{
    let number: u32 = random_number();
    let fresh_id: u128 = new_id();
    let now = Timestamp::now();
    guest_with(state, display_name, number, fresh_id, now)
}

/// What someone gives who registers an account.
pub struct SignupRequest {
    pub email: String,
    pub password: String,
    pub display_name: String,
}

/// Why an account cannot be registered.
pub open spec fn signup_refusal(s: AppStateView, request: SignupRequest) -> Option<ErrorView> {
    if trimmed(request.email@).len() == 0 || encode_utf8(request.password@).len()
        < MIN_PASSWORD_BYTES || trimmed(request.display_name@).len() == 0 {
        Some(
            bad_request("Email, display name, and an 8+ character password are required."@),
        )
    } else if s.users.contains_key(normalized(request.email@)) {
        Some(conflict("That email is already registered."@))
    } else {
        None
    }
}

/// Registering an account: from `s` to `after`, with the given answer, when hashing the
/// password came out as `hash`.
pub open spec fn signs_up(
    s: AppStateView,
    request: SignupRequest,
    hash: Result<Seq<char>, ErrorView>,
    number: u32,
    fresh_id: u128,
    now: Timestamp,
    after: AppStateView,
    result: Result<SessionView, ErrorView>,
) -> bool {
    let email = normalized(request.email@);
    let name = cleaned_name(request.display_name@, number);
    match (signup_refusal(s, request), hash, result) {
        (Some(refusal), _, Err(e)) => e == refusal && after == s,
        (None, Err(failure), Err(e)) => e == failure && after == s,
        (None, Ok(password_hash), Ok(session)) => {
            &&& session == SessionView {
                id: fresh_id,
                display_name: name,
                account_email: Some(email),
                created_at: now,
            }
            &&& after == AppStateView {
                users: s.users.insert(
                    email,
                    UserAccountView { display_name: name, password_hash, created_at: now },
                ),
                sessions: s.sessions.insert(fresh_id, session),
                ..s
            }
        },
        _ => false,
    }
}

/// Refuses an account that cannot be registered.
pub fn ensure_can_sign_up(
    state: &AppState,
    request: &SignupRequest,
) -> (result: Result<(), ApiError>)
    ensures
        match result {
            Ok(_) => signup_refusal(state@, *request) is None,
            Err(e) => signup_refusal(state@, *request) == Some(e@),
        },
{
    let email = normalize_email(request.email.as_str());
    if email.as_str().is_empty() || request.password.as_str().as_bytes().len() < MIN_PASSWORD_BYTES
        || trim(request.display_name.as_str()).is_empty() {
        return Err(
            ApiError::bad_request("Email, display name, and an 8+ character password are required."),
        );
    }
    if state.users.get(&email).is_some() {
        return Err(ApiError::conflict("That email is already registered."));
    }
    Ok(())
}

/// Registers an account at `now` and opens its first session as `fresh_id`, when hashing
/// the password came out as `hash`.
pub fn signup_with(
    state: &mut AppState,
    request: &SignupRequest,
    hash: Result<String, ApiError>,
    number: u32,
    fresh_id: u128,
    now: Timestamp,
) -> (result: Result<Session, ApiError>)
    ensures
        signs_up(
            old(state)@,
            *request,
            answer(hash),
            number,
            fresh_id,
            now,
            final(state)@,
            answer(result),
        ),
{
    ensure_can_sign_up(state, request)?;
    let password_hash = hash?;
    let email = normalize_email(request.email.as_str());
    let display_name = clean_name_with(request.display_name.as_str(), number);
    let account = UserAccount {
        display_name: display_name.clone(),
        password_hash,
        created_at: now,
    };
    state.users.insert(email.clone(), account);
    let session = new_session_with(display_name, Some(email), fresh_id, now);
    state.sessions.insert(session.id, session.clone());
    Ok(session)
}

/// Registering an account, with the password hashed with a random salt: from `s` to `after`,
/// with the given answer.
pub open spec fn registers(
    s: AppStateView,
    request: SignupRequest,
    after: AppStateView,
    result: Result<SessionView, ErrorView>,
) -> bool {
    exists|hash: Result<Seq<char>, ErrorView>, number: u32, fresh_id: u128, now: Timestamp|
        clock_time(now) && (signup_refusal(s, request) is None ==> drawn_hash(
            request.password@,
            hash,
        )) && random_id_shape(fresh_id) && #[trigger] signs_up(
            s,
            request,
            hash,
            number,
            fresh_id,
            now,
            after,
            result,
        )
}

/// Registers an account and opens its first session.
pub fn signup(state: &mut AppState, request: &SignupRequest) -> (result: Result<Session, ApiError>)
    ensures
        registers(old(state)@, *request, final(state)@, answer(result)),
{
    let number: u32 = random_number();
    let fresh_id: u128 = new_id();
    let now = Timestamp::now();
    if let Err(refusal) = ensure_can_sign_up(state, request) {
        let refused: Result<Session, ApiError> = Err(refusal);
        assert(signs_up(
            old(state)@,
            *request,
            Err(refusal@),
            number,
            fresh_id,
            now,
            state@,
            answer(refused),
        ));
        return refused;
    }
    let hash = hash_password(request.password.as_str());
    signup_with(state, request, hash, number, fresh_id, now)
}

/// What an account holder gives who comes back.
pub struct SigninRequest {
    pub email: String,
    pub password: String,
}

/// Whether the account under the address accepts the password.
pub open spec fn account_accepts(s: AppStateView, email: Seq<char>, password: Seq<char>) -> bool {
    s.users.contains_key(normalized(email)) && hash_accepts(
        s.users[normalized(email)].password_hash,
        password,
    )
}

/// Coming back to an account: from `s` to `after`, with the given answer, when checking the
/// password against the account's hash came out as `accepted`.
pub open spec fn signs_in(
    s: AppStateView,
    email: Seq<char>,
    accepted: bool,
    fresh_id: u128,
    now: Timestamp,
    after: AppStateView,
    result: Result<SessionView, ErrorView>,
) -> bool {
    let address = normalized(email);
    if s.users.contains_key(address) && accepted {
        let session = SessionView {
            id: fresh_id,
            display_name: s.users[address].display_name,
            account_email: Some(address),
            created_at: now,
        };
        result == Ok::<SessionView, ErrorView>(session) && after == with_session(s, session)
    } else {
        result == Err::<SessionView, ErrorView>(unauthorized("Invalid email or password."@))
            && after == s
    }
}

/// Opens a session of the account under `email` at `now`, as `fresh_id`, when checking the
/// password against the account's hash came out as `accepted`.
pub fn signin_with(
    state: &mut AppState,
    email: &str,
    accepted: bool,
    fresh_id: u128,
    now: Timestamp,
) -> (result: Result<Session, ApiError>)
    ensures
        signs_in(old(state)@, email@, accepted, fresh_id, now, final(state)@, answer(result)),
{
    let address = normalize_email(email);
    let display_name = match state.users.get(&address) {
        Some(account) => account.display_name.clone(),
        None => {
            return Err(ApiError::unauthorized("Invalid email or password."));
        },
    };
    if !accepted {
        return Err(ApiError::unauthorized("Invalid email or password."));
    }
    let session = new_session_with(display_name, Some(address), fresh_id, now);
    state.sessions.insert(session.id, session.clone());
    Ok(session)
}

/// Coming back to an account with a password: from `s` to `after`, with the given answer.
pub open spec fn comes_back(
    s: AppStateView,
    email: Seq<char>,
    password: Seq<char>,
    after: AppStateView,
    result: Result<SessionView, ErrorView>,
) -> bool {
    exists|fresh_id: u128, now: Timestamp|
        clock_time(now) && random_id_shape(fresh_id) && #[trigger] signs_in(
            s,
            email,
            account_accepts(s, email, password),
            fresh_id,
            now,
            after,
            result,
        )
}

/// Opens a session of an account. One whose stored hash is no hash lets nobody in.
pub fn signin(state: &mut AppState, request: &SigninRequest) -> (result: Result<Session, ApiError>)
    ensures
        comes_back(
            old(state)@,
            request.email@,
            request.password@,
            final(state)@,
            answer(result),
        ),
        result is Ok ==> hash_shape(
            old(state)@.users[normalized(request.email@)].password_hash,
        ),
{
    let address = normalize_email(request.email.as_str());
    let accepted = match state.users.get(&address) {
        Some(account) => verify_password(
            account.password_hash.as_str(),
            request.password.as_str(),
        ),
        None => false,
    };
    assert(accepted == account_accepts(old(state)@, request.email@, request.password@));
    let fresh_id: u128 = new_id();
    let now = Timestamp::now();
    signin_with(state, request.email.as_str(), accepted, fresh_id, now)
}

/// The end of a session: from `s` to `after`, and what the members of its rooms are sent.
pub open spec fn signs_out(
    s: AppStateView,
    session_id: u128,
    now: Timestamp,
    after: AppStateView,
    dispatches: Seq<DispatchView>,
) -> bool {
    releases_session(
        AppStateView {
            sessions: s.sessions.remove(session_id),
            directory: s.directory.remove(session_id),
            ..s
        },
        session_id,
        now,
        after,
        dispatches,
    )
}

/// Ends a session at `now`, with its directory listing and all its connections.
pub fn signout_at(
    state: &mut AppState,
    session_id: u128,
    now: Timestamp,
) -> (dispatches: Vec<Dispatch>)
    ensures
        signs_out(old(state)@, session_id, now, final(state)@, view_items(dispatches@)),
{
    state.sessions.remove(&session_id);
    state.directory.remove(&session_id);
    release_session_presence(state, session_id, now)
}

/// Ends a session, with its directory listing and all its connections.
pub fn signout(state: &mut AppState, session_id: u128) -> (dispatches: Vec<Dispatch>)
    ensures
        exists|now: Timestamp|
            clock_time(now) && #[trigger] signs_out(
                old(state)@,
                session_id,
                now,
                final(state)@,
                view_items(dispatches@),
            ),
{
    let now = Timestamp::now();
    signout_at(state, session_id, now)
}

} // verus!
