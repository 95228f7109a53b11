//! Where the service listens, and what it keeps when it stops.

use crate::accounts::{UserAccountView, UserTable};
use crate::error::{internal, ApiError, ErrorView};
use crate::state::{optional_text, started, AppState, AppStateView, Session, SessionView};
use crate::tables::{group_tables, view_values};
use std::collections::HashMap;
use vstd::prelude::*;
use vstd::string::StringExecFns;

verus! {

broadcast use {vstd::std_specs::hash::group_hash_axioms, group_tables};

/// The address to listen on: the one that was set, or every interface with the port that
/// was set, or with port 3000.
pub open spec fn listen_address(address: Option<Seq<char>>, port: Option<Seq<char>>) -> Seq<char> {
    match (address, port) {
        (Some(address), _) => address,
        (None, Some(port)) => "0.0.0.0:"@ + port,
        (None, None) => "0.0.0.0:3000"@,
    }
}

/// The address to listen on, given the settings of the address and of the port.
pub fn bind_addr(address: Option<String>, port: Option<String>) -> (result: String)
    ensures
        result@ == listen_address(
            optional_text(address),
            optional_text(port),
        ),
{
    match address {
        Some(address) => address,
        None => match port {
            Some(port) => {
                let mut text = "0.0.0.0:".to_owned();
                text.append(port.as_str());
                text
            },
            None => "0.0.0.0:3000".to_owned(),
        },
    }
}

/// What outlives the process: accounts and sessions.
pub struct AuthData {
    pub users: UserTable,
    pub sessions: HashMap<u128, Session>,
}

#[verifier::ext_equal]
pub struct AuthDataView {
    pub users: Map<Seq<char>, UserAccountView>,
    pub sessions: Map<u128, SessionView>,
}

impl View for AuthData {
    type V = AuthDataView;

    open spec fn view(&self) -> AuthDataView {
        AuthDataView { users: self.users@, sessions: view_values(self.sessions@) }
    }
}

/// What outlives the process of a state.
pub open spec fn lasting(s: AppStateView) -> AuthDataView {
    AuthDataView { users: s.users, sessions: s.sessions }
}

impl Default for AuthData {
    fn default() -> (result: Self)
        ensures
            result@ == (AuthDataView { users: Map::empty(), sessions: Map::empty() }),
    {
        AuthData { users: UserTable::new(), sessions: HashMap::new() }
    }
}

impl AuthData {
    /// A service that knows these accounts and sessions, in which nothing has happened yet.
    pub fn resume(self) -> (result: AppState)
        ensures
            result@ == started(self@.users, self@.sessions),
    {
        AppState::start(self.users, self.sessions)
    }
}

/// The step at which keeping the accounts and sessions failed.
#[derive(Clone, Copy, Debug, PartialEq, Eq, Structural)]
pub enum SaveStep {
    Prepare,
    Serialize,
    Write,
    Replace,
}

/// What the person is told whose request could not be kept.
pub open spec fn save_refusal(step: SaveStep) -> ErrorView {
    internal(
        match step {
            SaveStep::Prepare => "Unable to prepare auth store."@,
            SaveStep::Serialize => "Unable to serialize auth store."@,
            SaveStep::Write => "Unable to write auth store."@,
            SaveStep::Replace => "Unable to save auth store."@,
        },
    )
}

/// Where accounts and sessions are kept: a file, or nowhere.
pub struct AuthStore {
    pub path: Option<String>,
}

impl Clone for AuthStore {
    fn clone(&self) -> (result: Self)
        ensures
            result == *self,
    {
        match &self.path {
            Some(path) => AuthStore { path: Some(path.clone()) },
            None => AuthStore { path: None },
        }
    }
}

/// What is to be kept of a state, by a store that keeps things or not.
pub open spec fn to_keep(keeps: bool, s: AppStateView) -> Option<AuthDataView> {
    if keeps {
        Some(lasting(s))
    } else {
        None
    }
}

/// What a store that keeps things or not brings back of what was found.
pub open spec fn brought_back(keeps: bool, found: Option<AuthDataView>) -> AuthDataView {
    match found {
        Some(data) if keeps => data,
        _ => AuthDataView { users: Map::empty(), sessions: Map::empty() },
    }
}

/// The view of stored data, if there is any.
pub open spec fn optional_data(data: Option<AuthData>) -> Option<AuthDataView> {
    match data {
        Some(data) => Some(data@),
        None => None,
    }
}

impl AuthStore {
    /// The store that keeps nothing.
    pub fn memory() -> (result: Self)
        ensures
            result.path is None,
    {
        AuthStore { path: None }
    }

    /// The store in the file that was set, or in `data/auth.json`.
    pub fn from_setting(path: Option<String>) -> (result: Self)
        ensures
            result.path matches Some(file) && match path {
                Some(set) => file@ == set@,
                None => file@ == "data/auth.json"@,
            },
    {
        match path {
            Some(path) => AuthStore { path: Some(path) },
            None => AuthStore { path: Some("data/auth.json".to_owned()) },
        }
    }

    /// What the service starts with, given what was found in the store's file. A store that
    /// keeps nothing brings nothing back.
    pub fn load(&self, found: Option<AuthData>) -> (result: AuthData)
        ensures
            result@ == brought_back(self.path is Some, optional_data(found)),
    {
        match (&self.path, found) {
            (Some(_), Some(data)) => data,
            _ => AuthData::default(),
        }
    }

    /// What is to be written to the store's file; nothing if it keeps nothing.
    pub fn save(&self, state: &AppState) -> (result: Option<AuthData>)
        ensures
            optional_data(result) == to_keep(self.path is Some, state@),
    {
        match &self.path {
            Some(_) => Some(
                AuthData { users: state.users.clone(), sessions: state.sessions.clone() },
            ),
            None => None,
        }
    }

    /// What the person is told whose request could not be kept.
    pub fn save_error(step: SaveStep) -> (result: ApiError)
        ensures
            result@ == save_refusal(step),
    {
        match step {
            SaveStep::Prepare => ApiError::internal("Unable to prepare auth store."),
            SaveStep::Serialize => ApiError::internal("Unable to serialize auth store."),
            SaveStep::Write => ApiError::internal("Unable to write auth store."),
            SaveStep::Replace => ApiError::internal("Unable to save auth store."),
        }
    }
}

} // verus!
