//! The rules of a small random video chat service: guest and account sessions,
//! rooms of bounded size, join requests, one-to-one chat requests, a directory of
//! people who want to be found, and the presence that keeps all of it current.
//!
//! The library holds the state and decides; it opens no socket and reads no file.

pub mod accounts;
pub mod chance;
pub mod direct_chats;
pub mod directory;
pub mod error;
pub mod events;
pub mod inbox;
pub mod invariants;
pub mod join_requests;
pub mod laws;
pub mod links;
pub mod operations;
pub mod ordering;
pub mod passwords;
pub mod presence;
pub mod rooms;
pub mod sessions;
pub mod settings;
pub mod sockets;
pub mod state;
pub mod tables;
pub mod text;
pub mod time;

pub use time::Timestamp;
