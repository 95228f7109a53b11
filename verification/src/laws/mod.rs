//! What the service promises, proved of what its operations do.

pub mod accounts;
pub mod changes;
pub mod directory;
pub mod hashes;
pub mod lasting;
pub mod messages;
pub mod presence;
pub mod refusals;
pub mod requests;
pub mod rooms;
