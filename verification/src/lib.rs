//! The core of a session server for a party game: the lobby that owns one
//! game session's membership, the registry of running lobbies, and the
//! decisions a connection session takes on behalf of its client.

pub mod channel;
pub mod client;
pub mod events;
pub mod lobby;
pub mod registry;
