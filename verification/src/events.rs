//! What travels between a client and its lobby.

pub mod client;
pub mod server;
