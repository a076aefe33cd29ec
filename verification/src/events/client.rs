//! Events that a client sends to the server.

use crate::lobby::{LobbyCommand, UserHandle, UserId};
use vstd::prelude::*;

verus! {

/// What a client can ask for once it is connected.
#[derive(Debug)]
pub enum ClientEvent {
    /// The client wants to join the lobby under this name.
    Join { username: String },
    /// The client wants the game to start.
    StartGame {  },
}

impl ClientEvent {
    /// The command that carries this event to the lobby, on behalf of the
    /// connection that has the id `my_id` and takes its events through
    /// `my_handle`.
    pub fn generate_lobby_command(self, my_handle: UserHandle, my_id: UserId) -> (command:
        LobbyCommand)
        ensures
            command == self.as_command(my_handle, my_id),
    {
        match self {
            ClientEvent::Join { username } => LobbyCommand::Join {
                username,
                user_handle: my_handle,
                user_id: my_id,
            },
            ClientEvent::StartGame {  } => LobbyCommand::StartGame,
        }
    }

    /// The command that stands for this event: a join becomes a join under
    /// the connection's id and handle; a request to start stays one, and the
    /// id and the handle are not used.
    pub open spec fn as_command(self, my_handle: UserHandle, my_id: UserId) -> LobbyCommand {
        match self {
            ClientEvent::Join { username } => LobbyCommand::Join {
                username,
                user_id: my_id,
                user_handle: my_handle,
            },
            ClientEvent::StartGame {  } => LobbyCommand::StartGame,
        }
    }
}

} // verus!
