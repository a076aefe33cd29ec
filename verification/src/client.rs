//! What a connection session does with what its client sends.

use crate::events::client::ClientEvent;
use crate::events::server::ServerEvent;
use crate::lobby::{LobbyCommand, UserHandle, UserId};
use vstd::prelude::*;

verus! {

/// One message from a client, as far as the transport could read it.
#[derive(Debug)]
pub enum ClientMessage {
    /// Text that is an event.
    Event(ClientEvent),
    /// Text that is no event.
    Malformed,
    /// Data that is not text, and so cannot be an event.
    NotText,
    /// A frame of the transport's own (a ping, a pong, a close), which
    /// carries no message from the client.
    Control,
}

/// What a session does next.
#[derive(Debug)]
pub enum SessionAction {
    /// Send `command` to the lobby.
    Forward { command: LobbyCommand },
    /// Send `event` to the session's own client, through `handle`, and
    /// nothing to the lobby.
    Reply { handle: UserHandle, event: ServerEvent },
    /// Do nothing.
    Ignore,
}

/// Decides what to do with one message from the client of the connection
/// that has the id `my_id` and takes its events through `my_handle`. An event
/// goes to the lobby as the command that stands for it. A message that is
/// no event, be it text that cannot be read as one or data that is not text,
/// is answered with an error, to this client alone, and the lobby hears
/// nothing of it. A frame of the transport's own is passed over.
pub fn client_message(msg: ClientMessage, my_handle: UserHandle, my_id: UserId) -> (action:
    SessionAction)
    ensures
        action == match msg {
            ClientMessage::Event(event) => SessionAction::Forward {
                command: event.as_command(my_handle, my_id),
            },
            ClientMessage::Malformed | ClientMessage::NotText => SessionAction::Reply {
                handle: my_handle,
                event: ServerEvent::Error,
            },
            ClientMessage::Control => SessionAction::Ignore,
        },
{
    match msg {
        ClientMessage::Event(client_event) => SessionAction::Forward {
            command: client_event.generate_lobby_command(my_handle, my_id),
        },
        ClientMessage::Malformed | ClientMessage::NotText => SessionAction::Reply {
            handle: my_handle,
            event: ServerEvent::Error,
        },
        ClientMessage::Control => SessionAction::Ignore,
    }
}

/// The command that tells the lobby that the connection with the id `my_id`
/// is gone.
pub fn user_disconnect(my_id: UserId) -> (command: LobbyCommand)
    ensures
        command == (LobbyCommand::Disconnect { user_id: my_id }),
{
    LobbyCommand::Disconnect { user_id: my_id }
}

} // verus!
