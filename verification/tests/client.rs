use stay_away_backend::client::{client_message, user_disconnect, ClientMessage, SessionAction};
use stay_away_backend::events::client::ClientEvent;
use stay_away_backend::events::server::ServerEvent;
use stay_away_backend::lobby::LobbyCommand;
use tokio::sync::mpsc;

#[test]
fn join_event_becomes_a_join_command_under_the_connections_id() {
    let (tx, mut rx) = mpsc::channel(4);

    let command =
        ClientEvent::Join { username: "alice".to_string() }.generate_lobby_command(tx, 3);

    match command {
        LobbyCommand::Join { username, user_id, user_handle } => {
            assert_eq!(username, "alice");
            assert_eq!(user_id, 3);
            user_handle.try_send(ServerEvent::Error).unwrap();
            assert!(matches!(rx.try_recv(), Ok(ServerEvent::Error)));
        }
        _ => panic!("not a join"),
    }
}

#[test]
fn start_game_event_becomes_a_start_game_command() {
    let (tx, _rx) = mpsc::channel(4);
    let command = ClientEvent::StartGame {}.generate_lobby_command(tx, 9);
    assert!(matches!(command, LobbyCommand::StartGame));
}

#[test]
fn an_event_is_forwarded_to_the_lobby() {
    let (tx, _rx) = mpsc::channel(4);
    let action = client_message(
        ClientMessage::Event(ClientEvent::Join { username: "bob".to_string() }),
        tx,
        2,
    );
    match action {
        SessionAction::Forward { command: LobbyCommand::Join { username, user_id, .. } } => {
            assert_eq!(username, "bob");
            assert_eq!(user_id, 2);
        }
        _ => panic!("not forwarded as a join"),
    }

    let (tx, _rx) = mpsc::channel(4);
    let action = client_message(ClientMessage::Event(ClientEvent::StartGame {}), tx, 2);
    assert!(matches!(action, SessionAction::Forward { command: LobbyCommand::StartGame }));
}

#[test]
fn a_malformed_message_is_answered_with_an_error_to_the_client_alone() {
    let (tx, mut rx) = mpsc::channel(4);
    let action = client_message(ClientMessage::Malformed, tx, 2);
    match action {
        SessionAction::Reply { handle, event } => {
            assert!(matches!(event, ServerEvent::Error));
            handle.try_send(event).unwrap();
            assert!(matches!(rx.try_recv(), Ok(ServerEvent::Error)));
        }
        _ => panic!("not answered"),
    }
}

#[test]
fn data_that_is_not_text_is_answered_with_an_error_to_the_client_alone() {
    let (tx, mut rx) = mpsc::channel(4);
    let action = client_message(ClientMessage::NotText, tx, 2);
    match action {
        SessionAction::Reply { handle, event } => {
            assert!(matches!(event, ServerEvent::Error));
            assert!(rx.try_recv().is_err());
            handle.try_send(event).unwrap();
            assert!(matches!(rx.try_recv(), Ok(ServerEvent::Error)));
            assert!(rx.try_recv().is_err());
        }
        _ => panic!("not answered"),
    }
}

#[test]
fn a_frame_of_the_transport_is_passed_over() {
    let (tx, mut rx) = mpsc::channel(4);
    let action = client_message(ClientMessage::Control, tx, 2);
    assert!(matches!(action, SessionAction::Ignore));
    assert!(rx.try_recv().is_err());
}

#[test]
fn a_closed_connection_is_reported_as_a_disconnect_of_its_id() {
    match user_disconnect(12) {
        LobbyCommand::Disconnect { user_id } => assert_eq!(user_id, 12),
        _ => panic!("not a disconnect"),
    }
}
