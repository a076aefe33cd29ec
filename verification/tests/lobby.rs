use stay_away_backend::events::server::{ServerEvent, User};
use stay_away_backend::lobby::{Delivery, Lobby, LobbyCommand, MAX_PLAYERS, MIN_PLAYERS};
use tokio::sync::mpsc;
use tokio::sync::oneshot;

fn start_lobby() -> Lobby {
    Lobby::new("aaaaaa".to_string())
}

fn get_id(lobby: &mut Lobby) -> usize {
    let (id_tx, mut id_rx) = oneshot::channel();
    lobby.manage(LobbyCommand::AssignId { id_channel: id_tx });
    id_rx.try_recv().unwrap()
}

fn join_lobby(lobby: &mut Lobby, username: String) -> (usize, mpsc::Receiver<ServerEvent>) {
    let id = get_id(lobby);
    let (tx, rx) = mpsc::channel(32);
    lobby.manage(LobbyCommand::Join { username, user_id: id, user_handle: tx });

    (id, rx)
}

fn fill_lobby(lobby: &mut Lobby, members: usize) -> Vec<(usize, mpsc::Receiver<ServerEvent>)> {
    let mut joined = Vec::new();
    for n in 0..members {
        joined.push(join_lobby(lobby, format!("user{}", n + 1)));
    }
    joined
}

fn drain(rx: &mut mpsc::Receiver<ServerEvent>) -> Vec<ServerEvent> {
    let mut events = Vec::new();
    while let Ok(event) = rx.try_recv() {
        events.push(event);
    }
    events
}

fn sorted_names(users: &[User]) -> Vec<(usize, String)> {
    let mut names: Vec<(usize, String)> =
        users.iter().map(|u| (u.id, u.username.clone())).collect();
    names.sort();
    names
}

fn sorted_recipients(deliveries: &[Delivery]) -> Vec<usize> {
    let mut ids: Vec<usize> = deliveries.iter().map(|d| d.recipient).collect();
    ids.sort();
    ids
}

#[test]
fn lobby_assigns_consecutive_ids() {
    let mut lobby = start_lobby();

    let id1 = get_id(&mut lobby);
    let id2 = get_id(&mut lobby);

    assert!(id1 < id2);
    assert!(id2 - id1 == 1);
}

#[test]
fn lobby_sends_welcome_message_to_joined_client() {
    let mut lobby = start_lobby();

    let my_id = get_id(&mut lobby);

    let (my_tx, mut my_rx) = mpsc::channel(32);

    lobby.manage(LobbyCommand::Join {
        username: "test".to_string(),
        user_id: my_id,
        user_handle: my_tx.clone(),
    });

    let received_message = my_rx.try_recv().unwrap();

    if let ServerEvent::Welcome { id: received_id, .. } = received_message {
        assert!(received_id == my_id);
    } else {
        assert!(false);
    }
}

#[test]
fn lobby_sends_user_updated_when_a_client_joins() {
    let mut lobby = start_lobby();

    let (id1, mut rx1) = join_lobby(&mut lobby, "user1".to_string());
    let (_id2, mut rx2) = join_lobby(&mut lobby, "user2".to_string());

    rx1.try_recv().unwrap(); // The welcome message
    rx2.try_recv().unwrap();

    let msg1 = rx1.try_recv().unwrap();
    if let ServerEvent::UsersUpdated { users } = msg1 {
        assert!(users.len() == 1);
        assert!(users[0].id == id1);
        assert!(users[0].username == "user1".to_string());
    } else {
        assert!(false);
    }

    let msg2 = rx1.try_recv().unwrap();
    if let ServerEvent::UsersUpdated { users } = msg2 {
        assert!(users.len() == 2);
    } else {
        assert!(false);
    }

    let msg3 = rx2.try_recv().unwrap();
    if let ServerEvent::UsersUpdated { users } = msg3 {
        assert!(users.len() == 2);
    } else {
        assert!(false);
    }
}

#[test]
fn first_id_is_one_and_ids_count_up() {
    let mut lobby = start_lobby();
    for expected in 1..=20usize {
        assert_eq!(lobby.generate_user_id(), Some(expected));
    }
}

#[test]
fn ids_count_up_across_other_commands() {
    let mut lobby = start_lobby();
    assert_eq!(get_id(&mut lobby), 1);
    let (tx, _rx) = mpsc::channel(32);
    lobby.manage(LobbyCommand::Join { username: "alice".to_string(), user_id: 1, user_handle: tx });
    assert_eq!(get_id(&mut lobby), 2);
    lobby.manage(LobbyCommand::StartGame);
    lobby.manage(LobbyCommand::Disconnect { user_id: 1 });
    assert_eq!(get_id(&mut lobby), 3);
    assert_eq!(get_id(&mut lobby), 4);
}

#[test]
fn an_id_is_not_given_again_after_its_user_left() {
    let mut lobby = start_lobby();
    let (id1, _rx1) = join_lobby(&mut lobby, "alice".to_string());
    lobby.manage(LobbyCommand::Disconnect { user_id: id1 });
    let (id2, _rx2) = join_lobby(&mut lobby, "bob".to_string());
    assert_eq!(id1, 1);
    assert_eq!(id2, 2);
}

#[test]
fn request_for_an_id_changes_nothing_else() {
    let mut lobby = start_lobby();
    let (_id, mut rx) = join_lobby(&mut lobby, "alice".to_string());
    drain(&mut rx);
    let (id_tx, mut id_rx) = oneshot::channel();
    let reaction = lobby.react(LobbyCommand::AssignId { id_channel: id_tx });
    assert!(reaction.deliveries.is_empty());
    let answer = reaction.answer.unwrap();
    assert_eq!(answer.id, 2);
    assert!(id_rx.try_recv().is_err());
    assert!(answer.id_channel.send(answer.id).is_ok());
    assert_eq!(id_rx.try_recv().unwrap(), 2);
    assert_eq!(lobby.len(), 1);
    assert!(drain(&mut rx).is_empty());
}

#[test]
fn request_for_an_id_from_a_vanished_connection_leaks_the_id() {
    let mut lobby = start_lobby();
    let (id_tx, id_rx) = oneshot::channel();
    drop(id_rx);
    let undelivered = lobby.manage(LobbyCommand::AssignId { id_channel: id_tx });
    assert!(undelivered.is_empty());
    assert_eq!(get_id(&mut lobby), 2);
}

#[test]
fn new_lobby_is_empty_and_keeps_its_id() {
    let lobby = start_lobby();
    assert_eq!(lobby.id(), "aaaaaa");
    assert_eq!(lobby.len(), 0);
    assert!(!lobby.contains(1));
    assert!(lobby.roster().is_empty());
}

#[test]
fn alice_and_bob_see_their_streams() {
    let mut lobby = start_lobby();

    assert_eq!(get_id(&mut lobby), 1);
    let (alice_tx, mut alice_rx) = mpsc::channel(32);
    lobby.manage(LobbyCommand::Join {
        username: "alice".to_string(),
        user_id: 1,
        user_handle: alice_tx,
    });
    assert_eq!(get_id(&mut lobby), 2);
    let (bob_tx, mut bob_rx) = mpsc::channel(32);
    lobby.manage(LobbyCommand::Join {
        username: "bob".to_string(),
        user_id: 2,
        user_handle: bob_tx,
    });

    let alice = drain(&mut alice_rx);
    assert_eq!(alice.len(), 3);
    match &alice[0] {
        ServerEvent::Welcome { id, users } => {
            assert_eq!(*id, 1);
            assert_eq!(sorted_names(users), vec![(1, "alice".to_string())]);
        }
        _ => panic!("alice's first event is not her welcome"),
    }
    match &alice[1] {
        ServerEvent::UsersUpdated { users } => {
            assert_eq!(sorted_names(users), vec![(1, "alice".to_string())]);
        }
        _ => panic!("alice's second event is not an update"),
    }
    match &alice[2] {
        ServerEvent::UsersUpdated { users } => {
            assert_eq!(
                sorted_names(users),
                vec![(1, "alice".to_string()), (2, "bob".to_string())]
            );
        }
        _ => panic!("alice's third event is not an update"),
    }

    let bob = drain(&mut bob_rx);
    assert_eq!(bob.len(), 2);
    match &bob[0] {
        ServerEvent::Welcome { id, users } => {
            assert_eq!(*id, 2);
            assert_eq!(
                sorted_names(users),
                vec![(1, "alice".to_string()), (2, "bob".to_string())]
            );
        }
        _ => panic!("bob's first event is not his welcome"),
    }
    match &bob[1] {
        ServerEvent::UsersUpdated { users } => {
            assert_eq!(
                sorted_names(users),
                vec![(1, "alice".to_string()), (2, "bob".to_string())]
            );
        }
        _ => panic!("bob's second event is not an update"),
    }
}

#[test]
fn three_members_cannot_start_the_game() {
    let mut lobby = start_lobby();
    let mut joined = fill_lobby(&mut lobby, 3);
    for (_, rx) in joined.iter_mut() {
        drain(rx);
    }

    let undelivered = lobby.manage(LobbyCommand::StartGame);

    assert!(undelivered.is_empty());
    for (_, rx) in joined.iter_mut() {
        assert!(drain(rx).is_empty());
    }
    assert!(lobby.start_game().is_empty());
}

#[test]
fn four_members_start_the_game() {
    let mut lobby = start_lobby();
    let mut joined = fill_lobby(&mut lobby, MIN_PLAYERS);
    for (_, rx) in joined.iter_mut() {
        drain(rx);
    }

    let undelivered = lobby.manage(LobbyCommand::StartGame);

    assert!(undelivered.is_empty());
    for (_, rx) in joined.iter_mut() {
        let events = drain(rx);
        assert_eq!(events.len(), 1);
        assert!(matches!(events[0], ServerEvent::StartGame));
    }
    assert_eq!(lobby.len(), 4);
}

#[test]
fn twelve_members_start_the_game_and_thirteen_do_not() {
    let mut lobby = start_lobby();
    let mut joined = fill_lobby(&mut lobby, MAX_PLAYERS);
    assert_eq!(MAX_PLAYERS, 12);
    assert_eq!(MIN_PLAYERS, 4);

    let started = lobby.start_game();
    assert_eq!(sorted_recipients(&started), (1..=12).collect::<Vec<usize>>());
    assert!(started.iter().all(|d| matches!(d.event, ServerEvent::StartGame)));

    joined.push(join_lobby(&mut lobby, "one too many".to_string()));
    for (_, rx) in joined.iter_mut() {
        drain(rx);
    }
    assert_eq!(lobby.len(), 13);
    assert!(lobby.start_game().is_empty());
    assert!(lobby.manage(LobbyCommand::StartGame).is_empty());
    for (_, rx) in joined.iter_mut() {
        assert!(drain(rx).is_empty());
    }
}

#[test]
fn empty_lobby_does_not_start_the_game() {
    let mut lobby = start_lobby();
    let reaction = lobby.react(LobbyCommand::StartGame);
    assert!(reaction.answer.is_none());
    assert!(reaction.deliveries.is_empty());
}

#[test]
fn start_game_changes_no_membership() {
    let mut lobby = start_lobby();
    let _joined = fill_lobby(&mut lobby, 5);
    lobby.manage(LobbyCommand::StartGame);
    assert_eq!(lobby.len(), 5);
    assert_eq!(get_id(&mut lobby), 6);
}

#[test]
fn join_then_disconnect_leaves_the_lobby_empty() {
    let mut lobby = start_lobby();
    let (tx, mut rx) = mpsc::channel(32);

    let after_join =
        lobby.join("alice".to_string(), 1, tx);
    assert_eq!(after_join.len(), 2);
    assert_eq!(lobby.len(), 1);
    let after_disconnect = lobby.disconnect(1);

    assert_eq!(lobby.len(), 0);
    assert!(!lobby.contains(1));
    assert!(after_disconnect.is_empty());
    assert!(drain(&mut rx).is_empty());
}

#[test]
fn disconnect_is_announced_once_to_those_who_remain() {
    let mut lobby = start_lobby();
    let (alice, mut alice_rx) = join_lobby(&mut lobby, "alice".to_string());
    let (bob, mut bob_rx) = join_lobby(&mut lobby, "bob".to_string());
    let (carol, mut carol_rx) = join_lobby(&mut lobby, "carol".to_string());
    drain(&mut alice_rx);
    drain(&mut bob_rx);
    drain(&mut carol_rx);

    let undelivered = lobby.manage(LobbyCommand::Disconnect { user_id: bob });

    assert!(undelivered.is_empty());
    assert!(drain(&mut bob_rx).is_empty());
    for rx in [&mut alice_rx, &mut carol_rx] {
        let events = drain(rx);
        assert_eq!(events.len(), 1);
        match &events[0] {
            ServerEvent::UsersUpdated { users } => {
                assert_eq!(
                    sorted_names(users),
                    vec![(alice, "alice".to_string()), (carol, "carol".to_string())]
                );
            }
            _ => panic!("not an update"),
        }
    }
    assert_eq!(lobby.len(), 2);
    assert!(lobby.contains(alice));
    assert!(!lobby.contains(bob));
    assert!(lobby.contains(carol));
}

#[test]
fn disconnect_of_an_unknown_id_removes_nobody() {
    let mut lobby = start_lobby();
    let (alice, mut alice_rx) = join_lobby(&mut lobby, "alice".to_string());
    drain(&mut alice_rx);

    let undelivered = lobby.manage(LobbyCommand::Disconnect { user_id: 99 });

    assert!(undelivered.is_empty());
    assert_eq!(lobby.len(), 1);
    assert!(lobby.contains(alice));
    let events = drain(&mut alice_rx);
    assert_eq!(events.len(), 1);
    match &events[0] {
        ServerEvent::UsersUpdated { users } => {
            assert_eq!(sorted_names(users), vec![(alice, "alice".to_string())]);
        }
        _ => panic!("not an update"),
    }

    lobby.manage(LobbyCommand::Disconnect { user_id: alice });
    lobby.manage(LobbyCommand::Disconnect { user_id: alice });
    assert_eq!(lobby.len(), 0);
}

#[test]
fn join_under_an_id_in_use_replaces_the_member() {
    let mut lobby = start_lobby();
    let (old_tx, mut old_rx) = mpsc::channel(32);
    let (new_tx, mut new_rx) = mpsc::channel(32);
    lobby.manage(LobbyCommand::Join { username: "old".to_string(), user_id: 7, user_handle: old_tx });
    drain(&mut old_rx);

    lobby.manage(LobbyCommand::Join { username: "new".to_string(), user_id: 7, user_handle: new_tx });

    assert_eq!(lobby.len(), 1);
    assert!(drain(&mut old_rx).is_empty());
    let events = drain(&mut new_rx);
    assert_eq!(events.len(), 2);
    match &events[1] {
        ServerEvent::UsersUpdated { users } => {
            assert_eq!(sorted_names(users), vec![(7, "new".to_string())]);
        }
        _ => panic!("not an update"),
    }
}

#[test]
fn join_welcomes_first_and_then_tells_everyone() {
    let mut lobby = start_lobby();
    let (alice_tx, _alice_rx) = mpsc::channel(32);
    let (bob_tx, _bob_rx) = mpsc::channel(32);
    lobby.join("alice".to_string(), 1, alice_tx);

    let deliveries = lobby.join("bob".to_string(), 2, bob_tx);

    assert_eq!(deliveries.len(), 3);
    assert_eq!(deliveries[0].recipient, 2);
    match &deliveries[0].event {
        ServerEvent::Welcome { id, users } => {
            assert_eq!(*id, 2);
            assert_eq!(
                sorted_names(users),
                vec![(1, "alice".to_string()), (2, "bob".to_string())]
            );
        }
        _ => panic!("the first delivery is not the welcome"),
    }
    assert_eq!(sorted_recipients(&deliveries[1..]), vec![1, 2]);
    for delivery in &deliveries[1..] {
        match &delivery.event {
            ServerEvent::UsersUpdated { users } => {
                assert_eq!(
                    sorted_names(users),
                    vec![(1, "alice".to_string()), (2, "bob".to_string())]
                );
            }
            _ => panic!("not an update"),
        }
    }
}

#[test]
fn react_to_join_sends_nothing_by_itself() {
    let mut lobby = start_lobby();
    let (tx, mut rx) = mpsc::channel(32);
    let reaction =
        lobby.react(LobbyCommand::Join { username: "alice".to_string(), user_id: 1, user_handle: tx });
    assert!(reaction.answer.is_none());
    assert_eq!(reaction.deliveries.len(), 2);
    assert!(drain(&mut rx).is_empty());

    let undelivered = lobby.deliver(reaction.deliveries);
    assert!(undelivered.is_empty());
    assert_eq!(drain(&mut rx).len(), 2);
}

#[test]
fn roster_lists_each_member_once() {
    let mut lobby = start_lobby();
    let _joined = fill_lobby(&mut lobby, 6);
    let roster = lobby.roster();
    assert_eq!(
        sorted_names(&roster),
        (1..=6usize).map(|n| (n, format!("user{}", n))).collect::<Vec<_>>()
    );
}

#[test]
fn broadcast_addresses_each_member_once() {
    let mut lobby = start_lobby();
    let _joined = fill_lobby(&mut lobby, 3);
    let deliveries = lobby.broadcast(&ServerEvent::Error);
    assert_eq!(sorted_recipients(&deliveries), vec![1, 2, 3]);
    assert!(deliveries.iter().all(|d| matches!(d.event, ServerEvent::Error)));
    assert!(start_lobby().broadcast(&ServerEvent::StartGame).is_empty());
}

#[test]
fn notify_user_list_update_carries_the_membership() {
    let mut lobby = start_lobby();
    let _joined = fill_lobby(&mut lobby, 2);
    let deliveries = lobby.notify_user_list_update();
    assert_eq!(sorted_recipients(&deliveries), vec![1, 2]);
    for delivery in &deliveries {
        match &delivery.event {
            ServerEvent::UsersUpdated { users } => {
                assert_eq!(
                    sorted_names(users),
                    vec![(1, "user1".to_string()), (2, "user2".to_string())]
                );
            }
            _ => panic!("not an update"),
        }
    }
}

#[test]
fn a_closed_connection_does_not_keep_others_from_being_served() {
    let mut lobby = start_lobby();
    let (alice, alice_rx) = join_lobby(&mut lobby, "alice".to_string());
    let (_bob, mut bob_rx) = join_lobby(&mut lobby, "bob".to_string());
    drain(&mut bob_rx);
    drop(alice_rx);

    let (_carol, mut carol_rx) = join_lobby(&mut lobby, "carol".to_string());

    assert_eq!(drain(&mut carol_rx).len(), 2);
    assert_eq!(drain(&mut bob_rx).len(), 1);

    let undelivered = lobby.manage(LobbyCommand::Disconnect { user_id: 99 });
    assert_eq!(undelivered, vec![alice]);
    assert_eq!(drain(&mut carol_rx).len(), 1);
    assert_eq!(drain(&mut bob_rx).len(), 1);
}

#[test]
fn a_full_queue_loses_the_event_and_is_reported() {
    let mut lobby = start_lobby();
    let (slow_tx, mut slow_rx) = mpsc::channel(1);
    let (quick_tx, mut quick_rx) = mpsc::channel(32);
    lobby.manage(LobbyCommand::Join { username: "quick".to_string(), user_id: 1, user_handle: quick_tx });

    let undelivered = lobby.manage(LobbyCommand::Join {
        username: "slow".to_string(),
        user_id: 2,
        user_handle: slow_tx,
    });

    assert_eq!(undelivered, vec![2]);
    let slow = drain(&mut slow_rx);
    assert_eq!(slow.len(), 1);
    assert!(matches!(slow[0], ServerEvent::Welcome { id: 2, .. }));
    assert_eq!(drain(&mut quick_rx).len(), 3);
}

#[test]
fn deliver_reports_a_recipient_that_is_no_member() {
    let mut lobby = start_lobby();
    let (_alice, mut alice_rx) = join_lobby(&mut lobby, "alice".to_string());
    drain(&mut alice_rx);

    let undelivered = lobby.deliver(vec![
        Delivery { recipient: 5, event: ServerEvent::Error },
        Delivery { recipient: 1, event: ServerEvent::StartGame },
        Delivery { recipient: 6, event: ServerEvent::Error },
    ]);

    assert_eq!(undelivered, vec![5, 6]);
    let events = drain(&mut alice_rx);
    assert_eq!(events.len(), 1);
    assert!(matches!(events[0], ServerEvent::StartGame));
}

#[test]
fn start_game_from_a_connection_that_has_not_joined_is_harmless() {
    let mut lobby = start_lobby();
    let _unjoined = get_id(&mut lobby);
    let mut joined = fill_lobby(&mut lobby, 3);
    for (_, rx) in joined.iter_mut() {
        drain(rx);
    }
    assert!(lobby.manage(LobbyCommand::StartGame).is_empty());
    for (_, rx) in joined.iter_mut() {
        assert!(drain(rx).is_empty());
    }
    assert_eq!(lobby.len(), 3);
}
