use stay_away_backend::events::server::{clone_users, ServerEvent, User};

fn two_users() -> Vec<User> {
    vec![
        User { username: "alice".to_string(), id: 1 },
        User { username: "bob".to_string(), id: 2 },
    ]
}

fn names(users: &[User]) -> Vec<(usize, String)> {
    users.iter().map(|u| (u.id, u.username.clone())).collect()
}

#[test]
fn clone_of_a_user_has_its_name_and_id() {
    let user = User { username: "alice".to_string(), id: 17 };
    let copy = user.clone();
    assert_eq!(copy.username, "alice");
    assert_eq!(copy.id, 17);
    assert_eq!(user.username, "alice");
}

#[test]
fn clone_of_a_list_keeps_entries_and_order() {
    let users = two_users();
    let copy = clone_users(&users);
    assert_eq!(names(&copy), vec![(1, "alice".to_string()), (2, "bob".to_string())]);
    assert!(clone_users(&Vec::new()).is_empty());
}

#[test]
fn clone_of_an_event_is_the_same_event() {
    match (ServerEvent::UsersUpdated { users: two_users() }).clone() {
        ServerEvent::UsersUpdated { users } => {
            assert_eq!(names(&users), vec![(1, "alice".to_string()), (2, "bob".to_string())]);
        }
        _ => panic!("not an update"),
    }
    match (ServerEvent::Welcome { users: two_users(), id: 2 }).clone() {
        ServerEvent::Welcome { users, id } => {
            assert_eq!(id, 2);
            assert_eq!(names(&users), vec![(1, "alice".to_string()), (2, "bob".to_string())]);
        }
        _ => panic!("not a welcome"),
    }
    assert!(matches!(ServerEvent::StartGame.clone(), ServerEvent::StartGame));
    assert!(matches!(ServerEvent::Error.clone(), ServerEvent::Error));
}
