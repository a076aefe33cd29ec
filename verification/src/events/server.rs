//! Events that the server sends to connected clients.

use vstd::prelude::*;

verus! {

/// One entry of a membership list, as a client sees it.
#[derive(Debug)]
pub struct User {
    pub username: String,
    pub id: usize,
}

/// The mathematical value of a [`User`].
pub struct UserView {
    pub username: Seq<char>,
    pub id: usize,
}

impl View for User {
    type V = UserView;

    open spec fn view(&self) -> UserView {
        UserView { username: self.username@, id: self.id }
    }
}

impl Clone for User {
    fn clone(&self) -> (copy: User)
        ensures
            copy@ == self@,
    {
        User { username: self.username.clone(), id: self.id }
    }
}

/// The values of a list of users, entry by entry.
pub open spec fn user_views(users: Seq<User>) -> Seq<UserView> {
    users.map_values(|u: User| u@)
}

/// A copy of a membership list with the same entries in the same order.
pub fn clone_users(users: &Vec<User>) -> (copy: Vec<User>)
    ensures
        user_views(copy@) == user_views(users@),
{
    let mut copy: Vec<User> = Vec::new();
    let mut i: usize = 0;
    while i < users.len()
        invariant
            i <= users.len(),
            copy.len() == i,
            forall|j: int| 0 <= j < i ==> copy[j]@ == users[j]@,
        decreases users.len() - i,
    {
        copy.push(users[i].clone());
        i += 1;
    }
    assert(user_views(copy@) =~= user_views(users@));
    copy
}

/// An event that the server sends to a client.
#[derive(Debug)]
pub enum ServerEvent {
    /// The membership of the lobby has changed; `users` is the membership now.
    UsersUpdated { users: Vec<User> },
    /// Greets a client that has joined: the id it was given, and who is in
    /// the lobby.
    Welcome { users: Vec<User>, id: usize },
    /// The game begins.
    StartGame,
    /// The server could not make sense of what the client sent.
    Error,
}

/// The mathematical value of a [`ServerEvent`].
pub enum ServerEventView {
    UsersUpdated { users: Seq<UserView> },
    Welcome { users: Seq<UserView>, id: usize },
    StartGame,
    Error,
}

impl View for ServerEvent {
    type V = ServerEventView;

    open spec fn view(&self) -> ServerEventView {
        match *self {
            ServerEvent::UsersUpdated { users } => ServerEventView::UsersUpdated {
                users: user_views(users@),
            },
            ServerEvent::Welcome { users, id } => ServerEventView::Welcome {
                users: user_views(users@),
                id,
            },
            ServerEvent::StartGame => ServerEventView::StartGame,
            ServerEvent::Error => ServerEventView::Error,
        }
    }
}

impl Clone for ServerEvent {
    fn clone(&self) -> (copy: ServerEvent)
        ensures
            copy@ == self@,
    {
        match self {
            ServerEvent::UsersUpdated { users } => ServerEvent::UsersUpdated {
                users: clone_users(users),
            },
            ServerEvent::Welcome { users, id } => ServerEvent::Welcome {
                users: clone_users(users),
                id: *id,
            },
            ServerEvent::StartGame => ServerEvent::StartGame,
            ServerEvent::Error => ServerEvent::Error,
        }
    }
}

} // verus!
