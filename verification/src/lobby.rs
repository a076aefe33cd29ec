//! The lobby: the single owner of one game session's membership.

pub mod laws;

use crate::channel::{reply, try_send};
use crate::events::server::{user_views, ServerEvent, ServerEventView, User, UserView};
use std::collections::HashMap;
use tokio::sync::mpsc::Sender;
use vstd::prelude::*;
use vstd::std_specs::iter::IteratorSpec;

verus! {

/// Identifies a user within one lobby.
pub type UserId = usize;

/// Where a lobby hands the events meant for one user.
pub type UserHandle = Sender<ServerEvent>;

/// The fewest players a game can start with.
pub const MIN_PLAYERS: usize = 4;

/// The most players a game can start with.
pub const MAX_PLAYERS: usize = 12;

/// What a lobby can be asked to do. Commands reach it one at a time.
#[derive(Debug)]
pub enum LobbyCommand {
    /// A user joins under an id that the lobby gave out.
    Join { username: String, user_id: UserId, user_handle: UserHandle },
    /// A new connection asks for its user id.
    AssignId { id_channel: tokio::sync::oneshot::Sender<UserId> },
    /// A user's connection is gone.
    Disconnect { user_id: UserId },
    /// Somebody asks for the game to start.
    StartGame,
}

/// One participant, as the lobby keeps it.
struct Member {
    username: String,
    handle: UserHandle,
}

/// The mathematical value of a member: its name and where its events go.
pub struct MemberView {
    pub username: Seq<char>,
    pub handle: UserHandle,
}

/// The mathematical value of a [`Lobby`].
pub struct LobbyView {
    /// The identifier the lobby was created with.
    pub id: Seq<char>,
    /// Who is in the lobby, by user id.
    pub members: Map<UserId, MemberView>,
    /// The id that the next request for one will be answered with.
    pub next_user_id: UserId,
}

/// One event on its way to one user.
#[derive(Debug)]
pub struct Delivery {
    pub recipient: UserId,
    pub event: ServerEvent,
}

/// The mathematical value of a [`Delivery`].
pub struct DeliveryView {
    pub recipient: UserId,
    pub event: ServerEventView,
}

impl View for Delivery {
    type V = DeliveryView;

    open spec fn view(&self) -> DeliveryView {
        DeliveryView { recipient: self.recipient, event: self.event@ }
    }
}

/// The values of a list of deliveries, entry by entry.
pub open spec fn delivery_views(deliveries: Seq<Delivery>) -> Seq<DeliveryView> {
    deliveries.map_values(|d: Delivery| d@)
}

/// The answer to a request for a user id, on its way to whoever asked.
#[derive(Debug)]
pub struct Answer {
    pub id_channel: tokio::sync::oneshot::Sender<UserId>,
    pub id: UserId,
}

/// What a lobby sends in reaction to one command.
#[derive(Debug)]
pub struct Reaction {
    /// The answer to the one who sent the command, if it gets one.
    pub answer: Option<Answer>,
    /// The events for the members, in the order in which they are to be
    /// handed over.
    pub deliveries: Vec<Delivery>,
}

/// Whom a list of deliveries is addressed to, entry by entry.
pub open spec fn recipients(deliveries: Seq<Delivery>) -> Seq<UserId> {
    deliveries.map_values(|d: Delivery| d.recipient)
}

/// The recipients of a list of deliveries are those of its value.
pub proof fn lemma_recipients_of_views(deliveries: Seq<Delivery>)
    ensures
        recipients(deliveries).len() == deliveries.len(),
        forall|j: int|
            0 <= j < deliveries.len() ==> #[trigger] recipients(deliveries)[j] == delivery_views(
                deliveries,
            )[j].recipient,
{
}

impl LobbyView {
    /// What every lobby is: its members can be counted.
    pub open spec fn valid(self) -> bool {
        self.members.dom().finite()
    }

    /// A lobby that nobody has joined and that has given out no id.
    pub open spec fn fresh(id: Seq<char>) -> LobbyView {
        LobbyView { id, members: Map::empty(), next_user_id: 1 }
    }

    /// Whether an id is left to give out.
    pub open spec fn can_assign(self) -> bool {
        self.next_user_id < usize::MAX
    }

    /// The answer to a request for an id.
    pub open spec fn assigned(self) -> Option<UserId> {
        if self.can_assign() {
            Some(self.next_user_id)
        } else {
            None
        }
    }

    /// The lobby after a request for an id.
    pub open spec fn assign_id(self) -> LobbyView {
        if self.can_assign() {
            LobbyView { next_user_id: (self.next_user_id + 1) as usize, ..self }
        } else {
            self
        }
    }

    /// The lobby after `user_id` has joined as `username`, to be reached
    /// through `handle`. Whoever held that id before is replaced.
    pub open spec fn join(self, username: Seq<char>, user_id: UserId, handle: UserHandle) -> LobbyView {
        LobbyView { members: self.members.insert(user_id, MemberView { username, handle }), ..self }
    }

    /// The lobby after `user_id` has left. Nothing changes if it was not in.
    pub open spec fn disconnect(self, user_id: UserId) -> LobbyView {
        LobbyView { members: self.members.remove(user_id), ..self }
    }

    /// Whether the lobby holds the right number of players for a game.
    pub open spec fn can_start(self) -> bool {
        MIN_PLAYERS <= self.members.len() <= MAX_PLAYERS
    }

    /// The lobby after `command`.
    pub open spec fn after(self, command: LobbyCommand) -> LobbyView {
        match command {
            LobbyCommand::Join { username, user_id, user_handle } => self.join(
                username@,
                user_id,
                user_handle,
            ),
            LobbyCommand::AssignId { .. } => self.assign_id(),
            LobbyCommand::Disconnect { user_id } => self.disconnect(user_id),
            LobbyCommand::StartGame => self,
        }
    }

    /// `answer` is what the sender of `command` is answered in this lobby:
    /// a request for an id gets the next id on the channel it came with, as
    /// long as there is an id left, and nothing else gets an answer.
    pub open spec fn answers(self, command: LobbyCommand, answer: Option<Answer>) -> bool {
        match command {
            LobbyCommand::AssignId { id_channel } => match self.assigned() {
                Some(id) => answer == Some(Answer { id_channel, id }),
                None => answer is None,
            },
            _ => answer is None,
        }
    }

    /// `deliveries` is what handling `command` in this lobby sends to the
    /// members: a join is followed by a welcome and an announcement of the
    /// new membership, a disconnect by an announcement of what remains, a
    /// request to start by one broadcast if the game can start. Nothing else
    /// is sent.
    pub open spec fn emits(self, command: LobbyCommand, deliveries: Seq<DeliveryView>) -> bool {
        match command {
            LobbyCommand::Join { user_id, .. } => self.after(command).welcomes(deliveries, user_id),
            LobbyCommand::AssignId { .. } => deliveries.len() == 0,
            LobbyCommand::Disconnect { .. } => self.after(command).announces(deliveries),
            LobbyCommand::StartGame => if self.can_start() {
                self.broadcasts(deliveries, ServerEventView::StartGame)
            } else {
                deliveries.len() == 0
            },
        }
    }

    /// Whether handling `command` in this lobby sends an event to `id`.
    pub open spec fn addresses(self, command: LobbyCommand, id: UserId) -> bool {
        match command {
            LobbyCommand::Join { .. } => self.after(command).members.contains_key(id),
            LobbyCommand::AssignId { .. } => false,
            LobbyCommand::Disconnect { .. } => self.after(command).members.contains_key(id),
            LobbyCommand::StartGame => self.can_start() && self.members.contains_key(id),
        }
    }

    /// `deliveries` is one broadcast of `event` in this lobby: every member
    /// is handed `event` once, and nobody else is handed anything. The order
    /// in which the members are served is left open.
    pub open spec fn broadcasts(self, deliveries: Seq<DeliveryView>, event: ServerEventView) -> bool {
        &&& deliveries.len() == self.members.len()
        &&& forall|i: int|
            0 <= i < deliveries.len() ==> self.members.contains_key(
                (#[trigger] deliveries[i]).recipient,
            ) && deliveries[i].event == event
        &&& forall|i: int, j: int|
            0 <= i < j < deliveries.len() ==> (#[trigger] deliveries[i]).recipient
                != (#[trigger] deliveries[j]).recipient
        &&& forall|id: UserId| #[trigger]
            self.members.contains_key(id) ==> exists|i: int|
                0 <= i < deliveries.len() && (#[trigger] deliveries[i]).recipient == id
    }

    /// `users` is a membership list of this lobby: every member stands in it
    /// once, under its id and its name, and nobody else does. The order of
    /// the entries is left open.
    pub open spec fn lists(self, users: Seq<UserView>) -> bool {
        &&& users.len() == self.members.len()
        &&& forall|i: int|
            0 <= i < users.len() ==> self.members.contains_key((#[trigger] users[i]).id)
                && users[i].username == self.members[users[i].id].username
        &&& forall|i: int, j: int|
            0 <= i < j < users.len() ==> (#[trigger] users[i]).id != (#[trigger] users[j]).id
        &&& forall|id: UserId| #[trigger]
            self.members.contains_key(id) ==> exists|i: int|
                0 <= i < users.len() && (#[trigger] users[i]).id == id
    }

    /// `deliveries` is one announcement of this lobby's membership: one
    /// broadcast of an update that carries a membership list of the lobby.
    pub open spec fn announces(self, deliveries: Seq<DeliveryView>) -> bool {
        exists|users: Seq<UserView>| #[trigger]
            self.lists(users) && self.broadcasts(
                deliveries,
                ServerEventView::UsersUpdated { users },
            )
    }

    /// `deliveries` is what follows the arrival of `user_id` in this lobby:
    /// first a welcome to the newcomer alone, which carries its id and a
    /// membership list, then one announcement of the membership.
    pub open spec fn welcomes(self, deliveries: Seq<DeliveryView>, user_id: UserId) -> bool {
        &&& deliveries.len() > 0
        &&& deliveries[0].recipient == user_id
        &&& deliveries[0].event matches ServerEventView::Welcome { users, id }
        &&& id == user_id
        &&& self.lists(users)
        &&& self.announces(deliveries.skip(1))
    }

    /// An announcement is addressed to members only.
    pub proof fn lemma_announces_members_only(self, deliveries: Seq<DeliveryView>)
        requires
            self.announces(deliveries),
        ensures
            forall|j: int|
                0 <= j < deliveries.len() ==> self.members.contains_key(
                    (#[trigger] deliveries[j]).recipient,
                ),
    {
        let users = choose|users: Seq<UserView>| #[trigger]
            self.lists(users) && self.broadcasts(
                deliveries,
                ServerEventView::UsersUpdated { users },
            );
        assert(self.broadcasts(deliveries, ServerEventView::UsersUpdated { users }));
    }

    /// What follows an arrival is addressed to members only, once the
    /// newcomer is one.
    pub proof fn lemma_welcomes_members_only(self, deliveries: Seq<DeliveryView>, user_id: UserId)
        requires
            self.welcomes(deliveries, user_id),
            self.members.contains_key(user_id),
        ensures
            forall|j: int|
                0 <= j < deliveries.len() ==> self.members.contains_key(
                    (#[trigger] deliveries[j]).recipient,
                ),
    {
        let rest = deliveries.skip(1);
        self.lemma_announces_members_only(rest);
        assert forall|j: int| 0 <= j < deliveries.len() implies self.members.contains_key(
            (#[trigger] deliveries[j]).recipient,
        ) by {
            if j > 0 {
                assert(deliveries[j] == rest[j - 1]);
            }
        }
    }

    /// What a command sends goes to those that the command addresses.
    pub proof fn lemma_emits_to_addressed(self, command: LobbyCommand, deliveries: Seq<DeliveryView>)
        requires
            self.emits(command, deliveries),
        ensures
            forall|j: int|
                0 <= j < deliveries.len() ==> self.addresses(
                    command,
                    (#[trigger] deliveries[j]).recipient,
                ),
    {
        match command {
            LobbyCommand::Join { user_id, .. } => {
                self.after(command).lemma_welcomes_members_only(deliveries, user_id);
            },
            LobbyCommand::AssignId { .. } => {},
            LobbyCommand::Disconnect { .. } => {
                self.after(command).lemma_announces_members_only(deliveries);
            },
            LobbyCommand::StartGame => {},
        }
    }
}

/// A walk through the members meets each of them exactly once: every entry
/// it yields is a member under its id, no id comes twice, and no member is
/// left out.
proof fn lemma_walk_meets_each_once<'a>(
    users: &'a HashMap<UserId, Member>,
    seen: Seq<(&'a UserId, &'a Member)>,
)
    requires
        seen == users.iter().remaining(),
        seen.no_duplicates(),
    ensures
        seen.len() == users@.len(),
        forall|i: int|
            0 <= i < seen.len() ==> users@.contains_key(*(#[trigger] seen[i]).0)
                && users@[*seen[i].0] == *seen[i].1,
        forall|i: int, j: int|
            0 <= i < j < seen.len() ==> *(#[trigger] seen[i]).0 != *(#[trigger] seen[j]).0,
        forall|id: UserId| #[trigger]
            users@.contains_key(id) ==> exists|i: int|
                0 <= i < seen.len() && *(#[trigger] seen[i]).0 == id,
{
    assert forall|i: int, j: int| 0 <= i < j < seen.len() implies *(#[trigger] seen[i]).0 != *(
    #[trigger] seen[j]).0 by {
        assert(users@.contains_key(*seen[i].0));
        assert(users@.contains_key(*seen[j].0));
        if *seen[i].0 == *seen[j].0 {
            assert(seen[i] == seen[j]);
        }
    }
    assert forall|id: UserId| #[trigger] users@.contains_key(id) implies exists|i: int|
        0 <= i < seen.len() && *(#[trigger] seen[i]).0 == id by {
        let entry = (&id, &users@[id]);
        assert(seen.contains(entry));
        let i = choose|i: int| 0 <= i < seen.len() && seen[i] == entry;
        assert(*seen[i].0 == id);
    }
}

/// A single game session.
pub struct Lobby {
    id: String,
    /// Everyone currently in the lobby.
    users: HashMap<UserId, Member>,
    next_user_id: UserId,
}

impl View for Lobby {
    type V = LobbyView;

    closed spec fn view(&self) -> LobbyView {
        LobbyView {
            id: self.id@,
            members: self.users@.map_values(
                |m: Member| MemberView { username: m.username@, handle: m.handle },
            ),
            next_user_id: self.next_user_id,
        }
    }
}

impl Lobby {
    /// Creates an empty lobby.
    pub fn new(id: String) -> (lobby: Lobby)
        ensures
            lobby@ == LobbyView::fresh(id@),
    {
        let lobby = Lobby { id, users: HashMap::new(), next_user_id: 1 };
        assert(lobby@.members =~= Map::empty());
        lobby
    }

    /// The members of a lobby can be counted.
    pub proof fn lemma_view_valid(&self)
        ensures
            self@.valid(),
    {
        assert(self@.members.dom() =~= self.users@.dom());
    }

    /// The identifier the lobby was created with.
    pub fn id(&self) -> (id: &str)
        ensures
            id@ == self@.id,
    {
        self.id.as_str()
    }

    /// How many members the lobby has.
    pub fn len(&self) -> (len: usize)
        ensures
            len == self@.members.len(),
            self@.valid(),
    {
        assert(self@.members.dom() =~= self.users@.dom());
        self.users.len()
    }

    /// Whether `user_id` is a member.
    pub fn contains(&self, user_id: UserId) -> (is_member: bool)
        ensures
            is_member == self@.members.contains_key(user_id),
    {
        self.users.contains_key(&user_id)
    }

    /// The membership list that events carry: one entry for each member.
    pub fn roster(&self) -> (users: Vec<User>)
        ensures
            self@.lists(user_views(users@)),
    {
        let mut users: Vec<User> = Vec::new();
        for entry in it: self.users.iter()
            invariant
                it.seq() == self.users.iter().remaining(),
                it.seq().no_duplicates(),
                users.len() == it.index(),
                forall|i: int|
                    0 <= i < users.len() ==> (#[trigger] users[i]).id == *it.seq()[i].0
                        && users[i].username@ == it.seq()[i].1.username@,
        {
            let (id, member) = entry;
            users.push(User { username: member.username.clone(), id: *id });
        }
        proof {
            let seen = self.users.iter().remaining();
            let listed = user_views(users@);
            lemma_walk_meets_each_once(&self.users, seen);
            assert(self@.members.dom() =~= self.users@.dom());
            assert forall|id: UserId| #[trigger] self@.members.contains_key(id) implies exists|
                i: int,
            |
                0 <= i < listed.len() && (#[trigger] listed[i]).id == id by {
                let i = choose|i: int| 0 <= i < seen.len() && *(#[trigger] seen[i]).0 == id;
                assert(listed[i].id == id);
            }
        }
        users
    }

    /// Addresses a copy of `event` to every member.
    pub fn broadcast(&self, event: &ServerEvent) -> (deliveries: Vec<Delivery>)
        ensures
            self@.broadcasts(delivery_views(deliveries@), event@),
    {
        let mut deliveries: Vec<Delivery> = Vec::new();
        for entry in it: self.users.iter()
            invariant
                it.seq() == self.users.iter().remaining(),
                it.seq().no_duplicates(),
                deliveries.len() == it.index(),
                forall|i: int|
                    0 <= i < deliveries.len() ==> (#[trigger] deliveries[i]).recipient
                        == *it.seq()[i].0 && deliveries[i].event@ == event@,
        {
            let (id, _member) = entry;
            deliveries.push(Delivery { recipient: *id, event: event.clone() });
        }
        proof {
            let seen = self.users.iter().remaining();
            let sent = delivery_views(deliveries@);
            lemma_walk_meets_each_once(&self.users, seen);
            assert(self@.members.dom() =~= self.users@.dom());
            assert forall|id: UserId| #[trigger] self@.members.contains_key(id) implies exists|
                i: int,
            |
                0 <= i < sent.len() && (#[trigger] sent[i]).recipient == id by {
                let i = choose|i: int| 0 <= i < seen.len() && *(#[trigger] seen[i]).0 == id;
                assert(sent[i].recipient == id);
            }
        }
        deliveries
    }

    /// Addresses the current membership list to every member.
    pub fn notify_user_list_update(&self) -> (deliveries: Vec<Delivery>)
        ensures
            self@.announces(delivery_views(deliveries@)),
    {
        let update_event = ServerEvent::UsersUpdated { users: self.roster() };
        let deliveries = self.broadcast(&update_event);
        proof {
            let users = update_event@->UsersUpdated_users;
            assert(self@.lists(users) && self@.broadcasts(
                delivery_views(deliveries@),
                ServerEventView::UsersUpdated { users },
            ));
        }
        deliveries
    }

    /// Takes `user_id` into the lobby under `username`. The newcomer is
    /// welcomed first, with its id and the membership it is now part of; then
    /// every member, the newcomer too, is told the new membership.
    pub fn join(&mut self, username: String, user_id: UserId, user_handle: UserHandle) -> (deliveries:
        Vec<Delivery>)
        ensures
            final(self)@ == old(self)@.join(username@, user_id, user_handle),
            final(self)@.welcomes(delivery_views(deliveries@), user_id),
    {
        self.users.insert(user_id, Member { username, handle: user_handle });
        assert(self@.members =~= old(self)@.join(username@, user_id, user_handle).members);
        let welcome = Delivery {
            recipient: user_id,
            event: ServerEvent::Welcome { users: self.roster(), id: user_id },
        };
        let mut deliveries: Vec<Delivery> = Vec::new();
        deliveries.push(welcome);
        let mut updates = self.notify_user_list_update();
        let ghost announced = delivery_views(updates@);
        deliveries.append(&mut updates);
        assert(delivery_views(deliveries@).skip(1) =~= announced);
        deliveries
    }

    /// Takes `user_id` out of the lobby, if it is in, and tells everyone who
    /// remains the membership.
    pub fn disconnect(&mut self, user_id: UserId) -> (deliveries: Vec<Delivery>)
        ensures
            final(self)@ == old(self)@.disconnect(user_id),
            final(self)@.announces(delivery_views(deliveries@)),
    {
        self.users.remove(&user_id);
        assert(self@.members =~= old(self)@.disconnect(user_id).members);
        self.notify_user_list_update()
    }

    /// Announces the start of the game to every member if the lobby holds
    /// between [`MIN_PLAYERS`] and [`MAX_PLAYERS`] of them, and says nothing
    /// to anyone otherwise.
    pub fn start_game(&self) -> (deliveries: Vec<Delivery>)
        ensures
            self@.can_start() ==> self@.broadcasts(
                delivery_views(deliveries@),
                ServerEventView::StartGame,
            ),
            !self@.can_start() ==> deliveries@.len() == 0,
            deliveries@.len() > 0 <==> self@.can_start(),
    {
        assert(self@.members.dom() =~= self.users@.dom());
        let num_users = self.users.len();
        if num_users >= MIN_PLAYERS && num_users <= MAX_PLAYERS {
            self.broadcast(&ServerEvent::StartGame)
        } else {
            Vec::new()
        }
    }

    /// Hands each event to the queue of the member it is addressed to, in
    /// order, and returns the recipients that could not be served: those
    /// that are not in the lobby, and those whose queue did not take the
    /// event. One failure does not keep the rest from being served.
    pub fn deliver(&self, deliveries: Vec<Delivery>) -> (undelivered: Vec<UserId>)
        ensures
            undelivered.len() <= deliveries.len(),
            forall|i: int|
                0 <= i < undelivered.len() ==> recipients(deliveries@).contains(
                    #[trigger] undelivered[i],
                ),
            forall|j: int|
                0 <= j < deliveries.len() && !self@.members.contains_key(
                    #[trigger] recipients(deliveries@)[j],
                ) ==> undelivered@.contains(recipients(deliveries@)[j]),
    {
        assert(self@.members.dom() =~= self.users@.dom());
        let ghost addressed = recipients(deliveries@);
        let mut undelivered: Vec<UserId> = Vec::new();
        for delivery in it: deliveries.into_iter()
            invariant
                it.seq() == deliveries@,
                addressed == recipients(deliveries@),
                undelivered.len() <= it.index(),
                forall|i: int|
                    0 <= i < undelivered.len() ==> addressed.contains(#[trigger] undelivered[i]),
                forall|j: int|
                    0 <= j < it.index() && !self.users@.contains_key(#[trigger] addressed[j])
                        ==> undelivered@.contains(addressed[j]),
        {
            let ghost before = undelivered@;
            assert(addressed[it.index()] == delivery.recipient);
            let accepted = match self.users.get(&delivery.recipient) {
                Some(member) => try_send(&member.handle, delivery.event),
                None => false,
            };
            if !accepted {
                undelivered.push(delivery.recipient);
                assert(undelivered@.last() == delivery.recipient);
            }
            assert forall|j: int|
                0 <= j < it.index() + 1 && !self.users@.contains_key(
                    #[trigger] addressed[j],
                ) implies undelivered@.contains(addressed[j]) by {
                if j < it.index() {
                    let i = choose|i: int| 0 <= i < before.len() && before[i] == addressed[j];
                    assert(undelivered@[i] == addressed[j]);
                }
            }
        }
        undelivered
    }

    /// Decides what one command does: changes the lobby as the command asks
    /// and returns what is to be sent, without sending it.
    pub fn react(&mut self, command: LobbyCommand) -> (reaction: Reaction)
        ensures
            final(self)@ == old(self)@.after(command),
            old(self)@.answers(command, reaction.answer),
            old(self)@.emits(command, delivery_views(reaction.deliveries@)),
    {
        match command {
            LobbyCommand::Join { username, user_id, user_handle } => {
                let deliveries = self.join(username, user_id, user_handle);
                Reaction { answer: None, deliveries }
            },
            LobbyCommand::AssignId { id_channel } => {
                let answer = match self.generate_user_id() {
                    Some(id) => Some(Answer { id_channel, id }),
                    None => None,
                };
                Reaction { answer, deliveries: Vec::new() }
            },
            LobbyCommand::Disconnect { user_id } => {
                let deliveries = self.disconnect(user_id);
                Reaction { answer: None, deliveries }
            },
            LobbyCommand::StartGame => {
                let deliveries = self.start_game();
                Reaction { answer: None, deliveries }
            },
        }
    }

    /// Handles one command: changes the lobby as the command asks, answers a
    /// request for an id if one is left to give, and hands the events that
    /// the command calls for to the members' queues. Returns the ids of the
    /// members that an event could not be handed to.
    pub fn manage(&mut self, command: LobbyCommand) -> (undelivered: Vec<UserId>)
        ensures
            final(self)@ == old(self)@.after(command),
            forall|i: int|
                0 <= i < undelivered.len() ==> old(self)@.addresses(
                    command,
                    #[trigger] undelivered[i],
                ),
    {
        let reaction = self.react(command);
        if let Some(answer) = reaction.answer {
            reply(answer.id_channel, answer.id);
        }
        proof {
            old(self)@.lemma_emits_to_addressed(command, delivery_views(reaction.deliveries@));
            lemma_recipients_of_views(reaction.deliveries@);
        }
        self.deliver(reaction.deliveries)
    }

    /// Takes the next user id and advances the counter. Ids count up from 1
    /// and none is given twice; once the counter has reached the largest
    /// `usize` there is none left to give.
    pub fn generate_user_id(&mut self) -> (id: Option<UserId>)
        ensures
            id == old(self)@.assigned(),
            final(self)@ == old(self)@.assign_id(),
    {
        if self.next_user_id < usize::MAX {
            let next_id = self.next_user_id;
            self.next_user_id += 1;
            Some(next_id)
        } else {
            None
        }
    }
}

} // verus!
