//! What holds of a lobby over a whole run of commands.

use crate::events::server::{ServerEventView, UserView};
use crate::lobby::{DeliveryView, LobbyCommand, LobbyView, UserHandle, UserId};
use vstd::prelude::*;

verus! {

/// How many of `commands` ask for a user id.
pub open spec fn requests(commands: Seq<LobbyCommand>) -> nat
    decreases commands.len(),
{
    if commands.len() == 0 {
        0
    } else if commands.last() is AssignId {
        requests(commands.drop_last()) + 1
    } else {
        requests(commands.drop_last())
    }
}

/// The events among `deliveries` that are addressed to `id`, in order.
pub open spec fn received(deliveries: Seq<DeliveryView>, id: UserId) -> Seq<ServerEventView>
    decreases deliveries.len(),
{
    if deliveries.len() == 0 {
        Seq::empty()
    } else if deliveries.last().recipient == id {
        received(deliveries.drop_last(), id).push(deliveries.last().event)
    } else {
        received(deliveries.drop_last(), id)
    }
}

/// The events that `id` gets over a run in which `sent[0]`, `sent[1]`, ...
/// are sent one after the other.
pub open spec fn received_all(sent: Seq<Seq<DeliveryView>>, id: UserId) -> Seq<ServerEventView>
    decreases sent.len(),
{
    if sent.len() == 0 {
        Seq::empty()
    } else {
        received_all(sent.drop_last(), id) + received(sent.last(), id)
    }
}

/// What `id` gets from one list of deliveries followed by another is what it
/// gets from the first followed by what it gets from the second.
pub proof fn lemma_received_concat(a: Seq<DeliveryView>, b: Seq<DeliveryView>, id: UserId)
    ensures
        received(a + b, id) == received(a, id) + received(b, id),
    decreases b.len(),
{
    if b.len() == 0 {
        assert(a + b =~= a);
        assert(received(a, id) + received(b, id) =~= received(a, id));
    } else {
        assert((a + b).drop_last() =~= a + b.drop_last());
        assert((a + b).last() == b.last());
        lemma_received_concat(a, b.drop_last(), id);
        assert(received(a + b, id) =~= received(a, id) + received(b, id));
    }
}

/// Who is addressed by none of `deliveries` gets nothing from them.
pub proof fn lemma_received_none(deliveries: Seq<DeliveryView>, id: UserId)
    requires
        forall|j: int| 0 <= j < deliveries.len() ==> (#[trigger] deliveries[j]).recipient != id,
    ensures
        received(deliveries, id) == Seq::<ServerEventView>::empty(),
    decreases deliveries.len(),
{
    if deliveries.len() > 0 {
        let earlier = deliveries.drop_last();
        assert forall|j: int| 0 <= j < earlier.len() implies (#[trigger] earlier[j]).recipient
            != id by {
            assert(earlier[j] == deliveries[j]);
        }
        lemma_received_none(earlier, id);
    }
}

/// Who is addressed by exactly one of `deliveries` gets the event of that
/// one and no other.
pub proof fn lemma_received_once(deliveries: Seq<DeliveryView>, id: UserId, k: int)
    requires
        0 <= k < deliveries.len(),
        deliveries[k].recipient == id,
        forall|j: int|
            0 <= j < deliveries.len() && j != k ==> (#[trigger] deliveries[j]).recipient != id,
    ensures
        received(deliveries, id) == seq![deliveries[k].event],
    decreases deliveries.len(),
{
    let earlier = deliveries.drop_last();
    if k == deliveries.len() - 1 {
        assert forall|j: int| 0 <= j < earlier.len() implies (#[trigger] earlier[j]).recipient
            != id by {
            assert(earlier[j] == deliveries[j]);
        }
        lemma_received_none(earlier, id);
        assert(received(deliveries, id) =~= seq![deliveries[k].event]);
    } else {
        assert(earlier[k] == deliveries[k]);
        assert forall|j: int| 0 <= j < earlier.len() && j != k implies (
        #[trigger] earlier[j]).recipient != id by {
            assert(earlier[j] == deliveries[j]);
        }
        lemma_received_once(earlier, id, k);
        assert(deliveries[deliveries.len() - 1].recipient != id);
    }
}

impl LobbyView {
    /// The lobby after each of `commands` in turn.
    pub open spec fn after_all(self, commands: Seq<LobbyCommand>) -> LobbyView
        decreases commands.len(),
    {
        if commands.len() == 0 {
            self
        } else {
            self.after_all(commands.drop_last()).after(commands.last())
        }
    }

    /// The ids that the lobby gives out while it handles `commands` in turn,
    /// in the order in which it gives them.
    pub open spec fn assigned_during(self, commands: Seq<LobbyCommand>) -> Seq<UserId>
        decreases commands.len(),
    {
        if commands.len() == 0 {
            Seq::empty()
        } else {
            let earlier = self.assigned_during(commands.drop_last());
            let lobby = self.after_all(commands.drop_last());
            if commands.last() is AssignId && lobby.can_assign() {
                earlier.push(lobby.next_user_id)
            } else {
                earlier
            }
        }
    }

    /// `sent[i]` is what handling `commands[i]` sends, for each `i`, when the
    /// lobby handles `commands` in turn.
    pub open spec fn emits_all(
        self,
        commands: Seq<LobbyCommand>,
        sent: Seq<Seq<DeliveryView>>,
    ) -> bool
        decreases commands.len(),
    {
        if commands.len() == 0 {
            sent.len() == 0
        } else {
            &&& sent.len() == commands.len()
            &&& self.emits_all(commands.drop_last(), sent.drop_last())
            &&& self.after_all(commands.drop_last()).emits(commands.last(), sent.last())
        }
    }

    /// No command makes the members of a lobby uncountable.
    pub proof fn lemma_after_valid(self, command: LobbyCommand)
        requires
            self.valid(),
        ensures
            self.after(command).valid(),
    {
    }

    /// No run of commands makes the members of a lobby uncountable.
    pub proof fn lemma_after_all_valid(self, commands: Seq<LobbyCommand>)
        requires
            self.valid(),
        ensures
            self.after_all(commands).valid(),
        decreases commands.len(),
    {
        if commands.len() > 0 {
            self.lemma_after_all_valid(commands.drop_last());
            self.after_all(commands.drop_last()).lemma_after_valid(commands.last());
        }
    }

    /// From one broadcast every member gets the event once, and nobody else
    /// gets anything.
    pub proof fn lemma_broadcast_received(
        self,
        deliveries: Seq<DeliveryView>,
        event: ServerEventView,
        id: UserId,
    )
        requires
            self.broadcasts(deliveries, event),
        ensures
            self.members.contains_key(id) ==> received(deliveries, id) == seq![event],
            !self.members.contains_key(id) ==> received(deliveries, id) == Seq::<
                ServerEventView,
            >::empty(),
    {
        if self.members.contains_key(id) {
            let k = choose|k: int|
                0 <= k < deliveries.len() && (#[trigger] deliveries[k]).recipient == id;
            lemma_received_once(deliveries, id, k);
        } else {
            lemma_received_none(deliveries, id);
        }
    }

    /// From one announcement every member gets one update, which carries a
    /// membership list of the lobby, and nobody else gets anything.
    pub proof fn lemma_announcement_received(self, deliveries: Seq<DeliveryView>, id: UserId)
        requires
            self.announces(deliveries),
        ensures
            self.members.contains_key(id) ==> {
                &&& received(deliveries, id).len() == 1
                &&& received(deliveries, id)[0] matches ServerEventView::UsersUpdated { users }
                &&& self.lists(users)
            },
            !self.members.contains_key(id) ==> received(deliveries, id).len() == 0,
    {
        let users = choose|users: Seq<UserView>| #[trigger]
            self.lists(users) && self.broadcasts(
                deliveries,
                ServerEventView::UsersUpdated { users },
            );
        self.lemma_broadcast_received(deliveries, ServerEventView::UsersUpdated { users }, id);
    }

    /// After an arrival the newcomer gets its welcome and then one update;
    /// every other member gets one update; nobody else gets anything.
    pub proof fn lemma_arrival_received(
        self,
        deliveries: Seq<DeliveryView>,
        user_id: UserId,
        id: UserId,
    )
        requires
            self.welcomes(deliveries, user_id),
            self.members.contains_key(user_id),
        ensures
            id == user_id ==> {
                &&& received(deliveries, id).len() == 2
                &&& received(deliveries, id)[0] == deliveries[0].event
                &&& received(deliveries, id)[1] is UsersUpdated
            },
            id != user_id && self.members.contains_key(id) ==> {
                &&& received(deliveries, id).len() == 1
                &&& received(deliveries, id)[0] is UsersUpdated
            },
            id != user_id && !self.members.contains_key(id) ==> received(deliveries, id).len()
                == 0,
    {
        let first = seq![deliveries[0]];
        let rest = deliveries.skip(1);
        assert(deliveries =~= first + rest);
        lemma_received_concat(first, rest, id);
        self.lemma_announcement_received(rest, id);
        if id == user_id {
            lemma_received_once(first, id, 0);
        } else {
            lemma_received_none(first, id);
        }
    }

    /// What a command sends to someone who is not in the lobby: a command
    /// that takes that user in starts with its welcome, which carries its
    /// id, and any other command sends it nothing and leaves it out.
    pub proof fn lemma_outsider_received(
        self,
        command: LobbyCommand,
        deliveries: Seq<DeliveryView>,
        id: UserId,
    )
        requires
            !self.members.contains_key(id),
            self.emits(command, deliveries),
        ensures
            (command matches LobbyCommand::Join { user_id, .. } && user_id == id) ==> {
                &&& self.after(command).members.contains_key(id)
                &&& received(deliveries, id).len() > 0
                &&& received(deliveries, id)[0] matches ServerEventView::Welcome { id: welcomed, .. }
                &&& welcomed == id
            },
            !(command matches LobbyCommand::Join { user_id, .. } && user_id == id) ==> {
                &&& !self.after(command).members.contains_key(id)
                &&& received(deliveries, id).len() == 0
            },
    {
        match command {
            LobbyCommand::Join { user_id, .. } => {
                self.after(command).lemma_arrival_received(deliveries, user_id, id);
            },
            LobbyCommand::AssignId { .. } => {},
            LobbyCommand::Disconnect { .. } => {
                self.after(command).lemma_announcement_received(deliveries, id);
            },
            LobbyCommand::StartGame => {
                if self.can_start() {
                    self.lemma_broadcast_received(deliveries, ServerEventView::StartGame, id);
                }
            },
        }
    }

    /// The first event that a user ever gets from a lobby is its welcome.
    /// Whatever commands a lobby handles, and whatever order it serves its
    /// members in, the events that reach a user who was not in the lobby at
    /// the start begin with the welcome that carries the user's id; so every
    /// membership update that reaches the user comes after that welcome, and
    /// as long as nothing has reached it the user is not a member.
    pub proof fn welcome_comes_first(
        self,
        commands: Seq<LobbyCommand>,
        sent: Seq<Seq<DeliveryView>>,
        id: UserId,
    )
        requires
            !self.members.contains_key(id),
            self.emits_all(commands, sent),
        ensures
            received_all(sent, id).len() == 0 ==> !self.after_all(commands).members.contains_key(
                id,
            ),
            received_all(sent, id).len() > 0 ==> {
                &&& received_all(sent, id)[0] matches ServerEventView::Welcome { id: welcomed, .. }
                &&& welcomed == id
            },
            forall|j: int|
                0 <= j < received_all(sent, id).len() && (#[trigger] received_all(
                    sent,
                    id,
                )[j]) is UsersUpdated ==> 0 < j,
        decreases commands.len(),
    {
        if commands.len() > 0 {
            let lobby = self.after_all(commands.drop_last());
            self.welcome_comes_first(commands.drop_last(), sent.drop_last(), id);
            if received_all(sent.drop_last(), id).len() == 0 {
                lobby.lemma_outsider_received(commands.last(), sent.last(), id);
                assert(received_all(sent, id) =~= received(sent.last(), id));
            }
        }
    }

    /// A user that joins and leaves again at once leaves the lobby as it
    /// was: whoever was in before is in after, and the user is out; a lobby
    /// that was empty is empty again. The departure is followed by one
    /// announcement, after the one that followed the arrival: everyone who
    /// remains gets one membership update, which lists those who remain, and
    /// the user who left gets none.
    pub proof fn join_then_disconnect(
        self,
        username: Seq<char>,
        user_id: UserId,
        handle: UserHandle,
        after_join: Seq<DeliveryView>,
        after_disconnect: Seq<DeliveryView>,
        id: UserId,
    )
        requires
            self.valid(),
            self.join(username, user_id, handle).welcomes(after_join, user_id),
            self.join(username, user_id, handle).disconnect(user_id).announces(after_disconnect),
        ensures
            self.join(username, user_id, handle).disconnect(user_id).members
                == self.members.remove(user_id),
            !self.members.contains_key(user_id) ==> self.join(username, user_id, handle).disconnect(
                user_id,
            ) == self,
            self.members.len() == 0 ==> {
                &&& self.join(username, user_id, handle).disconnect(user_id).members.len() == 0
                &&& after_disconnect.len() == 0
            },
            after_disconnect.len() == self.members.remove(user_id).len(),
            received(after_join, user_id).len() == 2,
            received(after_disconnect, user_id).len() == 0,
            self.members.contains_key(id) && id != user_id ==> {
                &&& received(after_join, id).len() == 1
                &&& received(after_disconnect, id).len() == 1
                &&& received(after_disconnect, id)[0] matches ServerEventView::UsersUpdated {
                    users,
                }
                &&& self.disconnect(user_id).lists(users)
            },
    {
        let joined = self.join(username, user_id, handle);
        let left = joined.disconnect(user_id);
        assert(left.members =~= self.members.remove(user_id));
        if !self.members.contains_key(user_id) {
            assert(self.members.remove(user_id) =~= self.members);
        }
        if self.members.len() == 0 {
            assert(self.members.remove(user_id).len() == 0);
        }
        let users = choose|users: Seq<UserView>| #[trigger]
            left.lists(users) && left.broadcasts(
                after_disconnect,
                ServerEventView::UsersUpdated { users },
            );
        joined.lemma_arrival_received(after_join, user_id, user_id);
        joined.lemma_arrival_received(after_join, user_id, id);
        left.lemma_announcement_received(after_disconnect, user_id);
        left.lemma_announcement_received(after_disconnect, id);
        assert(left == self.disconnect(user_id));
    }

    /// A request to start the game reaches everyone or no one: in a lobby of
    /// four to twelve members each member gets the start of the game once;
    /// in any other lobby nothing is sent at all. Nobody outside the lobby
    /// gets anything either way.
    pub proof fn start_reaches_all_or_none(self, deliveries: Seq<DeliveryView>, id: UserId)
        requires
            self.valid(),
            self.emits(LobbyCommand::StartGame, deliveries),
        ensures
            self.after(LobbyCommand::StartGame) == self,
            deliveries.len() > 0 <==> 4 <= self.members.len() <= 12,
            self.can_start() && self.members.contains_key(id) ==> received(deliveries, id)
                == seq![ServerEventView::StartGame],
            !(self.can_start() && self.members.contains_key(id)) ==> received(
                deliveries,
                id,
            ).len() == 0,
    {
        if self.can_start() {
            self.lemma_broadcast_received(deliveries, ServerEventView::StartGame, id);
        }
    }

    /// Ids are given out in order and none twice: whatever the lobby is asked
    /// to do in between, the ids it gives out are its next id, the one after
    /// that, and so on, one for each request as long as ids are left.
    pub proof fn ids_count_up(self, commands: Seq<LobbyCommand>)
        ensures
            forall|k: int|
                0 <= k < self.assigned_during(commands).len() ==> #[trigger] self.assigned_during(
                    commands,
                )[k] == self.next_user_id + k,
            self.after_all(commands).next_user_id == self.next_user_id + self.assigned_during(
                commands,
            ).len(),
            self.assigned_during(commands).len() <= requests(commands),
            self.next_user_id + requests(commands) <= usize::MAX ==> self.assigned_during(
                commands,
            ).len() == requests(commands),
        decreases commands.len(),
    {
        if commands.len() > 0 {
            self.ids_count_up(commands.drop_last());
        }
    }

    /// In a new lobby the ids given out are 1, 2, 3, ...: the first request
    /// is answered with 1 and each later one with one more than the one
    /// before, whatever else the lobby is asked to do in between.
    pub proof fn ids_count_up_from_one(id: Seq<char>, commands: Seq<LobbyCommand>)
        ensures
            forall|k: int|
                0 <= k < LobbyView::fresh(id).assigned_during(commands).len()
                    ==> #[trigger] LobbyView::fresh(id).assigned_during(commands)[k] == k + 1,
            requests(commands) < usize::MAX ==> LobbyView::fresh(id).assigned_during(
                commands,
            ).len() == requests(commands),
    {
        LobbyView::fresh(id).ids_count_up(commands);
    }
}

} // verus!
