//! The registry of running lobbies: which identifier leads to which lobby.

use crate::channel::queue;
use crate::lobby::{Lobby, LobbyCommand, LobbyView};
use tokio::sync::mpsc::{Receiver, Sender};
use vstd::hash_map::StringHashMap;
use vstd::prelude::*;

verus! {

/// The capability to send commands to one lobby.
pub type LobbyHandle = Sender<LobbyCommand>;

/// How many characters a lobby id has.
pub const ID_LENGTH: usize = 6;

/// How many random candidates are drawn for a new lobby id; the search is
/// given up if all of them are in use.
pub const MAX_ID_ATTEMPTS: usize = 64;

/// How many commands may wait in a lobby's queue.
pub const COMMAND_QUEUE_CAPACITY: usize = 32;

/// Whether `c` is a digit or an unaccented Latin letter of either case.
pub open spec fn is_alphanumeric(c: char) -> bool {
    let n = c as u32;
    ||| 0x30 <= n <= 0x39
    ||| 0x41 <= n <= 0x5a
    ||| 0x61 <= n <= 0x7a
}

/// Whether `id` has the form of a lobby id: [`ID_LENGTH`] characters, each a
/// digit or a letter.
pub open spec fn is_lobby_id(id: Seq<char>) -> bool {
    &&& id.len() == ID_LENGTH
    &&& forall|i: int| 0 <= i < id.len() ==> is_alphanumeric(#[trigger] id[i])
}

/// `after` is `before` with one more lobby in it, under an identifier that
/// has the form of a lobby id and that no lobby had in `before`.
pub open spec fn registered(
    before: Map<Seq<char>, LobbyHandle>,
    id: Seq<char>,
    handle: LobbyHandle,
    after: Map<Seq<char>, LobbyHandle>,
) -> bool {
    &&& is_lobby_id(id)
    &&& !before.contains_key(id)
    &&& after == before.insert(id, handle)
}

/// The first of `candidates` that no lobby in `lobbies` has, if there is
/// one.
pub open spec fn first_unused_of(
    lobbies: Map<Seq<char>, LobbyHandle>,
    candidates: Seq<String>,
) -> Option<Seq<char>>
    decreases candidates.len(),
{
    if candidates.len() == 0 {
        None
    } else if !lobbies.contains_key(candidates.first()@) {
        Some(candidates.first()@)
    } else {
        first_unused_of(lobbies, candidates.drop_first())
    }
}

/// What [`first_unused_of`] picks is a candidate that no lobby has, and every
/// candidate before it is taken; it picks nothing only if all are taken.
pub proof fn lemma_first_unused_of(lobbies: Map<Seq<char>, LobbyHandle>, candidates: Seq<String>)
    ensures
        match first_unused_of(lobbies, candidates) {
            Some(id) => exists|k: int|
                0 <= k < candidates.len() && (#[trigger] candidates[k])@ == id
                    && !lobbies.contains_key(id) && forall|j: int|
                    0 <= j < k ==> lobbies.contains_key((#[trigger] candidates[j])@),
            None => forall|j: int|
                0 <= j < candidates.len() ==> lobbies.contains_key((#[trigger] candidates[j])@),
        },
    decreases candidates.len(),
{
    if candidates.len() > 0 && lobbies.contains_key(candidates.first()@) {
        let rest = candidates.drop_first();
        lemma_first_unused_of(lobbies, rest);
        match first_unused_of(lobbies, rest) {
            Some(id) => {
                let k = choose|k: int|
                    0 <= k < rest.len() && (#[trigger] rest[k])@ == id && !lobbies.contains_key(id)
                        && forall|j: int|
                        0 <= j < k ==> lobbies.contains_key((#[trigger] rest[j])@);
                assert(candidates[k + 1] == rest[k]);
                assert forall|j: int| 0 <= j < k + 1 implies lobbies.contains_key(
                    (#[trigger] candidates[j])@,
                ) by {
                    if j > 0 {
                        assert(candidates[j] == rest[j - 1]);
                    }
                }
            },
            None => {
                assert forall|j: int| 0 <= j < candidates.len() implies lobbies.contains_key(
                    (#[trigger] candidates[j])@,
                ) by {
                    if j > 0 {
                        assert(candidates[j] == rest[j - 1]);
                    }
                }
            },
        }
    } else if candidates.len() > 0 {
        assert(candidates[0] == candidates.first());
    }
}

/// Whether some lobby in `lobbies` has an identifier of the form of a lobby
/// id.
pub open spec fn some_id_taken(lobbies: Map<Seq<char>, LobbyHandle>) -> bool {
    exists|id: Seq<char>| is_lobby_id(id) && #[trigger] lobbies.contains_key(id)
}

/// Draws `length` characters at random, each a digit or a letter, from
/// rand's thread-local generator and its `Alphanumeric` distribution.
///
/// Trusted. The length is that of the `take`; the alphabet is the one that
/// `Alphanumeric` samples from. Which characters come out is left open: two
/// calls need not agree.
#[verifier::external_body]
fn random_id(length: usize) -> (id: String)
    ensures
        id@.len() == length,
        forall|i: int| 0 <= i < id@.len() ==> is_alphanumeric(#[trigger] id@[i]),
{
    rand::Rng::sample_iter(rand::thread_rng(), &rand::distributions::Alphanumeric)
        .take(length)
        .map(char::from)
        .collect()
}

/// All running lobbies, by identifier.
pub struct Lobbies {
    handles: StringHashMap<LobbyHandle>,
}

impl View for Lobbies {
    type V = Map<Seq<char>, LobbyHandle>;

    closed spec fn view(&self) -> Map<Seq<char>, LobbyHandle> {
        self.handles@
    }
}

/// A lobby that has just been registered, with what it takes to run it.
pub struct NewLobby {
    /// The identifier under which the lobby can be found.
    pub id: String,
    /// The lobby, empty.
    pub lobby: Lobby,
    /// Where the commands sent through the registered handle arrive.
    pub commands: Receiver<LobbyCommand>,
}

impl Lobbies {
    /// The lobbies of a registry can be counted.
    #[verifier::type_invariant]
    spec fn countable(self) -> bool {
        self.handles@.dom().finite()
    }

    /// A registry without lobbies.
    pub fn new() -> (lobbies: Lobbies)
        ensures
            lobbies@ == Map::<Seq<char>, LobbyHandle>::empty(),
            lobbies@.dom().finite(),
    {
        Lobbies { handles: StringHashMap::new() }
    }

    /// How many lobbies are registered.
    pub fn len(&self) -> (len: usize)
        ensures
            len == self@.len(),
            self@.dom().finite(),
    {
        proof {
            use_type_invariant(self);
        }
        self.handles.len()
    }

    /// The handle of the lobby with this identifier, if there is one.
    pub fn lookup(&self, lobby_id: &str) -> (handle: Option<&LobbyHandle>)
        ensures
            match handle {
                Some(handle) => self@.contains_key(lobby_id@) && *handle == self@[lobby_id@],
                None => !self@.contains_key(lobby_id@),
            },
    {
        self.handles.get(lobby_id)
    }

    /// Registers `handle` under a new identifier and returns the identifier.
    /// Gives up, and changes nothing, if [`generate_id`] finds none.
    pub fn register(&mut self, handle: LobbyHandle) -> (id: Option<String>)
        ensures
            match id {
                Some(id) => registered(old(self)@, id@, handle, final(self)@) && final(self)@.len()
                    == old(self)@.len() + 1,
                None => final(self)@ == old(self)@ && some_id_taken(old(self)@),
            },
            old(self)@.dom().finite(),
            final(self)@.dom().finite(),
    {
        proof {
            use_type_invariant(&*self);
        }
        match generate_id(self) {
            Some(id) => {
                // The map is taken out for the insertion and put back after it,
                // so that the registry is whole whenever it can be seen.
                let mut handles: StringHashMap<LobbyHandle> = StringHashMap::new();
                std::mem::swap(&mut self.handles, &mut handles);
                handles.insert(id.clone(), handle);
                assert(handles@.dom() =~= old(self)@.dom().insert(id@));
                std::mem::swap(&mut self.handles, &mut handles);
                Some(id)
            },
            None => None,
        }
    }

    /// Creates a lobby: makes its command queue, registers the sending end
    /// under a new identifier, and returns the empty lobby with the receiving
    /// end, for the caller to run. Gives up, and changes nothing, if no
    /// identifier is found.
    pub fn create_lobby(&mut self) -> (created: Option<NewLobby>)
        ensures
            match created {
                Some(new) => {
                    &&& final(self)@.contains_key(new.id@)
                    &&& registered(old(self)@, new.id@, final(self)@[new.id@], final(self)@)
                    &&& final(self)@.len() == old(self)@.len() + 1
                    &&& new.lobby@ == LobbyView::fresh(new.id@)
                },
                None => final(self)@ == old(self)@ && some_id_taken(old(self)@),
            },
            old(self)@.dom().finite(),
            final(self)@.dom().finite(),
    {
        let (handle, commands) = queue(COMMAND_QUEUE_CAPACITY);
        match self.register(handle) {
            Some(id) => {
                let lobby = Lobby::new(id.clone());
                Some(NewLobby { id, lobby, commands })
            },
            None => None,
        }
    }
}

impl Default for Lobbies {
    fn default() -> (lobbies: Lobbies)
        ensures
            lobbies@ == Map::<Seq<char>, LobbyHandle>::empty(),
            lobbies@.dom().finite(),
    {
        Lobbies::new()
    }
}

/// Takes `candidate` as a new lobby id if no lobby has it.
pub fn unused_id(lobbies: &Lobbies, candidate: String) -> (id: Option<String>)
    ensures
        id == if lobbies@.contains_key(candidate@) {
            None
        } else {
            Some(candidate)
        },
{
    if lobbies.handles.contains_key(candidate.as_str()) {
        None
    } else {
        Some(candidate)
    }
}

/// Goes through `candidates` in order and takes the first that no lobby
/// has: a candidate that is taken is passed over and the next one is tried,
/// and what comes after the one that is taken up is not looked at. Finds
/// none only if every candidate is taken.
pub fn first_unused(lobbies: &Lobbies, candidates: Vec<String>) -> (id: Option<String>)
    ensures
        match id {
            Some(id) => first_unused_of(lobbies@, candidates@) == Some(id@),
            None => first_unused_of(lobbies@, candidates@) is None,
        },
{
    let mut tried: usize = 0;
    assert(candidates@.skip(0) =~= candidates@);
    while tried < candidates.len()
        invariant
            tried <= candidates.len(),
            first_unused_of(lobbies@, candidates@) == first_unused_of(
                lobbies@,
                candidates@.skip(tried as int),
            ),
        decreases candidates.len() - tried,
    {
        let ghost rest = candidates@.skip(tried as int);
        assert(rest.first() == candidates@[tried as int]);
        assert(rest.drop_first() =~= candidates@.skip(tried + 1));
        let id = unused_id(lobbies, candidates[tried].clone());
        if id.is_some() {
            return id;
        }
        tried += 1;
    }
    None
}

/// Draws `count` candidates for a lobby id at random.
fn random_ids(count: usize) -> (candidates: Vec<String>)
    ensures
        candidates.len() == count,
        forall|i: int| 0 <= i < candidates.len() ==> is_lobby_id((#[trigger] candidates[i])@),
{
    let mut candidates: Vec<String> = Vec::new();
    while candidates.len() < count
        invariant
            candidates.len() <= count,
            forall|i: int| 0 <= i < candidates.len() ==> is_lobby_id((#[trigger] candidates[i])@),
        decreases count - candidates.len(),
    {
        candidates.push(random_id(ID_LENGTH));
    }
    candidates
}

/// Generates a random lobby id that no lobby in `lobbies` has:
/// [`MAX_ID_ATTEMPTS`] candidates are drawn at random and the first of them
/// that is unused is taken, as [`first_unused`] has it. The search is given
/// up only if every candidate is the id of a lobby, and so never while no
/// lobby is registered.
pub fn generate_id(lobbies: &Lobbies) -> (id: Option<String>)
    ensures
        match id {
            Some(id) => is_lobby_id(id@) && !lobbies@.contains_key(id@),
            None => some_id_taken(lobbies@),
        },
{
    let candidates = random_ids(MAX_ID_ATTEMPTS);
    proof {
        lemma_first_unused_of(lobbies@, candidates@);
        assert(is_lobby_id(candidates[0]@));
    }
    first_unused(lobbies, candidates)
}

/// Two lobbies never share an identifier: of two lobbies registered one
/// after the other, the second has another identifier than the first, each
/// is found under its own, every lobby that was there before is still found
/// where it was, and the registry has grown by exactly the two.
pub proof fn registrations_are_distinct(
    before: Map<Seq<char>, LobbyHandle>,
    first_id: Seq<char>,
    first_handle: LobbyHandle,
    between: Map<Seq<char>, LobbyHandle>,
    second_id: Seq<char>,
    second_handle: LobbyHandle,
    after: Map<Seq<char>, LobbyHandle>,
)
    requires
        registered(before, first_id, first_handle, between),
        registered(between, second_id, second_handle, after),
    ensures
        first_id != second_id,
        between.contains_key(first_id) && between[first_id] == first_handle,
        after.contains_key(first_id) && after[first_id] == first_handle,
        after.contains_key(second_id) && after[second_id] == second_handle,
        forall|id: Seq<char>|
            before.contains_key(id) ==> #[trigger] after.contains_key(id) && after[id]
                == before[id],
        before.dom().finite() ==> after.dom().finite() && after.len() == before.len() + 2,
{
    assert(between.dom() =~= before.dom().insert(first_id));
    assert(after.dom() =~= between.dom().insert(second_id));
}

} // verus!
