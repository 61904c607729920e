//! The membership registry: the users currently visible in the channel, in
//! the order in which the server announced them.

use vstd::prelude::*;

use crate::roster::{
    first_index, insert_desc, lemma_first_index, lemma_insert_desc_at, lemma_replay_push, lookup,
    match_key, match_keys, members, names, replay, roster_step, sort_desc, without_first,
    NameMatch, RosterChange,
};
use crate::text::{name_le, str_le, to_lowercase};
use crate::user::{Member, User};

verus! {

/// The place of the first of `keys` that equals `key`.
pub fn position_of(keys: &Vec<String>, key: &String) -> (found: Option<usize>)
    ensures
        match found {
            Some(i) => first_index(keys.deep_view(), key@) == Some(i as int),
            None => first_index(keys.deep_view(), key@) is None,
        },
{
    let mut i: usize = 0;
    while i < keys.len()
        invariant
            i <= keys@.len(),
            first_index(keys.deep_view().take(i as int), key@) is None,
        decreases keys@.len() - i,
    {
        proof {
            let next = keys.deep_view().take(i + 1);
            assert(next.drop_last() =~= keys.deep_view().take(i as int));
            assert(next.last() == keys@[i as int]@);
        }
        if keys[i] == *key {
            proof {
                lemma_first_index_of_prefix(keys.deep_view(), key@, i + 1);
            }
            return Some(i);
        }
        i += 1;
    }
    proof {
        assert(keys.deep_view().take(i as int) =~= keys.deep_view());
    }
    None
}

/// An occurrence found in a prefix of the keys is the first one in all of
/// them.
proof fn lemma_first_index_of_prefix(keys: Seq<Seq<char>>, key: Seq<char>, n: int)
    requires
        0 <= n <= keys.len(),
        first_index(keys.take(n), key) is Some,
    ensures
        first_index(keys, key) == first_index(keys.take(n), key),
    decreases keys.len() - n,
{
    if n < keys.len() {
        assert(keys.take(n + 1).drop_last() =~= keys.take(n));
        lemma_first_index_of_prefix(keys, key, n + 1);
    } else {
        assert(keys.take(n) =~= keys);
    }
}

/// One change to the roster, as the server announces it.
#[derive(Debug, PartialEq, Eq)]
pub enum RosterEvent {
    /// The full roster: it takes the place of what was known.
    Replace(Vec<User>),
    /// Somebody joined.
    Join(User),
    /// Somebody of this name left.
    Leave(String),
}

impl View for RosterEvent {
    type V = RosterChange;

    open spec fn view(&self) -> RosterChange {
        match self {
            RosterEvent::Replace(users) => RosterChange::Replace(members(users@)),
            RosterEvent::Join(user) => RosterChange::Join(user@),
            RosterEvent::Leave(name) => RosterChange::Leave(name@),
        }
    }
}

/// What a list of events stands for.
pub open spec fn changes(events: Seq<RosterEvent>) -> Seq<RosterChange> {
    Seq::new(events.len(), |i: int| events[i]@)
}

/// The users currently visible in the channel.
pub struct Registry {
    users: Vec<User>,
}

impl View for Registry {
    type V = Seq<Member>;

    closed spec fn view(&self) -> Seq<Member> {
        members(self.users@)
    }
}

impl Registry {
    /// A registry without users.
    pub fn new() -> (registry: Registry)
        ensures
            registry@ == Seq::<Member>::empty(),
    {
        let registry = Registry { users: Vec::new() };
        proof {
            assert(registry@ =~= Seq::<Member>::empty());
        }
        registry
    }

    /// The number of users.
    pub fn len(&self) -> (n: usize)
        ensures
            n == self@.len(),
    {
        self.users.len()
    }

    /// Whether the registry holds no user.
    pub fn is_empty(&self) -> (empty: bool)
        ensures
            empty == (self@.len() == 0),
    {
        self.users.len() == 0
    }

    /// The users in the order of the registry.
    pub fn snapshot(&self) -> (users: Vec<User>)
        ensures
            members(users@) == self@,
    {
        copy_users(&self.users)
    }

    /// Forgets every user and takes `users` in their place, in their order.
    pub fn replace_all(&mut self, users: Vec<User>)
        ensures
            final(self)@ == members(users@),
    {
        self.users = users;
    }

    /// Puts `user` behind the others, whether or not the name is there
    /// already.
    pub fn add(&mut self, user: User)
        ensures
            final(self)@ == old(self)@.push(user@),
    {
        self.users.push(user);
        proof {
            assert(self@ =~= old(self)@.push(user@));
        }
    }

    /// Takes out the first user called `name`, letter for letter, and says
    /// whether there was one.
    pub fn remove_by_username(&mut self, name: &str) -> (removed: bool)
        ensures
            final(self)@ == without_first(old(self)@, name@),
            removed == first_index(names(old(self)@), name@) is Some,
    {
        let keys = self.keys(NameMatch::Exact);
        let key = name.to_owned();
        proof {
            assert(match_keys(self@, NameMatch::Exact) =~= names(self@));
        }
        match position_of(&keys, &key) {
            Some(i) => {
                proof {
                    lemma_first_index(names(self@), name@);
                }
                self.users.remove(i);
                proof {
                    assert(self@ =~= old(self)@.remove(i as int));
                }
                true
            },
            None => false,
        }
    }

    /// The first user whose name matches `name` under `policy`.
    pub fn find(&self, name: &str, policy: NameMatch) -> (found: Option<User>)
        ensures
            match found {
                Some(user) => lookup(self@, name@, policy) == Some(user@),
                None => lookup(self@, name@, policy) is None,
            },
    {
        let keys = self.keys(policy);
        let key = match policy {
            NameMatch::Exact => name.to_owned(),
            NameMatch::IgnoreCase => to_lowercase(name),
        };
        match position_of(&keys, &key) {
            Some(i) => {
                proof {
                    lemma_first_index(match_keys(self@, policy), match_key(name@, policy));
                }
                Some(self.users[i].clone())
            },
            None => None,
        }
    }

    /// The users by name, latest name first; users of one name keep their
    /// order.
    pub fn sorted_desc(&self) -> (sorted: Vec<User>)
        ensures
            members(sorted@) == sort_desc(self@),
    {
        let mut sorted: Vec<User> = Vec::new();
        let mut i: usize = 0;
        proof {
            assert(members(sorted@) =~= sort_desc(self@.take(0)));
        }
        while i < self.users.len()
            invariant
                i <= self.users@.len(),
                members(sorted@) == sort_desc(self@.take(i as int)),
            decreases self.users@.len() - i,
        {
            let user = self.users[i].clone();
            proof {
                assert(self@.take(i + 1).drop_last() =~= self@.take(i as int));
                assert(self@.take(i + 1).last() == user@);
            }
            insert_user_desc(&mut sorted, user);
            i += 1;
        }
        proof {
            assert(self@.take(i as int) =~= self@);
        }
        sorted
    }

    /// Applies one change.
    pub fn apply(&mut self, event: &RosterEvent)
        ensures
            final(self)@ == roster_step(old(self)@, event@),
    {
        match event {
            RosterEvent::Replace(users) => {
                self.replace_all(copy_users(users));
            },
            RosterEvent::Join(user) => {
                self.add(user.clone());
            },
            RosterEvent::Leave(name) => {
                self.remove_by_username(name.as_str());
            },
        }
    }

    /// Applies the changes in their order: the registry then holds what the
    /// replay of the changes on a plain sequence of members gives.
    pub fn replay(&mut self, events: &Vec<RosterEvent>)
        ensures
            final(self)@ == replay(old(self)@, changes(events@)),
    {
        let mut i: usize = 0;
        proof {
            assert(changes(events@).take(0) =~= Seq::<RosterChange>::empty());
        }
        while i < events.len()
            invariant
                i <= events@.len(),
                self@ == replay(old(self)@, changes(events@).take(i as int)),
            decreases events@.len() - i,
        {
            proof {
                let done = changes(events@).take(i as int);
                assert(changes(events@).take(i + 1) =~= done.push(events@[i as int]@));
                lemma_replay_push(old(self)@, done, events@[i as int]@);
            }
            self.apply(&events[i]);
            i += 1;
        }
        proof {
            assert(changes(events@).take(i as int) =~= changes(events@));
        }
    }

    /// The text by which each user is compared under `policy`.
    fn keys(&self, policy: NameMatch) -> (keys: Vec<String>)
        ensures
            keys.deep_view() == match_keys(self@, policy),
    {
        let mut keys: Vec<String> = Vec::new();
        let mut i: usize = 0;
        while i < self.users.len()
            invariant
                i <= self.users@.len(),
                keys@.len() == i,
                forall|j: int|
                    0 <= j < i ==> keys@[j]@ == match_key(
                        #[trigger] self.users@[j].username@,
                        policy,
                    ),
            decreases self.users@.len() - i,
        {
            let key = match policy {
                NameMatch::Exact => self.users[i].username.clone(),
                NameMatch::IgnoreCase => to_lowercase(self.users[i].username.as_str()),
            };
            keys.push(key);
            i += 1;
        }
        proof {
            assert(keys.deep_view() =~= match_keys(self@, policy));
        }
        keys
    }
}

/// A copy of each user, in the same order.
fn copy_users(users: &Vec<User>) -> (copy: Vec<User>)
    ensures
        members(copy@) == members(users@),
{
    let mut copy: Vec<User> = Vec::new();
    let mut i: usize = 0;
    while i < users.len()
        invariant
            i <= users@.len(),
            copy@.len() == i,
            forall|j: int| 0 <= j < i ==> copy@[j]@ == users@[j]@,
        decreases users@.len() - i,
    {
        copy.push(users[i].clone());
        i += 1;
    }
    proof {
        assert(members(copy@) =~= members(users@));
    }
    copy
}

/// Puts `user` into a list that is ordered by name, latest first, behind
/// every entry whose name comes no earlier.
fn insert_user_desc(sorted: &mut Vec<User>, user: User)
    ensures
        members(final(sorted)@) == insert_desc(members(old(sorted)@), user@),
{
    let mut at: usize = 0;
    while at < sorted.len() && str_le(user.username.as_str(), sorted[at].username.as_str())
        invariant
            at <= sorted@.len(),
            sorted@ == old(sorted)@,
            forall|j: int| 0 <= j < at ==> name_le(user@.name, #[trigger] sorted@[j]@.name),
        decreases sorted@.len() - at,
    {
        at += 1;
    }
    proof {
        lemma_insert_desc_at(members(sorted@), user@, at as int);
    }
    sorted.insert(at, user);
    proof {
        assert(members(sorted@) =~= members(old(sorted)@).insert(at as int, user@));
    }
}

} // verus!
