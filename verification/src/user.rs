//! Channel participants and their trust levels.

use vstd::prelude::*;

verus! {

/// The trust levels that the chat protocol distinguishes, lowest first.
#[derive(Clone, Copy, Debug, PartialEq, Eq)]
pub enum Level {
    Default,
    Trusted,
    ChanTrusted,
    ChanMod,
    ChanOwner,
    Mod,
    Admin,
}

impl Level {
    /// The number that the protocol assigns to the level.
    pub open spec fn rank(self) -> int {
        match self {
            Level::Default => 100,
            Level::Trusted => 500,
            Level::ChanTrusted => 8999,
            Level::ChanMod => 9999,
            Level::ChanOwner => 99999,
            Level::Mod => 999999,
            Level::Admin => 9999999,
        }
    }

    /// The protocol number of the level, as the wire carries it.
    pub fn value(self) -> (n: i32)
        ensures
            n == self.rank(),
    {
        match self {
            Level::Default => 100,
            Level::Trusted => 500,
            Level::ChanTrusted => 8999,
            Level::ChanMod => 9999,
            Level::ChanOwner => 99999,
            Level::Mod => 999999,
            Level::Admin => 9999999,
        }
    }
}

/// What a `User` stands for: a name and a numeric level.
pub struct Member {
    pub name: Seq<char>,
    pub level: int,
}

/// One participant of the channel.
#[derive(Debug, PartialEq, Eq)]
pub struct User {
    pub username: String,
    pub level: i32,
}

impl View for User {
    type V = Member;

    open spec fn view(&self) -> Member {
        Member { name: self.username@, level: self.level as int }
    }
}

impl Clone for User {
    fn clone(&self) -> (copy: User)
        ensures
            copy == *self,
    {
        User { username: self.username.clone(), level: self.level }
    }
}

impl User {
    /// Whether the user's level reaches `level`.
    pub fn has_level(&self, level: Level) -> (yes: bool)
        ensures
            yes == (self@.level >= level.rank()),
    {
        self.level >= level.value()
    }
}

} // verus!
