//! The ban list: identities whose messages are kept off the bus, with the
//! audit data of each ban.

use std::collections::HashMap;
use vstd::prelude::*;

verus! {

broadcast use vstd::std_specs::hash::group_hash_axioms;

/// Why and by whom an identity was banned.
#[derive(Debug)]
pub struct BanEntry {
    pub reason: String,
    /// The moderator who issued the ban.
    pub executor: u64,
    /// The server the ban was issued from.
    pub ban_origin: u64,
    /// When the ban was issued, in seconds since the Unix epoch.
    pub timestamp: i64,
}

/// Why a moderation operation changed nothing.
#[derive(Clone, Copy, Debug, PartialEq, Eq, Structural)]
pub enum BanError {
    /// `ban` on an identity that is already banned.
    AlreadyBanned,
    /// `unban` on an identity that is not banned.
    NotBanned,
}

/// Banned identities, each with its ban entry. Unbounded; an entry stays
/// until it is explicitly removed.
#[derive(Debug)]
pub struct BanList {
    pub list: HashMap<u64, BanEntry>,
}

impl View for BanList {
    type V = Map<u64, BanEntry>;

    open spec fn view(&self) -> Map<u64, BanEntry> {
        self.list@
    }
}

/// The ban list after banning `user`: unchanged when `user` is already banned.
pub open spec fn ban_spec(bans: Map<u64, BanEntry>, user: u64, entry: BanEntry) -> Map<u64, BanEntry> {
    if bans.contains_key(user) {
        bans
    } else {
        bans.insert(user, entry)
    }
}

/// The ban list after unbanning `user`.
pub open spec fn unban_spec(bans: Map<u64, BanEntry>, user: u64) -> Map<u64, BanEntry> {
    bans.remove(user)
}

impl BanList {
    /// An empty ban list.
    pub fn new() -> (r: Self)
        ensures
            r@ == Map::<u64, BanEntry>::empty(),
    {
        BanList { list: HashMap::new() }
    }

    /// Whether `user` is banned.
    pub fn is_banned(&self, user: u64) -> (r: bool)
        ensures
            r == self@.contains_key(user),
    {
        self.list.contains_key(&user)
    }

    /// The ban entry of `user`, if banned.
    pub fn get(&self, user: u64) -> (r: Option<&BanEntry>)
        ensures
            match r {
                Some(e) => self@.contains_key(user) && self@[user] == *e,
                None => !self@.contains_key(user),
            },
    {
        self.list.get(&user)
    }

    /// Bans `user` with `entry`. An identity that is already banned keeps
    /// its entry and the call reports `AlreadyBanned`.
    pub fn ban(&mut self, user: u64, entry: BanEntry) -> (r: Result<(), BanError>)
        ensures
            final(self)@ == ban_spec(old(self)@, user, entry),
            r == (if old(self)@.contains_key(user) {
                Err(BanError::AlreadyBanned)
            } else {
                Ok::<(), BanError>(())
            }),
    {
        if self.list.contains_key(&user) {
            Err(BanError::AlreadyBanned)
        } else {
            self.list.insert(user, entry);
            Ok(())
        }
    }

    /// Lifts the ban of `user` and hands back its entry; `NotBanned` when
    /// there was none.
    pub fn unban(&mut self, user: u64) -> (r: Result<BanEntry, BanError>)
        ensures
            final(self)@ == unban_spec(old(self)@, user),
            match r {
                Ok(e) => old(self)@.contains_key(user) && old(self)@[user] == e,
                Err(err) => !old(self)@.contains_key(user) && err == BanError::NotBanned,
            },
    {
        match self.list.remove(&user) {
            Some(e) => Ok(e),
            None => {
                assert(old(self)@.remove(user) =~= old(self)@);
                Err(BanError::NotBanned)
            },
        }
    }
}

} // verus!
