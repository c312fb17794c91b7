//! Replaceable sets of accounts granted one capability each.

use vstd::prelude::*;
use std::collections::HashSet;
use crate::AccountId;

verus! {

/// A set of accounts holding one capability.
///
/// One generic component backs every role — the allocation oracles and
/// each governance tier.  Membership is a plain set: insertion order is
/// irrelevant and duplicate accounts in an input list collapse.
pub struct AuthorizedSet {
    members: HashSet<AccountId>,
}

impl View for AuthorizedSet {
    type V = Set<AccountId>;

    closed spec fn view(&self) -> Set<AccountId> {
        self.members@
    }
}

impl AuthorizedSet {
    /// An empty set: nobody holds the capability yet.
    pub fn new() -> (s: Self)
        ensures
            s@ == Set::<AccountId>::empty(),
    {
        AuthorizedSet { members: HashSet::new() }
    }

    /// Whether `account` currently holds the capability.
    pub fn contains(&self, account: AccountId) -> (r: bool)
        ensures
            r == self@.contains(account),
    {
        self.members.contains(&account)
    }

    /// Replaces the whole set with the accounts of `accounts`,
    /// collapsing duplicates.  Privileged: reachable only through
    /// governance entry points of the host.
    pub fn set_members(&mut self, accounts: &Vec<AccountId>)
        ensures
            forall|a: AccountId| final(self)@.contains(a) <==> accounts@.contains(a),
    {
        let mut fresh: HashSet<AccountId> = HashSet::new();
        let mut i: usize = 0;
        while i < accounts.len()
            invariant
                i <= accounts.len(),
                forall|a: AccountId|
                    fresh@.contains(a) <==> exists|j: int|
                        0 <= j < i && accounts@[j] == a,
            decreases accounts.len() - i,
        {
            fresh.insert(accounts[i]);
            i += 1;
        }
        self.members = fresh;
    }
}

/// The four role sets the chain distinguishes.
#[derive(Clone, Copy, Debug, PartialEq, Eq, Structural)]
pub enum Role {
    /// Allowed to allocate coins.
    Oracle,
    /// Technical committee.
    Technical,
    /// Financial committee.
    Financial,
    /// Root committee.
    Root,
}

/// The registry of all role sets, read before permitting a privileged
/// call.  The sets are independent; nothing prevents one account from
/// holding several roles.
pub struct MembershipRegistry {
    oracles: AuthorizedSet,
    technical: AuthorizedSet,
    financial: AuthorizedSet,
    root: AuthorizedSet,
}

impl MembershipRegistry {
    /// The accounts currently holding `role`.
    pub closed spec fn role_members(&self, role: Role) -> Set<AccountId> {
        match role {
            Role::Oracle => self.oracles@,
            Role::Technical => self.technical@,
            Role::Financial => self.financial@,
            Role::Root => self.root@,
        }
    }

    /// A registry with every role set empty.
    pub fn new() -> (r: Self)
        ensures
            forall|role: Role| r.role_members(role) == Set::<AccountId>::empty(),
    {
        MembershipRegistry {
            oracles: AuthorizedSet::new(),
            technical: AuthorizedSet::new(),
            financial: AuthorizedSet::new(),
            root: AuthorizedSet::new(),
        }
    }

    /// Whether `account` currently holds `role`.
    pub fn is_member(&self, role: Role, account: AccountId) -> (r: bool)
        ensures
            r == self.role_members(role).contains(account),
    {
        match role {
            Role::Oracle => self.oracles.contains(account),
            Role::Technical => self.technical.contains(account),
            Role::Financial => self.financial.contains(account),
            Role::Root => self.root.contains(account),
        }
    }

    /// Replaces the set for `role` atomically, leaving the other roles
    /// untouched.  Privileged.
    pub fn set_members(&mut self, role: Role, accounts: &Vec<AccountId>)
        ensures
            forall|a: AccountId|
                final(self).role_members(role).contains(a) <==> accounts@.contains(a),
            forall|other: Role|
                other != role ==> final(self).role_members(other)
                    == old(self).role_members(other),
    {
        match role {
            Role::Oracle => self.oracles.set_members(accounts),
            Role::Technical => self.technical.set_members(accounts),
            Role::Financial => self.financial.set_members(accounts),
            Role::Root => self.root.set_members(accounts),
        }
    }
}

} // verus!
