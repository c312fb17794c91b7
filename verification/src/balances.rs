//! An account-to-balance book, the ledger the host credits through.

use vstd::prelude::*;
use std::collections::HashMap;
use crate::{AccountId, Balance, LedgerError};

verus! {

/// The balance credited to `a` under `m`; an absent account holds zero.
pub open spec fn spec_balance(m: Map<AccountId, Balance>, a: AccountId) -> int {
    if m.contains_key(a) {
        m[a] as int
    } else {
        0
    }
}

/// Account balances, keyed by account identity.
///
/// This is the ledger side of the host's narrow interface: the
/// allocation path credits through it, and the vesting engine's locked
/// amount bounds how far the host may debit it.
pub struct BalanceLedger {
    accounts: HashMap<AccountId, Balance>,
}

impl View for BalanceLedger {
    type V = Map<AccountId, Balance>;

    closed spec fn view(&self) -> Map<AccountId, Balance> {
        self.accounts@
    }
}

impl BalanceLedger {
    /// A book with every account at zero.
    pub fn new() -> (b: Self)
        ensures
            b@ == Map::<AccountId, Balance>::empty(),
    {
        BalanceLedger { accounts: HashMap::new() }
    }

    /// The balance currently held by `account`.
    pub fn balance_of(&self, account: AccountId) -> (b: Balance)
        ensures
            b as int == spec_balance(self@, account),
    {
        match self.accounts.get(&account) {
            Some(v) => *v,
            None => 0,
        }
    }

    /// Adds `amount` to `account`'s balance.  Fails, changing nothing,
    /// exactly when the new balance would not fit; no other account
    /// moves either way.
    pub fn credit(&mut self, account: AccountId, amount: Balance) -> (r: Result<
        (),
        LedgerError,
    >)
        ensures
            match r {
                Ok(()) => spec_balance(old(self)@, account) + amount <= u128::MAX
                    && final(self)@ == old(self)@.insert(
                    account,
                    (spec_balance(old(self)@, account) + amount) as Balance,
                ),
                Err(e) => e == LedgerError::ArithmeticOverflow && spec_balance(
                    old(self)@,
                    account,
                ) + amount > u128::MAX && *final(self) == *old(self),
            },
    {
        let cur: Balance = self.balance_of(account);
        if amount > u128::MAX - cur {
            Err(LedgerError::ArithmeticOverflow)
        } else {
            self.accounts.insert(account, cur + amount);
            Ok(())
        }
    }
}

} // verus!
