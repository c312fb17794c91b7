//! The allocation ledger: a capped, monotonically increasing counter of
//! coins handed out by whitelisted oracle accounts.

use vstd::prelude::*;
use crate::{AccountId, Balance, LedgerError};
use crate::balances::{spec_balance, BalanceLedger};
use crate::membership::AuthorizedSet;

verus! {

/// Record of one successful allocation, handed back to the host so it
/// can emit the event; the ledger's behaviour never depends on whether
/// the event is delivered.
#[derive(Clone, Copy, Debug, PartialEq, Eq, Structural)]
pub struct Allocated {
    /// The oracle that made the call.
    pub oracle: AccountId,
    /// The account that was credited.
    pub grantee: AccountId,
    /// The amount credited.
    pub amount: Balance,
}

/// One allocation request as the ledger judges it: caller, grantee,
/// amount, and the length of the attached proof bytes.
pub type AllocationRequest = (AccountId, AccountId, Balance, nat);

/// The error an allocation request is rejected with, or `None` when it
/// must succeed.  The checks are ordered: authority first, then the
/// proof bound, then the degenerate zero amount, then arithmetic and the
/// cap, then room in the grantee's balance.
pub open spec fn spec_alloc_error(
    oracles: Set<AccountId>,
    max_coins: Balance,
    max_proof_bytes: usize,
    consumed: Balance,
    bal: Map<AccountId, Balance>,
    req: AllocationRequest,
) -> Option<LedgerError> {
    if !oracles.contains(req.0) {
        Some(LedgerError::NotAuthorized)
    } else if req.3 > max_proof_bytes {
        Some(LedgerError::ProofTooLarge)
    } else if req.2 == 0 {
        Some(LedgerError::ZeroAllocation)
    } else if consumed + req.2 > u128::MAX {
        Some(LedgerError::ArithmeticOverflow)
    } else if consumed + req.2 > max_coins {
        Some(LedgerError::CapExceeded)
    } else if spec_balance(bal, req.1) + req.2 > u128::MAX {
        Some(LedgerError::ArithmeticOverflow)
    } else {
        None
    }
}

/// The counter and the balance book after one request: unchanged on a
/// rejected request, advanced by exactly the amount on a successful one.
pub open spec fn spec_alloc_step(
    oracles: Set<AccountId>,
    max_coins: Balance,
    max_proof_bytes: usize,
    st: (Balance, Map<AccountId, Balance>),
    req: AllocationRequest,
) -> (Balance, Map<AccountId, Balance>) {
    if spec_alloc_error(oracles, max_coins, max_proof_bytes, st.0, st.1, req) is None {
        (
            (st.0 + req.2) as Balance,
            st.1.insert(req.1, (spec_balance(st.1, req.1) + req.2) as Balance),
        )
    } else {
        st
    }
}

/// The counter and the balance book after a whole sequence of requests,
/// applied in order.
pub open spec fn spec_alloc_run(
    oracles: Set<AccountId>,
    max_coins: Balance,
    max_proof_bytes: usize,
    st: (Balance, Map<AccountId, Balance>),
    reqs: Seq<AllocationRequest>,
) -> (Balance, Map<AccountId, Balance>)
    decreases reqs.len(),
{
    if reqs.len() == 0 {
        st
    } else {
        spec_alloc_run(
            oracles,
            max_coins,
            max_proof_bytes,
            spec_alloc_step(oracles, max_coins, max_proof_bytes, st, reqs.first()),
            reqs.drop_first(),
        )
    }
}

/// The exact sum of the amounts of the requests of `reqs` that succeed
/// when the sequence is applied in order from `st`.
pub open spec fn spec_allocated_sum(
    oracles: Set<AccountId>,
    max_coins: Balance,
    max_proof_bytes: usize,
    st: (Balance, Map<AccountId, Balance>),
    reqs: Seq<AllocationRequest>,
) -> int
    decreases reqs.len(),
{
    if reqs.len() == 0 {
        0
    } else {
        (if spec_alloc_error(oracles, max_coins, max_proof_bytes, st.0, st.1, reqs.first())
            is None {
            reqs.first().2 as int
        } else {
            0
        }) + spec_allocated_sum(
            oracles,
            max_coins,
            max_proof_bytes,
            spec_alloc_step(oracles, max_coins, max_proof_bytes, st, reqs.first()),
            reqs.drop_first(),
        )
    }
}

/// Law: over any sequence of requests, the consumed counter ends at its
/// starting value plus the exact sum of the successfully allocated
/// amounts, and never exceeds the cap.
pub proof fn lemma_consumed_is_sum_of_allocations(
    oracles: Set<AccountId>,
    max_coins: Balance,
    max_proof_bytes: usize,
    st: (Balance, Map<AccountId, Balance>),
    reqs: Seq<AllocationRequest>,
)
    requires
        st.0 <= max_coins,
    ensures
        spec_alloc_run(oracles, max_coins, max_proof_bytes, st, reqs).0 == st.0
            + spec_allocated_sum(oracles, max_coins, max_proof_bytes, st, reqs),
        spec_alloc_run(oracles, max_coins, max_proof_bytes, st, reqs).0 <= max_coins,
    decreases reqs.len(),
{
    if reqs.len() > 0 {
        let next = spec_alloc_step(oracles, max_coins, max_proof_bytes, st, reqs.first());
        lemma_consumed_is_sum_of_allocations(
            oracles,
            max_coins,
            max_proof_bytes,
            next,
            reqs.drop_first(),
        );
    }
}

/// The capped counter of coins consumed, together with the oracle set
/// entitled to advance it and the configured bounds.
pub struct AllocationLedger {
    oracles: AuthorizedSet,
    coins_consumed: Balance,
    max_coins: Balance,
    max_proof_bytes: usize,
}

impl AllocationLedger {
    /// The accounts currently allowed to allocate.
    pub closed spec fn spec_oracles(&self) -> Set<AccountId> {
        self.oracles@
    }

    /// The cumulative amount allocated since genesis.
    pub closed spec fn spec_coins_consumed(&self) -> Balance {
        self.coins_consumed
    }

    /// The most that may ever be allocated in total.
    pub closed spec fn spec_max_coins(&self) -> Balance {
        self.max_coins
    }

    /// The longest proof-of-allocation the ledger accepts.
    pub closed spec fn spec_max_proof_bytes(&self) -> usize {
        self.max_proof_bytes
    }

    /// The standing invariant: what was consumed never exceeds the cap.
    pub open spec fn wf(&self) -> bool {
        self.spec_coins_consumed() <= self.spec_max_coins()
    }

    /// A fresh ledger: nothing consumed, nobody authorized yet.
    pub fn new(max_coins: Balance, max_proof_bytes: usize) -> (l: Self)
        ensures
            l.wf(),
            l.spec_coins_consumed() == 0,
            l.spec_max_coins() == max_coins,
            l.spec_max_proof_bytes() == max_proof_bytes,
            l.spec_oracles() == Set::<AccountId>::empty(),
    {
        AllocationLedger {
            oracles: AuthorizedSet::new(),
            coins_consumed: 0,
            max_coins,
            max_proof_bytes,
        }
    }

    /// Replaces the oracle set wholesale.  Privileged: used at genesis
    /// and by governance thereafter; the counter needs no migration
    /// since it is global, not per oracle.
    pub fn initialize_members(&mut self, accounts: &Vec<AccountId>)
        ensures
            forall|a: AccountId|
                final(self).spec_oracles().contains(a) <==> accounts@.contains(a),
            final(self).spec_coins_consumed() == old(self).spec_coins_consumed(),
            final(self).spec_max_coins() == old(self).spec_max_coins(),
            final(self).spec_max_proof_bytes() == old(self).spec_max_proof_bytes(),
    {
        self.oracles.set_members(accounts);
    }

    /// Whether `account` may allocate.
    pub fn is_oracle(&self, account: AccountId) -> (r: bool)
        ensures
            r == self.spec_oracles().contains(account),
    {
        self.oracles.contains(account)
    }

    /// The cumulative amount allocated since genesis.
    pub fn coins_consumed(&self) -> (c: Balance)
        ensures
            c == self.spec_coins_consumed(),
    {
        self.coins_consumed
    }

    /// The most that may ever be allocated in total.
    pub fn max_coins(&self) -> (m: Balance)
        ensures
            m == self.spec_max_coins(),
    {
        self.max_coins
    }

    /// The longest proof-of-allocation the ledger accepts.
    pub fn max_proof_bytes(&self) -> (m: usize)
        ensures
            m == self.spec_max_proof_bytes(),
    {
        self.max_proof_bytes
    }

    /// Allocates `amount` to `grantee` on behalf of `caller`, crediting
    /// the balance book and advancing the consumed counter as one
    /// atomic step.
    ///
    /// Succeeds exactly when `caller` is an oracle, the proof bytes fit
    /// the configured bound, the amount is positive, the counter stays
    /// within the cap, and the grantee's balance still has room; a
    /// rejected call returns the first applicable error and changes
    /// nothing.  The proof bytes are opaque evidence: the ledger bounds
    /// their length and otherwise hands them back to the host untouched
    /// inside the event it returns for emission.
    pub fn allocate(
        &mut self,
        book: &mut BalanceLedger,
        caller: AccountId,
        grantee: AccountId,
        amount: Balance,
        proof: &Vec<u8>,
    ) -> (r: Result<Allocated, LedgerError>)
        requires
            old(self).wf(),
        ensures
            final(self).wf(),
            final(self).spec_oracles() == old(self).spec_oracles(),
            final(self).spec_max_coins() == old(self).spec_max_coins(),
            final(self).spec_max_proof_bytes() == old(self).spec_max_proof_bytes(),
            (final(self).spec_coins_consumed(), final(book)@) == spec_alloc_step(
                old(self).spec_oracles(),
                old(self).spec_max_coins(),
                old(self).spec_max_proof_bytes(),
                (old(self).spec_coins_consumed(), old(book)@),
                (caller, grantee, amount, proof@.len()),
            ),
            match r {
                Ok(ev) => spec_alloc_error(
                    old(self).spec_oracles(),
                    old(self).spec_max_coins(),
                    old(self).spec_max_proof_bytes(),
                    old(self).spec_coins_consumed(),
                    old(book)@,
                    (caller, grantee, amount, proof@.len()),
                ) is None && final(self).spec_coins_consumed() == old(
                    self,
                ).spec_coins_consumed() + amount && ev == (Allocated {
                    oracle: caller,
                    grantee,
                    amount,
                }),
                Err(e) => Some(e) == spec_alloc_error(
                    old(self).spec_oracles(),
                    old(self).spec_max_coins(),
                    old(self).spec_max_proof_bytes(),
                    old(self).spec_coins_consumed(),
                    old(book)@,
                    (caller, grantee, amount, proof@.len()),
                ) && *final(self) == *old(self) && *final(book) == *old(book),
            },
    {
        if !self.oracles.contains(caller) {
            return Err(LedgerError::NotAuthorized);
        }
        if proof.len() > self.max_proof_bytes {
            return Err(LedgerError::ProofTooLarge);
        }
        if amount == 0 {
            return Err(LedgerError::ZeroAllocation);
        }
        if amount > u128::MAX - self.coins_consumed {
            return Err(LedgerError::ArithmeticOverflow);
        }
        let new_total: Balance = self.coins_consumed + amount;
        if new_total > self.max_coins {
            return Err(LedgerError::CapExceeded);
        }
        let cur: Balance = book.balance_of(grantee);
        if amount > u128::MAX - cur {
            return Err(LedgerError::ArithmeticOverflow);
        }
        match book.credit(grantee, amount) {
            Ok(()) => {
                self.coins_consumed = new_total;
                Ok(Allocated { oracle: caller, grantee, amount })
            },
            Err(_) => {
                proof {
                    assert(false);
                }
                Err(LedgerError::ArithmeticOverflow)
            },
        }
    }
}

} // verus!
