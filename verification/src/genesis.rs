//! The genesis configuration the bootstrap hands the chain: initial
//! balances, committee memberships and vesting grants, built once from
//! plain account lists.

use vstd::prelude::*;
use crate::{AccountId, Balance};
use crate::vesting::VestingRule;

verus! {

/// One whole native token in base units.
pub const UNIT: Balance = 100_000_000_000;

/// What every endowed, oracle and root account starts with.
pub const ENDOWMENT: Balance = 100 * UNIT;

/// Extra data a chain specification carries beside the genesis state:
/// which relay chain the parachain follows, and under which id.
#[derive(Clone, Debug, PartialEq, Eq)]
pub struct Extensions {
    /// The relay chain of the parachain.
    pub relay_chain: String,
    /// The id of the parachain.
    pub para_id: u32,
}

/// The initial state of the ledger, as the host seeds it exactly once
/// at chain start and never again.
pub struct GenesisSpec {
    /// Every account endowed at genesis, with its starting balance.
    pub balances: Vec<(AccountId, Balance)>,
    /// The technical committee.
    pub technical_members: Vec<AccountId>,
    /// The financial committee.
    pub financial_members: Vec<AccountId>,
    /// The root committee.
    pub root_members: Vec<AccountId>,
    /// The oracle set of the allocation ledger; empty at genesis and
    /// filled by governance afterwards.
    pub oracle_members: Vec<AccountId>,
    /// The vesting grants, one rule list per grantee.
    pub grants: Vec<(AccountId, Vec<VestingRule>)>,
}

/// Builds the test-network genesis state: `roots` seed all three
/// committees, and every account of `roots`, `oracles` and
/// `endowed_accounts` starts with the standard endowment, in that
/// order — endowed accounts first, then oracles, then roots.  The
/// oracle set of the allocation ledger itself starts empty.
pub fn testnet_genesis(
    roots: &Vec<AccountId>,
    oracles: &Vec<AccountId>,
    endowed_accounts: &Vec<AccountId>,
    grants: Vec<(AccountId, Vec<VestingRule>)>,
) -> (g: GenesisSpec)
    ensures
        g.balances@.len() == endowed_accounts@.len() + oracles@.len() + roots@.len(),
        forall|i: int|
            0 <= i < endowed_accounts@.len() ==> g.balances@[i] == (
            endowed_accounts@[i],
            ENDOWMENT,
            ),
        forall|i: int|
            0 <= i < oracles@.len() ==> g.balances@[endowed_accounts@.len() + i] == (
            oracles@[i],
            ENDOWMENT,
            ),
        forall|i: int|
            0 <= i < roots@.len() ==> g.balances@[endowed_accounts@.len() + oracles@.len() + i]
                == (roots@[i], ENDOWMENT),
        g.technical_members@ == roots@,
        g.financial_members@ == roots@,
        g.root_members@ == roots@,
        g.oracle_members@ == Seq::<AccountId>::empty(),
        g.grants == grants,
{
    let mut balances: Vec<(AccountId, Balance)> = Vec::new();
    let mut i: usize = 0;
    while i < endowed_accounts.len()
        invariant
            i <= endowed_accounts.len(),
            balances@.len() == i,
            forall|j: int|
                0 <= j < i ==> balances@[j] == (endowed_accounts@[j], ENDOWMENT),
        decreases endowed_accounts.len() - i,
    {
        balances.push((endowed_accounts[i], ENDOWMENT));
        i += 1;
    }
    let mut i: usize = 0;
    while i < oracles.len()
        invariant
            i <= oracles.len(),
            balances@.len() == endowed_accounts@.len() + i,
            forall|j: int|
                0 <= j < endowed_accounts@.len() ==> balances@[j] == (
                endowed_accounts@[j],
                ENDOWMENT,
                ),
            forall|j: int|
                0 <= j < i ==> balances@[endowed_accounts@.len() + j] == (
                oracles@[j],
                ENDOWMENT,
                ),
        decreases oracles.len() - i,
    {
        balances.push((oracles[i], ENDOWMENT));
        i += 1;
    }
    let mut i: usize = 0;
    while i < roots.len()
        invariant
            i <= roots.len(),
            balances@.len() == endowed_accounts@.len() + oracles@.len() + i,
            forall|j: int|
                0 <= j < endowed_accounts@.len() ==> balances@[j] == (
                endowed_accounts@[j],
                ENDOWMENT,
                ),
            forall|j: int|
                0 <= j < oracles@.len() ==> balances@[endowed_accounts@.len() + j] == (
                oracles@[j],
                ENDOWMENT,
                ),
            forall|j: int|
                0 <= j < i ==> balances@[endowed_accounts@.len() + oracles@.len() + j] == (
                roots@[j],
                ENDOWMENT,
                ),
        decreases roots.len() - i,
    {
        balances.push((roots[i], ENDOWMENT));
        i += 1;
    }
    GenesisSpec {
        balances,
        technical_members: clone_accounts(roots),
        financial_members: clone_accounts(roots),
        root_members: clone_accounts(roots),
        oracle_members: Vec::new(),
        grants,
    }
}

/// A fresh vector holding the same accounts in the same order.
fn clone_accounts(accounts: &Vec<AccountId>) -> (c: Vec<AccountId>)
    ensures
        c@ == accounts@,
{
    let mut c: Vec<AccountId> = Vec::new();
    let mut i: usize = 0;
    while i < accounts.len()
        invariant
            i <= accounts.len(),
            c@ == accounts@.take(i as int),
        decreases accounts.len() - i,
    {
        c.push(accounts[i]);
        proof {
            assert(c@ =~= accounts@.take(i as int + 1));
        }
        i += 1;
    }
    proof {
        assert(c@ =~= accounts@);
    }
    c
}

} // verus!
