//! A permissioned token-allocation and vesting-grant ledger.
//!
//! A whitelisted set of oracle accounts may mint a capped total amount of
//! a native token to grantee accounts, each allocation carrying opaque
//! proof bytes for off-chain audit.  Independently, vesting schedules lock
//! a grantee's balance behind a cliff followed by periodic linear unlocks,
//! evaluated as a pure function of the current block height.

pub mod allocation;
pub mod balances;
pub mod genesis;
pub mod membership;
pub mod vesting;

use vstd::prelude::*;

verus! {

/// Identity of a chain participant: opaque to the ledger, compared only
/// for equality.
pub type AccountId = u64;

/// A token amount.  All arithmetic on balances is checked; silent
/// wraparound is forbidden.
pub type Balance = u128;

/// Height of the chain, supplied by the host state machine; the ledger
/// never advances it.
pub type BlockNumber = u32;

/// Why a call into the ledger was rejected.  A failing call leaves every
/// piece of state unchanged.
#[derive(Clone, Copy, Debug, PartialEq, Eq, Structural)]
pub enum LedgerError {
    /// The caller is absent from the required role set.
    NotAuthorized,
    /// The allocation would push the consumed counter over the cap.
    CapExceeded,
    /// An addition or multiplication would not fit its integer type.
    ArithmeticOverflow,
    /// The allocation's evidence bytes exceed the configured bound.
    ProofTooLarge,
    /// An allocation of zero is rejected rather than silently accepted.
    ZeroAllocation,
    /// A vesting rule whose period or period count is zero.
    InvalidSchedule,
}

} // verus!
