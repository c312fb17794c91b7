use allocations::allocation::{Allocated, AllocationLedger};
use allocations::balances::BalanceLedger;
use allocations::LedgerError;

fn oracle_ledger(max_coins: u128, max_proof: usize, oracles: &[u64]) -> AllocationLedger {
    let mut led = AllocationLedger::new(max_coins, max_proof);
    led.initialize_members(&oracles.to_vec());
    led
}

#[test]
fn allocate_then_cap_exceeded() {
    // Oracle 1 allocates 100 to grantee 2 under a cap of 150: success,
    // the counter and the balance both move by exactly 100.  A second
    // allocation of 60 would overshoot the cap: rejected, nothing moves.
    let mut led = oracle_ledger(150, 1024, &[1]);
    let mut book = BalanceLedger::new();
    let r = led.allocate(&mut book, 1, 2, 100, &vec![]);
    assert_eq!(r, Ok(Allocated { oracle: 1, grantee: 2, amount: 100 }));
    assert_eq!(led.coins_consumed(), 100);
    assert_eq!(book.balance_of(2), 100);

    let r2 = led.allocate(&mut book, 1, 2, 60, &vec![]);
    assert_eq!(r2, Err(LedgerError::CapExceeded));
    assert_eq!(led.coins_consumed(), 100);
    assert_eq!(book.balance_of(2), 100);
}

#[test]
fn exact_cap_is_allowed() {
    let mut led = oracle_ledger(150, 1024, &[1]);
    let mut book = BalanceLedger::new();
    assert!(led.allocate(&mut book, 1, 2, 150, &vec![]).is_ok());
    assert_eq!(led.coins_consumed(), 150);
    // The cap is now fully consumed: even one more unit fails.
    assert_eq!(led.allocate(&mut book, 1, 3, 1, &vec![]), Err(LedgerError::CapExceeded));
}

#[test]
fn non_oracle_is_rejected_regardless_of_amount() {
    let mut led = oracle_ledger(1_000, 1024, &[1]);
    let mut book = BalanceLedger::new();
    for amount in [0u128, 1, 500, 2_000] {
        let r = led.allocate(&mut book, 7, 2, amount, &vec![]);
        assert_eq!(r, Err(LedgerError::NotAuthorized));
    }
    assert_eq!(led.coins_consumed(), 0);
    assert_eq!(book.balance_of(2), 0);
}

#[test]
fn zero_allocation_is_rejected() {
    let mut led = oracle_ledger(1_000, 1024, &[1]);
    let mut book = BalanceLedger::new();
    assert_eq!(led.allocate(&mut book, 1, 2, 0, &vec![]), Err(LedgerError::ZeroAllocation));
    assert_eq!(led.coins_consumed(), 0);
}

#[test]
fn oversized_proof_is_rejected() {
    let mut led = oracle_ledger(1_000, 4, &[1]);
    let mut book = BalanceLedger::new();
    let r = led.allocate(&mut book, 1, 2, 10, &vec![0u8; 5]);
    assert_eq!(r, Err(LedgerError::ProofTooLarge));
    assert!(led.allocate(&mut book, 1, 2, 10, &vec![0u8; 4]).is_ok());
}

#[test]
fn counter_overflow_is_rejected() {
    let mut led = oracle_ledger(u128::MAX, 1024, &[1]);
    let mut book = BalanceLedger::new();
    assert!(led.allocate(&mut book, 1, 2, u128::MAX, &vec![]).is_ok());
    let r = led.allocate(&mut book, 1, 3, 1, &vec![]);
    assert_eq!(r, Err(LedgerError::ArithmeticOverflow));
    assert_eq!(led.coins_consumed(), u128::MAX);
}

#[test]
fn grantee_balance_overflow_is_rejected() {
    let mut led = oracle_ledger(u128::MAX, 1024, &[1]);
    let mut book = BalanceLedger::new();
    // The grantee already holds everything a balance can carry.
    book.credit(2, u128::MAX).unwrap();
    let r = led.allocate(&mut book, 1, 2, 1, &vec![]);
    assert_eq!(r, Err(LedgerError::ArithmeticOverflow));
    assert_eq!(led.coins_consumed(), 0);
    assert_eq!(book.balance_of(2), u128::MAX);
}

#[test]
fn consumed_is_the_sum_of_successes() {
    let mut led = oracle_ledger(1_000, 1024, &[1, 9]);
    let mut book = BalanceLedger::new();
    assert!(led.allocate(&mut book, 1, 2, 300, &vec![1, 2, 3]).is_ok());
    assert!(led.allocate(&mut book, 9, 3, 200, &vec![]).is_ok());
    assert_eq!(led.allocate(&mut book, 4, 3, 100, &vec![]), Err(LedgerError::NotAuthorized));
    assert!(led.allocate(&mut book, 9, 2, 500, &vec![]).is_ok());
    assert_eq!(led.coins_consumed(), 300 + 200 + 500);
    assert_eq!(book.balance_of(2), 800);
    assert_eq!(book.balance_of(3), 200);
}

#[test]
fn initialize_members_replaces_the_oracle_set() {
    let mut led = oracle_ledger(1_000, 1024, &[1, 2]);
    assert!(led.is_oracle(1));
    assert!(led.is_oracle(2));
    led.initialize_members(&vec![3]);
    assert!(!led.is_oracle(1));
    assert!(!led.is_oracle(2));
    assert!(led.is_oracle(3));
}

#[test]
fn credit_overflow_leaves_the_book_unchanged() {
    let mut book = BalanceLedger::new();
    book.credit(5, u128::MAX - 1).unwrap();
    assert_eq!(book.credit(5, 2), Err(LedgerError::ArithmeticOverflow));
    assert_eq!(book.balance_of(5), u128::MAX - 1);
    book.credit(5, 1).unwrap();
    assert_eq!(book.balance_of(5), u128::MAX);
}
