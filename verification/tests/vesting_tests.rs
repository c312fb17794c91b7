use allocations::vesting::{VestingRule, VestingSchedules};
use allocations::LedgerError;

fn rule(start: u32, period: u32, period_count: u32, per_period_amount: u128) -> VestingRule {
    VestingRule { start, period, period_count, per_period_amount, cliff_amount: 0 }
}

#[test]
fn cliff_rule_unlocks_all_at_start() {
    // A one-period rule is a pure cliff: everything stays locked up to
    // the block before `start` and nothing from it afterwards.
    let mut vs = VestingSchedules::new();
    vs.add_schedule(5, &vec![rule(1000, 1, 1, 1000)]).unwrap();
    assert_eq!(vs.locked_balance(5, 0), 1000);
    assert_eq!(vs.locked_balance(5, 999), 1000);
    assert_eq!(vs.locked_balance(5, 1000), 0);
    assert_eq!(vs.locked_balance(5, 100_000), 0);
}

#[test]
fn linear_rule_unlocks_per_period() {
    let mut vs = VestingSchedules::new();
    vs.add_schedule(5, &vec![rule(2000, 1000, 100, 100)]).unwrap();
    let total = 100 * 100u128;
    assert_eq!(vs.locked_balance(5, 1999), total);
    // The first periodic amount unlocks at start.
    assert_eq!(vs.locked_balance(5, 2000), total - 100);
    assert_eq!(vs.locked_balance(5, 2999), total - 100);
    assert_eq!(vs.locked_balance(5, 3000), total - 200);
    // At start + period_count * period everything has unlocked.
    assert_eq!(vs.locked_balance(5, 102_000), 0);
    assert_eq!(vs.locked_balance(5, 200_000), 0);
}

#[test]
fn rules_of_one_grantee_are_summed() {
    // The launch-grant shape: a cliff of 1000 at block 1000, then 100
    // more every 1000 blocks from block 2000 on.
    let mut vs = VestingSchedules::new();
    vs.add_schedule(5, &vec![rule(1000, 1, 1, 1000)]).unwrap();
    vs.add_schedule(5, &vec![rule(2000, 1000, 100, 100)]).unwrap();
    assert_eq!(vs.locked_balance(5, 999), 1000 + 10_000);
    assert_eq!(vs.locked_balance(5, 1000), 10_000);
    assert_eq!(vs.locked_balance(5, 2000), 9_900);
    assert_eq!(vs.locked_balance(5, 3000), 9_800);
    assert_eq!(vs.locked_balance(5, 102_000), 0);
}

#[test]
fn explicit_cliff_amount_joins_the_first_period() {
    let mut vs = VestingSchedules::new();
    let r = VestingRule {
        start: 10,
        period: 5,
        period_count: 4,
        per_period_amount: 25,
        cliff_amount: 300,
    };
    vs.add_schedule(8, &vec![r]).unwrap();
    // Total grant: 300 cliff + 4 * 25 periodic.
    assert_eq!(vs.locked_balance(8, 9), 400);
    // At start the cliff and the first periodic amount unlock together.
    assert_eq!(vs.locked_balance(8, 10), 75);
    assert_eq!(vs.locked_balance(8, 14), 75);
    assert_eq!(vs.locked_balance(8, 15), 50);
    assert_eq!(vs.locked_balance(8, 20), 25);
    assert_eq!(vs.locked_balance(8, 25), 0);
}

#[test]
fn locked_balance_never_increases_with_height() {
    let mut vs = VestingSchedules::new();
    vs.add_schedule(5, &vec![rule(1000, 1, 1, 1000), rule(2000, 1000, 100, 100)]).unwrap();
    let mut last = vs.locked_balance(5, 0);
    for at in (0..110_000).step_by(250) {
        let now = vs.locked_balance(5, at);
        assert!(now <= last, "locked amount rose between heights");
        last = now;
    }
}

#[test]
fn zero_period_is_rejected() {
    let mut vs = VestingSchedules::new();
    let r = vs.add_schedule(5, &vec![rule(1000, 0, 10, 100)]);
    assert_eq!(r, Err(LedgerError::InvalidSchedule));
    assert_eq!(vs.locked_balance(5, 0), 0);
}

#[test]
fn zero_period_count_is_rejected() {
    let mut vs = VestingSchedules::new();
    let r = vs.add_schedule(5, &vec![rule(1000, 10, 0, 100)]);
    assert_eq!(r, Err(LedgerError::InvalidSchedule));
}

#[test]
fn one_bad_rule_rejects_the_whole_batch() {
    let mut vs = VestingSchedules::new();
    let r = vs.add_schedule(5, &vec![rule(1000, 1, 1, 1000), rule(2000, 0, 100, 100)]);
    assert_eq!(r, Err(LedgerError::InvalidSchedule));
    // The good rule of the batch was not kept either.
    assert_eq!(vs.locked_balance(5, 0), 0);
}

#[test]
fn overflowing_rule_total_is_rejected() {
    let mut vs = VestingSchedules::new();
    let r = vs.add_schedule(5, &vec![rule(0, 1, 3, u128::MAX / 2)]);
    assert_eq!(r, Err(LedgerError::ArithmeticOverflow));
}

#[test]
fn overflowing_grand_total_is_rejected() {
    let mut vs = VestingSchedules::new();
    vs.add_schedule(5, &vec![rule(0, 1, 1, u128::MAX)]).unwrap();
    let r = vs.add_schedule(5, &vec![rule(0, 1, 1, 1)]);
    assert_eq!(r, Err(LedgerError::ArithmeticOverflow));
    // The same rule is fine for a grantee whose totals still have room.
    assert!(vs.add_schedule(6, &vec![rule(0, 1, 1, 1)]).is_ok());
}

#[test]
fn grantees_are_independent() {
    let mut vs = VestingSchedules::new();
    vs.add_schedule(5, &vec![rule(1000, 1, 1, 1000)]).unwrap();
    assert_eq!(vs.locked_balance(6, 0), 0);
    vs.add_schedule(6, &vec![rule(50, 10, 2, 7)]).unwrap();
    assert_eq!(vs.locked_balance(5, 999), 1000);
    assert_eq!(vs.locked_balance(6, 49), 14);
    assert_eq!(vs.locked_balance(6, 50), 7);
    assert_eq!(vs.locked_balance(6, 60), 0);
}
