//! The vesting schedule engine: per-grantee unlock rules and the pure
//! locked-balance query the host consults before permitting a debit.

use vstd::prelude::*;
use std::collections::HashMap;
use crate::{AccountId, Balance, BlockNumber, LedgerError};

verus! {

/// One unlock rule of a grantee's schedule.
///
/// Before `start` nothing from the rule is unlocked.  At `start` the
/// one-time `cliff_amount` unlocks together with the first of
/// `period_count` periodic unlocks; every `period` blocks thereafter one
/// further `per_period_amount` unlocks, until all periods have elapsed.
#[derive(Clone, Copy, Debug, PartialEq, Eq, Structural)]
pub struct VestingRule {
    /// First block at which anything unlocks.
    pub start: BlockNumber,
    /// Distance in blocks between two periodic unlocks; never zero.
    pub period: BlockNumber,
    /// How many periodic unlocks the rule grants; never zero.
    pub period_count: u32,
    /// Amount unlocked by each elapsed period.
    pub per_period_amount: Balance,
    /// One-time amount unlocked at `start`, on top of the first period.
    pub cliff_amount: Balance,
}

/// Everything the rule will ever unlock.
pub open spec fn rule_total(r: VestingRule) -> int {
    r.cliff_amount + (r.period_count as int) * (r.per_period_amount as int)
}

/// A rule the engine accepts: unlocking is computable (no zero period)
/// and not degenerate (no zero period count).
pub open spec fn rule_shape_ok(r: VestingRule) -> bool {
    r.period >= 1 && r.period_count >= 1
}

/// A rule as it is stored: well shaped, with a total that fits a balance.
pub open spec fn rule_valid(r: VestingRule) -> bool {
    rule_shape_ok(r) && rule_total(r) <= u128::MAX
}

/// The amount the rule has unlocked at height `at`: nothing before
/// `start`; from `start` on, the cliff plus one periodic amount for the
/// period beginning at `start` and one more for every further `period`
/// elapsed blocks, capped at `period_count`.
pub open spec fn rule_unlocked(r: VestingRule, at: int) -> int {
    if at < r.start as int {
        0
    } else {
        let full = (at - r.start as int) / (r.period as int) + 1;
        let elapsed = if full > r.period_count as int {
            r.period_count as int
        } else {
            full
        };
        r.cliff_amount + elapsed * (r.per_period_amount as int)
    }
}

/// What the rule still keeps locked at height `at`.
pub open spec fn rule_locked(r: VestingRule, at: int) -> int {
    rule_total(r) - rule_unlocked(r, at)
}

/// The sum of the totals of a sequence of rules.
pub open spec fn totals_sum(rules: Seq<VestingRule>) -> int
    decreases rules.len(),
{
    if rules.len() == 0 {
        0
    } else {
        totals_sum(rules.drop_last()) + rule_total(rules.last())
    }
}

/// The sum of the locked contributions of a sequence of rules.
pub open spec fn locked_sum(rules: Seq<VestingRule>, at: int) -> int
    decreases rules.len(),
{
    if rules.len() == 0 {
        0
    } else {
        locked_sum(rules.drop_last(), at) + rule_locked(rules.last(), at)
    }
}

/// Every rule of the sequence is valid.
pub open spec fn all_valid(rules: Seq<VestingRule>) -> bool {
    forall|i: int| 0 <= i < rules.len() ==> rule_valid(#[trigger] rules[i])
}

/// The standing invariant of the stored schedules: every rule is valid
/// and each grantee's grand total fits a balance, so the locked sum
/// always fits one too.
pub open spec fn schedule_map_wf(m: Map<AccountId, Vec<VestingRule>>) -> bool {
    forall|a: AccountId|
        #[trigger] m.contains_key(a) ==> all_valid(m[a]@) && totals_sum(m[a]@) <= u128::MAX
}

/// The rules currently stored for `grantee`, empty for an unknown one.
pub open spec fn spec_rules_of(m: Map<AccountId, Vec<VestingRule>>, grantee: AccountId) -> Seq<
    VestingRule,
> {
    if m.contains_key(grantee) {
        m[grantee]@
    } else {
        Seq::<VestingRule>::empty()
    }
}

/// The amount of `grantee`'s balance still locked at height `at`.
pub open spec fn spec_locked_balance(
    m: Map<AccountId, Vec<VestingRule>>,
    grantee: AccountId,
    at: int,
) -> int {
    locked_sum(spec_rules_of(m, grantee), at)
}

/// A rule never unlocks a negative amount, nor more than its total.
pub proof fn lemma_rule_unlocked_bounds(r: VestingRule, at: int)
    requires
        rule_shape_ok(r),
    ensures
        0 <= rule_unlocked(r, at),
        rule_unlocked(r, at) <= rule_total(r),
{
    broadcast use vstd::arithmetic::mul::lemma_mul_inequality;
    broadcast use vstd::arithmetic::mul::lemma_mul_nonnegative;

    if at >= r.start as int {
        let full = (at - r.start as int) / (r.period as int) + 1;
        vstd::arithmetic::div_mod::lemma_div_pos_is_pos(at - r.start as int, r.period as int);
        let elapsed = if full > r.period_count as int {
            r.period_count as int
        } else {
            full
        };
        assert(0 <= elapsed <= r.period_count as int);
        assert(elapsed * (r.per_period_amount as int) <= (r.period_count as int) * (
        r.per_period_amount as int));
    } else {
        assert((r.period_count as int) * (r.per_period_amount as int) >= 0);
    }
}

/// What a rule keeps locked never increases with the block height.
pub proof fn lemma_rule_unlocked_monotonic(r: VestingRule, a1: int, a2: int)
    requires
        rule_shape_ok(r),
        a1 <= a2,
    ensures
        rule_unlocked(r, a1) <= rule_unlocked(r, a2),
        rule_locked(r, a2) <= rule_locked(r, a1),
{
    broadcast use vstd::arithmetic::mul::lemma_mul_inequality;

    if a1 < r.start as int {
        lemma_rule_unlocked_bounds(r, a2);
    } else {
        vstd::arithmetic::div_mod::lemma_div_is_ordered(
            a1 - r.start as int,
            a2 - r.start as int,
            r.period as int,
        );
    }
}

/// At or past `start + period_count * period` a rule is fully unlocked:
/// its locked contribution is exactly zero.
pub proof fn lemma_rule_fully_vested(r: VestingRule, at: int)
    requires
        rule_shape_ok(r),
        at >= r.start as int + (r.period_count as int) * (r.period as int),
    ensures
        rule_locked(r, at) == 0,
{
    broadcast use vstd::arithmetic::mul::lemma_mul_nonnegative;

    let pc = r.period_count as int;
    let p = r.period as int;
    assert(at >= r.start as int);
    vstd::arithmetic::div_mod::lemma_div_is_ordered(pc * p, at - r.start as int, p);
    vstd::arithmetic::div_mod::lemma_div_by_multiple(pc, p);
    assert((pc * p) / p == pc);
    assert((at - r.start as int) / p >= pc);
}

/// The locked sum of a rule sequence is nonnegative and bounded by the
/// sum of the rules' totals.
pub proof fn lemma_locked_sum_bounds(rules: Seq<VestingRule>, at: int)
    requires
        all_valid(rules),
    ensures
        0 <= locked_sum(rules, at),
        locked_sum(rules, at) <= totals_sum(rules),
    decreases rules.len(),
{
    if rules.len() > 0 {
        assert(all_valid(rules.drop_last())) by {
            assert(forall|i: int|
                0 <= i < rules.len() - 1 ==> rules.drop_last()[i] == #[trigger] rules[i]);
        }
        lemma_locked_sum_bounds(rules.drop_last(), at);
        lemma_rule_unlocked_bounds(rules.last(), at);
    }
}

/// Law: for fixed rules, the locked sum never increases as the block
/// height increases.
pub proof fn lemma_locked_sum_monotonic(rules: Seq<VestingRule>, a1: int, a2: int)
    requires
        all_valid(rules),
        a1 <= a2,
    ensures
        locked_sum(rules, a2) <= locked_sum(rules, a1),
    decreases rules.len(),
{
    if rules.len() > 0 {
        assert(all_valid(rules.drop_last())) by {
            assert(forall|i: int|
                0 <= i < rules.len() - 1 ==> rules.drop_last()[i] == #[trigger] rules[i]);
        }
        lemma_locked_sum_monotonic(rules.drop_last(), a1, a2);
        lemma_rule_unlocked_monotonic(rules.last(), a1, a2);
    }
}

/// Law: `locked_balance` is monotonically non-increasing in the block
/// height, for any grantee of a well-formed schedule store.
pub proof fn lemma_locked_balance_monotonic(
    m: Map<AccountId, Vec<VestingRule>>,
    grantee: AccountId,
    a1: int,
    a2: int,
)
    requires
        schedule_map_wf(m),
        a1 <= a2,
    ensures
        spec_locked_balance(m, grantee, a2) <= spec_locked_balance(m, grantee, a1),
{
    if m.contains_key(grantee) {
        lemma_locked_sum_monotonic(m[grantee]@, a1, a2);
    }
}

/// Law: once every rule of a schedule is past its last period, the
/// whole schedule is fully unlocked — the locked sum is exactly zero.
pub proof fn lemma_schedule_fully_vested(rules: Seq<VestingRule>, at: int)
    requires
        all_valid(rules),
        forall|i: int|
            0 <= i < rules.len() ==> at >= (#[trigger] rules[i]).start as int + (
            rules[i].period_count as int) * (rules[i].period as int),
    ensures
        locked_sum(rules, at) == 0,
    decreases rules.len(),
{
    if rules.len() > 0 {
        assert(forall|i: int|
            0 <= i < rules.len() - 1 ==> rules.drop_last()[i] == #[trigger] rules[i]);
        lemma_schedule_fully_vested(rules.drop_last(), at);
        assert(rules.last() == rules[rules.len() - 1]);
        lemma_rule_fully_vested(rules.last(), at);
    }
}

/// Splitting off the element at `i`: the totals of a longer prefix.
proof fn lemma_totals_sum_take_next(rules: Seq<VestingRule>, i: int)
    requires
        0 <= i < rules.len(),
    ensures
        totals_sum(rules.take(i + 1)) == totals_sum(rules.take(i)) + rule_total(rules[i]),
{
    assert(rules.take(i + 1).drop_last() =~= rules.take(i));
    assert(rules.take(i + 1).last() == rules[i]);
}

/// Splitting off the element at `i`: the locked sum of a longer prefix.
proof fn lemma_locked_sum_take_next(rules: Seq<VestingRule>, i: int, at: int)
    requires
        0 <= i < rules.len(),
    ensures
        locked_sum(rules.take(i + 1), at) == locked_sum(rules.take(i), at) + rule_locked(
            rules[i],
            at,
        ),
{
    assert(rules.take(i + 1).drop_last() =~= rules.take(i));
    assert(rules.take(i + 1).last() == rules[i]);
}

/// The per-grantee schedule store.
///
/// Rules are only ever appended — by genesis or by privileged calls —
/// and every stored rule has been validated, so the locked query can
/// never divide by zero nor overflow.
pub struct VestingSchedules {
    schedules: HashMap<AccountId, Vec<VestingRule>>,
}

impl View for VestingSchedules {
    type V = Map<AccountId, Vec<VestingRule>>;

    closed spec fn view(&self) -> Map<AccountId, Vec<VestingRule>> {
        self.schedules@
    }
}

impl VestingSchedules {
    /// The standing invariant of the store.
    pub open spec fn wf(&self) -> bool {
        schedule_map_wf(self@)
    }

    /// An empty store: nothing is locked for anybody.
    pub fn new() -> (s: Self)
        ensures
            s.wf(),
            s@ == Map::<AccountId, Vec<VestingRule>>::empty(),
    {
        VestingSchedules { schedules: HashMap::new() }
    }

    /// Appends `rules` to `grantee`'s schedule, keeping whatever rules
    /// the grantee already had.
    ///
    /// Rejects the whole batch, changing nothing, if any rule has a
    /// zero period or zero period count (`InvalidSchedule`), or if the
    /// grantee's grand total — existing rules included — would no
    /// longer fit a balance (`ArithmeticOverflow`).
    pub fn add_schedule(&mut self, grantee: AccountId, rules: &Vec<VestingRule>) -> (r: Result<
        (),
        LedgerError,
    >)
        requires
            old(self).wf(),
        ensures
            final(self).wf(),
            match r {
                Ok(()) => {
                    &&& !(exists|i: int|
                        0 <= i < rules@.len() && !rule_shape_ok(#[trigger] rules@[i]))
                    &&& totals_sum(spec_rules_of(old(self)@, grantee)) + totals_sum(rules@)
                        <= u128::MAX
                    &&& final(self)@.contains_key(grantee)
                    &&& final(self)@[grantee]@ == spec_rules_of(old(self)@, grantee) + rules@
                    &&& forall|a: AccountId|
                        a != grantee ==> (final(self)@.contains_key(a) <==> old(
                            self,
                        )@.contains_key(a))
                    &&& forall|a: AccountId|
                        a != grantee && old(self)@.contains_key(a) ==> final(self)@[a] == old(
                            self,
                        )@[a]
                },
                Err(e) => {
                    &&& *final(self) == *old(self)
                    &&& if exists|i: int|
                        0 <= i < rules@.len() && !rule_shape_ok(#[trigger] rules@[i]) {
                        e == LedgerError::InvalidSchedule
                    } else {
                        e == LedgerError::ArithmeticOverflow && totals_sum(
                            spec_rules_of(old(self)@, grantee),
                        ) + totals_sum(rules@) > u128::MAX
                    }
                },
            },
    {
        let mut i: usize = 0;
        while i < rules.len()
            invariant
                i <= rules.len(),
                *self == *old(self),
                old(self).wf(),
                forall|j: int| 0 <= j < i ==> rule_shape_ok(#[trigger] rules@[j]),
            decreases rules.len() - i,
        {
            if rules[i].period == 0 || rules[i].period_count == 0 {
                proof {
                    assert(!rule_shape_ok(rules@[i as int]));
                }
                return Err(LedgerError::InvalidSchedule);
            }
            i += 1;
        }
        let existing_total: Balance = match self.schedules.get(&grantee) {
            Some(ex) => {
                proof {
                    assert(self@.contains_key(grantee));
                }
                Self::totals_of(ex)
            },
            None => 0,
        };
        let mut sum: Balance = existing_total;
        let mut i: usize = 0;
        while i < rules.len()
            invariant
                i <= rules.len(),
                *self == *old(self),
                old(self).wf(),
                forall|j: int| 0 <= j < i ==> rule_total(#[trigger] rules@[j]) <= u128::MAX,
                forall|j: int| 0 <= j < rules@.len() ==> rule_shape_ok(#[trigger] rules@[j]),
                sum as int == totals_sum(spec_rules_of(self@, grantee)) + totals_sum(
                    rules@.take(i as int),
                ),
            decreases rules.len() - i,
        {
            let r = rules[i];
            let total: Balance = match (r.period_count as u128).checked_mul(r.per_period_amount) {
                Some(p) => {
                    match p.checked_add(r.cliff_amount) {
                        Some(t) => t,
                        None => {
                            proof {
                                overflow_means_sum_overflows(self@, grantee, rules@, i as int);
                            }
                            return Err(LedgerError::ArithmeticOverflow);
                        },
                    }
                },
                None => {
                    proof {
                        overflow_means_sum_overflows(self@, grantee, rules@, i as int);
                    }
                    return Err(LedgerError::ArithmeticOverflow);
                },
            };
            let new_sum: Balance = match sum.checked_add(total) {
                Some(s) => s,
                None => {
                    proof {
                        overflow_means_sum_overflows(self@, grantee, rules@, i as int);
                    }
                    return Err(LedgerError::ArithmeticOverflow);
                },
            };
            proof {
                lemma_totals_sum_take_next(rules@, i as int);
            }
            sum = new_sum;
            i += 1;
        }
        proof {
            assert(rules@.take(rules@.len() as int) =~= rules@);
            assert(all_valid(rules@));
        }
        let mut combined: Vec<VestingRule> = Vec::new();
        match self.schedules.get(&grantee) {
            Some(ex) => {
                let mut j: usize = 0;
                while j < ex.len()
                    invariant
                        j <= ex.len(),
                        combined@ == ex@.take(j as int),
                    decreases ex.len() - j,
                {
                    combined.push(ex[j]);
                    proof {
                        assert(combined@ =~= ex@.take(j as int + 1));
                    }
                    j += 1;
                }
                proof {
                    assert(combined@ =~= ex@);
                }
            },
            None => {},
        }
        let ghost existing_seq = spec_rules_of(self@, grantee);
        proof {
            assert(combined@ =~= existing_seq + rules@.take(0));
        }
        let mut j: usize = 0;
        while j < rules.len()
            invariant
                j <= rules.len(),
                combined@ == existing_seq + rules@.take(j as int),
            decreases rules.len() - j,
        {
            combined.push(rules[j]);
            proof {
                assert(combined@ =~= existing_seq + rules@.take(j as int + 1));
            }
            j += 1;
        }
        proof {
            assert(combined@ =~= existing_seq + rules@);
            lemma_combined_wf(self@, grantee, rules@, combined@);
        }
        self.schedules.insert(grantee, combined);
        Ok(())
    }

    /// The sum of the totals of already validated rules.
    fn totals_of(rules: &Vec<VestingRule>) -> (t: Balance)
        requires
            all_valid(rules@),
            totals_sum(rules@) <= u128::MAX,
        ensures
            t as int == totals_sum(rules@),
    {
        let mut sum: Balance = 0;
        let mut i: usize = 0;
        while i < rules.len()
            invariant
                i <= rules.len(),
                all_valid(rules@),
                totals_sum(rules@) <= u128::MAX,
                sum as int == totals_sum(rules@.take(i as int)),
            decreases rules.len() - i,
        {
            proof {
                lemma_totals_sum_take_next(rules@, i as int);
                lemma_totals_sum_prefix_le(rules@, i as int + 1);
                lemma_rule_total_nonneg(rules@[i as int]);
                lemma_totals_sum_take_nonneg(rules@, i as int);
            }
            let r = rules[i];
            let total: Balance = r.cliff_amount + (r.period_count as u128) * r.per_period_amount;
            sum = sum + total;
            i += 1;
        }
        proof {
            assert(rules@.take(rules@.len() as int) =~= rules@);
        }
        sum
    }

    /// The amount of `grantee`'s balance still locked at height `at`.
    ///
    /// A pure query: for each of the grantee's rules the still-locked
    /// remainder, summed; zero for a grantee without a schedule.  The
    /// host's transfer path must not let the grantee's balance drop
    /// below this amount at the current height.
    pub fn locked_balance(&self, grantee: AccountId, at: BlockNumber) -> (l: Balance)
        requires
            self.wf(),
        ensures
            l as int == spec_locked_balance(self@, grantee, at as int),
    {
        match self.schedules.get(&grantee) {
            None => 0,
            Some(rules) => {
                let mut sum: Balance = 0;
                let mut i: usize = 0;
                while i < rules.len()
                    invariant
                        i <= rules.len(),
                        all_valid(rules@),
                        totals_sum(rules@) <= u128::MAX,
                        sum as int == locked_sum(rules@.take(i as int), at as int),
                        sum as int <= totals_sum(rules@.take(i as int)),
                    decreases rules.len() - i,
                {
                    proof {
                        lemma_totals_sum_take_next(rules@, i as int);
                        lemma_locked_sum_take_next(rules@, i as int, at as int);
                        lemma_totals_sum_prefix_le(rules@, i as int + 1);
                        lemma_rule_unlocked_bounds(rules@[i as int], at as int);
                    }
                    let l: Balance = Self::rule_locked_at(&rules[i], at);
                    sum = sum + l;
                    i += 1;
                }
                proof {
                    assert(rules@.take(rules@.len() as int) =~= rules@);
                }
                sum
            },
        }
    }

    /// The still-locked remainder of one validated rule at height `at`.
    fn rule_locked_at(r: &VestingRule, at: BlockNumber) -> (l: Balance)
        requires
            rule_valid(*r),
        ensures
            l as int == rule_locked(*r, at as int),
    {
        proof {
            lemma_rule_unlocked_bounds(*r, at as int);
            lemma_rule_total_nonneg(*r);
        }
        let total: Balance = r.cliff_amount + (r.period_count as u128) * r.per_period_amount;
        if at < r.start {
            total
        } else {
            let q: u32 = (at - r.start) / r.period;
            let elapsed: u32 = if q >= r.period_count {
                r.period_count
            } else {
                q + 1
            };
            let unlocked: Balance = r.cliff_amount + (elapsed as u128) * r.per_period_amount;
            proof {
                broadcast use vstd::arithmetic::mul::lemma_mul_inequality;

                assert(elapsed as int <= r.period_count as int);
                assert((elapsed as int) * (r.per_period_amount as int) <= (r.period_count as int)
                    * (r.per_period_amount as int));
            }
            total - unlocked
        }
    }
}

/// The total of one rule is never negative.
proof fn lemma_rule_total_nonneg(r: VestingRule)
    ensures
        rule_total(r) >= 0,
{
    broadcast use vstd::arithmetic::mul::lemma_mul_nonnegative;

}

/// The totals of a prefix are never negative.
proof fn lemma_totals_sum_take_nonneg(rules: Seq<VestingRule>, i: int)
    requires
        0 <= i <= rules.len(),
    ensures
        totals_sum(rules.take(i)) >= 0,
    decreases i,
{
    if i > 0 {
        lemma_totals_sum_take_next(rules, i - 1);
        lemma_totals_sum_take_nonneg(rules, i - 1);
        lemma_rule_total_nonneg(rules[i - 1]);
    }
}

/// When a checked step of the running total overflows at rule `i`, the
/// grand total over all of `rules` overflows as well.
proof fn overflow_means_sum_overflows(
    m: Map<AccountId, Vec<VestingRule>>,
    grantee: AccountId,
    rules: Seq<VestingRule>,
    i: int,
)
    requires
        0 <= i < rules.len(),
        totals_sum(spec_rules_of(m, grantee)) + totals_sum(rules.take(i)) + rule_total(rules[i])
            > u128::MAX,
    ensures
        totals_sum(spec_rules_of(m, grantee)) + totals_sum(rules) > u128::MAX,
{
    lemma_totals_sum_take_next(rules, i);
    lemma_totals_sum_prefix_le(rules, i + 1);
}

/// Every prefix of the totals sum is bounded by the whole: each rule
/// past the prefix adds something nonnegative.
proof fn lemma_totals_sum_prefix_le(rules: Seq<VestingRule>, i: int)
    requires
        0 <= i <= rules.len(),
    ensures
        totals_sum(rules.take(i)) <= totals_sum(rules),
    decreases rules.len() - i,
{
    if i == rules.len() {
        assert(rules.take(i) =~= rules);
    } else {
        lemma_totals_sum_take_next(rules, i);
        lemma_rule_total_nonneg(rules[i]);
        lemma_totals_sum_prefix_le(rules, i + 1);
    }
}

/// Appending validated rules to a well-formed store keeps it
/// well-formed.
proof fn lemma_combined_wf(
    m: Map<AccountId, Vec<VestingRule>>,
    grantee: AccountId,
    rules: Seq<VestingRule>,
    combined: Seq<VestingRule>,
)
    requires
        schedule_map_wf(m),
        all_valid(rules),
        combined == spec_rules_of(m, grantee) + rules,
        totals_sum(spec_rules_of(m, grantee)) + totals_sum(rules) <= u128::MAX,
    ensures
        all_valid(combined),
        totals_sum(combined) <= u128::MAX,
{
    let existing = spec_rules_of(m, grantee);
    assert(all_valid(existing)) by {
        if m.contains_key(grantee) {
        }
    }
    assert(forall|i: int|
        0 <= i < combined.len() ==> rule_valid(#[trigger] combined[i])) by {
        assert(forall|i: int| 0 <= i < existing.len() ==> combined[i] == existing[i]);
        assert(forall|i: int|
            existing.len() <= i < combined.len() ==> combined[i] == rules[i - existing.len()]);
    }
    lemma_totals_sum_concat(existing, rules);
}

/// The totals of a concatenation are the sums of the parts.
proof fn lemma_totals_sum_concat(a: Seq<VestingRule>, b: Seq<VestingRule>)
    ensures
        totals_sum(a + b) == totals_sum(a) + totals_sum(b),
    decreases b.len(),
{
    if b.len() == 0 {
        assert(a + b =~= a);
    } else {
        assert((a + b).drop_last() =~= a + b.drop_last());
        assert((a + b).last() == b.last());
        lemma_totals_sum_concat(a, b.drop_last());
    }
}

} // verus!
