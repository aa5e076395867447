//! The vesting schedule: a linear-with-cliff curve mapping block time to the
//! vested portion of a grant.

use vstd::prelude::*;
use vstd::arithmetic::div_mod::{
    lemma_div_is_ordered, lemma_div_pos_is_pos, lemma_fundamental_div_mod,
    lemma_hoist_over_denominator, lemma_mod_division_less_than_divisor, lemma_multiply_divide_le,
};
use vstd::arithmetic::mul::{
    lemma_mul_inequality, lemma_mul_is_commutative, lemma_mul_is_distributive_add,
    lemma_mul_nonnegative,
};
use crate::errors::VestingError;

verus! {

/// The vesting curve's time parameters. Tokens vest linearly from
/// `cliff_time` to `end_time`; nothing vests before the cliff and the
/// `cliff_amount` of the grant is released at the cliff itself.
#[derive(Debug, Clone, Copy, PartialEq, Eq, Structural)]
pub enum VestingSchedule {
    LinearVestingWithCliff { start_time: u64, end_time: u64, cliff_time: u64 },
}

impl VestingSchedule {
    pub open spec fn spec_start_time(&self) -> u64 {
        match *self {
            VestingSchedule::LinearVestingWithCliff { start_time, .. } => start_time,
        }
    }

    pub open spec fn spec_end_time(&self) -> u64 {
        match *self {
            VestingSchedule::LinearVestingWithCliff { end_time, .. } => end_time,
        }
    }

    pub open spec fn spec_cliff_time(&self) -> u64 {
        match *self {
            VestingSchedule::LinearVestingWithCliff { cliff_time, .. } => cliff_time,
        }
    }

    /// The creation-time invariant: `start_time <= cliff_time <= end_time`,
    /// with `start_time < end_time`. The cliff may coincide with either end.
    pub open spec fn is_valid(&self) -> bool {
        &&& self.spec_start_time() < self.spec_end_time()
        &&& self.spec_start_time() <= self.spec_cliff_time()
        &&& self.spec_cliff_time() <= self.spec_end_time()
    }

    pub fn start_time(&self) -> (r: u64)
        ensures
            r == self.spec_start_time(),
    {
        match *self {
            VestingSchedule::LinearVestingWithCliff { start_time, .. } => start_time,
        }
    }

    pub fn end_time(&self) -> (r: u64)
        ensures
            r == self.spec_end_time(),
    {
        match *self {
            VestingSchedule::LinearVestingWithCliff { end_time, .. } => end_time,
        }
    }

    pub fn cliff_time(&self) -> (r: u64)
        ensures
            r == self.spec_cliff_time(),
    {
        match *self {
            VestingSchedule::LinearVestingWithCliff { cliff_time, .. } => cliff_time,
        }
    }
}

/// The outcome that validating a grant of `vesting_amount` with
/// `cliff_amount` under `schedule` must have: zero grants are rejected, then
/// the time range, then the cliff/vesting relationship.
pub open spec fn reward_validation(
    vesting_amount: u128,
    cliff_amount: u128,
    schedule: VestingSchedule,
) -> Result<(), VestingError> {
    if vesting_amount == 0 {
        Err(VestingError::ZeroVestingAmount)
    } else if !schedule.is_valid() {
        Err(
            VestingError::InvalidTimeRange {
                start_time: schedule.spec_start_time(),
                cliff_time: schedule.spec_cliff_time(),
                end_time: schedule.spec_end_time(),
            },
        )
    } else if cliff_amount > vesting_amount {
        Err(VestingError::ExcessiveAmount { cliff_amount, vesting_amount })
    } else {
        Ok(())
    }
}

/// Validates a grant request against the schedule invariants.
pub fn validate_reward(
    vesting_amount: u128,
    cliff_amount: u128,
    schedule: &VestingSchedule,
) -> (r: Result<(), VestingError>)
    ensures
        r == reward_validation(vesting_amount, cliff_amount, *schedule),
        r is Ok ==> schedule.is_valid() && 0 < vesting_amount && cliff_amount <= vesting_amount,
{
    let start = schedule.start_time();
    let end = schedule.end_time();
    let cliff = schedule.cliff_time();
    if vesting_amount == 0 {
        Err(VestingError::ZeroVestingAmount)
    } else if !(start < end && start <= cliff && cliff <= end) {
        Err(VestingError::InvalidTimeRange { start_time: start, cliff_time: cliff, end_time: end })
    } else if cliff_amount > vesting_amount {
        Err(VestingError::ExcessiveAmount { cliff_amount, vesting_amount })
    } else {
        Ok(())
    }
}

/// The vested portion of a grant at time `now`: zero before the cliff, the
/// whole grant at and after the end, and in between the cliff amount plus a
/// linear share (with floor division) of the remainder.
pub open spec fn vested_spec(
    schedule: VestingSchedule,
    vesting_amount: int,
    cliff_amount: int,
    now: int,
) -> int {
    let cliff = schedule.spec_cliff_time() as int;
    let end = schedule.spec_end_time() as int;
    if now < cliff {
        0
    } else if now >= end {
        vesting_amount
    } else {
        cliff_amount + (vesting_amount - cliff_amount) * (now - cliff) / (end - cliff)
    }
}

/// In the linear region, the vested amount lies between the cliff amount and
/// the whole grant.
pub proof fn lemma_linear_part_bounds(a: int, t: int, d: int)
    requires
        0 <= a,
        0 <= t < d,
    ensures
        0 <= a * t / d <= a,
{
    lemma_mul_nonnegative(a, t);
    lemma_div_pos_is_pos(a * t, d);
    lemma_mul_inequality(t, d, a);
    lemma_mul_is_commutative(t, a);
    lemma_mul_is_commutative(d, a);
    assert(a * t <= a * d);
    lemma_multiply_divide_le(a * t, d, a);
    assert(d * a == a * d) by { lemma_mul_is_commutative(d, a); }
}

/// The vested amount never leaves the range `[0, vesting_amount]`.
pub proof fn lemma_vested_bounds(
    schedule: VestingSchedule,
    vesting_amount: int,
    cliff_amount: int,
    now: int,
)
    requires
        schedule.is_valid(),
        0 <= cliff_amount <= vesting_amount,
    ensures
        0 <= vested_spec(schedule, vesting_amount, cliff_amount, now) <= vesting_amount,
{
    let cliff = schedule.spec_cliff_time() as int;
    let end = schedule.spec_end_time() as int;
    if cliff <= now < end {
        lemma_linear_part_bounds(vesting_amount - cliff_amount, now - cliff, end - cliff);
    }
}

/// Before the cliff nothing has vested.
pub proof fn lemma_vested_zero_before_cliff(
    schedule: VestingSchedule,
    vesting_amount: int,
    cliff_amount: int,
    now: int,
)
    requires
        now < schedule.spec_cliff_time(),
    ensures
        vested_spec(schedule, vesting_amount, cliff_amount, now) == 0,
{
}

/// At the cliff exactly the cliff amount has vested. (A degenerate schedule
/// whose cliff coincides with its end releases the whole grant there
/// instead, so that case is excluded.)
pub proof fn lemma_vested_at_cliff(
    schedule: VestingSchedule,
    vesting_amount: int,
    cliff_amount: int,
)
    requires
        schedule.is_valid(),
        0 <= cliff_amount <= vesting_amount,
        schedule.spec_cliff_time() < schedule.spec_end_time(),
    ensures
        vested_spec(
            schedule,
            vesting_amount,
            cliff_amount,
            schedule.spec_cliff_time() as int,
        ) == cliff_amount,
{
    let cliff = schedule.spec_cliff_time() as int;
    let end = schedule.spec_end_time() as int;
    let a = vesting_amount - cliff_amount;
    assert(a * 0 == 0) by { lemma_mul_is_commutative(a, 0); }
    assert(0int / (end - cliff) == 0);
}

/// At and after the end of the schedule the whole grant has vested.
pub proof fn lemma_vested_all_after_end(
    schedule: VestingSchedule,
    vesting_amount: int,
    cliff_amount: int,
    now: int,
)
    requires
        schedule.is_valid(),
        schedule.spec_end_time() <= now,
    ensures
        vested_spec(schedule, vesting_amount, cliff_amount, now) == vesting_amount,
{
}

/// The vested amount is monotonically non-decreasing in `now`.
pub proof fn lemma_vested_monotone(
    schedule: VestingSchedule,
    vesting_amount: int,
    cliff_amount: int,
    t1: int,
    t2: int,
)
    requires
        schedule.is_valid(),
        0 <= cliff_amount <= vesting_amount,
        t1 <= t2,
    ensures
        vested_spec(schedule, vesting_amount, cliff_amount, t1) <= vested_spec(
            schedule,
            vesting_amount,
            cliff_amount,
            t2,
        ),
{
    let cliff = schedule.spec_cliff_time() as int;
    let end = schedule.spec_end_time() as int;
    let a = vesting_amount - cliff_amount;
    lemma_vested_bounds(schedule, vesting_amount, cliff_amount, t1);
    lemma_vested_bounds(schedule, vesting_amount, cliff_amount, t2);
    if cliff <= t1 && t2 < end {
        lemma_mul_inequality(t1 - cliff, t2 - cliff, a);
        lemma_mul_is_commutative(t1 - cliff, a);
        lemma_mul_is_commutative(t2 - cliff, a);
        lemma_div_is_ordered(a * (t1 - cliff), a * (t2 - cliff), end - cliff);
    }
}

/// Computes the vested portion of a grant at time `now`.
///
/// The linear share is computed as `q * t + r * t / d` for
/// `q = a / d, r = a % d`, which never leaves the 128-bit range, and equals
/// the mathematical `a * t / d`.
pub fn vested_amount(
    schedule: &VestingSchedule,
    vesting_amount: u128,
    cliff_amount: u128,
    now: u64,
) -> (r: u128)
    requires
        schedule.is_valid(),
        cliff_amount <= vesting_amount,
    ensures
        r == vested_spec(*schedule, vesting_amount as int, cliff_amount as int, now as int),
{
    let cliff = schedule.cliff_time();
    let end = schedule.end_time();
    if now < cliff {
        0
    } else if now >= end {
        vesting_amount
    } else {
        let a: u128 = vesting_amount - cliff_amount;
        let d: u128 = (end - cliff) as u128;
        let t: u128 = (now - cliff) as u128;
        let q: u128 = a / d;
        let rem: u128 = a % d;
        proof {
            lemma_fundamental_div_mod(a as int, d as int);
            lemma_mod_division_less_than_divisor(a as int, d as int);
            lemma_div_pos_is_pos(a as int, d as int);
            // q * t stays within the grant remainder
            lemma_mul_inequality(t as int, d as int, q as int);
            lemma_mul_is_commutative(t as int, q as int);
            lemma_mul_is_commutative(d as int, q as int);
            assert(q as int * t as int <= d as int * q as int);
            // rem * t is below 2^128 since both factors fit in 64 bits
            assert(rem as int * t as int <= u128::MAX as int) by (nonlinear_arith)
                requires
                    0 <= rem as int <= u64::MAX as int - 1,
                    0 <= t as int <= u64::MAX as int - 1,
            ;
        }
        let scaled: u128 = rem * t / d;
        proof {
            lemma_linear_part_bounds(rem as int, t as int, d as int);
        }
        let part: u128 = q * t + scaled;
        proof {
            // part == a * t / d
            lemma_hoist_over_denominator(
                rem as int * t as int,
                q as int * t as int,
                d as nat,
            );
            assert(rem as int * t as int + (q as int * t as int) * d as int == a as int
                * t as int) by {
                lemma_mul_is_commutative(q as int * t as int, d as int);
                lemma_mul_is_commutative(q as int, t as int);
                vstd::arithmetic::mul::lemma_mul_is_associative(d as int, q as int, t as int);
                lemma_mul_is_distributive_add(t as int, d as int * q as int, rem as int);
                lemma_mul_is_commutative(t as int, d as int * q as int + rem as int);
                lemma_mul_is_commutative(t as int, d as int * q as int);
                lemma_mul_is_commutative(t as int, rem as int);
            }
            lemma_linear_part_bounds(a as int, t as int, d as int);
        }
        cliff_amount + part
    }
}

} // verus!
