//! The reward accrual engine: the pure computation of how much reward a
//! principal earns over an elapsed time window at a fixed yearly rate.

use vstd::arithmetic::div_mod::lemma_div_denominator;
use vstd::arithmetic::div_mod::lemma_div_is_ordered;
use vstd::arithmetic::mul::lemma_mul_inequality;
use vstd::prelude::*;

verus! {

/// Scale of the yield rate: an `apy` of 10_000 means 100% per year.
pub const APY_DENOMINATOR: u64 = 10000;

/// One year in the unit of the timestamps (milliseconds).
pub const SECONDOFYEAR: u64 = 365 * 24 * 60 * 60 * 1000;

/// Reward earned by `stake_amount` between `last_time` and `now` at the
/// yearly rate `apy / APY_DENOMINATOR`, rounded down to a whole token unit.
pub open spec fn spec_accrued_reward(stake_amount: u128, last_time: u64, now: u64, apy: u32) -> int {
    (stake_amount * (now - last_time) * apy) / (APY_DENOMINATOR as int * SECONDOFYEAR as int)
}

/// Computes the newly accrued reward for one record.
///
/// The bounds on the intermediate products are the exact conditions under
/// which the 128-bit computation cannot overflow; callers stay inside them.
pub fn accrued_reward(stake_amount: u128, last_time: u64, now: u64, apy: u32) -> (r: u128)
    requires
        last_time <= now,
        stake_amount * (now - last_time) <= u128::MAX,
        stake_amount * (now - last_time) * apy <= u128::MAX,
    ensures
        r == spec_accrued_reward(stake_amount, last_time, now, apy),
{
    let elapsed: u64 = now - last_time;
    let product: u128 = stake_amount * (elapsed as u128) * (apy as u128);
    let r: u128 = product / (APY_DENOMINATOR as u128) / (SECONDOFYEAR as u128);
    proof {
        lemma_div_denominator(product as int, APY_DENOMINATOR as int, SECONDOFYEAR as int);
    }
    r
}

/// No time, or no principal, earns nothing.
pub proof fn lemma_accrual_zero(stake_amount: u128, last_time: u64, now: u64, apy: u32)
    ensures
        spec_accrued_reward(stake_amount, last_time, last_time, apy) == 0,
        spec_accrued_reward(0, last_time, now, apy) == 0,
{
    assert(stake_amount * (last_time - last_time) * apy == 0) by (nonlinear_arith);
    assert(0 * (now - last_time) * apy == 0) by (nonlinear_arith);
    vstd::arithmetic::div_mod::lemma_div_of0(APY_DENOMINATOR as int * SECONDOFYEAR as int);
}

/// For a fixed principal and rate, the accrued reward never shrinks as the
/// elapsed time grows, and it is exactly zero over an empty window.
pub proof fn lemma_accrual_monotonic(stake_amount: u128, last_time: u64, t1: u64, t2: u64, apy: u32)
    requires
        last_time <= t1 <= t2,
    ensures
        spec_accrued_reward(stake_amount, last_time, t1, apy)
            <= spec_accrued_reward(stake_amount, last_time, t2, apy),
        spec_accrued_reward(stake_amount, last_time, last_time, apy) == 0,
{
    lemma_accrual_zero(stake_amount, last_time, t2, apy);
    let e1 = t1 - last_time;
    let e2 = t2 - last_time;
    lemma_mul_inequality(e1, e2, apy as int);
    lemma_mul_inequality(e1 * apy, e2 * apy, stake_amount as int);
    assert(stake_amount * e1 * apy == e1 * apy * stake_amount) by (nonlinear_arith);
    assert(stake_amount * e2 * apy == e2 * apy * stake_amount) by (nonlinear_arith);
    lemma_div_is_ordered(
        stake_amount * e1 * apy,
        stake_amount * e2 * apy,
        APY_DENOMINATOR as int * SECONDOFYEAR as int,
    );
}

} // verus!
