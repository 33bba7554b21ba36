//! When a vault runs next, and how much it swaps.
use vstd::prelude::*;
use crate::math::{checked_multiply_ratio, mul_floor_spec, ratio_floor, Decimal, DECIMAL_FRACTIONAL};
use crate::types::{TimeInterval, NANOS_PER_SECOND};

verus! {

/// The length of an interval in nanoseconds.
pub open spec fn interval_nanos(t: TimeInterval) -> int {
    t.seconds_spec() * NANOS_PER_SECOND
}

/// The first time after `now` on the schedule that runs every interval from
/// `last_target` (at least one interval after it).
pub open spec fn next_target_time(now: u64, last_target: u64, interval: TimeInterval) -> int {
    let step = interval_nanos(interval);
    if step == 0 {
        now + 1
    } else if last_target + step > now {
        last_target + step
    } else {
        last_target + ((now - last_target) / step + 1) * step
    }
}

/// The next target time lies after the current block and, for an interval of some
/// length, after the last target and on the schedule of the interval.
pub proof fn lemma_next_target_time_is_future(now: u64, last_target: u64, interval: TimeInterval)
    ensures
        next_target_time(now, last_target, interval) > now,
        interval_nanos(interval) > 0 ==> next_target_time(now, last_target, interval) > last_target,
        interval_nanos(interval) > 0 ==> (next_target_time(now, last_target, interval) - last_target) % interval_nanos(interval) == 0,
{
    let step = interval_nanos(interval);
    assert(step >= 0) by (nonlinear_arith)
        requires
            step == interval.seconds_spec() * NANOS_PER_SECOND,
    ;
    if step > 0 && last_target + step <= now {
        let k = (now - last_target) / step + 1;
        assert(k * step > now - last_target) by (nonlinear_arith)
            requires
                step > 0,
                k == (now - last_target) / step + 1,
                now - last_target >= 0,
        ;
        assert(k >= 1) by (nonlinear_arith)
            requires
                step > 0,
                k == (now - last_target) / step + 1,
                now - last_target >= 0,
        ;
        assert((k * step) % step == 0) by (nonlinear_arith)
            requires
                step > 0,
        ;
        assert(k * step >= step) by (nonlinear_arith)
            requires
                k >= 1,
                step > 0,
        ;
    } else if step > 0 {
        assert(step % step == 0) by (nonlinear_arith)
            requires
                step > 0,
        ;
    }
}

/// The next target time of a vault, capped at the largest time.
pub fn get_next_target_time(now: u64, last_target: u64, interval: &TimeInterval) -> (t: u64)
    ensures
        t == if next_target_time(now, last_target, *interval) > u64::MAX {
            u64::MAX
        } else {
            next_target_time(now, last_target, *interval) as u64
        },
{
    let step: u128 = (interval.seconds() as u128) * (NANOS_PER_SECOND as u128);
    let now_w = now as u128;
    let last_w = last_target as u128;
    let t: u128 = if step == 0 {
        now_w + 1
    } else if last_w + step > now_w {
        last_w + step
    } else {
        let k = (now_w - last_w) / step + 1;
        assert(k * step <= (now_w - last_w) + step) by (nonlinear_arith)
            requires
                step > 0,
                k as int == (now_w - last_w) as int / (step as int) + 1,
                now_w >= last_w,
        ;
        last_w + k * step
    };
    if t > u64::MAX as u128 {
        u64::MAX
    } else {
        t as u64
    }
}

/// The swap amount scaled by a factor, at most the balance.
pub open spec fn adjusted_swap_amount(swap_amount: u128, adjustment: Decimal, balance: u128) -> int {
    let scaled = mul_floor_spec(swap_amount, adjustment);
    if scaled < balance {
        scaled
    } else {
        balance as int
    }
}

/// How much a vault swaps: its swap amount scaled by the adjustment of its model, and
/// never more than its balance.
pub fn get_swap_amount(swap_amount: u128, adjustment: Decimal, balance: u128) -> (r: u128)
    ensures
        r == adjusted_swap_amount(swap_amount, adjustment, balance),
        r <= balance,
{
    match checked_multiply_ratio(swap_amount, adjustment.atomics, DECIMAL_FRACTIONAL) {
        Ok(v) => if v < balance {
            v
        } else {
            balance
        },
        Err(_) => balance,
    }
}

/// What a swap of `amount` is expected to receive at `price` (units of the swapped
/// denomination per unit received).
pub open spec fn expected_receive(amount: u128, price: Decimal) -> int {
    ratio_floor(amount as int, DECIMAL_FRACTIONAL as int, price.atomics as int)
}

/// The price is worse than the vault accepts: the swap would receive less than its
/// minimum receive amount.
pub open spec fn price_threshold_exceeded_spec(amount: u128, minimum_receive: Option<u128>, price: Decimal) -> bool {
    match minimum_receive {
        Some(m) => expected_receive(amount, price) < m,
        None => false,
    }
}

pub fn price_threshold_exceeded(amount: u128, minimum_receive: Option<u128>, price: Decimal) -> (b: bool)
    requires
        price.atomics > 0,
    ensures
        b == price_threshold_exceeded_spec(amount, minimum_receive, price),
{
    match minimum_receive {
        Some(m) => match checked_multiply_ratio(amount, DECIMAL_FRACTIONAL, price.atomics) {
            Ok(v) => v < m,
            Err(_) => false,
        },
        None => false,
    }
}

/// The least a swap accepts: what it is expected to receive, less the slippage tolerance
/// (nothing where the tolerance is a whole or more).
pub open spec fn minimum_receive_with_slippage(amount: u128, price: Decimal, slippage: Decimal) -> int {
    let expected = expected_receive(amount, price);
    if expected > u128::MAX {
        0
    } else {
        let allowance = mul_floor_spec(expected as u128, slippage);
        if allowance > expected {
            0
        } else {
            expected - allowance
        }
    }
}

pub fn get_minimum_receive(amount: u128, price: Decimal, slippage: Decimal) -> (r: u128)
    requires
        price.atomics > 0,
    ensures
        r == minimum_receive_with_slippage(amount, price, slippage),
{
    match checked_multiply_ratio(amount, DECIMAL_FRACTIONAL, price.atomics) {
        Ok(expected) => match checked_multiply_ratio(expected, slippage.atomics, DECIMAL_FRACTIONAL) {
            Ok(allowance) => if allowance > expected {
                0
            } else {
                expected - allowance
            },
            Err(_) => 0,
        },
        Err(_) => 0,
    }
}

} // verus!
