//! The prorated reward formula and its conservation law.
//!
//! A fixed pool is spread linearly over the distribution window
//! `[start, end)` in whole intervals: a claim after `w` whole intervals
//! since the last checkpoint pays
//! `floor(w * pool * interval * amount / ((end - start) * count))` —
//! all intermediate arithmetic exact, floored once at the end. The
//! fractional remainder of the elapsed time is forfeited because the
//! checkpoint advances to the claim time itself.

use vstd::arithmetic::div_mod::{
    lemma_fundamental_div_mod, lemma_fundamental_div_mod_converse, lemma_mod_bound,
};
use vstd::prelude::*;

use crate::error::{ArithmeticKind, ContractError};

verus! {

/// Whole distribution intervals elapsed from `last` to `now`.
pub open spec fn whole_intervals(last: int, now: int, interval: int) -> int {
    (now - last) / interval
}

/// The exact payable amount: the real-valued proration, floored once.
pub open spec fn reward_amount(
    pool: int,
    interval: int,
    start: int,
    end: int,
    count: int,
    amount: int,
    last: int,
    now: int,
) -> int {
    (whole_intervals(last, now, interval) * pool * interval * amount) / ((end - start) * count)
}

/// How the payout computation can end: a zero interval or zero
/// participant count cannot be divided by, an intermediate product that
/// exceeds the amount type overflows, and otherwise the exact floored
/// amount is paid.
pub open spec fn spec_compute_reward(
    pool: u128,
    start: u64,
    end: u64,
    interval: u64,
    count: u128,
    amount: u128,
    last: u64,
    now: u64,
) -> Result<u128, ContractError> {
    if interval == 0 || count == 0 {
        Err(ContractError::Arithmetic(ArithmeticKind::DivideByZero))
    } else {
        let w = whole_intervals(last as int, now as int, interval as int);
        if w * pool > u128::MAX || w * pool * interval > u128::MAX || w * pool * interval * amount
            > u128::MAX {
            Err(ContractError::Arithmetic(ArithmeticKind::Overflow))
        } else if (end - start) * count > u128::MAX {
            Err(ContractError::Arithmetic(ArithmeticKind::Overflow))
        } else {
            Ok(
                reward_amount(
                    pool as int,
                    interval as int,
                    start as int,
                    end as int,
                    count as int,
                    amount as int,
                    last as int,
                    now as int,
                ) as u128,
            )
        }
    }
}

/// Compute the payable reward exactly as [`spec_compute_reward`] says.
pub fn compute_reward(
    pool: u128,
    start: u64,
    end: u64,
    interval: u64,
    count: u128,
    amount: u128,
    last: u64,
    now: u64,
) -> (result: Result<u128, ContractError>)
    requires
        start < end,
        last <= now,
    ensures
        result == spec_compute_reward(pool, start, end, interval, count, amount, last, now),
{
    if interval == 0 || count == 0 {
        return Err(ContractError::Arithmetic(ArithmeticKind::DivideByZero));
    }
    let dt = now - last;
    let w = dt / interval;
    let n1 = match (w as u128).checked_mul(pool) {
        Some(v) => v,
        None => {
            return Err(ContractError::Arithmetic(ArithmeticKind::Overflow));
        },
    };
    let n2 = match n1.checked_mul(interval as u128) {
        Some(v) => v,
        None => {
            return Err(ContractError::Arithmetic(ArithmeticKind::Overflow));
        },
    };
    let n3 = match n2.checked_mul(amount) {
        Some(v) => v,
        None => {
            return Err(ContractError::Arithmetic(ArithmeticKind::Overflow));
        },
    };
    let span = end - start;
    let den = match (span as u128).checked_mul(count) {
        Some(v) => v,
        None => {
            return Err(ContractError::Arithmetic(ArithmeticKind::Overflow));
        },
    };
    proof {
        assert(den >= 1) by (nonlinear_arith)
            requires
                den == (end - start) * count,
                end - start >= 1,
                count >= 1,
        ;
    }
    Ok(n3 / den)
}

/// Dividing numerator and denominator by a common positive factor
/// leaves a floored quotient unchanged.
proof fn lemma_cancel_common(n: int, d: int, c: int)
    requires
        d > 0,
        c > 0,
    ensures
        (n * c) / (d * c) == n / d,
{
    let q = n / d;
    let r = n % d;
    lemma_fundamental_div_mod(n, d);
    lemma_mod_bound(n, d);
    assert(n * c == q * (d * c) + r * c) by (nonlinear_arith)
        requires
            n == d * q + r,
    ;
    assert(0 <= r * c && r * c < d * c) by (nonlinear_arith)
        requires
            0 <= r < d,
            c > 0,
    ;
    lemma_fundamental_div_mod_converse(n * c, d * c, q, r * c);
}

/// A floored quotient times its divisor does not exceed the dividend.
proof fn lemma_div_mul_le(x: int, d: int)
    requires
        d > 0,
    ensures
        (x / d) * d <= x,
{
    lemma_fundamental_div_mod(x, d);
    lemma_mod_bound(x, d);
    let q = x / d;
    let r = x % d;
    assert(q * d <= x) by (nonlinear_arith)
        requires
            x == d * q + r,
            0 <= r,
    ;
}

/// Total paid across a sequence of successful claims at `times`, each
/// advancing the checkpoint to its own time, by a single participant
/// holding the entire eligible amount (`count == amount`).
pub open spec fn total_rewards_paid(
    pool: int,
    interval: int,
    start: int,
    end: int,
    amount: int,
    last: int,
    times: Seq<int>,
) -> int
    decreases times.len(),
{
    if times.len() == 0 {
        0
    } else {
        reward_amount(pool, interval, start, end, amount, amount, last, times[0])
            + total_rewards_paid(pool, interval, start, end, amount, times[0], times.skip(1))
    }
}

proof fn lemma_paid_bound(
    pool: int,
    interval: int,
    start: int,
    end: int,
    amount: int,
    last: int,
    times: Seq<int>,
)
    requires
        interval > 0,
        end > start,
        amount > 0,
        pool >= 0,
        times.len() > 0 ==> last <= times[0],
        forall|k: int| 0 <= k < times.len() - 1 ==> #[trigger] times[k] <= times[k + 1],
    ensures
        times.len() == 0 ==> total_rewards_paid(pool, interval, start, end, amount, last, times)
            == 0,
        times.len() > 0 ==> total_rewards_paid(pool, interval, start, end, amount, last, times) * (
        end - start) <= (times.last() - last) * pool,
    decreases times.len(),
{
    if times.len() > 0 {
        let t0 = times[0];
        let w = whole_intervals(last, t0, interval);
        let x = w * pool * interval;
        let span = end - start;
        let r0 = reward_amount(pool, interval, start, end, amount, amount, last, t0);
        assert(w * pool * interval * amount == x * amount);
        assert((end - start) * amount == span * amount);
        lemma_cancel_common(x, span, amount);
        assert(r0 == x / span);
        lemma_div_mul_le(x, span);
        assert(r0 * span <= x);
        lemma_div_mul_le(t0 - last, interval);
        assert(w * interval <= t0 - last);
        assert(w >= 0) by {
            vstd::arithmetic::div_mod::lemma_div_pos_is_pos(t0 - last, interval);
        }
        assert(x <= (t0 - last) * pool) by (nonlinear_arith)
            requires
                x == w * pool * interval,
                w * interval <= t0 - last,
                pool >= 0,
                w >= 0,
                interval > 0,
        ;
        let rest = times.skip(1);
        assert(forall|k: int| 0 <= k < rest.len() ==> #[trigger] rest[k] == times[k + 1]);
        if rest.len() == 0 {
            assert(total_rewards_paid(pool, interval, start, end, amount, t0, rest) == 0);
            assert(total_rewards_paid(pool, interval, start, end, amount, last, times) == r0);
            assert(times.last() == t0);
        } else {
            assert(t0 <= rest[0]);
            lemma_paid_bound(pool, interval, start, end, amount, t0, rest);
            let tr = total_rewards_paid(pool, interval, start, end, amount, t0, rest);
            assert(tr * span <= (rest.last() - t0) * pool);
            assert(rest.last() == times.last());
            assert((r0 + tr) * span == r0 * span + tr * span) by (nonlinear_arith);
            assert((t0 - last) * pool + (times.last() - t0) * pool == (times.last() - last) * pool)
                by (nonlinear_arith);
        }
    }
}

/// Reward conservation: over any nondecreasing sequence of successful
/// claim times inside the window, a single participant holding the
/// entire eligible amount (participant count equal to the position's
/// amount) is paid at most the whole pool; rounding residue stays in
/// the contract's balance for the post-window sweep.
pub proof fn lemma_reward_conservation(
    pool: int,
    interval: int,
    start: int,
    end: int,
    amount: int,
    times: Seq<int>,
)
    requires
        interval > 0,
        end > start,
        amount > 0,
        pool >= 0,
        times.len() > 0 ==> start <= times[0],
        forall|k: int| 0 <= k < times.len() - 1 ==> #[trigger] times[k] <= times[k + 1],
        times.len() > 0 ==> times.last() <= end,
    ensures
        total_rewards_paid(pool, interval, start, end, amount, start, times) <= pool,
{
    lemma_paid_bound(pool, interval, start, end, amount, start, times);
    let total = total_rewards_paid(pool, interval, start, end, amount, start, times);
    let span = end - start;
    if times.len() == 0 {
    } else {
        assert((times.last() - start) * pool <= span * pool) by (nonlinear_arith)
            requires
                times.last() - start <= span,
                pool >= 0,
        ;
        assert(total <= pool) by (nonlinear_arith)
            requires
                total * span <= span * pool,
                span > 0,
        ;
    }
}

} // verus!
