//! The vesting schedule calculator: a pure function from the current time,
//! the schedule parameters and the cumulative withdrawn amount to the
//! unlocked-but-unclaimed amount.

use vstd::arithmetic::div_mod::{lemma_div_by_multiple, lemma_div_is_ordered, lemma_div_pos_is_pos};
use vstd::arithmetic::mul::lemma_mul_inequality;
use vstd::prelude::*;

verus! {

/// A schedule is valid when `start_time <= cliff_time <= end_time` and
/// `start_time < end_time`.
pub open spec fn spec_schedule_valid(start_time: int, end_time: int, cliff_time: int) -> bool {
    &&& start_time <= cliff_time
    &&& cliff_time <= end_time
    &&& start_time < end_time
}

/// The amount unlocked at time `now`: nothing before the cliff, everything
/// from the end time on, and in between the fraction of `total_amount`
/// proportional to the elapsed part of `[start_time, end_time)`, rounded down.
pub open spec fn spec_unlocked(
    now: int,
    start_time: int,
    end_time: int,
    cliff_time: int,
    total_amount: int,
) -> int {
    if now < cliff_time {
        0
    } else if now >= end_time {
        total_amount
    } else {
        total_amount * (now - start_time) / (end_time - start_time)
    }
}

/// The amount a claim at time `now` pays out: the unlocked amount minus what
/// was already withdrawn, clamped at zero.
pub open spec fn spec_claimable(
    now: int,
    start_time: int,
    end_time: int,
    cliff_time: int,
    total_amount: int,
    total_withdrawn: int,
) -> int {
    let unlocked = spec_unlocked(now, start_time, end_time, cliff_time, total_amount);
    if unlocked >= total_withdrawn {
        unlocked - total_withdrawn
    } else {
        0
    }
}

/// The unlocked amount never leaves `[0, total_amount]`; it is zero before
/// the cliff and the whole grant from the end time on.
pub proof fn lemma_unlocked_bounds(
    now: int,
    start_time: int,
    end_time: int,
    cliff_time: int,
    total_amount: int,
)
    requires
        spec_schedule_valid(start_time, end_time, cliff_time),
        total_amount >= 0,
    ensures
        0 <= spec_unlocked(now, start_time, end_time, cliff_time, total_amount) <= total_amount,
        now < cliff_time ==> spec_unlocked(now, start_time, end_time, cliff_time, total_amount)
            == 0,
        now >= end_time ==> spec_unlocked(now, start_time, end_time, cliff_time, total_amount)
            == total_amount,
{
    if cliff_time <= now < end_time {
        let span = end_time - start_time;
        let elapsed = now - start_time;
        lemma_div_pos_is_pos(total_amount * elapsed, span);
        lemma_mul_inequality(elapsed, span, total_amount);
        assert(elapsed * total_amount == total_amount * elapsed) by (nonlinear_arith);
        assert(span * total_amount == total_amount * span) by (nonlinear_arith);
        lemma_div_is_ordered(total_amount * elapsed, total_amount * span, span);
        lemma_div_by_multiple(total_amount, span);
    }
}

/// The unlocked amount is monotonically non-decreasing in `now`.
pub proof fn lemma_unlocked_monotonic(
    now1: int,
    now2: int,
    start_time: int,
    end_time: int,
    cliff_time: int,
    total_amount: int,
)
    requires
        spec_schedule_valid(start_time, end_time, cliff_time),
        total_amount >= 0,
        now1 <= now2,
    ensures
        spec_unlocked(now1, start_time, end_time, cliff_time, total_amount) <= spec_unlocked(
            now2,
            start_time,
            end_time,
            cliff_time,
            total_amount,
        ),
{
    lemma_unlocked_bounds(now1, start_time, end_time, cliff_time, total_amount);
    lemma_unlocked_bounds(now2, start_time, end_time, cliff_time, total_amount);
    if cliff_time <= now1 && now2 < end_time {
        let span = end_time - start_time;
        lemma_mul_inequality(now1 - start_time, now2 - start_time, total_amount);
        assert((now1 - start_time) * total_amount == total_amount * (now1 - start_time))
            by (nonlinear_arith);
        assert((now2 - start_time) * total_amount == total_amount * (now2 - start_time))
            by (nonlinear_arith);
        lemma_div_is_ordered(
            total_amount * (now1 - start_time),
            total_amount * (now2 - start_time),
            span,
        );
    }
}

/// Settlement reaches the unlocked amount: when the cumulative withdrawn
/// amount has not outrun the schedule, paying out the claimable amount brings
/// it to exactly the unlocked amount, which never exceeds the total grant.
pub proof fn lemma_claim_settles(
    now: int,
    start_time: int,
    end_time: int,
    cliff_time: int,
    total_amount: int,
    total_withdrawn: int,
)
    requires
        spec_schedule_valid(start_time, end_time, cliff_time),
        total_amount >= 0,
        0 <= total_withdrawn <= spec_unlocked(now, start_time, end_time, cliff_time, total_amount),
    ensures
        total_withdrawn + spec_claimable(
            now,
            start_time,
            end_time,
            cliff_time,
            total_amount,
            total_withdrawn,
        ) == spec_unlocked(now, start_time, end_time, cliff_time, total_amount),
        total_withdrawn + spec_claimable(
            now,
            start_time,
            end_time,
            cliff_time,
            total_amount,
            total_withdrawn,
        ) <= total_amount,
{
    lemma_unlocked_bounds(now, start_time, end_time, cliff_time, total_amount);
}

/// A claim is idempotent: once the claimable amount at `now` has been paid
/// out and added to the withdrawn total, a second claim at the same `now` has
/// nothing left to pay.
pub proof fn lemma_claim_idempotent(
    now: int,
    start_time: int,
    end_time: int,
    cliff_time: int,
    total_amount: int,
    total_withdrawn: int,
)
    requires
        spec_schedule_valid(start_time, end_time, cliff_time),
        total_amount >= 0,
        total_withdrawn >= 0,
    ensures
        spec_claimable(
            now,
            start_time,
            end_time,
            cliff_time,
            total_amount,
            total_withdrawn + spec_claimable(
                now,
                start_time,
                end_time,
                cliff_time,
                total_amount,
                total_withdrawn,
            ),
        ) == 0,
{
    lemma_unlocked_bounds(now, start_time, end_time, cliff_time, total_amount);
}

/// Computes the unlocked amount at time `now` for the given schedule, with a
/// wide intermediate type so the proportional computation cannot overflow.
pub fn unlocked_amount(
    now: i64,
    start_time: i64,
    end_time: i64,
    cliff_time: i64,
    total_amount: u64,
) -> (r: u64)
    requires
        spec_schedule_valid(start_time as int, end_time as int, cliff_time as int),
    ensures
        r == spec_unlocked(
            now as int,
            start_time as int,
            end_time as int,
            cliff_time as int,
            total_amount as int,
        ),
{
    if now < cliff_time {
        0
    } else if now >= end_time {
        total_amount
    } else {
        let elapsed: i128 = (now as i128) - (start_time as i128);
        let span: i128 = (end_time as i128) - (start_time as i128);
        proof {
            assert(0 <= elapsed < span);
            assert((total_amount as u128) * (elapsed as u128) <= u128::MAX) by (nonlinear_arith)
                requires
                    (total_amount as u128) <= u64::MAX,
                    (elapsed as u128) <= u64::MAX,
            ;
        }
        let scaled: u128 = (total_amount as u128) * (elapsed as u128);
        let unlocked: u128 = scaled / (span as u128);
        proof {
            lemma_unlocked_bounds(
                now as int,
                start_time as int,
                end_time as int,
                cliff_time as int,
                total_amount as int,
            );
        }
        unlocked as u64
    }
}

/// Computes the amount a claim at time `now` may pay out: the unlocked
/// amount minus what was already withdrawn, clamped at zero so a violated
/// bookkeeping invariant can never make it underflow.
pub fn claimable_amount(
    now: i64,
    start_time: i64,
    end_time: i64,
    cliff_time: i64,
    total_amount: u64,
    total_withdrawn: u64,
) -> (r: u64)
    requires
        spec_schedule_valid(start_time as int, end_time as int, cliff_time as int),
    ensures
        r == spec_claimable(
            now as int,
            start_time as int,
            end_time as int,
            cliff_time as int,
            total_amount as int,
            total_withdrawn as int,
        ),
{
    let unlocked = unlocked_amount(now, start_time, end_time, cliff_time, total_amount);
    if unlocked >= total_withdrawn {
        unlocked - total_withdrawn
    } else {
        0
    }
}

} // verus!

