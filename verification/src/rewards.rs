//! The reward calculator: a pure, deterministic function of the staked
//! amount, the reward rate, and the elapsed / lock-duration pair.

use vstd::prelude::*;
use vstd::arithmetic::div_mod::{
    lemma_div_is_ordered, lemma_div_multiples_vanish, lemma_div_pos_is_pos,
};
use vstd::arithmetic::mul::{lemma_mul_inequality, lemma_mul_is_commutative, lemma_mul_nonnegative};

verus! {

/// The full (un-prorated) reward: the given percentage of the principal,
/// with truncating integer division.
pub open spec fn base_reward(staked_amount: int, basis_points: int) -> int {
    (staked_amount * basis_points) / 100
}

/// What the reward calculator returns. A negative elapsed time or lock
/// duration is clamped to a zero reward; an elapsed time short of the lock
/// duration pro-rates the base reward linearly, with truncation; once the
/// lock duration is reached the full base reward is due.
pub open spec fn reward_amount(
    staked_amount: int,
    basis_points: int,
    time_dif: int,
    total_diff: int,
) -> int {
    if time_dif < 0 || total_diff < 0 {
        0
    } else if time_dif < total_diff {
        (base_reward(staked_amount, basis_points) * time_dif) / total_diff
    } else {
        base_reward(staked_amount, basis_points)
    }
}

/// The inputs on which the calculator's intermediate products stay inside
/// `u64`; outside of them the arithmetic would fail loudly rather than wrap.
pub open spec fn calc_rewards_in_range(
    staked_amount: int,
    basis_points: int,
    time_dif: int,
    total_diff: int,
) -> bool {
    &&& staked_amount * basis_points <= u64::MAX
    &&& (0 <= time_dif && time_dif < total_diff ==> base_reward(staked_amount, basis_points)
        * time_dif <= u64::MAX)
}

/// Computes the reward accrued by `staked_amount` at rate `basis_points`
/// after `time_dif` of a `total_diff`-second lock.
pub fn calc_rewards(staked_amount: u64, basis_points: u32, time_dif: i64, total_diff: i64) -> (r:
    u64)
    requires
        calc_rewards_in_range(
            staked_amount as int,
            basis_points as int,
            time_dif as int,
            total_diff as int,
        ),
    ensures
        r == reward_amount(
            staked_amount as int,
            basis_points as int,
            time_dif as int,
            total_diff as int,
        ),
{
    proof {
        lemma_mul_nonnegative(staked_amount as int, basis_points as int);
    }
    let rewards: u64 = (staked_amount * (basis_points as u64)) / 100;
    if time_dif < 0 || total_diff < 0 {
        return 0;
    }
    if time_dif < total_diff {
        proof {
            lemma_mul_nonnegative(rewards as int, time_dif as int);
        }
        return (rewards * (time_dif as u64)) / (total_diff as u64);
    }
    rewards
}

/// The reward is never negative.
pub proof fn lemma_reward_amount_nonneg(
    staked_amount: int,
    basis_points: int,
    time_dif: int,
    total_diff: int,
)
    requires
        0 <= staked_amount,
        0 <= basis_points,
    ensures
        0 <= reward_amount(staked_amount, basis_points, time_dif, total_diff),
{
    lemma_mul_nonnegative(staked_amount, basis_points);
    lemma_div_pos_is_pos(staked_amount * basis_points, 100);
    if 0 <= time_dif && time_dif < total_diff {
        lemma_mul_nonnegative(base_reward(staked_amount, basis_points), time_dif);
        lemma_div_pos_is_pos(base_reward(staked_amount, basis_points) * time_dif, total_diff);
    }
}

/// For a fixed amount, rate and lock duration, the reward is non-decreasing
/// as the elapsed time grows, and constant once the lock duration is reached.
pub proof fn lemma_reward_monotonic(
    staked_amount: int,
    basis_points: int,
    e1: int,
    e2: int,
    total_diff: int,
)
    requires
        0 <= staked_amount,
        0 <= basis_points,
        0 <= e1 <= e2,
    ensures
        reward_amount(staked_amount, basis_points, e1, total_diff) <= reward_amount(
            staked_amount,
            basis_points,
            e2,
            total_diff,
        ),
        0 <= total_diff <= e1 ==> reward_amount(staked_amount, basis_points, e1, total_diff)
            == reward_amount(staked_amount, basis_points, e2, total_diff),
{
    if total_diff < 0 {
        // both rewards clamp to zero
    } else {
        let base = base_reward(staked_amount, basis_points);
        lemma_mul_nonnegative(staked_amount, basis_points);
        lemma_div_pos_is_pos(staked_amount * basis_points, 100);
        if e2 < total_diff {
            // both pro-rated over the same positive duration
            lemma_mul_inequality(e1, e2, base);
            lemma_div_is_ordered(base * e1, base * e2, total_diff);
        } else if e1 < total_diff {
            // e1 pro-rated, e2 already earns the full base reward
            lemma_mul_inequality(e1, total_diff, base);
            lemma_div_is_ordered(base * e1, base * total_diff, total_diff);
            lemma_mul_is_commutative(base, total_diff);
            lemma_div_multiples_vanish(base, total_diff);
            assert((base * total_diff) / total_diff == base);
        } else {
            // both earn the full base reward
        }
    }
}

} // verus!
