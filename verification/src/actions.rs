//! The staking controller: one verified transition per action, working on an
//! already-loaded snapshot of the global status, one pool and one position.
//!
//! Each transition validates its inputs, mutates the given records, and
//! returns the token movements the host must perform atomically with the
//! state change. A failed validation returns the error with the records
//! untouched; the host discards the state change when a delegated transfer
//! or mint fails, so every action is all-or-nothing.

use vstd::prelude::*;
use vstd::arithmetic::div_mod::{
    lemma_div_is_ordered_by_denominator, lemma_div_multiples_vanish, lemma_div_pos_is_pos,
};
use vstd::arithmetic::mul::lemma_mul_is_commutative;
use crate::errors::StakingErrors;
use crate::rewards::{base_reward, calc_rewards, calc_rewards_in_range, reward_amount};
use crate::state::{AccountId, PoolInfo, StakingPosition, Status, TokenEffects, UNSET_ACCOUNT};

verus! {

// ---------------------------------------------------------------- initialize

/// Which error `initialize` reports, if any: the singleton may be written
/// only once, and it counts as written once it holds an accepted token.
pub open spec fn initialize_error(status: Status) -> Option<StakingErrors> {
    if status.token != UNSET_ACCOUNT {
        Some(StakingErrors::AlreadyInitialized)
    } else {
        None
    }
}

/// Records the accepted token and the administrative owner, once.
pub fn initialize(status: &mut Status, mint: AccountId, signer: AccountId) -> (result: Result<
    (),
    StakingErrors,
>)
    ensures
        result is Err <==> initialize_error(*old(status)) is Some,
        result is Err ==> Some(result->Err_0) == initialize_error(*old(status)) && *final(status)
            == *old(status),
        result is Ok ==> *final(status) == (Status { token: mint, owner: signer, ..*old(status) }),
{
    if status.token != UNSET_ACCOUNT {
        return Err(StakingErrors::AlreadyInitialized);
    }
    status.token = mint;
    status.owner = signer;
    Ok(())
}

// --------------------------------------------------------------------- stake

/// Which error `stake` reports, if any, in the order the checks run.
pub open spec fn stake_error(
    status: Status,
    pool: PoolInfo,
    pool_id: u8,
    amount: u64,
    token: AccountId,
) -> Option<StakingErrors> {
    if !pool.is_active {
        Some(StakingErrors::InactivePool)
    } else if token != status.token {
        Some(StakingErrors::InvalidTokenAccount)
    } else if status.total_pools < pool_id {
        Some(StakingErrors::InvalidPoolId)
    } else if amount == 0 {
        Some(StakingErrors::NoTokens)
    } else {
        None
    }
}

/// The reward a stake settles for the prior lock segment: zero unless the
/// position is live (staked and not yet claimed).
pub open spec fn stake_reward(pool: PoolInfo, pos: StakingPosition, now: i64) -> int {
    if pos.live() {
        reward_amount(
            pos.amount as int,
            pool.basis_points as int,
            now - pos.start_time,
            pool.lock_time as int,
        )
    } else {
        0
    }
}

/// The prior lock segment has fully elapsed and earned something: the stake
/// pays the settled reward out immediately.
pub open spec fn stake_pays_now(pool: PoolInfo, pos: StakingPosition, now: i64) -> bool {
    pos.live() && stake_reward(pool, pos, now) > 0 && now > pos.start_time + pool.lock_time
}

/// The prior lock segment earned something but has not matured: the stake
/// defers the settled reward to a future successful claim.
pub open spec fn stake_defers(pool: PoolInfo, pos: StakingPosition, now: i64) -> bool {
    pos.live() && stake_reward(pool, pos, now) > 0 && now <= pos.start_time + pool.lock_time
}

/// The principal a stake builds on: a claimed tombstone is reopened from
/// zero, a live position keeps its deposit.
pub open spec fn stake_base_amount(pos: StakingPosition) -> int {
    if pos.claimed {
        0
    } else {
        pos.amount as int
    }
}

/// The deferred reward left on the position after a stake settles the prior
/// lock segment.
pub open spec fn stake_new_lock_amount(pool: PoolInfo, pos: StakingPosition, now: i64) -> int {
    if stake_pays_now(pool, pos, now) {
        0
    } else if stake_defers(pool, pos, now) {
        pos.lock_amount + stake_reward(pool, pos, now)
    } else {
        pos.lock_amount as int
    }
}

/// What a successful stake mints immediately: the settled reward plus any
/// previously deferred reward, and only when the prior lock has matured.
pub open spec fn stake_mint(pool: PoolInfo, pos: StakingPosition, now: i64) -> int {
    if stake_pays_now(pool, pos, now) {
        stake_reward(pool, pos, now) + pos.lock_amount
    } else {
        0
    }
}

/// The position a successful stake leaves behind.
pub open spec fn stake_new_position(
    pool: PoolInfo,
    pos: StakingPosition,
    amount: u64,
    now: i64,
) -> StakingPosition {
    StakingPosition {
        amount: (stake_base_amount(pos) + amount) as u64,
        start_time: now,
        lock_amount: stake_new_lock_amount(pool, pos, now) as u64,
        claimed: false,
    }
}

/// The global status a successful stake leaves behind.
pub open spec fn stake_new_status(status: Status, amount: u64) -> Status {
    Status { total_staked: (status.total_staked + amount) as u64, ..status }
}

/// The inputs on which a passing stake keeps every intermediate value inside
/// its machine type; outside of them the arithmetic would fail loudly rather
/// than wrap.
pub open spec fn stake_in_range(
    status: Status,
    pool: PoolInfo,
    pos: StakingPosition,
    amount: u64,
    now: i64,
) -> bool {
    &&& (pos.live() ==> {
        &&& i64::MIN <= pos.start_time + pool.lock_time <= i64::MAX
        &&& i64::MIN <= now - pos.start_time <= i64::MAX
        &&& calc_rewards_in_range(
            pos.amount as int,
            pool.basis_points as int,
            now - pos.start_time,
            pool.lock_time as int,
        )
        &&& pos.lock_amount + stake_reward(pool, pos, now) <= u64::MAX
    })
    &&& status.total_staked + amount <= u64::MAX
    &&& stake_base_amount(pos) + amount <= u64::MAX
}

/// Deposits `amount` into the pool for the caller. A live prior stake is
/// settled first: its accrued reward is minted immediately if the prior lock
/// has matured, and deferred into the position's lock amount otherwise. A
/// claimed tombstone is reopened from a zero principal. The deposit is then
/// added to the position and to the global total, and the accrual clock
/// restarts at `now`.
pub fn stake(
    status: &mut Status,
    pool: &PoolInfo,
    pos: &mut StakingPosition,
    pool_id: u8,
    amount: u64,
    token: AccountId,
    now: i64,
) -> (result: Result<TokenEffects, StakingErrors>)
    requires
        stake_error(*old(status), *pool, pool_id, amount, token) is None ==> stake_in_range(
            *old(status),
            *pool,
            *old(pos),
            amount,
            now,
        ),
    ensures
        result is Err <==> stake_error(*old(status), *pool, pool_id, amount, token) is Some,
        result is Err ==> Some(result->Err_0) == stake_error(
            *old(status),
            *pool,
            pool_id,
            amount,
            token,
        ) && *final(status) == *old(status) && *final(pos) == *old(pos),
        result is Ok ==> {
            &&& *final(pos) == stake_new_position(*pool, *old(pos), amount, now)
            &&& *final(status) == stake_new_status(*old(status), amount)
            &&& result->Ok_0 == (TokenEffects {
                vault_in: amount,
                vault_out: 0,
                minted: stake_mint(*pool, *old(pos), now) as u64,
            })
        },
        // Staking again before the lock has matured adds the newly computed
        // reward to the deferred lock amount and never mints immediately.
        result is Ok && stake_defers(*pool, *old(pos), now) ==> final(pos).lock_amount == old(
            pos,
        ).lock_amount + stake_reward(*pool, *old(pos), now) && result->Ok_0.minted == 0,
{
    if !pool.is_active {
        return Err(StakingErrors::InactivePool);
    }
    if token != status.token {
        return Err(StakingErrors::InvalidTokenAccount);
    }
    if status.total_pools < pool_id {
        return Err(StakingErrors::InvalidPoolId);
    }
    if amount == 0 {
        return Err(StakingErrors::NoTokens);
    }
    let mut minted: u64 = 0;
    if pos.amount > 0 && !pos.claimed {
        let lock_end_time = pos.start_time + pool.lock_time;
        // settle the reward of the prior lock segment before staking again
        let mut reward = calc_rewards(
            pos.amount,
            pool.basis_points,
            now - pos.start_time,
            pool.lock_time,
        );
        if reward > 0 {
            if now > lock_end_time {
                // the prior lock is over: pay the settled and the deferred
                // reward out at once
                reward = reward + pos.lock_amount;
                pos.lock_amount = 0;
                minted = reward;
            } else {
                // the prior lock still runs: defer the settled reward
                pos.lock_amount = pos.lock_amount + reward;
            }
        }
    }
    if pos.claimed {
        // reopen the tombstone left by the last claim
        pos.claimed = false;
        pos.amount = 0;
    }
    status.total_staked = status.total_staked + amount;
    pos.amount = pos.amount + amount;
    pos.start_time = now;
    Ok(TokenEffects { vault_in: amount, vault_out: 0, minted })
}

// --------------------------------------------------------------------- claim

/// Which error `claim` reports, if any, in the order the checks run.
pub open spec fn claim_error(
    status: Status,
    pool: PoolInfo,
    pos: StakingPosition,
    pool_id: u8,
    token: AccountId,
    now: i64,
) -> Option<StakingErrors> {
    if token != status.token {
        Some(StakingErrors::InvalidTokenAccount)
    } else if status.total_pools < pool_id {
        Some(StakingErrors::InvalidPoolId)
    } else if pos.amount == 0 {
        Some(StakingErrors::NoTokens)
    } else if pos.claimed || now < pos.start_time + pool.lock_time {
        Some(StakingErrors::NothingToClaim)
    } else {
        None
    }
}

/// What a successful claim mints: the full, un-prorated base reward (the
/// maturity precondition has already been checked) plus the deferred reward.
pub open spec fn claim_mint(pool: PoolInfo, pos: StakingPosition) -> int {
    base_reward(pos.amount as int, pool.basis_points as int) + pos.lock_amount
}

/// The position a successful claim leaves behind: numerically unchanged but
/// logically closed by the tombstone.
pub open spec fn claim_new_position(pos: StakingPosition) -> StakingPosition {
    StakingPosition { lock_amount: 0, claimed: true, ..pos }
}

/// The global status a successful claim leaves behind.
pub open spec fn claim_new_status(status: Status, pos: StakingPosition) -> Status {
    Status { total_staked: (status.total_staked - pos.amount) as u64, ..status }
}

/// The inputs on which a passing claim keeps every intermediate product and
/// sum inside its machine type.
pub open spec fn claim_arith_in_range(
    status: Status,
    pool: PoolInfo,
    pos: StakingPosition,
    pool_id: u8,
    token: AccountId,
    now: i64,
) -> bool {
    &&& (token == status.token && pool_id <= status.total_pools && pos.amount > 0
        ==> i64::MIN <= pos.start_time + pool.lock_time <= i64::MAX)
    &&& (claim_error(status, pool, pos, pool_id, token, now) is None ==> {
        &&& pos.amount * pool.basis_points <= u64::MAX
        &&& base_reward(pos.amount as int, pool.basis_points as int) + pos.lock_amount <= u64::MAX
    })
}

/// The inputs on which a passing claim stays inside its machine types: the
/// arithmetic bounds, and a global total large enough to give the principal
/// back (which the ledger's accounting invariant supplies by itself).
pub open spec fn claim_in_range(
    status: Status,
    pool: PoolInfo,
    pos: StakingPosition,
    pool_id: u8,
    token: AccountId,
    now: i64,
) -> bool {
    &&& claim_arith_in_range(status, pool, pos, pool_id, token, now)
    &&& (claim_error(status, pool, pos, pool_id, token, now) is None ==> pos.amount
        <= status.total_staked)
}

/// Settles a matured position: returns the staked principal from the vault
/// and mints the full base reward plus any deferred reward. The position is
/// closed by the claimed tombstone until the user stakes again.
pub fn claim(
    status: &mut Status,
    pool: &PoolInfo,
    pos: &mut StakingPosition,
    pool_id: u8,
    token: AccountId,
    now: i64,
) -> (result: Result<TokenEffects, StakingErrors>)
    requires
        claim_in_range(*old(status), *pool, *old(pos), pool_id, token, now),
    ensures
        result is Err <==> claim_error(*old(status), *pool, *old(pos), pool_id, token, now)
            is Some,
        result is Err ==> Some(result->Err_0) == claim_error(
            *old(status),
            *pool,
            *old(pos),
            pool_id,
            token,
            now,
        ) && *final(status) == *old(status) && *final(pos) == *old(pos),
        result is Ok ==> {
            &&& *final(pos) == claim_new_position(*old(pos))
            &&& *final(status) == claim_new_status(*old(status), *old(pos))
            &&& result->Ok_0 == (TokenEffects {
                vault_in: 0,
                vault_out: old(pos).amount,
                minted: claim_mint(*pool, *old(pos)) as u64,
            })
        },
        // Claiming before the lock has matured fails, whatever else holds of
        // the position.
        token == old(status).token && pool_id <= old(status).total_pools && old(pos).amount > 0
            && now < old(pos).start_time + pool.lock_time ==> result is Err && result->Err_0
            == StakingErrors::NothingToClaim,
{
    if token != status.token {
        return Err(StakingErrors::InvalidTokenAccount);
    }
    if status.total_pools < pool_id {
        return Err(StakingErrors::InvalidPoolId);
    }
    if pos.amount == 0 {
        return Err(StakingErrors::NoTokens);
    }
    let lock_deadline = pool.lock_time + pos.start_time;
    if pos.claimed || now < lock_deadline {
        return Err(StakingErrors::NothingToClaim);
    }
    // maturity is already established, so the reward is the full base reward
    let reward = calc_rewards(pos.amount, pool.basis_points, 1, 1) + pos.lock_amount;
    pos.lock_amount = 0;
    status.total_staked = status.total_staked - pos.amount;
    pos.claimed = true;
    Ok(TokenEffects { vault_in: 0, vault_out: pos.amount, minted: reward })
}

/// A claim settles a stake cycle exactly once: after a successful claim, a
/// second claim on the resulting records fails with `NothingToClaim`,
/// whatever the later time.
pub proof fn lemma_claim_settles_once(
    status: Status,
    pool: PoolInfo,
    pos: StakingPosition,
    pool_id: u8,
    token: AccountId,
    now1: i64,
    now2: i64,
)
    requires
        claim_error(status, pool, pos, pool_id, token, now1) is None,
    ensures
        claim_error(
            claim_new_status(status, pos),
            pool,
            claim_new_position(pos),
            pool_id,
            token,
            now2,
        ) == Some(StakingErrors::NothingToClaim),
{
}

// ------------------------------------------------------------------ withdraw

/// Which error `withdraw` reports, if any, in the order the checks run.
pub open spec fn withdraw_error(
    status: Status,
    pos: StakingPosition,
    pool_id: u8,
    token: AccountId,
) -> Option<StakingErrors> {
    if token != status.token {
        Some(StakingErrors::InvalidTokenAccount)
    } else if status.total_pools < pool_id {
        Some(StakingErrors::InvalidPoolId)
    } else if pos.amount == 0 {
        Some(StakingErrors::NoTokens)
    } else {
        None
    }
}

/// The fixed early-exit penalty: five percent of the principal, truncated.
pub open spec fn withdraw_fee(amount: int) -> int {
    (amount * 5) / 100
}

/// The global status a successful withdrawal leaves behind.
pub open spec fn withdraw_new_status(status: Status, pos: StakingPosition) -> Status {
    Status {
        total_staked: (status.total_staked - pos.amount) as u64,
        early_collected_fee: (status.early_collected_fee + withdraw_fee(pos.amount as int)) as u64,
        ..status
    }
}

/// The inputs on which a passing withdrawal keeps every intermediate product
/// and sum inside its machine type.
pub open spec fn withdraw_arith_in_range(
    status: Status,
    pos: StakingPosition,
    pool_id: u8,
    token: AccountId,
) -> bool {
    withdraw_error(status, pos, pool_id, token) is None ==> {
        &&& pos.amount * 5 <= u64::MAX
        &&& status.early_collected_fee + withdraw_fee(pos.amount as int) <= u64::MAX
    }
}

/// The inputs on which a passing withdrawal stays inside its machine types:
/// the arithmetic bounds, and a global total large enough to subtract the
/// principal from (which the ledger's accounting invariant supplies for any
/// unclaimed position).
pub open spec fn withdraw_in_range(
    status: Status,
    pos: StakingPosition,
    pool_id: u8,
    token: AccountId,
) -> bool {
    &&& withdraw_arith_in_range(status, pos, pool_id, token)
    &&& (withdraw_error(status, pos, pool_id, token) is None ==> pos.amount
        <= status.total_staked)
}

/// The early-withdrawal fee never exceeds the principal it is taken from.
pub proof fn lemma_withdraw_fee_le_amount(amount: u64)
    ensures
        0 <= withdraw_fee(amount as int) <= amount,
{
    lemma_div_pos_is_pos(amount * 5, 100);
    lemma_div_is_ordered_by_denominator(amount * 5, 5, 100);
    lemma_mul_is_commutative(amount as int, 5);
    lemma_div_multiples_vanish(amount as int, 5);
}

/// The early exit: returns the principal minus the fixed five percent
/// penalty, forfeits every unclaimed reward, fully resets the position, and
/// accrues the penalty for the owner to sweep. No lock-maturity requirement.
pub fn withdraw(
    status: &mut Status,
    pos: &mut StakingPosition,
    pool_id: u8,
    token: AccountId,
) -> (result: Result<TokenEffects, StakingErrors>)
    requires
        withdraw_in_range(*old(status), *old(pos), pool_id, token),
    ensures
        result is Err <==> withdraw_error(*old(status), *old(pos), pool_id, token) is Some,
        result is Err ==> Some(result->Err_0) == withdraw_error(
            *old(status),
            *old(pos),
            pool_id,
            token,
        ) && *final(status) == *old(status) && *final(pos) == *old(pos),
        result is Ok ==> {
            &&& *final(pos) == StakingPosition::spec_zeroed()
            &&& *final(status) == withdraw_new_status(*old(status), *old(pos))
            &&& result->Ok_0 == (TokenEffects {
                vault_in: 0,
                vault_out: (old(pos).amount - withdraw_fee(old(pos).amount as int)) as u64,
                minted: 0,
            })
        },
        // Conservation of the principal: the payout and the fee split the
        // withdrawn amount exactly, and no reward is ever paid on early
        // withdrawal.
        result is Ok ==> result->Ok_0.vault_out + withdraw_fee(old(pos).amount as int) == old(
            pos,
        ).amount && result->Ok_0.minted == 0,
{
    if token != status.token {
        return Err(StakingErrors::InvalidTokenAccount);
    }
    if status.total_pools < pool_id {
        return Err(StakingErrors::InvalidPoolId);
    }
    if pos.amount == 0 {
        return Err(StakingErrors::NoTokens);
    }
    let deposited_amount = pos.amount;
    status.total_staked = status.total_staked - deposited_amount;
    pos.amount = 0;
    pos.lock_amount = 0;
    pos.claimed = false;
    pos.start_time = 0;
    let early_fee = deposited_amount * 5 / 100;
    proof {
        lemma_withdraw_fee_le_amount(deposited_amount);
    }
    let payout = deposited_amount - early_fee;
    status.early_collected_fee = status.early_collected_fee + early_fee;
    Ok(TokenEffects { vault_in: 0, vault_out: payout, minted: 0 })
}

// --------------------------------------------------------------- create_pool

/// Which error `create_pool` reports, if any, in the order the checks run.
pub open spec fn create_pool_error(
    status: Status,
    pool_id: u8,
    basis_points: u32,
    lock_time: i64,
    signer: AccountId,
) -> Option<StakingErrors> {
    if signer != status.owner {
        Some(StakingErrors::NotOwner)
    } else if pool_id <= status.total_pools {
        Some(StakingErrors::InvalidPoolId)
    } else if basis_points == 0 || lock_time == 0 {
        Some(StakingErrors::InvalidInputValues)
    } else {
        None
    }
}

/// Creates an active pool with the given rate and lock duration. The new id
/// must be strictly greater than the current pool count, yet the count grows
/// by exactly one regardless of the gap, so later ids need not stay within
/// the `pool_id <= total_pools` validity check used elsewhere.
pub fn create_pool(
    status: &mut Status,
    pool_id: u8,
    basis_points: u32,
    lock_time: i64,
    signer: AccountId,
) -> (result: Result<PoolInfo, StakingErrors>)
    ensures
        result is Err <==> create_pool_error(*old(status), pool_id, basis_points, lock_time, signer)
            is Some,
        result is Err ==> Some(result->Err_0) == create_pool_error(
            *old(status),
            pool_id,
            basis_points,
            lock_time,
            signer,
        ) && *final(status) == *old(status),
        result is Ok ==> {
            &&& result->Ok_0 == (PoolInfo { basis_points, lock_time, is_active: true })
            &&& *final(status) == (Status {
                total_pools: (old(status).total_pools + 1) as u8,
                ..*old(status)
            })
        },
{
    if signer != status.owner {
        return Err(StakingErrors::NotOwner);
    }
    if pool_id <= status.total_pools {
        return Err(StakingErrors::InvalidPoolId);
    }
    if basis_points == 0 || lock_time == 0 {
        return Err(StakingErrors::InvalidInputValues);
    }
    status.total_pools = status.total_pools + 1;
    Ok(PoolInfo { basis_points, lock_time, is_active: true })
}

// ---------------------------------------------------- set_pool_active_status

/// Which error `set_pool_active_status` reports, if any.
pub open spec fn set_pool_active_error(
    status: Status,
    pool_id: u8,
    signer: AccountId,
) -> Option<StakingErrors> {
    if signer != status.owner {
        Some(StakingErrors::NotOwner)
    } else if pool_id > status.total_pools {
        Some(StakingErrors::InvalidPoolId)
    } else {
        None
    }
}

/// Opens or closes a pool for new stakes. Requesting the state the pool is
/// already in succeeds without touching anything.
pub fn set_pool_active_status(
    status: &Status,
    pool: &mut PoolInfo,
    pool_id: u8,
    active_state: bool,
    signer: AccountId,
) -> (result: Result<(), StakingErrors>)
    ensures
        result is Err <==> set_pool_active_error(*status, pool_id, signer) is Some,
        result is Err ==> Some(result->Err_0) == set_pool_active_error(*status, pool_id, signer)
            && *final(pool) == *old(pool),
        result is Ok ==> *final(pool) == (PoolInfo { is_active: active_state, ..*old(pool) }),
        // The no-op toggle is idempotent: asking for the current state
        // leaves the pool exactly as it was.
        result is Ok && old(pool).is_active == active_state ==> *final(pool) == *old(pool),
{
    if signer != status.owner {
        return Err(StakingErrors::NotOwner);
    }
    if pool_id > status.total_pools {
        return Err(StakingErrors::InvalidPoolId);
    }
    if pool.is_active == active_state {
        return Ok(());
    }
    pool.is_active = active_state;
    Ok(())
}

// ------------------------------------------------------------ claim_early_fee

/// Which error `claim_early_fee` reports, if any.
pub open spec fn claim_early_fee_error(status: Status, signer: AccountId) -> Option<
    StakingErrors,
> {
    if signer != status.owner {
        Some(StakingErrors::NotOwner)
    } else if status.early_collected_fee == 0 {
        Some(StakingErrors::NothingToClaim)
    } else {
        None
    }
}

/// Sweeps the accumulated early-withdrawal fees to the owner: zeroes the
/// accumulator and asks the host to transfer the full amount from the vault.
pub fn claim_early_fee(status: &mut Status, signer: AccountId) -> (result: Result<
    TokenEffects,
    StakingErrors,
>)
    ensures
        result is Err <==> claim_early_fee_error(*old(status), signer) is Some,
        result is Err ==> Some(result->Err_0) == claim_early_fee_error(*old(status), signer)
            && *final(status) == *old(status),
        result is Ok ==> {
            &&& *final(status) == (Status { early_collected_fee: 0, ..*old(status) })
            &&& result->Ok_0 == (TokenEffects {
                vault_in: 0,
                vault_out: old(status).early_collected_fee,
                minted: 0,
            })
        },
{
    if signer != status.owner {
        return Err(StakingErrors::NotOwner);
    }
    let fee = status.early_collected_fee;
    if fee == 0 {
        return Err(StakingErrors::NothingToClaim);
    }
    status.early_collected_fee = 0;
    Ok(TokenEffects { vault_in: 0, vault_out: fee, minted: 0 })
}

// --------------------------------------------------------- transfer_ownership

/// Replaces the administrative owner unconditionally, with no acceptance
/// handshake by the new owner. Owner-only.
pub fn transfer_ownership(status: &mut Status, signer: AccountId, new_owner: AccountId) -> (result:
    Result<(), StakingErrors>)
    ensures
        result is Err <==> signer != old(status).owner,
        result is Err ==> result->Err_0 == StakingErrors::NotOwner && *final(status) == *old(
            status,
        ),
        result is Ok ==> *final(status) == (Status { owner: new_owner, ..*old(status) }),
{
    if signer != status.owner {
        return Err(StakingErrors::NotOwner);
    }
    status.owner = new_owner;
    Ok(())
}

} // verus!
