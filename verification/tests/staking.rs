use bfi_staking::errors::StakingErrors;
use bfi_staking::ledger::StakingLedger;
use bfi_staking::state::TokenEffects;

const TOKEN: u64 = 7;
const OWNER: u64 = 9;
const USER: u64 = 42;

fn deployment_with_pool(rate_basis: u32, lock_duration: i64) -> StakingLedger {
    let mut ledger = StakingLedger::new();
    ledger.initialize(TOKEN, OWNER).unwrap();
    ledger.create_pool(1, rate_basis, lock_duration, OWNER).unwrap();
    ledger
}

#[test]
fn stake_then_claim_at_maturity() {
    let mut ledger = deployment_with_pool(10, 100);
    let staked = ledger.stake(USER, 1, 1000, TOKEN, 0).unwrap();
    assert_eq!(staked, TokenEffects { vault_in: 1000, vault_out: 0, minted: 0 });
    assert_eq!(ledger.status.total_staked, 1000);

    // before maturity the claim fails
    assert_eq!(ledger.claim(USER, 1, TOKEN, 50), Err(StakingErrors::NothingToClaim));

    // at maturity the principal comes back and the full reward is minted
    let settled = ledger.claim(USER, 1, TOKEN, 100).unwrap();
    assert_eq!(settled, TokenEffects { vault_in: 0, vault_out: 1000, minted: 100 });
    assert_eq!(ledger.status.total_staked, 0);
    assert!(ledger.get_position(USER, 1).claimed);
}

#[test]
fn claim_succeeds_only_once_per_stake_cycle() {
    let mut ledger = deployment_with_pool(10, 100);
    ledger.stake(USER, 1, 1000, TOKEN, 0).unwrap();
    ledger.claim(USER, 1, TOKEN, 100).unwrap();
    assert_eq!(ledger.claim(USER, 1, TOKEN, 200), Err(StakingErrors::NothingToClaim));
    assert_eq!(ledger.claim(USER, 1, TOKEN, 100_000), Err(StakingErrors::NothingToClaim));
}

#[test]
fn restake_before_maturity_defers_the_reward() {
    let mut ledger = deployment_with_pool(10, 100);
    ledger.stake(USER, 1, 1000, TOKEN, 0).unwrap();
    // pending reward 1000*10/100 * 50/100 = 50, deferred, nothing minted
    let restaked = ledger.stake(USER, 1, 1000, TOKEN, 50).unwrap();
    assert_eq!(restaked, TokenEffects { vault_in: 1000, vault_out: 0, minted: 0 });
    let position = ledger.get_position(USER, 1);
    assert_eq!(position.amount, 2000);
    assert_eq!(position.lock_amount, 50);
    assert_eq!(position.start_time, 50);
    assert_eq!(ledger.status.total_staked, 2000);
}

#[test]
fn restake_exactly_at_lock_end_still_defers() {
    let mut ledger = deployment_with_pool(10, 100);
    ledger.stake(USER, 1, 1000, TOKEN, 0).unwrap();
    // the immediate payout needs now strictly past the lock end
    let restaked = ledger.stake(USER, 1, 1000, TOKEN, 100).unwrap();
    assert_eq!(restaked.minted, 0);
    assert_eq!(ledger.get_position(USER, 1).lock_amount, 100);
}

#[test]
fn restake_after_maturity_mints_immediately() {
    let mut ledger = deployment_with_pool(10, 100);
    ledger.stake(USER, 1, 1000, TOKEN, 0).unwrap();
    let restaked = ledger.stake(USER, 1, 500, TOKEN, 150).unwrap();
    assert_eq!(restaked, TokenEffects { vault_in: 500, vault_out: 0, minted: 100 });
    let position = ledger.get_position(USER, 1);
    assert_eq!(position.amount, 1500);
    assert_eq!(position.lock_amount, 0);
}

#[test]
fn claim_pays_the_deferred_reward_too() {
    let mut ledger = deployment_with_pool(10, 100);
    ledger.stake(USER, 1, 1000, TOKEN, 0).unwrap();
    ledger.stake(USER, 1, 1000, TOKEN, 50).unwrap();
    // base reward on 2000 plus the 50 deferred at the restake
    let settled = ledger.claim(USER, 1, TOKEN, 150).unwrap();
    assert_eq!(settled, TokenEffects { vault_in: 0, vault_out: 2000, minted: 250 });
    assert_eq!(ledger.get_position(USER, 1).lock_amount, 0);
}

#[test]
fn stake_after_claim_reopens_from_zero() {
    let mut ledger = deployment_with_pool(10, 100);
    ledger.stake(USER, 1, 1000, TOKEN, 0).unwrap();
    ledger.claim(USER, 1, TOKEN, 100).unwrap();
    let restaked = ledger.stake(USER, 1, 300, TOKEN, 200).unwrap();
    assert_eq!(restaked.minted, 0);
    let position = ledger.get_position(USER, 1);
    assert!(!position.claimed);
    assert_eq!(position.amount, 300);
    assert_eq!(ledger.status.total_staked, 300);
}

#[test]
fn early_withdraw_splits_principal_into_payout_and_fee() {
    let mut ledger = deployment_with_pool(10, 100);
    ledger.stake(USER, 1, 1000, TOKEN, 0).unwrap();
    let effects = ledger.withdraw(USER, 1, TOKEN).unwrap();
    assert_eq!(effects, TokenEffects { vault_in: 0, vault_out: 950, minted: 0 });
    assert_eq!(ledger.status.early_collected_fee, 50);
    assert_eq!(ledger.status.total_staked, 0);
    let position = ledger.get_position(USER, 1);
    assert_eq!(position.amount, 0);
    assert_eq!(position.lock_amount, 0);
    assert_eq!(position.start_time, 0);
    assert!(!position.claimed);
}

#[test]
fn early_withdraw_forfeits_deferred_rewards() {
    let mut ledger = deployment_with_pool(10, 100);
    ledger.stake(USER, 1, 1000, TOKEN, 0).unwrap();
    ledger.stake(USER, 1, 1000, TOKEN, 50).unwrap();
    let effects = ledger.withdraw(USER, 1, TOKEN).unwrap();
    // 5 percent of 2000, and the 50 deferred at the restake is forfeited
    assert_eq!(effects, TokenEffects { vault_in: 0, vault_out: 1900, minted: 0 });
    assert_eq!(ledger.get_position(USER, 1).lock_amount, 0);
}

#[test]
fn withdraw_fee_truncates() {
    let mut ledger = deployment_with_pool(10, 100);
    ledger.stake(USER, 1, 39, TOKEN, 0).unwrap();
    // 39 * 5 / 100 truncates to 1
    let effects = ledger.withdraw(USER, 1, TOKEN).unwrap();
    assert_eq!(effects.vault_out, 38);
    assert_eq!(ledger.status.early_collected_fee, 1);
}

#[test]
fn total_staked_tracks_positions_of_many_users() {
    let mut ledger = deployment_with_pool(10, 100);
    ledger.create_pool(2, 20, 200, OWNER).unwrap();
    ledger.stake(USER, 1, 1000, TOKEN, 0).unwrap();
    ledger.stake(77, 1, 600, TOKEN, 0).unwrap();
    ledger.stake(77, 2, 400, TOKEN, 0).unwrap();
    assert_eq!(ledger.status.total_staked, 2000);
    ledger.withdraw(77, 1, TOKEN).unwrap();
    assert_eq!(ledger.status.total_staked, 1400);
    ledger.claim(USER, 1, TOKEN, 100).unwrap();
    assert_eq!(ledger.status.total_staked, 400);
    assert_eq!(ledger.get_position(77, 2).amount, 400);
}

#[test]
fn stake_rejections() {
    let mut ledger = deployment_with_pool(10, 100);
    // unknown record
    assert_eq!(ledger.stake(USER, 5, 1000, TOKEN, 0), Err(StakingErrors::InvalidPoolId));
    // wrong token
    assert_eq!(ledger.stake(USER, 1, 1000, 8, 0), Err(StakingErrors::InvalidTokenAccount));
    // zero amount
    assert_eq!(ledger.stake(USER, 1, 0, TOKEN, 0), Err(StakingErrors::NoTokens));
    // inactive pool
    ledger.set_pool_active_status(1, false, OWNER).unwrap();
    assert_eq!(ledger.stake(USER, 1, 1000, TOKEN, 0), Err(StakingErrors::InactivePool));
    // nothing was recorded along the way
    assert_eq!(ledger.status.total_staked, 0);
    assert_eq!(ledger.get_position(USER, 1).amount, 0);
}

#[test]
fn stake_rejects_pool_id_beyond_pool_count() {
    let mut ledger = StakingLedger::new();
    ledger.initialize(TOKEN, OWNER).unwrap();
    // a gapped id leaves the pool record beyond the count check used here
    ledger.create_pool(3, 10, 100, OWNER).unwrap();
    assert_eq!(ledger.status.total_pools, 1);
    assert_eq!(ledger.stake(USER, 3, 1000, TOKEN, 0), Err(StakingErrors::InvalidPoolId));
}

#[test]
fn claim_and_withdraw_rejections() {
    let mut ledger = deployment_with_pool(10, 100);
    assert_eq!(ledger.claim(USER, 5, TOKEN, 0), Err(StakingErrors::InvalidPoolId));
    assert_eq!(ledger.claim(USER, 1, 8, 0), Err(StakingErrors::InvalidTokenAccount));
    // empty position
    assert_eq!(ledger.claim(USER, 1, TOKEN, 0), Err(StakingErrors::NoTokens));
    assert_eq!(ledger.withdraw(USER, 5, TOKEN), Err(StakingErrors::InvalidPoolId));
    assert_eq!(ledger.withdraw(USER, 1, 8), Err(StakingErrors::InvalidTokenAccount));
    assert_eq!(ledger.withdraw(USER, 1, TOKEN), Err(StakingErrors::NoTokens));
}
