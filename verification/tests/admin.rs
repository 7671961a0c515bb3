use bfi_staking::errors::StakingErrors;
use bfi_staking::ledger::StakingLedger;
use bfi_staking::state::TokenEffects;

const TOKEN: u64 = 7;
const OWNER: u64 = 9;
const USER: u64 = 42;

fn deployment() -> StakingLedger {
    let mut ledger = StakingLedger::new();
    ledger.initialize(TOKEN, OWNER).unwrap();
    ledger
}

#[test]
fn initialize_records_token_and_owner_once() {
    let mut ledger = StakingLedger::new();
    ledger.initialize(TOKEN, OWNER).unwrap();
    assert_eq!(ledger.status.token, TOKEN);
    assert_eq!(ledger.status.owner, OWNER);
    assert_eq!(ledger.status.total_staked, 0);
    assert_eq!(ledger.initialize(8, USER), Err(StakingErrors::AlreadyInitialized));
    assert_eq!(ledger.status.token, TOKEN);
}

#[test]
fn create_pool_with_gapped_id_counts_one() {
    let mut ledger = deployment();
    ledger.create_pool(3, 10, 100, OWNER).unwrap();
    assert_eq!(ledger.status.total_pools, 1);
    let pool = ledger.get_pool(3).unwrap();
    assert_eq!(pool.basis_points, 10);
    assert_eq!(pool.lock_time, 100);
    assert!(pool.is_active);
}

#[test]
fn create_pool_rejections() {
    let mut ledger = deployment();
    assert_eq!(ledger.create_pool(1, 10, 100, USER), Err(StakingErrors::NotOwner));
    assert_eq!(ledger.create_pool(0, 10, 100, OWNER), Err(StakingErrors::InvalidPoolId));
    assert_eq!(ledger.create_pool(1, 0, 100, OWNER), Err(StakingErrors::InvalidInputValues));
    assert_eq!(ledger.create_pool(1, 10, 0, OWNER), Err(StakingErrors::InvalidInputValues));
    ledger.create_pool(1, 10, 100, OWNER).unwrap();
    // an id at or below the count is rejected
    assert_eq!(ledger.create_pool(1, 10, 100, OWNER), Err(StakingErrors::InvalidPoolId));
}

#[test]
fn toggle_pool_active_status() {
    let mut ledger = deployment();
    ledger.create_pool(1, 10, 100, OWNER).unwrap();
    ledger.set_pool_active_status(1, false, OWNER).unwrap();
    assert!(!ledger.get_pool(1).unwrap().is_active);
    ledger.set_pool_active_status(1, true, OWNER).unwrap();
    assert!(ledger.get_pool(1).unwrap().is_active);
}

#[test]
fn noop_toggle_leaves_every_record_unchanged() {
    let mut ledger = deployment();
    ledger.create_pool(1, 10, 100, OWNER).unwrap();
    ledger.stake(USER, 1, 1000, TOKEN, 0).unwrap();
    let status_before = ledger.status;
    let pools_before = ledger.pools.clone();
    let positions_before = ledger.positions.clone();
    ledger.set_pool_active_status(1, true, OWNER).unwrap();
    assert_eq!(ledger.status, status_before);
    assert_eq!(ledger.pools, pools_before);
    assert_eq!(ledger.positions, positions_before);
}

#[test]
fn set_pool_active_status_rejections() {
    let mut ledger = deployment();
    ledger.create_pool(1, 10, 100, OWNER).unwrap();
    assert_eq!(ledger.set_pool_active_status(1, false, USER), Err(StakingErrors::NotOwner));
    assert_eq!(ledger.set_pool_active_status(5, false, OWNER), Err(StakingErrors::InvalidPoolId));
}

#[test]
fn claim_early_fee_sweeps_the_accumulator() {
    let mut ledger = deployment();
    ledger.create_pool(1, 10, 100, OWNER).unwrap();
    ledger.stake(USER, 1, 1000, TOKEN, 0).unwrap();
    ledger.withdraw(USER, 1, TOKEN).unwrap();
    assert_eq!(ledger.claim_early_fee(USER), Err(StakingErrors::NotOwner));
    let swept = ledger.claim_early_fee(OWNER).unwrap();
    assert_eq!(swept, TokenEffects { vault_in: 0, vault_out: 50, minted: 0 });
    assert_eq!(ledger.status.early_collected_fee, 0);
}

#[test]
fn claim_early_fee_with_empty_accumulator_fails() {
    let mut ledger = deployment();
    assert_eq!(ledger.claim_early_fee(OWNER), Err(StakingErrors::NothingToClaim));
}

#[test]
fn transfer_ownership_moves_every_admin_right() {
    let mut ledger = deployment();
    assert_eq!(ledger.transfer_ownership(USER, USER), Err(StakingErrors::NotOwner));
    ledger.transfer_ownership(OWNER, USER).unwrap();
    assert_eq!(ledger.status.owner, USER);
    assert_eq!(ledger.create_pool(1, 10, 100, OWNER), Err(StakingErrors::NotOwner));
    ledger.create_pool(1, 10, 100, USER).unwrap();
}
