//! The data model: global status, pool configurations, staking positions,
//! and the token movements a transition asks the host to perform.

use vstd::prelude::*;

verus! {

/// Identity of an on-chain account (a wallet, a token mint). The engine only
/// ever compares identities for equality, so they are modeled as plain
/// integers; `UNSET_ACCOUNT` is the default identity of a freshly created
/// record, which no real account uses.
pub type AccountId = u64;

/// The identity a zeroed record holds before initialization.
pub const UNSET_ACCOUNT: AccountId = 0;

/// Singleton record of the deployment-wide accounting state.
#[derive(Clone, Copy, Debug, PartialEq, Eq, Structural)]
pub struct Status {
    /// Sum of the amounts of all live (staked, unclaimed) positions.
    pub total_staked: u64,
    /// Count of pools ever created; increases by exactly one per creation.
    pub total_pools: u8,
    /// Identity of the only token this deployment accepts.
    pub token: AccountId,
    /// Early-withdrawal fees collected and not yet swept by the owner.
    pub early_collected_fee: u64,
    /// Identity authorized for administrative operations.
    pub owner: AccountId,
}

impl Status {
    /// The zero-state the record store hands out when the singleton is first
    /// created, before `initialize` has run.
    pub open spec fn spec_zeroed() -> Status {
        Status {
            total_staked: 0,
            total_pools: 0,
            token: UNSET_ACCOUNT,
            early_collected_fee: 0,
            owner: UNSET_ACCOUNT,
        }
    }

    /// Builds the zero-state of the singleton record.
    pub fn zeroed() -> (s: Status)
        ensures
            s == Status::spec_zeroed(),
    {
        Status {
            total_staked: 0,
            total_pools: 0,
            token: UNSET_ACCOUNT,
            early_collected_fee: 0,
            owner: UNSET_ACCOUNT,
        }
    }
}

/// An owner-managed reward configuration, identified by an integer id.
#[derive(Clone, Copy, Debug, PartialEq, Eq, Structural)]
pub struct PoolInfo {
    /// Reward-rate numerator: the reward is this percentage of the principal.
    pub basis_points: u32,
    /// Seconds a deposit must remain staked for the full reward.
    pub lock_time: i64,
    /// Gates new stake actions.
    pub is_active: bool,
}

/// A user's stake record within one pool, lazily created on first stake and
/// never deleted (it remains as a zeroed record).
#[derive(Clone, Copy, Debug, PartialEq, Eq, Structural)]
pub struct StakingPosition {
    /// Currently staked principal.
    pub amount: u64,
    /// Timestamp of the most recent stake or restake.
    pub start_time: i64,
    /// Reward accrued on a prior lock segment but not yet paid because the
    /// lock had not matured when it was calculated.
    pub lock_amount: u64,
    /// Tombstone: set once a claim has settled, cleared by the next stake.
    pub claimed: bool,
}

impl StakingPosition {
    /// The zero-state the record store hands out on first access.
    pub open spec fn spec_zeroed() -> StakingPosition {
        StakingPosition { amount: 0, start_time: 0, lock_amount: 0, claimed: false }
    }

    /// Builds the zero-state of a position record.
    pub fn zeroed() -> (p: StakingPosition)
        ensures
            p == StakingPosition::spec_zeroed(),
    {
        StakingPosition { amount: 0, start_time: 0, lock_amount: 0, claimed: false }
    }

    /// A live position holds tokens and has not been settled by a claim.
    pub open spec fn live(self) -> bool {
        self.amount > 0 && !self.claimed
    }

    /// The principal this position contributes to `Status.total_staked`: a
    /// claimed position keeps its amount numerically (it is the quantity the
    /// host returns to the user) but is logically closed and counts for
    /// nothing.
    pub open spec fn effective_amount(self) -> int {
        if self.claimed {
            0
        } else {
            self.amount as int
        }
    }
}

/// The token movements a successful transition asks the host to perform.
/// The host executes them atomically with the state change: if a movement
/// fails, the whole action aborts and the state change is discarded.
#[derive(Clone, Copy, Debug, PartialEq, Eq, Structural)]
pub struct TokenEffects {
    /// Tokens to transfer from the caller into the custody vault.
    pub vault_in: u64,
    /// Tokens to transfer from the custody vault to the caller.
    pub vault_out: u64,
    /// Freshly minted reward tokens to hand to the caller.
    pub minted: u64,
}

} // verus!
