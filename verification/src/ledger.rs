//! The keyed record store: every pool and every staking position of one
//! deployment, together with the global status, behind insert-or-fetch
//! access as the host's account store provides it.
//!
//! The ledger carries the global accounting invariant: `total_staked` always
//! equals the sum of the amounts of the live (staked, unclaimed) positions.
//! Every operation preserves it, and every operation mirrors the account
//! store's behaviour: a record that a handler loads without creating it
//! (a pool) reports `InvalidPoolId` when it is missing, before the handler's
//! own checks run; a position is created zeroed on first access; and a
//! failed action leaves the ledger exactly as it was.

use vstd::prelude::*;
use crate::actions::claim_new_position;
use crate::actions::claim_new_status;
use crate::actions::stake_mint;
use crate::actions::stake_new_position;
use crate::actions::stake_new_status;
use crate::actions::withdraw_fee;
use crate::actions::withdraw_new_status;
use crate::actions::{claim_arith_in_range, claim_error, claim_mint};
use crate::actions::{create_pool_error, set_pool_active_error};
use crate::actions::{claim_early_fee_error, initialize_error};
use crate::actions::{stake_error, stake_in_range};
use crate::actions::{withdraw_arith_in_range, withdraw_error};
use crate::errors::StakingErrors;
use crate::state::{AccountId, PoolInfo, StakingPosition, Status, TokenEffects};

verus! {

/// A pool record under its integer id.
#[derive(Clone, Copy, Debug, PartialEq, Eq, Structural)]
pub struct PoolEntry {
    pub pool_id: u8,
    pub info: PoolInfo,
}

/// A staking position record under its (user, pool) key.
#[derive(Clone, Copy, Debug, PartialEq, Eq, Structural)]
pub struct PositionEntry {
    pub user: AccountId,
    pub pool_id: u8,
    pub position: StakingPosition,
}

/// The staked principal the recorded positions account for: the sum of each
/// position's effective amount (claimed tombstones count for nothing).
pub open spec fn sum_effective(s: Seq<PositionEntry>) -> int
    decreases s.len(),
{
    if s.len() == 0 {
        0
    } else {
        sum_effective(s.drop_last()) + s.last().position.effective_amount()
    }
}

/// The sum of effective amounts is never negative.
pub proof fn lemma_sum_effective_nonneg(s: Seq<PositionEntry>)
    ensures
        0 <= sum_effective(s),
    decreases s.len(),
{
    if s.len() > 0 {
        lemma_sum_effective_nonneg(s.drop_last());
    }
}

/// Appending a record grows the sum by that record's effective amount.
pub proof fn lemma_sum_effective_push(s: Seq<PositionEntry>, e: PositionEntry)
    ensures
        sum_effective(s.push(e)) == sum_effective(s) + e.position.effective_amount(),
{
    assert(s.push(e).drop_last() =~= s);
    assert(s.push(e).last() == e);
}

/// Replacing one record moves the sum by the difference of the effective
/// amounts.
pub proof fn lemma_sum_effective_update(s: Seq<PositionEntry>, i: int, e: PositionEntry)
    requires
        0 <= i < s.len(),
    ensures
        sum_effective(s.update(i, e)) == sum_effective(s) - s[i].position.effective_amount()
            + e.position.effective_amount(),
    decreases s.len(),
{
    let t = s.update(i, e);
    if i == s.len() - 1 {
        assert(t.drop_last() =~= s.drop_last());
        assert(t.last() == e);
    } else {
        assert(t.drop_last() =~= s.drop_last().update(i, e));
        assert(t.last() == s.last());
        lemma_sum_effective_update(s.drop_last(), i, e);
        assert(s.drop_last()[i] == s[i]);
    }
}

/// No single record's effective amount exceeds the sum.
pub proof fn lemma_sum_effective_entry_le(s: Seq<PositionEntry>, i: int)
    requires
        0 <= i < s.len(),
    ensures
        s[i].position.effective_amount() <= sum_effective(s),
    decreases s.len(),
{
    if i == s.len() - 1 {
        lemma_sum_effective_nonneg(s.drop_last());
    } else {
        lemma_sum_effective_entry_le(s.drop_last(), i);
        assert(s.drop_last()[i] == s[i]);
    }
}

/// One deployment's records: the status singleton, the pools, the positions.
#[derive(Clone, Debug)]
pub struct StakingLedger {
    pub status: Status,
    pub pools: Vec<PoolEntry>,
    pub positions: Vec<PositionEntry>,
}

impl StakingLedger {
    /// Each pool id names at most one record.
    pub open spec fn pools_unique(self) -> bool {
        forall|i: int, j: int|
            0 <= i < j < self.pools@.len() ==> (#[trigger] self.pools@[i]).pool_id
                != (#[trigger] self.pools@[j]).pool_id
    }

    /// Each (user, pool) key names at most one record.
    pub open spec fn positions_unique(self) -> bool {
        forall|i: int, j: int|
            0 <= i < j < self.positions@.len() ==> ((#[trigger] self.positions@[i]).user
                != (#[trigger] self.positions@[j]).user || self.positions@[i].pool_id
                != self.positions@[j].pool_id)
    }

    /// The global accounting invariant: at all times the recorded
    /// `total_staked` equals the sum of the live positions' amounts.
    pub open spec fn accounted(self) -> bool {
        self.status.total_staked == sum_effective(self.positions@)
    }

    /// Well-formedness: unique keys, and the accounting invariant.
    pub open spec fn wf(self) -> bool {
        &&& self.pools_unique()
        &&& self.positions_unique()
        &&& self.accounted()
    }

    /// A pool record with this id exists.
    pub open spec fn has_pool(self, pool_id: u8) -> bool {
        exists|i: int|
            0 <= i < self.pools@.len() && (#[trigger] self.pools@[i]).pool_id == pool_id
    }

    /// The index of the pool record with this id.
    pub open spec fn pool_index(self, pool_id: u8) -> int {
        choose|i: int|
            0 <= i < self.pools@.len() && (#[trigger] self.pools@[i]).pool_id == pool_id
    }

    /// The recorded configuration of the pool with this id.
    pub open spec fn spec_pool(self, pool_id: u8) -> PoolInfo {
        self.pools@[self.pool_index(pool_id)].info
    }

    /// A position record with this (user, pool) key exists.
    pub open spec fn has_position(self, user: AccountId, pool_id: u8) -> bool {
        exists|i: int|
            0 <= i < self.positions@.len() && (#[trigger] self.positions@[i]).user == user
                && self.positions@[i].pool_id == pool_id
    }

    /// The index of the position record with this (user, pool) key.
    pub open spec fn position_index(self, user: AccountId, pool_id: u8) -> int {
        choose|i: int|
            0 <= i < self.positions@.len() && (#[trigger] self.positions@[i]).user == user
                && self.positions@[i].pool_id == pool_id
    }

    /// The position recorded under (user, pool), or the zero-state the
    /// record store hands out on first access.
    pub open spec fn spec_position(self, user: AccountId, pool_id: u8) -> StakingPosition {
        if self.has_position(user, pool_id) {
            self.positions@[self.position_index(user, pool_id)].position
        } else {
            StakingPosition::spec_zeroed()
        }
    }

    /// With unique pool ids, any index whose record carries the id is the
    /// pool's index.
    pub proof fn lemma_pool_index_is(self, pool_id: u8, i: int)
        requires
            self.pools_unique(),
            0 <= i < self.pools@.len(),
            self.pools@[i].pool_id == pool_id,
        ensures
            self.has_pool(pool_id),
            self.pool_index(pool_id) == i,
            self.spec_pool(pool_id) == self.pools@[i].info,
    {
        assert(self.has_pool(pool_id));
        let j = self.pool_index(pool_id);
        assert(0 <= j < self.pools@.len() && self.pools@[j].pool_id == pool_id);
        if j < i {
            assert(self.pools@[j].pool_id != self.pools@[i].pool_id);
        } else if i < j {
            assert(self.pools@[i].pool_id != self.pools@[j].pool_id);
        }
    }

    /// With unique position keys, any index whose record carries the key is
    /// the position's index.
    pub proof fn lemma_position_index_is(self, user: AccountId, pool_id: u8, i: int)
        requires
            self.positions_unique(),
            0 <= i < self.positions@.len(),
            self.positions@[i].user == user,
            self.positions@[i].pool_id == pool_id,
        ensures
            self.has_position(user, pool_id),
            self.position_index(user, pool_id) == i,
            self.spec_position(user, pool_id) == self.positions@[i].position,
    {
        assert(self.has_position(user, pool_id));
        let j = self.position_index(user, pool_id);
        assert(0 <= j < self.positions@.len() && self.positions@[j].user == user
            && self.positions@[j].pool_id == pool_id);
        if j < i {
            assert(self.positions@[j].user != self.positions@[i].user
                || self.positions@[j].pool_id != self.positions@[i].pool_id);
        } else if i < j {
            assert(self.positions@[i].user != self.positions@[j].user
                || self.positions@[i].pool_id != self.positions@[j].pool_id);
        }
    }

    /// An empty deployment: no pools, no positions, a zeroed status.
    pub fn new() -> (l: StakingLedger)
        ensures
            l.wf(),
            l.status == Status::spec_zeroed(),
            l.pools@ == Seq::<PoolEntry>::empty(),
            l.positions@ == Seq::<PositionEntry>::empty(),
    {
        StakingLedger { status: Status::zeroed(), pools: Vec::new(), positions: Vec::new() }
    }

    /// Finds the record of the pool with this id.
    fn find_pool(&self, pool_id: u8) -> (r: Option<usize>)
        ensures
            r is Some ==> 0 <= r->Some_0 < self.pools@.len()
                && self.pools@[r->Some_0 as int].pool_id == pool_id,
            r is None ==> !self.has_pool(pool_id),
    {
        let mut i: usize = 0;
        while i < self.pools.len()
            invariant
                i <= self.pools@.len(),
                forall|j: int| 0 <= j < i ==> (#[trigger] self.pools@[j]).pool_id != pool_id,
            decreases self.pools@.len() - i,
        {
            if self.pools[i].pool_id == pool_id {
                return Some(i);
            }
            i = i + 1;
        }
        None
    }

    /// Finds the record of the position with this (user, pool) key.
    fn find_position(&self, user: AccountId, pool_id: u8) -> (r: Option<usize>)
        ensures
            r is Some ==> 0 <= r->Some_0 < self.positions@.len()
                && self.positions@[r->Some_0 as int].user == user
                && self.positions@[r->Some_0 as int].pool_id == pool_id,
            r is None ==> !self.has_position(user, pool_id),
    {
        let mut i: usize = 0;
        while i < self.positions.len()
            invariant
                i <= self.positions@.len(),
                forall|j: int|
                    0 <= j < i ==> ((#[trigger] self.positions@[j]).user != user
                        || self.positions@[j].pool_id != pool_id),
            decreases self.positions@.len() - i,
        {
            if self.positions[i].user == user && self.positions[i].pool_id == pool_id {
                return Some(i);
            }
            i = i + 1;
        }
        None
    }

    /// Reads the pool configuration recorded under this id.
    pub fn get_pool(&self, pool_id: u8) -> (r: Option<PoolInfo>)
        requires
            self.wf(),
        ensures
            r is Some <==> self.has_pool(pool_id),
            r is Some ==> r->Some_0 == self.spec_pool(pool_id),
    {
        match self.find_pool(pool_id) {
            Some(i) => {
                proof {
                    self.lemma_pool_index_is(pool_id, i as int);
                }
                Some(self.pools[i].info)
            },
            None => None,
        }
    }

    /// Records the accepted token and the administrative owner, once.
    pub fn initialize(&mut self, mint: AccountId, signer: AccountId) -> (result: Result<
        (),
        StakingErrors,
    >)
        requires
            old(self).wf(),
        ensures
            final(self).wf(),
            final(self).pools@ == old(self).pools@,
            final(self).positions@ == old(self).positions@,
            result is Err <==> initialize_error(old(self).status) is Some,
            result is Err ==> Some(result->Err_0) == initialize_error(old(self).status)
                && *final(self) == *old(self),
            result is Ok ==> final(self).status == (Status {
                token: mint,
                owner: signer,
                ..old(self).status
            }),
    {
        let mut st = self.status;
        let result = crate::actions::initialize(&mut st, mint, signer);
        self.status = st;
        result
    }

    /// Replaces the administrative owner unconditionally. Owner-only.
    pub fn transfer_ownership(&mut self, signer: AccountId, new_owner: AccountId) -> (result:
        Result<(), StakingErrors>)
        requires
            old(self).wf(),
        ensures
            final(self).wf(),
            final(self).pools@ == old(self).pools@,
            final(self).positions@ == old(self).positions@,
            result is Err <==> signer != old(self).status.owner,
            result is Err ==> result->Err_0 == StakingErrors::NotOwner && *final(self) == *old(
                self,
            ),
            result is Ok ==> final(self).status == (Status {
                owner: new_owner,
                ..old(self).status
            }),
    {
        let mut st = self.status;
        let result = crate::actions::transfer_ownership(&mut st, signer, new_owner);
        self.status = st;
        result
    }

    /// Sweeps the accumulated early-withdrawal fees to the owner.
    pub fn claim_early_fee(&mut self, signer: AccountId) -> (result: Result<
        TokenEffects,
        StakingErrors,
    >)
        requires
            old(self).wf(),
        ensures
            final(self).wf(),
            final(self).pools@ == old(self).pools@,
            final(self).positions@ == old(self).positions@,
            result is Err <==> claim_early_fee_error(old(self).status, signer) is Some,
            result is Err ==> Some(result->Err_0) == claim_early_fee_error(
                old(self).status,
                signer,
            ) && *final(self) == *old(self),
            result is Ok ==> final(self).status == (Status {
                early_collected_fee: 0,
                ..old(self).status
            }) && result->Ok_0 == (TokenEffects {
                vault_in: 0,
                vault_out: old(self).status.early_collected_fee,
                minted: 0,
            }),
    {
        let mut st = self.status;
        let result = crate::actions::claim_early_fee(&mut st, signer);
        self.status = st;
        result
    }

    /// Creates (or, for a reused id, overwrites) the pool record and grows
    /// the pool count by exactly one.
    pub fn create_pool(
        &mut self,
        pool_id: u8,
        basis_points: u32,
        lock_time: i64,
        signer: AccountId,
    ) -> (result: Result<(), StakingErrors>)
        requires
            old(self).wf(),
        ensures
            final(self).wf(),
            final(self).positions@ == old(self).positions@,
            result is Err <==> create_pool_error(
                old(self).status,
                pool_id,
                basis_points,
                lock_time,
                signer,
            ) is Some,
            result is Err ==> Some(result->Err_0) == create_pool_error(
                old(self).status,
                pool_id,
                basis_points,
                lock_time,
                signer,
            ) && *final(self) == *old(self),
            result is Ok ==> {
                &&& final(self).status == (Status {
                    total_pools: (old(self).status.total_pools + 1) as u8,
                    ..old(self).status
                })
                &&& final(self).has_pool(pool_id)
                &&& final(self).spec_pool(pool_id) == (PoolInfo {
                    basis_points,
                    lock_time,
                    is_active: true,
                })
                &&& (old(self).has_pool(pool_id) ==> final(self).pools@ == old(
                    self,
                ).pools@.update(
                    old(self).pool_index(pool_id),
                    (PoolEntry {
                        pool_id,
                        info: PoolInfo { basis_points, lock_time, is_active: true },
                    }),
                ))
                &&& (!old(self).has_pool(pool_id) ==> final(self).pools@ == old(
                    self,
                ).pools@.push(
                    (PoolEntry {
                        pool_id,
                        info: PoolInfo { basis_points, lock_time, is_active: true },
                    }),
                ))
            },
    {
        let mut st = self.status;
        let result = crate::actions::create_pool(&mut st, pool_id, basis_points, lock_time, signer);
        let info = match result {
            Err(e) => {
                return Err(e);
            },
            Ok(info) => info,
        };
        self.status = st;
        let entry = PoolEntry { pool_id, info };
        match self.find_pool(pool_id) {
            Some(i) => {
                proof {
                    old(self).lemma_pool_index_is(pool_id, i as int);
                }
                self.pools[i] = entry;
                proof {
                    assert forall|a: int, b: int|
                        0 <= a < b < self.pools@.len() implies (#[trigger] self.pools@[a]).pool_id
                        != (#[trigger] self.pools@[b]).pool_id by {
                        assert(self.pools@[a].pool_id == old(self).pools@[a].pool_id);
                        assert(self.pools@[b].pool_id == old(self).pools@[b].pool_id);
                    }
                    self.lemma_pool_index_is(pool_id, i as int);
                }
            },
            None => {
                self.pools.push(entry);
                proof {
                    assert forall|a: int, b: int|
                        0 <= a < b < self.pools@.len() implies (#[trigger] self.pools@[a]).pool_id
                        != (#[trigger] self.pools@[b]).pool_id by {
                        if b < self.pools@.len() - 1 {
                            assert(self.pools@[a].pool_id == old(self).pools@[a].pool_id);
                            assert(self.pools@[b].pool_id == old(self).pools@[b].pool_id);
                        } else {
                            assert(self.pools@[a].pool_id == old(self).pools@[a].pool_id);
                        }
                    }
                    self.lemma_pool_index_is(pool_id, self.pools@.len() - 1);
                }
            },
        }
        Ok(())
    }

    /// Opens or closes a pool for new stakes; asking for the state the pool
    /// is already in succeeds and leaves every record untouched. Reports
    /// `InvalidPoolId` for a missing pool record before the owner check, as
    /// the record store does.
    pub fn set_pool_active_status(
        &mut self,
        pool_id: u8,
        active_state: bool,
        signer: AccountId,
    ) -> (result: Result<(), StakingErrors>)
        requires
            old(self).wf(),
        ensures
            final(self).wf(),
            final(self).status == old(self).status,
            final(self).positions@ == old(self).positions@,
            !old(self).has_pool(pool_id) ==> result is Err && result->Err_0
                == StakingErrors::InvalidPoolId && *final(self) == *old(self),
            old(self).has_pool(pool_id) ==> {
                let err = set_pool_active_error(old(self).status, pool_id, signer);
                &&& (result is Err <==> err is Some)
                &&& (result is Err ==> Some(result->Err_0) == err && *final(self) == *old(self))
                &&& (result is Ok ==> final(self).has_pool(pool_id) && final(self).spec_pool(
                    pool_id,
                ) == (PoolInfo { is_active: active_state, ..old(self).spec_pool(pool_id) }))
                &&& (result is Ok && old(self).spec_pool(pool_id).is_active == active_state
                    ==> *final(self) == *old(self))
            },
    {
        let i = match self.find_pool(pool_id) {
            Some(i) => i,
            None => {
                return Err(StakingErrors::InvalidPoolId);
            },
        };
        proof {
            self.lemma_pool_index_is(pool_id, i as int);
        }
        let mut info = self.pools[i].info;
        let result = crate::actions::set_pool_active_status(
            &self.status,
            &mut info,
            pool_id,
            active_state,
            signer,
        );
        match result {
            Err(e) => Err(e),
            Ok(u) => {
                if self.pools[i].info.is_active != active_state {
                    self.pools[i] = PoolEntry { pool_id, info };
                    proof {
                        assert forall|a: int, b: int|
                            0 <= a < b < self.pools@.len() implies (
                        #[trigger] self.pools@[a]).pool_id != (
                        #[trigger] self.pools@[b]).pool_id by {
                            assert(self.pools@[a].pool_id == old(self).pools@[a].pool_id);
                            assert(self.pools@[b].pool_id == old(self).pools@[b].pool_id);
                        }
                        self.lemma_pool_index_is(pool_id, i as int);
                    }
                }
                Ok(u)
            },
        }
    }

    /// Deposits `amount` into the pool for `user`: settles a live prior
    /// stake (minting immediately only when the prior lock has matured),
    /// reopens a claimed tombstone, adds the deposit to the position and to
    /// the global total, and restarts the accrual clock at `now`. The
    /// position record is created zeroed on first access; a missing pool
    /// record reports `InvalidPoolId` before the handler's own checks, as
    /// the record store does.
    pub fn stake(
        &mut self,
        user: AccountId,
        pool_id: u8,
        amount: u64,
        token: AccountId,
        now: i64,
    ) -> (result: Result<TokenEffects, StakingErrors>)
        requires
            old(self).wf(),
            old(self).has_pool(pool_id) && stake_error(
                old(self).status,
                old(self).spec_pool(pool_id),
                pool_id,
                amount,
                token,
            ) is None ==> stake_in_range(
                old(self).status,
                old(self).spec_pool(pool_id),
                old(self).spec_position(user, pool_id),
                amount,
                now,
            ),
        ensures
            final(self).wf(),
            final(self).pools@ == old(self).pools@,
            !old(self).has_pool(pool_id) ==> result is Err && result->Err_0
                == StakingErrors::InvalidPoolId && *final(self) == *old(self),
            old(self).has_pool(pool_id) ==> {
                let pool = old(self).spec_pool(pool_id);
                let pos = old(self).spec_position(user, pool_id);
                let err = stake_error(old(self).status, pool, pool_id, amount, token);
                let newpos = stake_new_position(pool, pos, amount, now);
                &&& (result is Err <==> err is Some)
                &&& (result is Err ==> Some(result->Err_0) == err && *final(self) == *old(self))
                &&& (result is Ok ==> {
                    &&& result->Ok_0 == (TokenEffects {
                        vault_in: amount,
                        vault_out: 0,
                        minted: stake_mint(pool, pos, now) as u64,
                    })
                    &&& final(self).status == stake_new_status(old(self).status, amount)
                    &&& final(self).spec_position(user, pool_id) == newpos
                    &&& (old(self).has_position(user, pool_id) ==> final(self).positions@ == old(
                        self,
                    ).positions@.update(
                        old(self).position_index(user, pool_id),
                        (PositionEntry { user, pool_id, position: newpos }),
                    ))
                    &&& (!old(self).has_position(user, pool_id) ==> final(self).positions@ == old(
                        self,
                    ).positions@.push((PositionEntry { user, pool_id, position: newpos })))
                })
            },
    {
        let i = match self.find_pool(pool_id) {
            Some(i) => i,
            None => {
                return Err(StakingErrors::InvalidPoolId);
            },
        };
        proof {
            self.lemma_pool_index_is(pool_id, i as int);
        }
        let pool = self.pools[i].info;
        let pos_idx = self.find_position(user, pool_id);
        let mut pos = match pos_idx {
            Some(j) => {
                proof {
                    self.lemma_position_index_is(user, pool_id, j as int);
                }
                self.positions[j].position
            },
            None => StakingPosition::zeroed(),
        };
        let mut st = self.status;
        let effects = match crate::actions::stake(
            &mut st,
            &pool,
            &mut pos,
            pool_id,
            amount,
            token,
            now,
        ) {
            Err(e) => {
                return Err(e);
            },
            Ok(effects) => effects,
        };
        self.status = st;
        let entry = PositionEntry { user, pool_id, position: pos };
        match pos_idx {
            Some(j) => {
                self.positions[j] = entry;
                proof {
                    self.lemma_stake_wf_after_update(*old(self), j as int, entry, amount);
                    self.lemma_position_index_is(user, pool_id, j as int);
                }
            },
            None => {
                self.positions.push(entry);
                proof {
                    self.lemma_stake_wf_after_push(*old(self), entry, amount);
                    self.lemma_position_index_is(user, pool_id, self.positions@.len() - 1);
                }
            },
        }
        Ok(effects)
    }

    /// After replacing the record at `j` with one of the same key whose
    /// effective amount grew by the staked `amount`, and growing the total
    /// by the same `amount`, the ledger is well-formed again.
    proof fn lemma_stake_wf_after_update(
        self,
        prev: StakingLedger,
        j: int,
        entry: PositionEntry,
        amount: u64,
    )
        requires
            prev.wf(),
            0 <= j < prev.positions@.len(),
            prev.positions@[j].user == entry.user,
            prev.positions@[j].pool_id == entry.pool_id,
            self.pools@ == prev.pools@,
            self.positions@ == prev.positions@.update(j, entry),
            entry.position.effective_amount() == prev.positions@[j].position.effective_amount()
                + amount,
            self.status.total_staked == prev.status.total_staked + amount,
        ensures
            self.wf(),
    {
        assert forall|a: int, b: int|
            0 <= a < b < self.positions@.len() implies ((#[trigger] self.positions@[a]).user
            != (#[trigger] self.positions@[b]).user || self.positions@[a].pool_id
            != self.positions@[b].pool_id) by {
            assert(self.positions@[a].user == prev.positions@[a].user && self.positions@[a].pool_id
                == prev.positions@[a].pool_id);
            assert(self.positions@[b].user == prev.positions@[b].user && self.positions@[b].pool_id
                == prev.positions@[b].pool_id);
        }
        lemma_sum_effective_update(prev.positions@, j, entry);
    }

    /// After appending a record with a fresh key whose effective amount is
    /// the staked `amount`, and growing the total by the same `amount`, the
    /// ledger is well-formed again.
    proof fn lemma_stake_wf_after_push(
        self,
        prev: StakingLedger,
        entry: PositionEntry,
        amount: u64,
    )
        requires
            prev.wf(),
            !prev.has_position(entry.user, entry.pool_id),
            self.pools@ == prev.pools@,
            self.positions@ == prev.positions@.push(entry),
            entry.position.effective_amount() == amount,
            self.status.total_staked == prev.status.total_staked + amount,
        ensures
            self.wf(),
    {
        assert forall|a: int, b: int|
            0 <= a < b < self.positions@.len() implies ((#[trigger] self.positions@[a]).user
            != (#[trigger] self.positions@[b]).user || self.positions@[a].pool_id
            != self.positions@[b].pool_id) by {
            if b < self.positions@.len() - 1 {
                assert(self.positions@[a].user == prev.positions@[a].user
                    && self.positions@[a].pool_id == prev.positions@[a].pool_id);
                assert(self.positions@[b].user == prev.positions@[b].user
                    && self.positions@[b].pool_id == prev.positions@[b].pool_id);
            } else {
                assert(self.positions@[a] == prev.positions@[a]);
                assert(self.positions@[b] == entry);
            }
        }
        lemma_sum_effective_push(prev.positions@, entry);
    }

    /// Settles the matured position of `user` in the pool: returns the
    /// staked principal from the vault, mints the full base reward plus any
    /// deferred reward, and closes the position with the claimed tombstone.
    /// A missing pool record reports `InvalidPoolId` before the handler's
    /// own checks, as the record store does; a missing position is handed
    /// out zeroed and fails the emptiness check.
    pub fn claim(&mut self, user: AccountId, pool_id: u8, token: AccountId, now: i64) -> (result:
        Result<TokenEffects, StakingErrors>)
        requires
            old(self).wf(),
            old(self).has_pool(pool_id) ==> claim_arith_in_range(
                old(self).status,
                old(self).spec_pool(pool_id),
                old(self).spec_position(user, pool_id),
                pool_id,
                token,
                now,
            ),
        ensures
            final(self).wf(),
            final(self).pools@ == old(self).pools@,
            !old(self).has_pool(pool_id) ==> result is Err && result->Err_0
                == StakingErrors::InvalidPoolId && *final(self) == *old(self),
            old(self).has_pool(pool_id) ==> {
                let pool = old(self).spec_pool(pool_id);
                let pos = old(self).spec_position(user, pool_id);
                let err = claim_error(old(self).status, pool, pos, pool_id, token, now);
                &&& (result is Err <==> err is Some)
                &&& (result is Err ==> Some(result->Err_0) == err && *final(self) == *old(self))
                &&& (result is Ok ==> {
                    &&& result->Ok_0 == (TokenEffects {
                        vault_in: 0,
                        vault_out: pos.amount,
                        minted: claim_mint(pool, pos) as u64,
                    })
                    &&& final(self).status == claim_new_status(old(self).status, pos)
                    &&& final(self).spec_position(user, pool_id) == claim_new_position(pos)
                    &&& final(self).positions@ == old(self).positions@.update(
                        old(self).position_index(user, pool_id),
                        (PositionEntry { user, pool_id, position: claim_new_position(pos) }),
                    )
                })
            },
    {
        let i = match self.find_pool(pool_id) {
            Some(i) => i,
            None => {
                return Err(StakingErrors::InvalidPoolId);
            },
        };
        proof {
            self.lemma_pool_index_is(pool_id, i as int);
        }
        let pool = self.pools[i].info;
        let pos_idx = self.find_position(user, pool_id);
        let mut pos = match pos_idx {
            Some(j) => {
                proof {
                    self.lemma_position_index_is(user, pool_id, j as int);
                }
                self.positions[j].position
            },
            None => StakingPosition::zeroed(),
        };
        proof {
            // the accounting invariant guarantees the global total covers
            // the principal of any position a claim may settle
            if claim_error(self.status, pool, pos, pool_id, token, now) is None {
                lemma_sum_effective_entry_le(self.positions@, pos_idx->Some_0 as int);
            }
        }
        let mut st = self.status;
        let effects = match crate::actions::claim(&mut st, &pool, &mut pos, pool_id, token, now) {
            Err(e) => {
                return Err(e);
            },
            Ok(effects) => effects,
        };
        self.status = st;
        let j = match pos_idx {
            Some(j) => j,
            None => {
                // a zeroed position fails the emptiness check, so a missing
                // record never reaches a successful claim
                return vstd::pervasive::unreached();
            },
        };
        let entry = PositionEntry { user, pool_id, position: pos };
        self.positions[j] = entry;
        proof {
            self.lemma_settle_wf_after_update(*old(self), j as int, entry);
            self.lemma_position_index_is(user, pool_id, j as int);
        }
        Ok(effects)
    }

    /// The early exit for `user` in the pool: pays the principal minus the
    /// fixed five percent penalty, forfeits every unclaimed reward, fully
    /// resets the position, and accrues the penalty for the owner. A missing
    /// pool record reports `InvalidPoolId` before the handler's own checks,
    /// as the record store does. The accounting invariant no longer counts a
    /// claimed tombstone's amount in the global total, so the early exit is
    /// specified only away from such positions.
    pub fn withdraw(&mut self, user: AccountId, pool_id: u8, token: AccountId) -> (result: Result<
        TokenEffects,
        StakingErrors,
    >)
        requires
            old(self).wf(),
            old(self).has_pool(pool_id) ==> withdraw_arith_in_range(
                old(self).status,
                old(self).spec_position(user, pool_id),
                pool_id,
                token,
            ),
            old(self).has_pool(pool_id) && withdraw_error(
                old(self).status,
                old(self).spec_position(user, pool_id),
                pool_id,
                token,
            ) is None ==> !old(self).spec_position(user, pool_id).claimed,
        ensures
            final(self).wf(),
            final(self).pools@ == old(self).pools@,
            !old(self).has_pool(pool_id) ==> result is Err && result->Err_0
                == StakingErrors::InvalidPoolId && *final(self) == *old(self),
            old(self).has_pool(pool_id) ==> {
                let pos = old(self).spec_position(user, pool_id);
                let err = withdraw_error(old(self).status, pos, pool_id, token);
                &&& (result is Err <==> err is Some)
                &&& (result is Err ==> Some(result->Err_0) == err && *final(self) == *old(self))
                &&& (result is Ok ==> {
                    &&& result->Ok_0 == (TokenEffects {
                        vault_in: 0,
                        vault_out: (pos.amount - withdraw_fee(pos.amount as int)) as u64,
                        minted: 0,
                    })
                    &&& result->Ok_0.vault_out + withdraw_fee(pos.amount as int) == pos.amount
                    &&& final(self).status == withdraw_new_status(old(self).status, pos)
                    &&& final(self).spec_position(user, pool_id)
                        == StakingPosition::spec_zeroed()
                    &&& final(self).positions@ == old(self).positions@.update(
                        old(self).position_index(user, pool_id),
                        (PositionEntry {
                            user,
                            pool_id,
                            position: StakingPosition::spec_zeroed(),
                        }),
                    )
                })
            },
    {
        let i = match self.find_pool(pool_id) {
            Some(i) => i,
            None => {
                return Err(StakingErrors::InvalidPoolId);
            },
        };
        proof {
            self.lemma_pool_index_is(pool_id, i as int);
        }
        let pos_idx = self.find_position(user, pool_id);
        let mut pos = match pos_idx {
            Some(j) => {
                proof {
                    self.lemma_position_index_is(user, pool_id, j as int);
                }
                self.positions[j].position
            },
            None => StakingPosition::zeroed(),
        };
        proof {
            // the accounting invariant covers the principal of any position
            // an early exit may reset, since claimed tombstones are excluded
            if withdraw_error(self.status, pos, pool_id, token) is None {
                lemma_sum_effective_entry_le(self.positions@, pos_idx->Some_0 as int);
            }
        }
        let mut st = self.status;
        let effects = match crate::actions::withdraw(&mut st, &mut pos, pool_id, token) {
            Err(e) => {
                return Err(e);
            },
            Ok(effects) => effects,
        };
        self.status = st;
        let j = match pos_idx {
            Some(j) => j,
            None => {
                // a zeroed position fails the emptiness check, so a missing
                // record never reaches a successful withdrawal
                return vstd::pervasive::unreached();
            },
        };
        let entry = PositionEntry { user, pool_id, position: pos };
        self.positions[j] = entry;
        proof {
            self.lemma_settle_wf_after_update(*old(self), j as int, entry);
            self.lemma_position_index_is(user, pool_id, j as int);
        }
        Ok(effects)
    }

    /// After replacing the record at `j` with one of the same key whose
    /// effective amount shrank by what the global total shrank by, the
    /// ledger is well-formed again.
    proof fn lemma_settle_wf_after_update(self, prev: StakingLedger, j: int, entry: PositionEntry)
        requires
            prev.wf(),
            0 <= j < prev.positions@.len(),
            prev.positions@[j].user == entry.user,
            prev.positions@[j].pool_id == entry.pool_id,
            self.pools@ == prev.pools@,
            self.positions@ == prev.positions@.update(j, entry),
            self.status.total_staked == prev.status.total_staked
                - prev.positions@[j].position.effective_amount()
                + entry.position.effective_amount(),
        ensures
            self.wf(),
    {
        assert forall|a: int, b: int|
            0 <= a < b < self.positions@.len() implies ((#[trigger] self.positions@[a]).user
            != (#[trigger] self.positions@[b]).user || self.positions@[a].pool_id
            != self.positions@[b].pool_id) by {
            assert(self.positions@[a].user == prev.positions@[a].user && self.positions@[a].pool_id
                == prev.positions@[a].pool_id);
            assert(self.positions@[b].user == prev.positions@[b].user && self.positions@[b].pool_id
                == prev.positions@[b].pool_id);
        }
        lemma_sum_effective_update(prev.positions@, j, entry);
    }

    /// Reads the position recorded under (user, pool), or the zero-state the
    /// record store would hand out on first access.
    pub fn get_position(&self, user: AccountId, pool_id: u8) -> (p: StakingPosition)
        requires
            self.wf(),
        ensures
            p == self.spec_position(user, pool_id),
    {
        match self.find_position(user, pool_id) {
            Some(i) => {
                proof {
                    self.lemma_position_index_is(user, pool_id, i as int);
                }
                self.positions[i].position
            },
            None => StakingPosition::zeroed(),
        }
    }
}

} // verus!
