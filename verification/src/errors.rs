//! Failure conditions of the staking engine.

use vstd::prelude::*;

verus! {

/// Terminal failure conditions. Every validation failure aborts the whole
/// action with no state mutation; there is no recovery path inside the engine.
///
/// `TransferError` and `MintError` are reported by the host when a delegated
/// token movement fails; the verified transitions themselves never produce
/// them.
#[derive(Clone, Copy, Debug, PartialEq, Eq, Structural)]
pub enum StakingErrors {
    /// Zero reward rate or zero lock duration at pool creation.
    InvalidInputValues,
    /// Pool id out of the accepted range, or no such pool record exists.
    InvalidPoolId,
    /// The supplied token is not the one this deployment accepts.
    InvalidTokenAccount,
    /// Zero stake amount, or an empty position.
    NoTokens,
    /// The host failed to execute a delegated token transfer.
    TransferError,
    /// The global status record already holds an accepted token.
    AlreadyInitialized,
    /// Already claimed, lock not matured, or zero fee accumulator.
    NothingToClaim,
    /// The host failed to execute a delegated reward mint.
    MintError,
    /// The caller is not the administrative owner.
    NotOwner,
    /// The pool does not accept new stakes.
    InactivePool,
}

} // verus!
