//! A token-staking reward engine.
//!
//! Users lock a fungible token into pools with a configurable yield and lock
//! duration, accrue rewards over time, and later claim principal plus minted
//! reward or withdraw early for a fixed penalty. A single administrative owner
//! configures pools and sweeps early-withdrawal fees.
//!
//! The crate holds the reward-accounting state machine: pool configuration,
//! per-user staking positions, and the reward-calculation and settlement logic
//! behind stake, claim and withdraw. Persistent account storage, token
//! transfer and mint execution, signer verification and the clock are external
//! collaborators: every transition here works on already-loaded plain values
//! and reports the token movements the host must perform.

pub mod actions;
pub mod errors;
pub mod ledger;
pub mod rewards;
pub mod state;
