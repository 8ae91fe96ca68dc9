//! A verified multi-phase election and staking coordination core.
//!
//! The library models a staking ledger (bonding, unbonding, withdrawal,
//! nomination and validation intents, slashing), a per-round voter/target
//! snapshot, a multi-phase election state machine with a signed-solution
//! queue, an emergency/governance fallback path, and a thin era/session
//! coordinator that ties them together.

use vstd::prelude::*;

pub mod errors;
pub mod events;
pub mod ledger;
pub mod machine;
pub mod laws;
pub mod score;
pub mod snapshot;
pub mod solution;
pub mod system;

verus! {

/// Account identifier of a staker, voter or validator.
pub type AccountId = u64;

/// Balance amounts held or staked by an account.
pub type Balance = u64;

/// Counter for the number of eras that have passed.
pub type EraIndex = u32;

/// Counter for the number of sessions that have passed.
pub type SessionIndex = u32;

/// Block height used for phase deadlines.
pub type BlockNumber = u64;

/// The weight a voter's stake carries in an election.
pub type VoteWeight = u64;

} // verus!
