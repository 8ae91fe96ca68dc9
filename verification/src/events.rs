//! One-way notifications emitted by the ledger and the election machine,
//! and the era-forcing flag read by the coordinator.

use vstd::prelude::*;
use crate::score::ElectionScore;
use crate::AccountId;
use crate::EraIndex;

verus! {

/// Whether the coordinator must start a new era regardless of the
/// natural era-length timer.
#[derive(Clone, Copy, Debug, PartialEq, Eq, Structural)]
pub enum ForceEra {
    /// Follow the natural era duration.
    NotForcing,
    /// Force exactly one new era, then return to `NotForcing`.
    ForceNew,
    /// Force a new era on every session rotation.
    ForceAlways,
    /// Never start a new era.
    ForceNone,
}

impl ForceEra {
    /// Whether the flag demands a new era now.
    pub open spec fn spec_forcing(self) -> bool {
        self is ForceNew || self is ForceAlways
    }

    /// Decides whether the flag demands a new era now.
    pub fn is_forcing(&self) -> (r: bool)
        ensures
            r == self.spec_forcing(),
    {
        match self {
            ForceEra::ForceNew => true,
            ForceEra::ForceAlways => true,
            _ => false,
        }
    }
}

/// A notification recorded when the system's state changes in a way
/// collaborators observe.
#[derive(Clone, Copy, Debug, PartialEq, Eq, Structural)]
pub enum Event {
    /// An account's voter-list membership was cleared.
    Chilled { stash: AccountId },
    /// The era-forcing flag changed.
    ForceEra { mode: ForceEra },
    /// A slash of `fraction` (parts per billion) was applied against
    /// `validator` for offences in `slash_era`.
    SlashReported { validator: AccountId, slash_era: EraIndex, fraction: u32 },
    /// An election round concluded with a winning solution of this score.
    ElectionFinalized { score: ElectionScore },
    /// An election was requested but no valid solution was available.
    ElectionFailed,
}

} // verus!
