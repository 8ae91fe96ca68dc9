//! Election scores and their lexicographic ordering.
//!
//! A score is a 3-tuple of `u128` values. Scores are compared
//! lexicographically: the higher value on the first differing component
//! wins. The solution queue retains the best-scored candidate.

use vstd::prelude::*;

verus! {

/// The quality metric of a candidate election solution.
///
/// Components are compared lexicographically in field order:
/// `minimal_stake` first, then `sum_stake`, then `sum_stake_squared`.
#[derive(Clone, Copy, Debug, PartialEq, Eq, Structural)]
pub struct ElectionScore {
    /// The smallest backing total among the elected targets.
    pub minimal_stake: u128,
    /// The sum of all backing totals.
    pub sum_stake: u128,
    /// The sum of the squares of all backing totals.
    pub sum_stake_squared: u128,
}

impl ElectionScore {
    /// Whether `self` is strictly better than `other`: lexicographically
    /// greater, higher being better on the first differing component.
    pub open spec fn spec_better_than(self, other: ElectionScore) -> bool {
        ||| self.minimal_stake > other.minimal_stake
        ||| (self.minimal_stake == other.minimal_stake && self.sum_stake > other.sum_stake)
        ||| (self.minimal_stake == other.minimal_stake && self.sum_stake == other.sum_stake
            && self.sum_stake_squared > other.sum_stake_squared)
    }

    /// Whether `self` is at least as good as `other`.
    pub open spec fn spec_at_least(self, other: ElectionScore) -> bool {
        self == other || self.spec_better_than(other)
    }

    /// Decides the strict lexicographic ordering between two scores.
    pub fn better_than(&self, other: &ElectionScore) -> (r: bool)
        ensures
            r == self.spec_better_than(*other),
    {
        if self.minimal_stake != other.minimal_stake {
            self.minimal_stake > other.minimal_stake
        } else if self.sum_stake != other.sum_stake {
            self.sum_stake > other.sum_stake
        } else {
            self.sum_stake_squared > other.sum_stake_squared
        }
    }

    /// Decides whether `self` is at least as good as `other`.
    pub fn at_least(&self, other: &ElectionScore) -> (r: bool)
        ensures
            r == self.spec_at_least(*other),
    {
        if self.minimal_stake == other.minimal_stake && self.sum_stake == other.sum_stake
            && self.sum_stake_squared == other.sum_stake_squared {
            true
        } else {
            self.better_than(other)
        }
    }
}

/// The strict ordering on scores is transitive.
pub proof fn lemma_better_than_transitive(a: ElectionScore, b: ElectionScore, c: ElectionScore)
    requires
        a.spec_better_than(b),
        b.spec_better_than(c),
    ensures
        a.spec_better_than(c),
{
}

} // verus!
