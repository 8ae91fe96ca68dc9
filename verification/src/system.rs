//! The era/session coordinator: thin orchestration that ties the ledger
//! and the election machine together under block and session timing.
//!
//! On each session rotation the coordinator checks the era-forcing flag
//! and the natural era length; when a new era is due it asks the machine
//! to elect. On success it applies the returned validator set and starts
//! the new era; on failure (the machine enters Emergency) neither the era
//! nor the validator set advances — the session continues with the prior
//! set until recovery.

use vstd::prelude::*;
use crate::errors::ElectionError;
use crate::ledger::distinct_accounts;
use crate::ledger::spec_saturating_add_era;
use crate::ledger::Ledger;
use crate::machine::elect_rel;
use crate::machine::on_block_rel;
use crate::machine::request_attempt_rel;
use crate::machine::spec_saturating_add_block;
use crate::machine::saturating_add_block;
use crate::machine::ElectionMachine;
use crate::machine::Phase;
use crate::solution::Solution;
use crate::solution::Support;
use crate::AccountId;
use crate::BlockNumber;
use crate::EraIndex;
use crate::SessionIndex;

verus! {

/// The coordinated system: the staking ledger, the election machine, and
/// the block/session clock that drives them.
#[derive(Clone, Debug, PartialEq, Eq)]
pub struct System {
    /// The staking ledger.
    pub ledger: Ledger,
    /// The election machine.
    pub machine: ElectionMachine,
    /// The current block height.
    pub block: BlockNumber,
    /// The current session.
    pub session_index: SessionIndex,
    /// The session at which the current era started.
    pub era_start_session: SessionIndex,
    /// The natural era length, in sessions.
    pub sessions_per_era: SessionIndex,
    /// The session length, in blocks (at least two).
    pub session_length: BlockNumber,
}

/// A reading of the system clock: where block, session, era and election
/// phase currently stand.
#[derive(Clone, Copy, Debug, PartialEq, Eq, Structural)]
pub struct TimePoint {
    /// The current block height.
    pub block: BlockNumber,
    /// The current session.
    pub session: SessionIndex,
    /// The current era.
    pub era: EraIndex,
    /// The election machine's active phase.
    pub phase: Phase,
}

/// Reports where block, session, era and election phase currently stand.
pub fn log_current_time(sys: &System) -> (t: TimePoint)
    ensures
        t.block == sys.block,
        t.session == sys.session_index,
        t.era == sys.ledger.current_era,
        t.phase == sys.machine.phase,
{
    TimePoint {
        block: sys.block,
        session: sys.session_index,
        era: sys.ledger.current_era,
        phase: sys.machine.phase,
    }
}

/// The distinct targets of a sequence of supports, in first-appearance
/// order: the validator set a solution elects.
pub open spec fn winners_of(s: Seq<Support>) -> Seq<AccountId>
    decreases s.len(),
{
    if s.len() == 0 {
        Seq::empty()
    } else {
        let rest = winners_of(s.drop_last());
        if rest.contains(s.last().target) {
            rest
        } else {
            rest.push(s.last().target)
        }
    }
}

/// Winners are pairwise distinct.
pub proof fn lemma_winners_distinct(s: Seq<Support>)
    ensures
        distinct_accounts(winners_of(s)),
    decreases s.len(),
{
    if s.len() > 0 {
        lemma_winners_distinct(s.drop_last());
        let rest = winners_of(s.drop_last());
        let out = winners_of(s);
        if !rest.contains(s.last().target) {
            assert forall|i: int, j: int| 0 <= i < j < out.len() implies out[i] != out[j] by {
                if j == out.len() - 1 {
                    assert(out[i] == rest[i]);
                    assert(rest.contains(rest[i]));
                } else {
                    assert(out[i] == rest[i] && out[j] == rest[j]);
                }
            }
        }
    }
}

/// Extracts the distinct supported targets, in first-appearance order.
pub fn extract_winners(supports: &Vec<Support>) -> (r: Vec<AccountId>)
    ensures
        r@ == winners_of(supports@),
        distinct_accounts(r@),
{
    let n = supports.len();
    let mut out: Vec<AccountId> = Vec::new();
    let mut i: usize = 0;
    while i < n
        invariant
            i <= n,
            n == supports@.len(),
            out@ == winners_of(supports@.take(i as int)),
        decreases n - i,
    {
        proof {
            assert(supports@.take(i + 1).drop_last() =~= supports@.take(i as int));
            assert(supports@.take(i + 1).last() == supports@[i as int]);
        }
        let t = supports[i].target;
        if !crate::ledger::contains_account(&out, t) {
            out.push(t);
        }
        i += 1;
    }
    proof {
        assert(supports@.take(n as int) =~= supports@);
        lemma_winners_distinct(supports@);
    }
    out
}

/// Whether a session rotation that moves to `new_session` must start a
/// new era: the flag forces one, or the natural era length has elapsed —
/// unless era changes are switched off altogether.
pub open spec fn new_era_due(s: System, new_session: SessionIndex) -> bool {
    (s.ledger.force_era.spec_forcing() || new_session as int >= s.era_start_session as int
        + s.sessions_per_era as int) && !(s.ledger.force_era is ForceNone)
}

/// Relates a system before a session rotation to the system after it.
pub open spec fn rotate_rel(s: System, s2: System) -> bool {
    let new_session = spec_saturating_add_era(s.session_index, 1);
    &&& s2.session_index == new_session
    &&& s2.block == s.block
    &&& s2.sessions_per_era == s.sessions_per_era
    &&& s2.session_length == s.session_length
    &&& if !new_era_due(s, new_session) {
        &&& s2.ledger == s.ledger
        &&& s2.machine == s.machine
        &&& s2.era_start_session == s.era_start_session
    } else {
        match s.machine.queued {
            Some(sol) => {
                &&& elect_rel(s.machine, s2.machine, Ok::<Solution, ElectionError>(sol))
                &&& s2.ledger.current_era == spec_saturating_add_era(s.ledger.current_era, 1)
                &&& s2.ledger.active_validators@ == winners_of(sol.supports@)
                &&& s2.ledger.offenders@.len() == 0
                &&& s2.ledger.force_era == (if s.ledger.force_era is ForceAlways {
                    crate::events::ForceEra::ForceAlways
                } else {
                    crate::events::ForceEra::NotForcing
                })
                &&& s2.ledger.entries == s.ledger.entries
                &&& s2.ledger.voter_list == s.ledger.voter_list
                &&& s2.ledger.events == s.ledger.events
                &&& s2.ledger.killed == s.ledger.killed
                &&& s2.ledger.config == s.ledger.config
                &&& s2.era_start_session == new_session
            },
            None => {
                &&& elect_rel(
                    s.machine,
                    s2.machine,
                    Err::<Solution, ElectionError>(ElectionError::NoQueuedSolution),
                )
                &&& s2.ledger == s.ledger
                &&& s2.era_start_session == s.era_start_session
            },
        }
    }
}

/// Relates a system before a one-block advance to the system after it:
/// the block increments; at the first block of a session an election for
/// the era's end is requested; the machine evaluates its block-boundary
/// transitions; and at a session boundary the session rotates.
pub open spec fn roll_rel(s: System, s2: System) -> bool {
    let nb = spec_saturating_add_block(s.block, 1);
    &&& s2.block == nb
    &&& if nb % s.session_length == 1 {
        &&& s2.ledger == s.ledger
        &&& s2.session_index == s.session_index
        &&& s2.era_start_session == s.era_start_session
        &&& s2.sessions_per_era == s.sessions_per_era
        &&& s2.session_length == s.session_length
        &&& exists|m1: ElectionMachine|
            request_attempt_rel(s.machine, s.ledger, nb, spec_next_era_block(s), m1)
                && #[trigger] on_block_rel(m1, nb, s2.machine)
    } else if nb % s.session_length == 0 {
        exists|m1: ElectionMachine|
            #[trigger] on_block_rel(s.machine, nb, m1) && rotate_rel(
                System {
                    ledger: s.ledger,
                    machine: m1,
                    block: nb,
                    session_index: s.session_index,
                    era_start_session: s.era_start_session,
                    sessions_per_era: s.sessions_per_era,
                    session_length: s.session_length,
                },
                s2,
            )
    } else {
        &&& s2.ledger == s.ledger
        &&& s2.session_index == s.session_index
        &&& s2.era_start_session == s.era_start_session
        &&& s2.sessions_per_era == s.sessions_per_era
        &&& s2.session_length == s.session_length
        &&& on_block_rel(s.machine, nb, s2.machine)
    }
}

/// The block at which the current era naturally ends: the boundary of
/// its last session.
pub open spec fn spec_next_era_block(s: System) -> BlockNumber {
    spec_saturating_mul_block(
        spec_saturating_add_era(s.era_start_session, s.sessions_per_era) as u64,
        s.session_length,
    )
}

/// Saturating block-number multiplication.
pub open spec fn spec_saturating_mul_block(a: BlockNumber, b: BlockNumber) -> BlockNumber {
    if a * b > u64::MAX {
        u64::MAX
    } else {
        (a * b) as u64
    }
}

impl System {
    /// Well-formedness: both components are well-formed and the clock
    /// constants are meaningful.
    pub open spec fn wf(self) -> bool {
        &&& self.ledger.wf()
        &&& self.machine.wf()
        &&& self.session_length >= 2
        &&& self.sessions_per_era >= 1
    }

    /// Assembles a system at block zero, session zero.
    pub fn new(
        ledger: Ledger,
        machine: ElectionMachine,
        sessions_per_era: SessionIndex,
        session_length: BlockNumber,
    ) -> (s: System)
        requires
            ledger.wf(),
            machine.wf(),
            session_length >= 2,
            sessions_per_era >= 1,
        ensures
            s.wf(),
            s.ledger == ledger,
            s.machine == machine,
            s.block == 0,
            s.session_index == 0,
            s.era_start_session == 0,
            s.sessions_per_era == sessions_per_era,
            s.session_length == session_length,
    {
        System {
            ledger: ledger,
            machine: machine,
            block: 0,
            session_index: 0,
            era_start_session: 0,
            sessions_per_era: sessions_per_era,
            session_length: session_length,
        }
    }

    /// The block at which the current era naturally ends.
    pub fn next_era_block(&self) -> (r: BlockNumber)
        ensures
            r == spec_next_era_block(*self),
    {
        let end_session: SessionIndex = if self.era_start_session > u32::MAX
            - self.sessions_per_era {
            u32::MAX
        } else {
            self.era_start_session + self.sessions_per_era
        };
        match (end_session as u64).checked_mul(self.session_length) {
            Some(v) => v,
            None => u64::MAX,
        }
    }

    /// Rotates the session. If the era-forcing flag demands it, or the
    /// natural era duration has elapsed (and era changes are not switched
    /// off), an election is requested from the machine: on success the
    /// returned validator set is applied, the era advances, and the flag
    /// resets to `NotForcing` unless it is `ForceAlways`; on failure the
    /// machine is left in Emergency and neither the era nor the validator
    /// set advances.
    pub fn rotate_session(&mut self)
        requires
            old(self).wf(),
        ensures
            final(self).wf(),
            rotate_rel(*old(self), *final(self)),
    {
        self.session_index = if self.session_index > u32::MAX - 1 {
            u32::MAX
        } else {
            self.session_index + 1
        };
        let natural = if self.era_start_session > u32::MAX - self.sessions_per_era {
            false
        } else {
            self.session_index >= self.era_start_session + self.sessions_per_era
        };
        let forcing = self.ledger.force_era.is_forcing();
        let switched_off = match self.ledger.force_era {
            crate::events::ForceEra::ForceNone => true,
            _ => false,
        };
        if (forcing || natural) && !switched_off {
            match self.machine.elect() {
                Ok(sol) => {
                    let winners = extract_winners(&sol.supports);
                    self.ledger.start_era(winners);
                    self.era_start_session = self.session_index;
                },
                Err(_e) => {},
            }
        }
    }

    /// Advances the clock by one block: at the first block of each
    /// session an election for the era's end is requested (a no-op unless
    /// the machine is idle within the request window); the machine then
    /// evaluates its block-boundary transitions; and at a session
    /// boundary the session rotates.
    pub fn roll_block(&mut self)
        requires
            old(self).wf(),
        ensures
            final(self).wf(),
            roll_rel(*old(self), *final(self)),
    {
        let nb = saturating_add_block(self.block, 1);
        self.block = nb;
        if nb % self.session_length == 1 {
            let deadline = self.next_era_block();
            proof {
                assert(spec_next_era_block(*self) == spec_next_era_block(*old(self)));
            }
            let r = self.machine.request_election(&self.ledger, nb, deadline);
            proof {
                assert(request_attempt_rel(
                    old(self).machine,
                    old(self).ledger,
                    nb,
                    spec_next_era_block(*old(self)),
                    self.machine,
                ));
            }
            let ghost m1 = self.machine;
            self.machine.on_block(nb);
            proof {
                assert(request_attempt_rel(
                    old(self).machine,
                    old(self).ledger,
                    nb,
                    spec_next_era_block(*old(self)),
                    m1,
                ) && on_block_rel(m1, nb, self.machine));
            }
        } else {
            self.machine.on_block(nb);
            if nb % self.session_length == 0 {
                let ghost mid = *self;
                self.rotate_session();
                proof {
                    assert(on_block_rel(old(self).machine, nb, mid.machine) && rotate_rel(
                        mid,
                        *self,
                    ));
                    assert(mid == (System {
                        ledger: old(self).ledger,
                        machine: mid.machine,
                        block: nb,
                        session_index: old(self).session_index,
                        era_start_session: old(self).era_start_session,
                        sessions_per_era: old(self).sessions_per_era,
                        session_length: old(self).session_length,
                    }));
                }
            }
        }
    }
}

} // verus!
