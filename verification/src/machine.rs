//! The multi-phase election state machine.
//!
//! A round runs Off → Snapshot → Signed → SignedValidation → Unsigned and
//! concludes with a successful `elect`, which resets the machine to Off.
//! A deadline missed with no queued solution forces Emergency, from which
//! only the privileged recovery calls lead back to Off.

use vstd::prelude::*;
use crate::errors::ElectionError;
use crate::errors::Error;
use crate::events::Event;
use crate::ledger::contains_account;
use crate::ledger::spec_saturating_add_era;
use crate::ledger::Ledger;
use crate::score::ElectionScore;
use crate::snapshot::create_snapshot;
use crate::snapshot::is_snapshot_of;
use crate::snapshot::Snapshot;
use crate::solution::check_feasibility;
use crate::solution::score_of;
use crate::solution::spec_feasible;
use crate::solution::spec_score_of;
use crate::solution::Solution;
use crate::solution::Support;
use crate::AccountId;
use crate::Balance;
use crate::BlockNumber;

verus! {

/// The phase a round is in; a single phase is active at a time.
#[derive(Clone, Copy, Debug, PartialEq, Eq, Structural)]
pub enum Phase {
    /// Idle: no round is running.
    Off,
    /// The voter/target snapshot is being captured.
    Snapshot,
    /// The signed-solution submission window is open.
    Signed,
    /// Queued signed solutions are being verified, best first.
    SignedValidation,
    /// The unsigned window: a pre-seeded solution waits for finalization,
    /// or open unsigned participation runs.
    Unsigned,
    /// The deadline passed with no valid solution; only the privileged
    /// recovery calls can unstick the machine.
    Emergency,
}

impl Phase {
    /// Whether no round is running.
    pub fn is_off(&self) -> (r: bool)
        ensures
            r == (self is Off),
    {
        match self {
            Phase::Off => true,
            _ => false,
        }
    }

    /// Whether the signed submission window is open.
    pub fn is_signed(&self) -> (r: bool)
        ensures
            r == (self is Signed),
    {
        match self {
            Phase::Signed => true,
            _ => false,
        }
    }

    /// Whether signed solutions are being validated.
    pub fn is_signed_validation(&self) -> (r: bool)
        ensures
            r == (self is SignedValidation),
    {
        match self {
            Phase::SignedValidation => true,
            _ => false,
        }
    }

    /// Whether the unsigned window is open.
    pub fn is_unsigned(&self) -> (r: bool)
        ensures
            r == (self is Unsigned),
    {
        match self {
            Phase::Unsigned => true,
            _ => false,
        }
    }

    /// Whether the machine awaits emergency recovery.
    pub fn is_emergency(&self) -> (r: bool)
        ensures
            r == (self is Emergency),
    {
        match self {
            Phase::Emergency => true,
            _ => false,
        }
    }
}

/// One edge of the phase graph.
pub open spec fn phase_step(a: Phase, b: Phase) -> bool {
    ||| (a is Off && b is Snapshot)
    ||| (a is Snapshot && b is Signed)
    ||| (a is Signed && b is SignedValidation)
    ||| (a is SignedValidation && b is Unsigned)
    ||| (a is Unsigned && b is Off)
    ||| (!(a is Emergency) && b is Emergency)
    ||| (a is Emergency && b is Off)
}

/// What one atomic operation may do to the phase: stay, cross one edge,
/// or cross Off → Snapshot → Signed in one call (the election request
/// captures the snapshot and immediately opens the signed window).
pub open spec fn phase_transition_ok(a: Phase, b: Phase) -> bool {
    ||| a == b
    ||| phase_step(a, b)
    ||| (a is Off && b is Signed && phase_step(a, Phase::Snapshot) && phase_step(
        Phase::Snapshot,
        b,
    ))
}

/// One signed submission: its author, the bond deposited with it, and the
/// candidate solution.
#[derive(Clone, Debug, PartialEq, Eq)]
pub struct SignedSubmission {
    /// The submitting account.
    pub who: AccountId,
    /// The bond deposited with the submission.
    pub deposit: Balance,
    /// The candidate solution.
    pub solution: Solution,
}

/// Configuration constants of the election machine.
#[derive(Clone, Copy, Debug, PartialEq, Eq, Structural)]
pub struct ElectionConfig {
    /// How many blocks the signed window stays open.
    pub signed_phase_len: BlockNumber,
    /// Capacity of the signed-submission queue (at least one).
    pub max_signed_submissions: usize,
    /// The bond deposited per signed submission.
    pub signed_deposit: Balance,
    /// How many blocks before its deadline an election request is
    /// accepted.
    pub request_window: BlockNumber,
    /// Cap on the number of snapshot voters.
    pub max_snapshot_voters: usize,
    /// Cap on the number of snapshot targets.
    pub max_snapshot_targets: usize,
}

/// The multi-phase election state machine.
#[derive(Clone, Debug, PartialEq, Eq)]
pub struct ElectionMachine {
    /// The active phase.
    pub phase: Phase,
    /// How many rounds have concluded.
    pub round: u32,
    /// The round's snapshot; present from Signed through Unsigned.
    pub snapshot: Option<Snapshot>,
    /// Signed submissions in submission order; each accepted submission
    /// beat every earlier one, so scores increase along the queue.
    pub submissions: Vec<SignedSubmission>,
    /// The verified (or emergency-installed) winner awaiting `elect`.
    pub queued: Option<Solution>,
    /// Whether `queued` was seeded by signed validation, which closes the
    /// unsigned path.
    pub queued_from_signed: bool,
    /// The minimum score an untrusted solution must reach, if set.
    pub minimum_score: Option<ElectionScore>,
    /// The block by which the round must have produced a solution.
    pub deadline: BlockNumber,
    /// The block at which the signed window closes.
    pub signed_until: BlockNumber,
    /// The block the unsigned submitter record belongs to.
    pub unsigned_block: BlockNumber,
    /// Who already submitted an unsigned solution at `unsigned_block`.
    pub unsigned_submitters: Vec<AccountId>,
    /// Notifications, oldest first.
    pub events: Vec<Event>,
    /// Configuration constants.
    pub config: ElectionConfig,
}

impl ElectionMachine {
    /// Well-formedness: a round past its snapshot has one; the snapshot
    /// is duplicate-free; the signed queue is within capacity, has one
    /// submission per author, and its scores strictly increase in
    /// submission order.
    pub open spec fn wf(self) -> bool {
        &&& (self.phase is Signed || self.phase is SignedValidation || self.phase is Unsigned)
            ==> self.snapshot is Some
        &&& self.queued is Some ==> (self.phase is Off || self.phase is Unsigned)
        &&& match self.snapshot {
            Some(s) => s.wf(),
            None => true,
        }
        &&& self.submissions@.len() <= self.config.max_signed_submissions
        &&& self.config.max_signed_submissions >= 1
        &&& forall|i: int, j: int|
            0 <= i < j < self.submissions@.len() ==> self.submissions@[i].who
                != self.submissions@[j].who
        &&& forall|i: int, j: int|
            0 <= i < j < self.submissions@.len() ==> (
            #[trigger] self.submissions@[j]).solution.score.spec_better_than(
                (#[trigger] self.submissions@[i]).solution.score,
            )
    }

    /// A fresh machine: Off, nothing captured, nothing queued.
    pub fn new(config: ElectionConfig) -> (m: ElectionMachine)
        requires
            config.max_signed_submissions >= 1,
        ensures
            m.wf(),
            m.phase is Off,
            m.round == 0,
            m.snapshot is None,
            m.submissions@.len() == 0,
            m.queued is None,
            !m.queued_from_signed,
            m.minimum_score is None,
            m.events@.len() == 0,
            m.config == config,
    {
        ElectionMachine {
            phase: Phase::Off,
            round: 0,
            snapshot: None,
            submissions: Vec::new(),
            queued: None,
            queued_from_signed: false,
            minimum_score: None,
            deadline: 0,
            signed_until: 0,
            unsigned_block: 0,
            unsigned_submitters: Vec::new(),
            events: Vec::new(),
            config: config,
        }
    }

    /// The active phase.
    pub fn current_phase(&self) -> (r: Phase)
        ensures
            r == self.phase,
    {
        self.phase
    }

    /// Requests an election whose result is due at block `deadline`.
    ///
    /// Accepted only when no round is running, no solution is already
    /// queued, and `now` lies within the configured window before the
    /// deadline; then the snapshot is captured from the ledger and the
    /// machine moves through Snapshot into Signed, opening the signed
    /// window for `signed_phase_len` blocks. Otherwise fails with
    /// `CallNotAllowed` and changes nothing.
    pub fn request_election(
        &mut self,
        ledger: &Ledger,
        now: BlockNumber,
        deadline: BlockNumber,
    ) -> (r: Result<(), Error>)
        requires
            old(self).wf(),
            ledger.wf(),
        ensures
            final(self).wf(),
            phase_transition_ok(old(self).phase, final(self).phase),
            match r {
                Ok(()) => request_allowed(*old(self), now, deadline) && request_accepted(
                    *old(self),
                    *ledger,
                    now,
                    deadline,
                    *final(self),
                ),
                Err(e) => {
                    &&& *final(self) == *old(self)
                    &&& e == Error::CallNotAllowed
                    &&& !request_allowed(*old(self), now, deadline)
                },
            },
    {
        match self.phase {
            Phase::Off => {},
            _ => {
                return Err(Error::CallNotAllowed);
            },
        }
        if self.queued.is_some() {
            return Err(Error::CallNotAllowed);
        }
        if now > deadline || deadline - now > self.config.request_window {
            return Err(Error::CallNotAllowed);
        }
        let snap = create_snapshot(
            ledger,
            now,
            self.config.max_snapshot_voters,
            self.config.max_snapshot_targets,
        );
        self.snapshot = Some(snap);
        self.phase = Phase::Signed;
        self.deadline = deadline;
        self.signed_until = saturating_add_block(now, self.config.signed_phase_len);
        self.submissions = Vec::new();
        Ok(())
    }

    /// Concludes the round if a solution is queued: returns it, records
    /// `ElectionFinalized`, and resets the machine to Off for the next
    /// round. With nothing queued the machine (en)ters Emergency,
    /// `ElectionFailed` is recorded on the way in, and the call fails
    /// with `NoQueuedSolution` until a recovery call queues a result.
    pub fn elect(&mut self) -> (r: Result<Solution, ElectionError>)
        requires
            old(self).wf(),
        ensures
            final(self).wf(),
            phase_transition_ok(old(self).phase, final(self).phase),
            elect_rel(*old(self), *final(self), r),
    {
        match self.queued.take() {
            Some(sol) => {
                self.phase = Phase::Off;
                self.snapshot = None;
                self.submissions = Vec::new();
                self.queued_from_signed = false;
                self.round = if self.round > u32::MAX - 1 {
                    u32::MAX
                } else {
                    self.round + 1
                };
                self.unsigned_submitters = Vec::new();
                self.events.push(Event::ElectionFinalized { score: sol.score });
                Ok(sol)
            },
            None => {
                match self.phase {
                    Phase::Emergency => {},
                    _ => {
                        self.phase = Phase::Emergency;
                        self.events.push(Event::ElectionFailed);
                    },
                }
                Err(ElectionError::NoQueuedSolution)
            },
        }
    }

    /// Decides whether a solution is acceptable for this round: feasible
    /// against the round's snapshot and, if a minimum untrusted score is
    /// set, at least as good as it.
    pub fn acceptable(&self, sol: &Solution) -> (r: bool)
        ensures
            r == solution_acceptable(*self, *sol),
    {
        let feasible = match &self.snapshot {
            Some(s) => check_feasibility(s, sol),
            None => false,
        };
        if !feasible {
            return false;
        }
        match &self.minimum_score {
            Some(ms) => sol.score.at_least(ms),
            None => true,
        }
    }

    /// Finds the index of `who`'s signed submission.
    fn find_submission(&self, who: AccountId) -> (r: Option<usize>)
        ensures
            match r {
                Some(i) => i < self.submissions@.len() && self.submissions@[i as int].who == who,
                None => forall|i: int|
                    0 <= i < self.submissions@.len() ==> (#[trigger] self.submissions@[i]).who
                        != who,
            },
    {
        let n = self.submissions.len();
        let mut i: usize = 0;
        while i < n
            invariant
                i <= n,
                n == self.submissions@.len(),
                forall|j: int| 0 <= j < i ==> (#[trigger] self.submissions@[j]).who != who,
            decreases n - i,
        {
            if self.submissions[i].who == who {
                return Some(i);
            }
            i += 1;
        }
        None
    }

    /// Accepts a signed candidate solution during the Signed window,
    /// depositing the configured bond with it.
    ///
    /// Fails with `CallNotAllowed` outside the Signed phase, with
    /// `DuplicateSubmission` if `who` already submitted this round, and
    /// with `ScoreTooLow` if the claimed score does not strictly beat the
    /// current best (equal scores lose: the first submission wins a tie).
    /// When the queue is full, accepting a better candidate evicts the
    /// lowest-scored (oldest) one.
    pub fn submit_signed(&mut self, who: AccountId, solution: Solution) -> (r: Result<(), Error>)
        requires
            old(self).wf(),
        ensures
            final(self).wf(),
            phase_transition_ok(old(self).phase, final(self).phase),
            match r {
                Ok(()) => {
                    &&& old(self).phase is Signed
                    &&& forall|i: int|
                        0 <= i < old(self).submissions@.len() ==> (#[trigger] old(
                            self,
                        ).submissions@[i]).who != who
                    &&& old(self).submissions@.len() > 0
                        ==> solution.score.spec_better_than(
                        old(self).submissions@.last().solution.score,
                    )
                    &&& final(self).submissions@ == (if old(self).submissions@.len()
                        >= old(self).config.max_signed_submissions {
                        old(self).submissions@.subrange(1, old(self).submissions@.len() as int)
                    } else {
                        old(self).submissions@
                    }).push(
                        (SignedSubmission {
                            who: who,
                            deposit: old(self).config.signed_deposit,
                            solution: solution,
                        }),
                    )
                    &&& final(self).phase == old(self).phase
                    &&& final(self).queued == old(self).queued
                    &&& final(self).events == old(self).events
                    &&& final(self).snapshot == old(self).snapshot
                    &&& final(self).round == old(self).round
                    &&& final(self).minimum_score == old(self).minimum_score
                    &&& final(self).config == old(self).config
                },
                Err(e) => {
                    &&& *final(self) == *old(self)
                    &&& match e {
                        Error::CallNotAllowed => !(old(self).phase is Signed),
                        Error::DuplicateSubmission => old(self).phase is Signed && exists|i: int|
                            0 <= i < old(self).submissions@.len() && (#[trigger] old(
                                self,
                            ).submissions@[i]).who == who,
                        Error::ScoreTooLow => {
                            &&& old(self).phase is Signed
                            &&& forall|i: int|
                                0 <= i < old(self).submissions@.len() ==> (#[trigger] old(
                                    self,
                                ).submissions@[i]).who != who
                            &&& old(self).submissions@.len() > 0
                            &&& !solution.score.spec_better_than(
                                old(self).submissions@.last().solution.score,
                            )
                        },
                        _ => false,
                    }
                },
            },
    {
        match self.phase {
            Phase::Signed => {},
            _ => {
                return Err(Error::CallNotAllowed);
            },
        }
        if self.find_submission(who).is_some() {
            return Err(Error::DuplicateSubmission);
        }
        let n = self.submissions.len();
        if n > 0 && !solution.score.better_than(&self.submissions[n - 1].solution.score) {
            return Err(Error::ScoreTooLow);
        }
        if n >= self.config.max_signed_submissions {
            self.submissions.remove(0);
            proof {
                assert(self.submissions@ =~= old(self).submissions@.subrange(
                    1,
                    old(self).submissions@.len() as int,
                ));
            }
        }
        let sub = SignedSubmission {
            who: who,
            deposit: self.config.signed_deposit,
            solution: solution,
        };
        self.submissions.push(sub);
        proof {
            let subs = final(self).submissions@;
            let prev = old(self).submissions@;
            assert forall|i: int, j: int|
                0 <= i < j < subs.len() implies subs[i].who != subs[j].who && (
            #[trigger] subs[j]).solution.score.spec_better_than(
                (#[trigger] subs[i]).solution.score,
            ) by {
                if old(self).submissions@.len() >= old(self).config.max_signed_submissions {
                    if j < subs.len() - 1 {
                        assert(subs[i] == prev[i + 1] && subs[j] == prev[j + 1]);
                    } else {
                        assert(subs[i] == prev[i + 1]);
                        assert(subs[j].solution == solution);
                        if i + 1 < prev.len() - 1 {
                            crate::score::lemma_better_than_transitive(
                                solution.score,
                                prev.last().solution.score,
                                prev[i + 1].solution.score,
                            );
                        }
                    }
                } else {
                    if j < subs.len() - 1 {
                        assert(subs[i] == prev[i] && subs[j] == prev[j]);
                    } else {
                        assert(subs[i] == prev[i]);
                        assert(subs[j].solution == solution);
                        if i < prev.len() - 1 {
                            crate::score::lemma_better_than_transitive(
                                solution.score,
                                prev.last().solution.score,
                                prev[i].solution.score,
                            );
                        }
                    }
                }
            }
        }
        Ok(())
    }

    /// Withdraws `who`'s in-flight signed submission; possible only while
    /// the Signed window is still open, before validation begins.
    ///
    /// Fails with `CallNotAllowed` outside the Signed phase and with
    /// `NoSubmission` if `who` has none.
    pub fn withdraw_signed(&mut self, who: AccountId) -> (r: Result<(), Error>)
        requires
            old(self).wf(),
        ensures
            final(self).wf(),
            phase_transition_ok(old(self).phase, final(self).phase),
            match r {
                Ok(()) => {
                    &&& old(self).phase is Signed
                    &&& exists|i: int|
                        #![auto]
                        0 <= i < old(self).submissions@.len() && old(self).submissions@[i].who
                            == who && final(self).submissions@ == old(self).submissions@.remove(i)
                    &&& final(self).phase == old(self).phase
                    &&& final(self).queued == old(self).queued
                    &&& final(self).events == old(self).events
                    &&& final(self).snapshot == old(self).snapshot
                    &&& final(self).config == old(self).config
                },
                Err(e) => {
                    &&& *final(self) == *old(self)
                    &&& match e {
                        Error::CallNotAllowed => !(old(self).phase is Signed),
                        Error::NoSubmission => old(self).phase is Signed && forall|i: int|
                            0 <= i < old(self).submissions@.len() ==> (#[trigger] old(
                                self,
                            ).submissions@[i]).who != who,
                        _ => false,
                    }
                },
            },
    {
        match self.phase {
            Phase::Signed => {},
            _ => {
                return Err(Error::CallNotAllowed);
            },
        }
        let idx = match self.find_submission(who) {
            Some(i) => i,
            None => {
                return Err(Error::NoSubmission);
            },
        };
        self.submissions.remove(idx);
        proof {
            let subs = final(self).submissions@;
            let prev = old(self).submissions@;
            assert forall|i: int, j: int|
                0 <= i < j < subs.len() implies subs[i].who != subs[j].who && (
            #[trigger] subs[j]).solution.score.spec_better_than(
                (#[trigger] subs[i]).solution.score,
            ) by {
                let i0: int = if i < idx {
                    i
                } else {
                    i + 1
                };
                let j0: int = if j < idx {
                    j
                } else {
                    j + 1
                };
                assert(subs[i] == prev[i0] && subs[j] == prev[j0]);
            }
        }
        Ok(())
    }

    /// Evaluates the block-boundary transitions at block `now`.
    ///
    /// Checked first, unconditionally: a round whose deadline has passed
    /// with nothing queued forces Emergency (recording `ElectionFailed`).
    /// Otherwise the Signed window closes into SignedValidation once its
    /// duration elapsed or the queue is full; and each block in
    /// SignedValidation verifies one candidate, best first — a feasible
    /// one that meets the minimum score is queued and the machine moves to
    /// Unsigned, an infeasible one is evicted and validation continues; an
    /// exhausted queue moves to Unsigned with nothing seeded.
    pub fn on_block(&mut self, now: BlockNumber)
        requires
            old(self).wf(),
        ensures
            final(self).wf(),
            phase_transition_ok(old(self).phase, final(self).phase),
            on_block_rel(*old(self), now, *final(self)),
    {
        let missed = match self.phase {
            Phase::Signed => now >= self.deadline && self.queued.is_none(),
            Phase::SignedValidation => now >= self.deadline && self.queued.is_none(),
            Phase::Unsigned => now >= self.deadline && self.queued.is_none(),
            _ => false,
        };
        if missed {
            self.phase = Phase::Emergency;
            self.events.push(Event::ElectionFailed);
            return ;
        }
        match self.phase {
            Phase::Signed => {
                if now >= self.signed_until || self.submissions.len()
                    >= self.config.max_signed_submissions {
                    self.phase = Phase::SignedValidation;
                }
            },
            Phase::SignedValidation => {
                if self.submissions.len() == 0 {
                    self.phase = Phase::Unsigned;
                    return ;
                }
                match self.submissions.pop() {
                    None => {
                        self.phase = Phase::Unsigned;
                    },
                    Some(best) => {
                        let ok = self.acceptable(&best.solution);
                        proof {
                            assert(solution_acceptable(*self, best.solution) == solution_acceptable(
                                *old(self),
                                best.solution,
                            ));
                            let subs = self.submissions@;
                            assert forall|i: int, j: int|
                                0 <= i < j < subs.len() implies subs[i].who != subs[j].who && (
                            #[trigger] subs[j]).solution.score.spec_better_than(
                                (#[trigger] subs[i]).solution.score,
                            ) by {
                                assert(subs[i] == old(self).submissions@[i]);
                                assert(subs[j] == old(self).submissions@[j]);
                            }
                        }
                        if ok {
                            self.queued = Some(best.solution);
                            self.queued_from_signed = true;
                            self.phase = Phase::Unsigned;
                        }
                    },
                }
            },
            _ => {},
        }
    }

    /// Accepts an unsigned candidate solution during the Unsigned window,
    /// when no signed-validated solution was pre-seeded.
    ///
    /// Open participation, no bond, one submission per submitter per
    /// block. The solution is verified on the spot: it must be feasible
    /// against the snapshot (`Infeasible` otherwise), reach the minimum
    /// untrusted score if one is set, and strictly improve on the queued
    /// solution if there is one (`ScoreTooLow` otherwise). An accepted
    /// solution becomes the queued winner.
    pub fn submit_unsigned(&mut self, who: AccountId, solution: Solution, now: BlockNumber) -> (r:
        Result<(), Error>)
        requires
            old(self).wf(),
        ensures
            final(self).wf(),
            phase_transition_ok(old(self).phase, final(self).phase),
            ({
                let cur = if old(self).unsigned_block == now {
                    old(self).unsigned_submitters@
                } else {
                    Seq::<AccountId>::empty()
                };
                match r {
                    Ok(()) => {
                        &&& old(self).phase is Unsigned
                        &&& !old(self).queued_from_signed
                        &&& !cur.contains(who)
                        &&& solution_acceptable(*old(self), solution)
                        &&& match old(self).queued {
                            Some(q) => solution.score.spec_better_than(q.score),
                            None => true,
                        }
                        &&& final(self).queued == Some(solution)
                        &&& !final(self).queued_from_signed
                        &&& final(self).unsigned_block == now
                        &&& final(self).unsigned_submitters@ == cur.push(who)
                        &&& final(self).phase == old(self).phase
                        &&& final(self).snapshot == old(self).snapshot
                        &&& final(self).submissions == old(self).submissions
                        &&& final(self).events == old(self).events
                        &&& final(self).round == old(self).round
                        &&& final(self).minimum_score == old(self).minimum_score
                        &&& final(self).config == old(self).config
                    },
                    Err(e) => {
                        &&& *final(self) == *old(self)
                        &&& match e {
                            Error::CallNotAllowed => !(old(self).phase is Unsigned) || old(
                                self,
                            ).queued_from_signed,
                            Error::DuplicateSubmission => old(self).phase is Unsigned && !old(
                                self,
                            ).queued_from_signed && cur.contains(who),
                            Error::Infeasible => {
                                &&& old(self).phase is Unsigned
                                &&& !old(self).queued_from_signed
                                &&& !cur.contains(who)
                                &&& !(match old(self).snapshot {
                                    Some(s) => spec_feasible(s, solution),
                                    None => false,
                                })
                            },
                            Error::ScoreTooLow => {
                                &&& old(self).phase is Unsigned
                                &&& !old(self).queued_from_signed
                                &&& !cur.contains(who)
                                &&& (match old(self).snapshot {
                                    Some(s) => spec_feasible(s, solution),
                                    None => false,
                                })
                                &&& (!(match old(self).minimum_score {
                                    Some(ms) => solution.score.spec_at_least(ms),
                                    None => true,
                                }) || !(match old(self).queued {
                                    Some(q) => solution.score.spec_better_than(q.score),
                                    None => true,
                                }))
                            },
                            _ => false,
                        }
                    },
                }
            }),
    {
        match self.phase {
            Phase::Unsigned => {},
            _ => {
                return Err(Error::CallNotAllowed);
            },
        }
        if self.queued_from_signed {
            return Err(Error::CallNotAllowed);
        }
        if self.unsigned_block == now && contains_account(&self.unsigned_submitters, who) {
            return Err(Error::DuplicateSubmission);
        }
        let feasible = match &self.snapshot {
            Some(s) => check_feasibility(s, &solution),
            None => false,
        };
        if !feasible {
            return Err(Error::Infeasible);
        }
        let meets_minimum = match &self.minimum_score {
            Some(ms) => solution.score.at_least(ms),
            None => true,
        };
        if !meets_minimum {
            return Err(Error::ScoreTooLow);
        }
        let improves = match &self.queued {
            Some(q) => solution.score.better_than(&q.score),
            None => true,
        };
        if !improves {
            return Err(Error::ScoreTooLow);
        }
        if self.unsigned_block != now {
            self.unsigned_submitters = Vec::new();
            self.unsigned_block = now;
        }
        self.unsigned_submitters.push(who);
        self.queued = Some(solution);
        proof {
            if old(self).unsigned_block != now {
                assert(self.unsigned_submitters@ =~= Seq::<AccountId>::empty().push(who));
            }
        }
        Ok(())
    }

    /// Directly installs `supports` as the queued winner, bypassing
    /// scoring and verification: trust is delegated to the caller's
    /// privilege level, which the embedder checks. The score is
    /// recomputed from the supports for the record. The phase resets to
    /// Off — not Signed — so the next natural election request restarts
    /// the cycle cleanly. Fails with `CallNotAllowed` unless the machine
    /// is in Emergency.
    pub fn set_emergency_election_result(&mut self, supports: Vec<Support>) -> (r: Result<
        (),
        Error,
    >)
        requires
            old(self).wf(),
        ensures
            final(self).wf(),
            phase_transition_ok(old(self).phase, final(self).phase),
            match r {
                Ok(()) => {
                    &&& old(self).phase is Emergency
                    &&& final(self).phase is Off
                    &&& final(self).queued == Some(
                        (Solution { score: spec_score_of(supports@), supports: supports }),
                    )
                    &&& !final(self).queued_from_signed
                    &&& final(self).snapshot is None
                    &&& final(self).submissions@.len() == 0
                    &&& final(self).events == old(self).events
                    &&& final(self).round == old(self).round
                    &&& final(self).minimum_score == old(self).minimum_score
                    &&& final(self).deadline == old(self).deadline
                    &&& final(self).signed_until == old(self).signed_until
                    &&& final(self).unsigned_block == old(self).unsigned_block
                    &&& final(self).unsigned_submitters == old(self).unsigned_submitters
                    &&& final(self).config == old(self).config
                },
                Err(e) => {
                    &&& *final(self) == *old(self)
                    &&& e == Error::CallNotAllowed
                    &&& !(old(self).phase is Emergency)
                },
            },
    {
        match self.phase {
            Phase::Emergency => {},
            _ => {
                return Err(Error::CallNotAllowed);
            },
        }
        let score = score_of(&supports);
        self.queued = Some(Solution { score: score, supports: supports });
        self.queued_from_signed = false;
        self.phase = Phase::Off;
        self.snapshot = None;
        self.submissions = Vec::new();
        Ok(())
    }

    /// Computes an on-chain fallback result from the round's snapshot,
    /// bounded by the given caps, and installs it as the queued winner:
    /// each considered voter backs the first of its declared targets that
    /// is among the considered targets, with its full weight. The phase
    /// resets to Off as after `set_emergency_election_result`. Fails with
    /// `CallNotAllowed` unless the machine is in Emergency.
    pub fn governance_fallback(
        &mut self,
        maybe_max_voters: Option<usize>,
        maybe_max_targets: Option<usize>,
    ) -> (r: Result<(), Error>)
        requires
            old(self).wf(),
        ensures
            final(self).wf(),
            phase_transition_ok(old(self).phase, final(self).phase),
            match r {
                Ok(()) => {
                    let tc = capped_targets(*old(self), maybe_max_targets);
                    let vc = capped_voters(*old(self), maybe_max_voters);
                    &&& old(self).phase is Emergency
                    &&& final(self).phase is Off
                    &&& match final(self).queued {
                        Some(sol) => {
                            &&& sol.supports@.len() == tc.len()
                            &&& forall|k: int|
                                0 <= k < tc.len() ==> (#[trigger] sol.supports@[k]).target == tc[k]
                                    && sol.supports@[k].total == fallback_total(vc, tc[k], tc)
                                    && sol.supports@[k].voters@ == fallback_backers(vc, tc[k], tc)
                            &&& sol.score == spec_score_of(sol.supports@)
                        },
                        None => false,
                    }
                    &&& !final(self).queued_from_signed
                    &&& final(self).snapshot is None
                    &&& final(self).submissions@.len() == 0
                    &&& final(self).events == old(self).events
                    &&& final(self).round == old(self).round
                    &&& final(self).minimum_score == old(self).minimum_score
                    &&& final(self).deadline == old(self).deadline
                    &&& final(self).signed_until == old(self).signed_until
                    &&& final(self).unsigned_block == old(self).unsigned_block
                    &&& final(self).unsigned_submitters == old(self).unsigned_submitters
                    &&& final(self).config == old(self).config
                },
                Err(e) => {
                    &&& *final(self) == *old(self)
                    &&& e == Error::CallNotAllowed
                    &&& !(old(self).phase is Emergency)
                },
            },
    {
        match self.phase {
            Phase::Emergency => {},
            _ => {
                return Err(Error::CallNotAllowed);
            },
        }
        let ghost tc_spec = capped_targets(*old(self), maybe_max_targets);
        let ghost vc_spec = capped_voters(*old(self), maybe_max_voters);
        let (tc, vc): (Vec<AccountId>, Vec<crate::snapshot::Voter>) = match self.snapshot.take() {
            Some(s) => {
                let mut ts = s.targets;
                match maybe_max_targets {
                    Some(mt) => {
                        if ts.len() > mt {
                            ts.truncate(mt);
                        }
                    },
                    None => {},
                }
                let mut vs = s.voters;
                match maybe_max_voters {
                    Some(mv) => {
                        if vs.len() > mv {
                            vs.truncate(mv);
                        }
                    },
                    None => {},
                }
                (ts, vs)
            },
            None => (Vec::new(), Vec::new()),
        };
        proof {
            assert(tc@ =~= tc_spec);
            assert(vc@ =~= vc_spec);
        }
        let tn = tc.len();
        let mut supports: Vec<Support> = Vec::new();
        let mut t: usize = 0;
        while t < tn
            invariant
                t <= tn,
                tn == tc@.len(),
                supports@.len() == t,
                forall|k: int|
                    0 <= k < t ==> (#[trigger] supports@[k]).target == tc@[k]
                        && supports@[k].total == fallback_total(vc@, tc@[k], tc@)
                        && supports@[k].voters@ == fallback_backers(vc@, tc@[k], tc@),
            decreases tn - t,
        {
            let target = tc[t];
            let vn = vc.len();
            let mut total: u128 = 0;
            let mut backers: Vec<(AccountId, u128)> = Vec::new();
            let mut v: usize = 0;
            while v < vn
                invariant
                    v <= vn,
                    vn == vc@.len(),
                    t < tn,
                    tn == tc@.len(),
                    target == tc@[t as int],
                    total == fallback_total(vc@.take(v as int), target, tc@),
                    backers@ == fallback_backers(vc@.take(v as int), target, tc@),
                decreases vn - v,
            {
                proof {
                    assert(vc@.take(v + 1).drop_last() =~= vc@.take(v as int));
                    assert(vc@.take(v + 1).last() == vc@[v as int]);
                }
                let choice = first_choice(&vc[v].targets, &tc);
                let is_backer = match choice {
                    Some(c) => c == target,
                    None => false,
                };
                if is_backer {
                    let w = vc[v].weight as u128;
                    total = crate::solution::saturating_add_u128(total, w);
                    backers.push((vc[v].who, w));
                }
                v += 1;
            }
            proof {
                assert(vc@.take(vn as int) =~= vc@);
            }
            let support = Support { target: target, total: total, voters: backers };
            supports.push(support);
            t += 1;
        }
        let score = score_of(&supports);
        self.queued = Some(Solution { score: score, supports: supports });
        self.queued_from_signed = false;
        self.phase = Phase::Off;
        self.snapshot = None;
        self.submissions = Vec::new();
        Ok(())
    }

    /// Sets (or clears) the minimum score an untrusted solution must
    /// reach to be accepted.
    pub fn set_minimum_untrusted_score(&mut self, score: Option<ElectionScore>)
        requires
            old(self).wf(),
        ensures
            final(self).wf(),
            phase_transition_ok(old(self).phase, final(self).phase),
            final(self).minimum_score == score,
            final(self).phase == old(self).phase,
            final(self).round == old(self).round,
            final(self).snapshot == old(self).snapshot,
            final(self).submissions == old(self).submissions,
            final(self).queued == old(self).queued,
            final(self).queued_from_signed == old(self).queued_from_signed,
            final(self).deadline == old(self).deadline,
            final(self).signed_until == old(self).signed_until,
            final(self).unsigned_block == old(self).unsigned_block,
            final(self).unsigned_submitters == old(self).unsigned_submitters,
            final(self).events == old(self).events,
            final(self).config == old(self).config,
    {
        self.minimum_score = score;
    }
}

/// The snapshot targets considered by the governance fallback, capped at
/// the given maximum (all of them when no cap is given; none when no
/// snapshot exists).
pub open spec fn capped_targets(m: ElectionMachine, maybe_max: Option<usize>) -> Seq<AccountId> {
    let ts = match m.snapshot {
        Some(s) => s.targets@,
        None => Seq::<AccountId>::empty(),
    };
    match maybe_max {
        Some(mt) => if ts.len() <= mt {
            ts
        } else {
            ts.take(mt as int)
        },
        None => ts,
    }
}

/// The snapshot voters considered by the governance fallback, capped at
/// the given maximum.
pub open spec fn capped_voters(m: ElectionMachine, maybe_max: Option<usize>) -> Seq<
    crate::snapshot::Voter,
> {
    let vs = match m.snapshot {
        Some(s) => s.voters@,
        None => Seq::<crate::snapshot::Voter>::empty(),
    };
    match maybe_max {
        Some(mv) => if vs.len() <= mv {
            vs
        } else {
            vs.take(mv as int)
        },
        None => vs,
    }
}

/// The first of a voter's declared targets that is among the considered
/// targets.
pub open spec fn spec_first_choice(declared: Seq<AccountId>, considered: Seq<AccountId>) -> Option<
    AccountId,
>
    decreases declared.len(),
{
    if declared.len() == 0 {
        None
    } else if considered.contains(declared[0]) {
        Some(declared[0])
    } else {
        spec_first_choice(declared.drop_first(), considered)
    }
}

/// The saturating sum of the weights of the considered voters whose
/// first choice is `t`.
pub open spec fn fallback_total(
    voters: Seq<crate::snapshot::Voter>,
    t: AccountId,
    considered: Seq<AccountId>,
) -> u128
    decreases voters.len(),
{
    if voters.len() == 0 {
        0
    } else {
        let rest = fallback_total(voters.drop_last(), t, considered);
        if spec_first_choice(voters.last().targets@, considered) == Some(t) {
            crate::solution::sat_add_u128(rest, voters.last().weight as u128)
        } else {
            rest
        }
    }
}

/// The considered voters whose first choice is `t`, with their weights.
pub open spec fn fallback_backers(
    voters: Seq<crate::snapshot::Voter>,
    t: AccountId,
    considered: Seq<AccountId>,
) -> Seq<(AccountId, u128)>
    decreases voters.len(),
{
    if voters.len() == 0 {
        Seq::empty()
    } else {
        let rest = fallback_backers(voters.drop_last(), t, considered);
        if spec_first_choice(voters.last().targets@, considered) == Some(t) {
            rest.push((voters.last().who, voters.last().weight as u128))
        } else {
            rest
        }
    }
}

/// Finds the first of `declared` that is among `considered`.
pub fn first_choice(declared: &Vec<AccountId>, considered: &Vec<AccountId>) -> (r: Option<
    AccountId,
>)
    ensures
        r == spec_first_choice(declared@, considered@),
{
    let n = declared.len();
    let mut i: usize = 0;
    proof {
        assert(declared@.skip(0) =~= declared@);
    }
    while i < n
        invariant
            i <= n,
            n == declared@.len(),
            spec_first_choice(declared@, considered@) == spec_first_choice(
                declared@.skip(i as int),
                considered@,
            ),
        decreases n - i,
    {
        proof {
            assert(declared@.skip(i as int).drop_first() =~= declared@.skip(i + 1));
            assert(declared@.skip(i as int)[0] == declared@[i as int]);
        }
        if contains_account(considered, declared[i]) {
            return Some(declared[i]);
        }
        i += 1;
    }
    proof {
        assert(declared@.skip(n as int) =~= Seq::<AccountId>::empty());
    }
    None
}

/// Whether an election request at `now` for a result due at `deadline`
/// is accepted: no round runs, nothing is queued, and `now` lies within
/// the configured window before the deadline.
pub open spec fn request_allowed(m: ElectionMachine, now: BlockNumber, deadline: BlockNumber) -> bool {
    &&& m.phase is Off
    &&& m.queued is None
    &&& now <= deadline
    &&& deadline - now <= m.config.request_window
}

/// The machine state after an accepted election request: the snapshot is
/// captured from the ledger and the signed window opens.
pub open spec fn request_accepted(
    m: ElectionMachine,
    ledger: Ledger,
    now: BlockNumber,
    deadline: BlockNumber,
    m2: ElectionMachine,
) -> bool {
    &&& m2.phase is Signed
    &&& match m2.snapshot {
        Some(s) => s.wf() && is_snapshot_of(
            s,
            ledger,
            now,
            m.config.max_snapshot_voters,
            m.config.max_snapshot_targets,
        ),
        None => false,
    }
    &&& m2.deadline == deadline
    &&& m2.signed_until == spec_saturating_add_block(now, m.config.signed_phase_len)
    &&& m2.submissions@.len() == 0
    &&& m2.queued is None
    &&& m2.queued_from_signed == m.queued_from_signed
    &&& m2.round == m.round
    &&& m2.events == m.events
    &&& m2.minimum_score == m.minimum_score
    &&& m2.unsigned_block == m.unsigned_block
    &&& m2.unsigned_submitters == m.unsigned_submitters
    &&& m2.config == m.config
}

/// The outcome of an election request attempt: accepted when allowed,
/// otherwise a no-op.
pub open spec fn request_attempt_rel(
    m: ElectionMachine,
    ledger: Ledger,
    now: BlockNumber,
    deadline: BlockNumber,
    m2: ElectionMachine,
) -> bool {
    if request_allowed(m, now, deadline) {
        request_accepted(m, ledger, now, deadline, m2)
    } else {
        m2 == m
    }
}

/// Whether the round's deadline has passed at `now` with no queued
/// solution.
pub open spec fn deadline_missed(m: ElectionMachine, now: BlockNumber) -> bool {
    (m.phase is Signed || m.phase is SignedValidation || m.phase is Unsigned) && now >= m.deadline
        && m.queued is None
}

/// Whether a solution is feasible against the machine's snapshot and
/// meets the minimum untrusted score, if one is set.
pub open spec fn solution_acceptable(m: ElectionMachine, sol: Solution) -> bool {
    &&& match m.snapshot {
        Some(s) => spec_feasible(s, sol),
        None => false,
    }
    &&& match m.minimum_score {
        Some(ms) => sol.score.spec_at_least(ms),
        None => true,
    }
}

/// The fields `on_block` never touches.
pub open spec fn unchanged_on_block(m: ElectionMachine, m2: ElectionMachine) -> bool {
    &&& m2.round == m.round
    &&& m2.snapshot == m.snapshot
    &&& m2.minimum_score == m.minimum_score
    &&& m2.deadline == m.deadline
    &&& m2.signed_until == m.signed_until
    &&& m2.unsigned_block == m.unsigned_block
    &&& m2.unsigned_submitters == m.unsigned_submitters
    &&& m2.config == m.config
}

/// Relates a machine before an `on_block` call at `now` to the machine
/// after it.
pub open spec fn on_block_rel(m: ElectionMachine, now: BlockNumber, m2: ElectionMachine) -> bool {
    &&& unchanged_on_block(m, m2)
    &&& if deadline_missed(m, now) {
        &&& m2.phase is Emergency
        &&& m2.events@ == m.events@.push(Event::ElectionFailed)
        &&& m2.submissions == m.submissions
        &&& m2.queued == m.queued
        &&& m2.queued_from_signed == m.queued_from_signed
    } else if m.phase is Signed && (now >= m.signed_until || m.submissions@.len()
        >= m.config.max_signed_submissions) {
        &&& m2.phase is SignedValidation
        &&& m2.events == m.events
        &&& m2.submissions == m.submissions
        &&& m2.queued == m.queued
        &&& m2.queued_from_signed == m.queued_from_signed
    } else if m.phase is SignedValidation {
        if m.submissions@.len() == 0 {
            &&& m2.phase is Unsigned
            &&& m2.events == m.events
            &&& m2.submissions == m.submissions
            &&& m2.queued == m.queued
            &&& m2.queued_from_signed == m.queued_from_signed
        } else {
            &&& m2.submissions@ == m.submissions@.drop_last()
            &&& m2.events == m.events
            &&& if solution_acceptable(m, m.submissions@.last().solution) {
                &&& m2.phase is Unsigned
                &&& m2.queued == Some(m.submissions@.last().solution)
                &&& m2.queued_from_signed
            } else {
                &&& m2.phase is SignedValidation
                &&& m2.queued == m.queued
                &&& m2.queued_from_signed == m.queued_from_signed
            }
        }
    } else {
        m2 == m
    }
}

/// Relates a machine before an `elect` call to the machine and result
/// after it.
pub open spec fn elect_rel(
    m: ElectionMachine,
    m2: ElectionMachine,
    r: Result<Solution, ElectionError>,
) -> bool {
    match m.queued {
        Some(sol) => {
            &&& r == Ok::<Solution, ElectionError>(sol)
            &&& m2.phase is Off
            &&& m2.snapshot is None
            &&& m2.submissions@.len() == 0
            &&& m2.queued is None
            &&& !m2.queued_from_signed
            &&& m2.round == spec_saturating_add_era(m.round, 1)
            &&& m2.unsigned_submitters@.len() == 0
            &&& m2.events@ == m.events@.push((Event::ElectionFinalized { score: sol.score }))
            &&& m2.minimum_score == m.minimum_score
            &&& m2.deadline == m.deadline
            &&& m2.signed_until == m.signed_until
            &&& m2.unsigned_block == m.unsigned_block
            &&& m2.config == m.config
        },
        None => {
            &&& r == Err::<Solution, ElectionError>(ElectionError::NoQueuedSolution)
            &&& m2.phase is Emergency
            &&& m2.events@ == if m.phase is Emergency {
                m.events@
            } else {
                m.events@.push(Event::ElectionFailed)
            }
            &&& m2.round == m.round
            &&& m2.snapshot == m.snapshot
            &&& m2.submissions == m.submissions
            &&& m2.queued is None
            &&& m2.queued_from_signed == m.queued_from_signed
            &&& m2.minimum_score == m.minimum_score
            &&& m2.unsigned_block == m.unsigned_block
            &&& m2.unsigned_submitters == m.unsigned_submitters
            &&& m2.deadline == m.deadline
            &&& m2.signed_until == m.signed_until
            &&& m2.config == m.config
        },
    }
}

/// Saturating block-number addition.
pub open spec fn spec_saturating_add_block(a: BlockNumber, b: BlockNumber) -> BlockNumber {
    if a + b > u64::MAX {
        u64::MAX
    } else {
        (a + b) as u64
    }
}

/// Adds two block numbers, saturating at the maximum.
pub fn saturating_add_block(a: BlockNumber, b: BlockNumber) -> (r: BlockNumber)
    ensures
        r == spec_saturating_add_block(a, b),
{
    if a > u64::MAX - b {
        u64::MAX
    } else {
        a + b
    }
}

} // verus!
