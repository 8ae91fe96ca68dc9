//! Laws relating the library's operations: statements that hold of all
//! inputs, proved once and for all from the operations' contracts.

use vstd::prelude::*;
use crate::errors::ElectionError;
use crate::errors::Error;
use crate::ledger::due_sum;
use crate::ledger::has_stash;
use crate::ledger::kept_chunks;
use crate::ledger::lemma_kept_chunks_idempotent;
use crate::ledger::lemma_kept_chunks_late;
use crate::ledger::withdraw_rel;
use crate::ledger::withdraw_rel_at;
use crate::ledger::Ledger;
use crate::ledger::StakerStatus;
use crate::ledger::StakingLedger;
use crate::ledger::sum_chunk_values;
use crate::machine::deadline_missed;
use crate::machine::elect_rel;
use crate::machine::on_block_rel;
use crate::machine::phase_step;
use crate::machine::phase_transition_ok;
use crate::machine::solution_acceptable;
use crate::machine::ElectionMachine;
use crate::machine::Phase;
use crate::solution::Solution;
use crate::AccountId;
use crate::BlockNumber;

verus! {

/// Whether two ledger entries carry the same observable state.
pub open spec fn entry_same_state(a: StakingLedger, b: StakingLedger) -> bool {
    &&& a.stash == b.stash
    &&& a.payee == b.payee
    &&& a.total == b.total
    &&& a.active == b.active
    &&& a.unlocking@ == b.unlocking@
    &&& a.status.equivalent(b.status)
    &&& a.prefs == b.prefs
}

/// Whether two ledgers carry the same observable state.
pub open spec fn ledger_same_state(a: Ledger, b: Ledger) -> bool {
    &&& a.entries@.len() == b.entries@.len()
    &&& forall|i: int|
        0 <= i < a.entries@.len() ==> entry_same_state(
            #[trigger] a.entries@[i],
            b.entries@[i],
        )
    &&& a.voter_list@ == b.voter_list@
    &&& a.active_validators@ == b.active_validators@
    &&& a.offenders@ == b.offenders@
    &&& a.current_era == b.current_era
    &&& a.force_era == b.force_era
    &&& a.events@ == b.events@
    &&& a.killed.accounts@ == b.killed.accounts@
    &&& a.config == b.config
}

/// Equal ledgers carry the same state.
pub proof fn lemma_same_state_refl(a: Ledger)
    ensures
        ledger_same_state(a, a),
{
    assert forall|i: int|
        0 <= i < a.entries@.len() implies entry_same_state(
        #[trigger] a.entries@[i],
        a.entries@[i],
    ) by {
        match a.entries@[i].status {
            StakerStatus::Idle => {},
            StakerStatus::Validator => {},
            StakerStatus::Nominator(ts) => {
                assert(a.entries@[i].status.equivalent(a.entries@[i].status));
            },
        }
    }
}

/// Stake accounting: in a well-formed ledger, every account's `total`
/// equals its `active` stake plus the sum of its unlocking chunk values.
/// Every ledger operation requires and re-establishes `wf`, so this holds
/// after every one of them.
pub proof fn lemma_stake_accounting(l: Ledger, i: int)
    requires
        l.wf(),
        0 <= i < l.entries@.len(),
    ensures
        l.entries@[i].total == l.entries@[i].active + sum_chunk_values(
            l.entries@[i].unlocking@,
        ),
{
}

/// Withdrawing twice in the same era, with no new unbonding in between,
/// produces no state change the second time: whatever the second call
/// returns, the ledger after it is the ledger before it.
pub proof fn lemma_withdraw_unbonded_idempotent(
    l0: Ledger,
    l1: Ledger,
    l2: Ledger,
    who: AccountId,
    r1: Result<bool, Error>,
    r2: Result<bool, Error>,
)
    requires
        l0.wf(),
        l1.wf(),
        withdraw_rel(l0, who, l1, r1),
        withdraw_rel(l1, who, l2, r2),
    ensures
        ledger_same_state(l2, l1),
{
    if !has_stash(l0.entries@, who) {
        assert(l1 == l0);
        assert(!has_stash(l1.entries@, who));
        assert(l2 == l1);
        lemma_same_state_refl(l1);
    } else {
        let i = choose|i: int|
            #![auto]
            0 <= i < l0.entries@.len() && l0.entries@[i].stash == who && withdraw_rel_at(
                l0,
                who,
                l1,
                r1,
                i,
            );
        assert(withdraw_rel_at(l0, who, l1, r1, i));
        let e = l0.entries@[i];
        let era = l0.current_era;
        let kept = kept_chunks(e.unlocking@, era);
        let wd = due_sum(e.unlocking@, era);
        if e.total - wd == 0 {
            assert(l1.entries@ == l0.entries@.remove(i));
            assert forall|j: int| 0 <= j < l1.entries@.len() implies l1.entries@[j].stash
                != who by {
                if j < i {
                    assert(l1.entries@[j] == l0.entries@[j]);
                } else {
                    assert(l1.entries@[j] == l0.entries@[j + 1]);
                }
            }
            assert(!has_stash(l1.entries@, who));
            assert(l2 == l1);
            lemma_same_state_refl(l1);
        } else {
            assert(l1.entries@[i].stash == who);
            assert(has_stash(l1.entries@, who));
            let i2 = choose|k: int|
                #![auto]
                0 <= k < l1.entries@.len() && l1.entries@[k].stash == who && withdraw_rel_at(
                    l1,
                    who,
                    l2,
                    r2,
                    k,
                );
            assert(withdraw_rel_at(l1, who, l2, r2, i2));
            assert(i2 == i);
            let e1 = l1.entries@[i];
            assert(e1.unlocking@ == kept);
            lemma_kept_chunks_late(e.unlocking@, era);
            lemma_kept_chunks_idempotent(kept, era);
            assert(due_sum(e1.unlocking@, l1.current_era) == 0);
            assert(kept_chunks(e1.unlocking@, l1.current_era) == e1.unlocking@);
            assert(e1.total - due_sum(e1.unlocking@, l1.current_era) == e1.total);
            assert(e1.total != 0);
            assert forall|j: int|
                0 <= j < l1.entries@.len() implies entry_same_state(
                #[trigger] l2.entries@[j],
                l1.entries@[j],
            ) by {
                if j != i {
                    assert(l2.entries@[j] == l1.entries@[j]);
                    lemma_entry_same_state_refl(l1.entries@[j]);
                } else {
                    match l1.entries@[i].status {
                        StakerStatus::Idle => {},
                        StakerStatus::Validator => {},
                        StakerStatus::Nominator(ts) => {},
                    }
                }
            }
        }
    }
}

/// Phase discipline, first half: every election-machine operation bounds
/// its phase change by `phase_transition_ok` in its `ensures` — stay,
/// cross one edge of the phase graph, or cross Off → Snapshot → Signed in
/// the one call that captures the snapshot. A step out of Off therefore
/// lands in Snapshot, in Signed (through Snapshot), or in Emergency —
/// never beyond.
pub proof fn lemma_no_phase_skips(a: Phase, b: Phase)
    requires
        phase_transition_ok(a, b),
        a is Off,
        !(b is Off),
    ensures
        b is Snapshot || b is Signed || b is Emergency,
        b is Signed ==> phase_step(a, Phase::Snapshot) && phase_step(Phase::Snapshot, b),
{
}

/// Phase discipline, second half: a well-formed machine that has reached
/// the Signed, SignedValidation or Unsigned phase holds a snapshot — no
/// path reaches the signed window without the Snapshot step that
/// captures one.
pub proof fn lemma_signed_has_snapshot(m: ElectionMachine)
    requires
        m.wf(),
        m.phase is Signed || m.phase is SignedValidation || m.phase is Unsigned,
    ensures
        m.snapshot is Some,
{
}

/// Round trip: a solution accepted in signed validation and then returned
/// by `elect` is handed back exactly as submitted — in particular, its
/// supports mapping is reproduced unmodified.
pub proof fn lemma_solution_round_trip(
    m0: ElectionMachine,
    now: BlockNumber,
    m1: ElectionMachine,
    m2: ElectionMachine,
    r: Result<Solution, ElectionError>,
)
    requires
        m0.phase is SignedValidation,
        m0.submissions@.len() > 0,
        solution_acceptable(m0, m0.submissions@.last().solution),
        !deadline_missed(m0, now),
        on_block_rel(m0, now, m1),
        elect_rel(m1, m2, r),
    ensures
        r == Ok::<Solution, ElectionError>(m0.submissions@.last().solution),
        match r {
            Ok(sol) => sol.supports == m0.submissions@.last().solution.supports,
            Err(_) => false,
        },
{
}

/// Equal entries carry the same state.
pub proof fn lemma_entry_same_state_refl(a: StakingLedger)
    ensures
        entry_same_state(a, a),
{
    match a.status {
        StakerStatus::Idle => {},
        StakerStatus::Validator => {},
        StakerStatus::Nominator(ts) => {},
    }
}

} // verus!
