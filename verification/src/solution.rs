//! Candidate election solutions: supports, score computation, and the
//! feasibility check run during the signed-validation phase.

use vstd::prelude::*;
use crate::score::ElectionScore;
use crate::snapshot::Snapshot;
use crate::snapshot::Voter;
use crate::AccountId;

verus! {

/// The stake backing one elected target: the backing voters with their
/// assigned amounts, and their total.
#[derive(Clone, Debug, PartialEq, Eq)]
pub struct Support {
    /// The backed target.
    pub target: AccountId,
    /// The total backing stake; a feasible support's total equals the sum
    /// of its voters' amounts.
    pub total: u128,
    /// The backing voters and the stake each assigns to this target.
    pub voters: Vec<(AccountId, u128)>,
}

/// A candidate election outcome: a claimed score and the supports that
/// it was computed from.
#[derive(Clone, Debug, PartialEq, Eq)]
pub struct Solution {
    /// The claimed score; a feasible solution's score equals the score
    /// recomputed from `supports`.
    pub score: ElectionScore,
    /// One support per elected target; targets are unique.
    pub supports: Vec<Support>,
}

/// Saturating `u128` addition.
pub open spec fn sat_add_u128(a: u128, b: u128) -> u128 {
    if a + b > u128::MAX {
        u128::MAX
    } else {
        (a + b) as u128
    }
}

/// Saturating `u128` multiplication.
pub open spec fn sat_mul_u128(a: u128, b: u128) -> u128 {
    if a * b > u128::MAX {
        u128::MAX
    } else {
        (a * b) as u128
    }
}

/// Adds two stake amounts, saturating at the maximum.
pub fn saturating_add_u128(a: u128, b: u128) -> (r: u128)
    ensures
        r == sat_add_u128(a, b),
{
    match a.checked_add(b) {
        Some(v) => v,
        None => u128::MAX,
    }
}

/// Multiplies two stake amounts, saturating at the maximum.
pub fn saturating_mul_u128(a: u128, b: u128) -> (r: u128)
    ensures
        r == sat_mul_u128(a, b),
{
    match a.checked_mul(b) {
        Some(v) => v,
        None => u128::MAX,
    }
}

/// The saturating sum of the support totals of `s`.
pub open spec fn spec_sum_stake(s: Seq<Support>) -> u128
    decreases s.len(),
{
    if s.len() == 0 {
        0
    } else {
        sat_add_u128(spec_sum_stake(s.drop_last()), s.last().total)
    }
}

/// The saturating sum of the squares of the support totals of `s`.
pub open spec fn spec_sum_stake_squared(s: Seq<Support>) -> u128
    decreases s.len(),
{
    if s.len() == 0 {
        0
    } else {
        sat_add_u128(
            spec_sum_stake_squared(s.drop_last()),
            sat_mul_u128(s.last().total, s.last().total),
        )
    }
}

/// The smallest support total of `s` (zero for an empty sequence).
pub open spec fn spec_minimal_stake(s: Seq<Support>) -> u128
    decreases s.len(),
{
    if s.len() == 0 {
        0
    } else if s.len() == 1 {
        s.last().total
    } else {
        let rest = spec_minimal_stake(s.drop_last());
        if s.last().total < rest {
            s.last().total
        } else {
            rest
        }
    }
}

/// The score that a sequence of supports evaluates to.
pub open spec fn spec_score_of(s: Seq<Support>) -> ElectionScore {
    ElectionScore {
        minimal_stake: spec_minimal_stake(s),
        sum_stake: spec_sum_stake(s),
        sum_stake_squared: spec_sum_stake_squared(s),
    }
}

/// Evaluates the score of a sequence of supports: the smallest backing
/// total, the saturating sum of the totals, and the saturating sum of
/// their squares.
pub fn score_of(supports: &Vec<Support>) -> (r: ElectionScore)
    ensures
        r == spec_score_of(supports@),
{
    let n = supports.len();
    let mut minimal: u128 = 0;
    let mut sum: u128 = 0;
    let mut sum_squared: u128 = 0;
    let mut i: usize = 0;
    while i < n
        invariant
            i <= n,
            n == supports@.len(),
            minimal == spec_minimal_stake(supports@.take(i as int)),
            sum == spec_sum_stake(supports@.take(i as int)),
            sum_squared == spec_sum_stake_squared(supports@.take(i as int)),
        decreases n - i,
    {
        proof {
            assert(supports@.take(i + 1).drop_last() =~= supports@.take(i as int));
            assert(supports@.take(i + 1).last() == supports@[i as int]);
        }
        let t = supports[i].total;
        if i == 0 {
            minimal = t;
        } else if t < minimal {
            minimal = t;
        }
        sum = saturating_add_u128(sum, t);
        sum_squared = saturating_add_u128(sum_squared, saturating_mul_u128(t, t));
        i += 1;
    }
    proof {
        assert(supports@.take(n as int) =~= supports@);
    }
    ElectionScore { minimal_stake: minimal, sum_stake: sum, sum_stake_squared: sum_squared }
}

/// The exact sum of the amounts assigned by the backing voters of one
/// support.
pub open spec fn backing_sum(vs: Seq<(AccountId, u128)>) -> int
    decreases vs.len(),
{
    if vs.len() == 0 {
        0
    } else {
        backing_sum(vs.drop_last()) + vs.last().1
    }
}

/// A prefix of a backing never sums to more than the whole backing.
pub proof fn lemma_backing_sum_take_le(vs: Seq<(AccountId, u128)>, k: int)
    requires
        0 <= k <= vs.len(),
    ensures
        backing_sum(vs.take(k)) <= backing_sum(vs),
    decreases vs.len() - k,
{
    if k == vs.len() {
        assert(vs.take(k) =~= vs);
    } else {
        lemma_backing_sum_take_le(vs, k + 1);
        assert(vs.take(k + 1).drop_last() =~= vs.take(k));
        assert(vs.take(k + 1).last() == vs[k]);
    }
}

/// The exact stake `sol`'s supports assign to the voter `who`, over all
/// targets and occurrences.
pub open spec fn assigned_total(s: Seq<Support>, who: AccountId) -> int
    decreases s.len(),
{
    if s.len() == 0 {
        0
    } else {
        assigned_total(s.drop_last(), who) + assigned_in(s.last().voters@, who)
    }
}

/// The exact stake one support's backing assigns to the voter `who`.
pub open spec fn assigned_in(vs: Seq<(AccountId, u128)>, who: AccountId) -> int
    decreases vs.len(),
{
    if vs.len() == 0 {
        0
    } else {
        assigned_in(vs.drop_last(), who) + if vs.last().0 == who {
            vs.last().1 as int
        } else {
            0
        }
    }
}

/// Per-support assignments are nonnegative.
pub proof fn lemma_assigned_in_nonneg(vs: Seq<(AccountId, u128)>, who: AccountId)
    ensures
        assigned_in(vs, who) >= 0,
    decreases vs.len(),
{
    if vs.len() > 0 {
        lemma_assigned_in_nonneg(vs.drop_last(), who);
    }
}

/// Assigned totals are nonnegative.
pub proof fn lemma_assigned_total_nonneg(s: Seq<Support>, who: AccountId)
    ensures
        assigned_total(s, who) >= 0,
    decreases s.len(),
{
    if s.len() > 0 {
        lemma_assigned_total_nonneg(s.drop_last(), who);
        lemma_assigned_in_nonneg(s.last().voters@, who);
    }
}

/// A prefix of the supports never assigns more to a voter than all of
/// them.
pub proof fn lemma_assigned_total_take_le(s: Seq<Support>, who: AccountId, k: int)
    requires
        0 <= k <= s.len(),
    ensures
        assigned_total(s.take(k), who) <= assigned_total(s, who),
    decreases s.len() - k,
{
    if k == s.len() {
        assert(s.take(k) =~= s);
    } else {
        lemma_assigned_total_take_le(s, who, k + 1);
        assert(s.take(k + 1).drop_last() =~= s.take(k));
        assert(s.take(k + 1).last() == s[k]);
        lemma_assigned_in_nonneg(s[k].voters@, who);
    }
}

/// A prefix of one backing never assigns more to a voter than all of it.
pub proof fn lemma_assigned_in_take_le(vs: Seq<(AccountId, u128)>, who: AccountId, k: int)
    requires
        0 <= k <= vs.len(),
    ensures
        assigned_in(vs.take(k), who) <= assigned_in(vs, who),
    decreases vs.len() - k,
{
    if k == vs.len() {
        assert(vs.take(k) =~= vs);
    } else {
        lemma_assigned_in_take_le(vs, who, k + 1);
        assert(vs.take(k + 1).drop_last() =~= vs.take(k));
        assert(vs.take(k + 1).last() == vs[k]);
    }
}

/// Feasibility of a solution against a snapshot: every supported target
/// is a snapshot target and is supported only once; every support total
/// equals the exact sum of its backing; every backing voter is a snapshot
/// voter that declared the supported target; no voter assigns more stake
/// in total than its snapshot weight; and the claimed score equals the
/// score recomputed from the supports.
pub open spec fn spec_feasible(snap: Snapshot, sol: Solution) -> bool {
    &&& forall|i: int|
        0 <= i < sol.supports@.len() ==> snap.targets@.contains(
            (#[trigger] sol.supports@[i]).target,
        )
    &&& forall|i: int, j: int|
        0 <= i < j < sol.supports@.len() ==> sol.supports@[i].target != sol.supports@[j].target
    &&& forall|i: int|
        0 <= i < sol.supports@.len() ==> (#[trigger] sol.supports@[i]).total as int == backing_sum(
            sol.supports@[i].voters@,
        )
    &&& forall|i: int, k: int|
        0 <= i < sol.supports@.len() && 0 <= k < (#[trigger] sol.supports@[i]).voters@.len()
            ==> voter_declared(
            snap.voters@,
            (#[trigger] sol.supports@[i].voters@[k]).0,
            sol.supports@[i].target,
        )
    &&& forall|v: int|
        0 <= v < snap.voters@.len() ==> assigned_total(
            sol.supports@,
            (#[trigger] snap.voters@[v]).who,
        ) <= snap.voters@[v].weight
    &&& sol.score == spec_score_of(sol.supports@)
}

/// Whether `who` is a snapshot voter that declared `target`.
pub open spec fn voter_declared(voters: Seq<Voter>, who: AccountId, target: AccountId) -> bool {
    exists|v: int|
        0 <= v < voters.len() && (#[trigger] voters[v]).who == who && voters[v].targets@.contains(
            target,
        )
}

/// Decides whether every supported target is a snapshot target.
fn all_targets_in(snap: &Snapshot, supports: &Vec<Support>) -> (r: bool)
    ensures
        r == forall|i: int|
            0 <= i < supports@.len() ==> snap.targets@.contains((#[trigger] supports@[i]).target),
{
    let n = supports.len();
    let mut i: usize = 0;
    while i < n
        invariant
            i <= n,
            n == supports@.len(),
            forall|q: int|
                0 <= q < i ==> snap.targets@.contains((#[trigger] supports@[q]).target),
        decreases n - i,
    {
        if !crate::ledger::contains_account(&snap.targets, supports[i].target) {
            return false;
        }
        i += 1;
    }
    true
}

/// Decides whether no target is supported twice.
fn targets_unique(supports: &Vec<Support>) -> (r: bool)
    ensures
        r == forall|i: int, j: int|
            0 <= i < j < supports@.len() ==> supports@[i].target != supports@[j].target,
{
    let n = supports.len();
    let mut i: usize = 1;
    if n == 0 {
        return true;
    }
    while i < n
        invariant
            1 <= i <= n,
            n == supports@.len(),
            forall|a: int, b: int| 0 <= a < b < i ==> supports@[a].target != supports@[b].target,
        decreases n - i,
    {
        let mut j: usize = 0;
        while j < i
            invariant
                j <= i < n,
                n == supports@.len(),
                forall|q: int| 0 <= q < j ==> supports@[q].target != supports@[i as int].target,
            decreases i - j,
        {
            if supports[j].target == supports[i].target {
                return false;
            }
            j += 1;
        }
        i += 1;
    }
    true
}

/// Decides whether every support's total equals the exact sum of its
/// backing.
fn totals_match(supports: &Vec<Support>) -> (r: bool)
    ensures
        r == forall|i: int|
            0 <= i < supports@.len() ==> (#[trigger] supports@[i]).total as int == backing_sum(
                supports@[i].voters@,
            ),
{
    let n = supports.len();
    let mut i: usize = 0;
    while i < n
        invariant
            i <= n,
            n == supports@.len(),
            forall|q: int|
                0 <= q < i ==> (#[trigger] supports@[q]).total as int == backing_sum(
                    supports@[q].voters@,
                ),
        decreases n - i,
    {
        let vs_len = supports[i].voters.len();
        let ghost vs = supports@[i as int].voters@;
        let mut acc: u128 = 0;
        let mut k: usize = 0;
        while k < vs_len
            invariant
                k <= vs_len,
                i < n,
                n == supports@.len(),
                vs_len == vs.len(),
                vs == supports@[i as int].voters@,
                acc == backing_sum(vs.take(k as int)),
            decreases vs_len - k,
        {
            proof {
                assert(vs.take(k + 1).drop_last() =~= vs.take(k as int));
                assert(vs.take(k + 1).last() == vs[k as int]);
            }
            let amt = supports[i].voters[k].1;
            match acc.checked_add(amt) {
                Some(v) => {
                    acc = v;
                },
                None => {
                    proof {
                        lemma_backing_sum_take_le(vs, k + 1);
                        assert(backing_sum(vs) > u128::MAX);
                    }
                    return false;
                },
            }
            k += 1;
        }
        proof {
            assert(vs.take(vs_len as int) =~= vs);
        }
        if acc != supports[i].total {
            return false;
        }
        i += 1;
    }
    true
}

/// Decides whether `who` is a snapshot voter that declared `target`.
fn find_voter_declared(voters: &Vec<Voter>, who: AccountId, target: AccountId) -> (r: bool)
    ensures
        r == voter_declared(voters@, who, target),
{
    let n = voters.len();
    let mut v: usize = 0;
    while v < n
        invariant
            v <= n,
            n == voters@.len(),
            forall|q: int|
                0 <= q < v ==> !((#[trigger] voters@[q]).who == who && voters@[q].targets@.contains(
                    target,
                )),
        decreases n - v,
    {
        if voters[v].who == who && crate::ledger::contains_account(&voters[v].targets, target) {
            return true;
        }
        v += 1;
    }
    false
}

/// Decides whether every backing voter of every support is a snapshot
/// voter that declared the supported target.
fn backings_declared(snap: &Snapshot, supports: &Vec<Support>) -> (r: bool)
    ensures
        r == forall|i: int, k: int|
            0 <= i < supports@.len() && 0 <= k < (#[trigger] supports@[i]).voters@.len()
                ==> voter_declared(
                snap.voters@,
                (#[trigger] supports@[i].voters@[k]).0,
                supports@[i].target,
            ),
{
    let n = supports.len();
    let mut i: usize = 0;
    while i < n
        invariant
            i <= n,
            n == supports@.len(),
            forall|q: int, k: int|
                0 <= q < i && 0 <= k < (#[trigger] supports@[q]).voters@.len() ==> voter_declared(
                    snap.voters@,
                    (#[trigger] supports@[q].voters@[k]).0,
                    supports@[q].target,
                ),
        decreases n - i,
    {
        let vs_len = supports[i].voters.len();
        let mut k: usize = 0;
        while k < vs_len
            invariant
                k <= vs_len,
                i < n,
                n == supports@.len(),
                vs_len == supports@[i as int].voters@.len(),
                forall|q: int|
                    0 <= q < k ==> voter_declared(
                        snap.voters@,
                        (#[trigger] supports@[i as int].voters@[q]).0,
                        supports@[i as int].target,
                    ),
        decreases vs_len - k,
        {
            let who = supports[i].voters[k].0;
            if !find_voter_declared(&snap.voters, who, supports[i].target) {
                return false;
            }
            k += 1;
        }
        i += 1;
    }
    true
}

/// Decides whether no snapshot voter is assigned more stake, over all
/// supports, than its snapshot weight.
fn stakes_within(snap: &Snapshot, supports: &Vec<Support>) -> (r: bool)
    ensures
        r == forall|v: int|
            0 <= v < snap.voters@.len() ==> assigned_total(
                supports@,
                (#[trigger] snap.voters@[v]).who,
            ) <= snap.voters@[v].weight,
{
    let vn = snap.voters.len();
    let mut v: usize = 0;
    while v < vn
        invariant
            v <= vn,
            vn == snap.voters@.len(),
            forall|q: int|
                0 <= q < v ==> assigned_total(supports@, (#[trigger] snap.voters@[q]).who)
                    <= snap.voters@[q].weight,
        decreases vn - v,
    {
        let who = snap.voters[v].who;
        let weight = snap.voters[v].weight;
        let n = supports.len();
        let mut acc: u128 = 0;
        let mut i: usize = 0;
        while i < n
            invariant
                i <= n,
                v < vn,
                vn == snap.voters@.len(),
                n == supports@.len(),
                who == snap.voters@[v as int].who,
                weight == snap.voters@[v as int].weight,
                acc == assigned_total(supports@.take(i as int), who),
            decreases n - i,
        {
            let vs_len = supports[i].voters.len();
            let ghost vs = supports@[i as int].voters@;
            let mut k: usize = 0;
            while k < vs_len
                invariant
                    k <= vs_len,
                    i < n,
                    v < vn,
                    vn == snap.voters@.len(),
                    n == supports@.len(),
                    vs_len == vs.len(),
                    vs == supports@[i as int].voters@,
                    who == snap.voters@[v as int].who,
                    weight == snap.voters@[v as int].weight,
                    acc == assigned_total(supports@.take(i as int), who) + assigned_in(
                        vs.take(k as int),
                        who,
                    ),
                decreases vs_len - k,
            {
                proof {
                    assert(vs.take(k + 1).drop_last() =~= vs.take(k as int));
                    assert(vs.take(k + 1).last() == vs[k as int]);
                }
                let entry = supports[i].voters[k];
                if entry.0 == who {
                    let amt = entry.1;
                    match acc.checked_add(amt) {
                        Some(nv) => {
                            acc = nv;
                        },
                        None => {
                            proof {
                                lemma_assigned_in_take_le(vs, who, k + 1);
                                lemma_assigned_total_take_le(supports@, who, i + 1);
                                assert(supports@.take(i + 1).drop_last() =~= supports@.take(
                                    i as int,
                                ));
                                assert(supports@.take(i + 1).last() == supports@[i as int]);
                                assert(assigned_total(supports@, who) > u128::MAX);
                            }
                            return false;
                        },
                    }
                }
                k += 1;
            }
            proof {
                assert(vs.take(vs_len as int) =~= vs);
                assert(supports@.take(i + 1).drop_last() =~= supports@.take(i as int));
                assert(supports@.take(i + 1).last() == supports@[i as int]);
            }
            i += 1;
        }
        proof {
            assert(supports@.take(n as int) =~= supports@);
        }
        if acc > weight as u128 {
            return false;
        }
        v += 1;
    }
    true
}

/// Decides feasibility of a solution against a snapshot; returns exactly
/// [`spec_feasible`].
pub fn check_feasibility(snap: &Snapshot, sol: &Solution) -> (r: bool)
    ensures
        r == spec_feasible(*snap, *sol),
{
    if !all_targets_in(snap, &sol.supports) {
        return false;
    }
    if !targets_unique(&sol.supports) {
        return false;
    }
    if !totals_match(&sol.supports) {
        return false;
    }
    if !backings_declared(snap, &sol.supports) {
        return false;
    }
    if !stakes_within(snap, &sol.supports) {
        return false;
    }
    let recomputed = score_of(&sol.supports);
    if !(recomputed.minimal_stake == sol.score.minimal_stake && recomputed.sum_stake
        == sol.score.sum_stake && recomputed.sum_stake_squared == sol.score.sum_stake_squared) {
        return false;
    }
    true
}

} // verus!
