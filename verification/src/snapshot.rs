//! The per-round voter/target snapshot.
//!
//! Taken exactly once, when the election machine leaves `Off`; immutable
//! thereafter and discarded when the round concludes. The voter ordering
//! is the ledger's voter-list insertion order, not re-derived here.

use vstd::prelude::*;
use crate::ledger::clone_accounts;
use crate::ledger::distinct_accounts;
use crate::ledger::Ledger;
use crate::ledger::StakerStatus;
use crate::ledger::StakingLedger;
use crate::AccountId;
use crate::BlockNumber;
use crate::VoteWeight;

verus! {

/// One captured voter: its identity, the weight its stake carries, and
/// the targets it approves of.
#[derive(Clone, Debug, PartialEq, Eq)]
pub struct Voter {
    /// The voting account.
    pub who: AccountId,
    /// The vote weight captured from the active stake.
    pub weight: VoteWeight,
    /// The approved targets: the nominations of a nominator, or the
    /// account itself for a validator.
    pub targets: Vec<AccountId>,
}

/// An immutable capture of the eligible voters and validator targets at a
/// point in time; one per election round.
#[derive(Clone, Debug, PartialEq, Eq)]
pub struct Snapshot {
    /// The captured voters, in voter-list order.
    pub voters: Vec<Voter>,
    /// The captured validator targets, in voter-list order.
    pub targets: Vec<AccountId>,
    /// The block at which the capture was taken.
    pub block: BlockNumber,
}

impl Snapshot {
    /// Well-formedness: voters and targets are free of duplicates.
    pub open spec fn wf(self) -> bool {
        &&& forall|i: int, j: int|
            0 <= i < j < self.voters@.len() ==> self.voters@[i].who != self.voters@[j].who
        &&& distinct_accounts(self.targets@)
    }
}

/// The targets a staker's status declares: the nominations of a
/// nominator, the account itself for a validator, nothing when idle.
pub open spec fn spec_declared_targets(e: StakingLedger) -> Seq<AccountId> {
    match e.status {
        StakerStatus::Nominator(ts) => ts@,
        StakerStatus::Validator => seq![e.stash],
        StakerStatus::Idle => Seq::empty(),
    }
}

/// Whether `a` is the stash of a validator entry of `entries`.
pub open spec fn is_validator_stash(entries: Seq<StakingLedger>, a: AccountId) -> bool {
    exists|i: int|
        0 <= i < entries.len() && (#[trigger] entries[i]).stash == a && entries[i].status
            is Validator
}

/// The members of `vl` that are validator stashes of `entries`, in order.
pub open spec fn validator_members(entries: Seq<StakingLedger>, vl: Seq<AccountId>) -> Seq<
    AccountId,
>
    decreases vl.len(),
{
    if vl.len() == 0 {
        Seq::empty()
    } else {
        let rest = validator_members(entries, vl.drop_last());
        if is_validator_stash(entries, vl.last()) {
            rest.push(vl.last())
        } else {
            rest
        }
    }
}

/// Validator members come from `vl`, keep its order, and keep every
/// validator stash of `vl`.
pub proof fn lemma_validator_members_sub(entries: Seq<StakingLedger>, vl: Seq<AccountId>)
    ensures
        validator_members(entries, vl).len() <= vl.len(),
        forall|j: int|
            0 <= j < validator_members(entries, vl).len() ==> vl.contains(
                #[trigger] validator_members(entries, vl)[j],
            ),
    decreases vl.len(),
{
    if vl.len() > 0 {
        lemma_validator_members_sub(entries, vl.drop_last());
        let rest = validator_members(entries, vl.drop_last());
        let out = validator_members(entries, vl);
        assert forall|j: int| 0 <= j < out.len() implies vl.contains(out[j]) by {
            if is_validator_stash(entries, vl.last()) && j == out.len() - 1 {
                assert(out[j] == vl.last());
                assert(vl[vl.len() - 1] == vl.last());
            } else {
                assert(out[j] == rest[j]);
                assert(vl.drop_last().contains(rest[j]));
                let k = choose|k: int| 0 <= k < vl.drop_last().len() && vl.drop_last()[k] == rest[j];
                assert(vl[k] == rest[j]);
            }
        }
    }
}

/// Distinct member lists give distinct validator members.
pub proof fn lemma_validator_members_distinct(entries: Seq<StakingLedger>, vl: Seq<AccountId>)
    requires
        distinct_accounts(vl),
    ensures
        distinct_accounts(validator_members(entries, vl)),
    decreases vl.len(),
{
    if vl.len() > 0 {
        assert(distinct_accounts(vl.drop_last())) by {
            assert forall|i: int, j: int|
                0 <= i < j < vl.drop_last().len() implies vl.drop_last()[i]
                != vl.drop_last()[j] by {
                assert(vl[i] == vl.drop_last()[i] && vl[j] == vl.drop_last()[j]);
            }
        }
        lemma_validator_members_distinct(entries, vl.drop_last());
        let rest = validator_members(entries, vl.drop_last());
        let out = validator_members(entries, vl);
        if is_validator_stash(entries, vl.last()) {
            lemma_validator_members_sub(entries, vl.drop_last());
            assert forall|i: int, j: int| 0 <= i < j < out.len() implies out[i] != out[j] by {
                if j == out.len() - 1 {
                    assert(out[i] == rest[i]);
                    assert(out[j] == vl.last());
                    assert(vl.drop_last().contains(rest[i]));
                    let k = choose|k: int|
                        0 <= k < vl.drop_last().len() && vl.drop_last()[k] == rest[i];
                    assert(vl[k] == rest[i]);
                    assert(vl[k] != vl[vl.len() - 1]);
                } else {
                    assert(out[i] == rest[i] && out[j] == rest[j]);
                }
            }
        }
    }
}

/// Whether `s` is the snapshot that capturing `ledger` at block `now`
/// under the given caps produces: voters are the first `max_voters`
/// members of the ledger's voter list, each carrying its active stake as
/// weight and the targets its status declares; targets are the validator
/// stashes among all voter-list members, in order, capped at
/// `max_targets`.
pub open spec fn is_snapshot_of(
    s: Snapshot,
    ledger: Ledger,
    now: BlockNumber,
    max_voters: usize,
    max_targets: usize,
) -> bool {
    &&& s.block == now
    &&& s.voters@.len() == if ledger.voter_list@.len() <= max_voters {
        ledger.voter_list@.len() as int
    } else {
        max_voters as int
    }
    &&& forall|k: int|
        0 <= k < s.voters@.len() ==> (#[trigger] s.voters@[k]).who == ledger.voter_list@[k]
            && exists|p: int|
            0 <= p < ledger.entries@.len() && (#[trigger] ledger.entries@[p]).stash
                == ledger.voter_list@[k] && s.voters@[k].weight == ledger.entries@[p].active
                && s.voters@[k].targets@ == spec_declared_targets(ledger.entries@[p])
    &&& s.targets@ == if validator_members(ledger.entries@, ledger.voter_list@).len()
        <= max_targets {
        validator_members(ledger.entries@, ledger.voter_list@)
    } else {
        validator_members(ledger.entries@, ledger.voter_list@).subrange(0, max_targets as int)
    }
}

/// Captures the snapshot for a round from the ledger at block `now`.
pub fn create_snapshot(
    ledger: &Ledger,
    now: BlockNumber,
    max_voters: usize,
    max_targets: usize,
) -> (s: Snapshot)
    requires
        ledger.wf(),
    ensures
        s.wf(),
        is_snapshot_of(s, *ledger, now, max_voters, max_targets),
{
    let vl_len = ledger.voter_list.len();
    let count = if vl_len <= max_voters {
        vl_len
    } else {
        max_voters
    };
    let mut voters: Vec<Voter> = Vec::new();
    let mut i: usize = 0;
    while i < count
        invariant
            i <= count,
            count <= ledger.voter_list@.len(),
            ledger.wf(),
            voters@.len() == i,
            forall|k: int|
                0 <= k < i ==> (#[trigger] voters@[k]).who == ledger.voter_list@[k] && exists|
                    p: int,
                |
                    0 <= p < ledger.entries@.len() && (#[trigger] ledger.entries@[p]).stash
                        == ledger.voter_list@[k] && voters@[k].weight == ledger.entries@[p].active
                        && voters@[k].targets@ == spec_declared_targets(ledger.entries@[p]),
        decreases count - i,
    {
        let who = ledger.voter_list[i];
        proof {
            assert(ledger.voter_list@.contains(who)) by {
                assert(ledger.voter_list@[i as int] == who);
            }
        }
        let p = match ledger.find_entry(who) {
            Some(p) => p,
            None => {
                proof {
                    assert(false);
                }
                0
            },
        };
        let targets: Vec<AccountId> = match &ledger.entries[p].status {
            StakerStatus::Nominator(ts) => clone_accounts(ts),
            StakerStatus::Validator => {
                let mut t: Vec<AccountId> = Vec::new();
                t.push(who);
                proof {
                    assert(t@ =~= seq![who]);
                }
                t
            },
            StakerStatus::Idle => Vec::new(),
        };
        let voter = Voter { who: who, weight: ledger.entries[p].active, targets: targets };
        voters.push(voter);
        i += 1;
    }
    let mut targets: Vec<AccountId> = Vec::new();
    let mut j: usize = 0;
    while j < vl_len
        invariant
            j <= vl_len,
            vl_len == ledger.voter_list@.len(),
            ledger.wf(),
            targets@ == validator_members(ledger.entries@, ledger.voter_list@.take(j as int)),
        decreases vl_len - j,
    {
        proof {
            assert(ledger.voter_list@.take(j + 1).drop_last() =~= ledger.voter_list@.take(j as int));
            assert(ledger.voter_list@.take(j + 1).last() == ledger.voter_list@[j as int]);
        }
        let who = ledger.voter_list[j];
        match ledger.find_entry(who) {
            Some(p) => {
                if self_is_validator(&ledger.entries[p]) {
                    targets.push(who);
                } else {
                    proof {
                        assert forall|q: int|
                            0 <= q < ledger.entries@.len() && (#[trigger] ledger.entries@[q]).stash
                                == who implies !(ledger.entries@[q].status is Validator) by {
                            assert(ledger.entries@[q] == ledger.entries@[p as int]);
                        }
                    }
                }
            },
            None => {},
        }
        j += 1;
    }
    proof {
        assert(ledger.voter_list@.take(vl_len as int) =~= ledger.voter_list@);
        lemma_validator_members_distinct(ledger.entries@, ledger.voter_list@);
        lemma_validator_members_sub(ledger.entries@, ledger.voter_list@);
    }
    if targets.len() > max_targets {
        targets.truncate(max_targets);
        proof {
            let full = validator_members(ledger.entries@, ledger.voter_list@);
            assert forall|a: int, b: int|
                0 <= a < b < targets@.len() implies targets@[a] != targets@[b] by {
                assert(targets@[a] == full[a] && targets@[b] == full[b]);
            }
        }
    }
    let s = Snapshot { voters: voters, targets: targets, block: now };
    proof {
        assert forall|a: int, b: int|
            0 <= a < b < s.voters@.len() implies s.voters@[a].who != s.voters@[b].who by {
            assert(s.voters@[a].who == ledger.voter_list@[a]);
            assert(s.voters@[b].who == ledger.voter_list@[b]);
        }
    }
    s
}

/// Decides whether an entry declares the validator role.
fn self_is_validator(e: &StakingLedger) -> (r: bool)
    ensures
        r == (e.status is Validator),
{
    e.status.is_validator()
}

} // verus!
