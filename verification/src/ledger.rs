//! The staking ledger: stake tracking, bonding and unbonding schedules,
//! validator/nominator intents, and slashing.
//!
//! The headline invariant, part of [`StakingLedger::wf`] and preserved by
//! every operation: for every account,
//! `total == active + sum(unlocking chunk values)`.

use vstd::prelude::*;
use crate::errors::Error;
use crate::events::Event;
use crate::events::ForceEra;
use crate::AccountId;
use crate::Balance;
use crate::EraIndex;

verus! {

/// Parts-per-billion denominator for fractions (slash fractions and the
/// offending-validators threshold).
pub const BILLION: u32 = 1_000_000_000;

/// A snapshot of the stake an account has in the system.
#[derive(Clone, Copy, Debug, PartialEq, Eq, Structural)]
pub struct Stake {
    /// Everything locked by the system for this account: the `active`
    /// stake plus any funds currently mid-unbonding.
    pub total: Balance,
    /// The portion at stake in any forthcoming round.
    pub active: Balance,
}

/// A scheduled unlock: `value` becomes withdrawable once the current era
/// reaches `unlock_era`.
#[derive(Clone, Copy, Debug, PartialEq, Eq, Structural)]
pub struct UnlockChunk {
    /// Amount of funds to be unlocked.
    pub value: Balance,
    /// Era number at which point the funds become withdrawable.
    pub unlock_era: EraIndex,
}

/// The declared role of a staker. Exactly one holds at a time; becoming a
/// validator clears nominator state and vice versa.
#[derive(Clone, Debug, PartialEq, Eq)]
pub enum StakerStatus {
    /// Chilling: bonded, but with no declared intent.
    Idle,
    /// Declared the intent to validate.
    Validator,
    /// Declared the intent to nominate the given targets.
    Nominator(Vec<AccountId>),
}

impl StakerStatus {
    /// The nominated targets, if this is the `Nominator` role.
    pub open spec fn spec_nominations(self) -> Option<Seq<AccountId>> {
        match self {
            StakerStatus::Nominator(ts) => Some(ts@),
            _ => None,
        }
    }

    /// Whether two statuses are the same role with the same targets.
    pub open spec fn equivalent(self, other: StakerStatus) -> bool {
        match (self, other) {
            (StakerStatus::Idle, StakerStatus::Idle) => true,
            (StakerStatus::Validator, StakerStatus::Validator) => true,
            (StakerStatus::Nominator(a), StakerStatus::Nominator(b)) => a@ == b@,
            _ => false,
        }
    }

    /// Whether this is the `Validator` role.
    pub fn is_validator(&self) -> (r: bool)
        ensures
            r == (self is Validator),
    {
        match self {
            StakerStatus::Validator => true,
            _ => false,
        }
    }
}

/// Validator preferences declared alongside the intent to validate.
#[derive(Clone, Copy, Debug, PartialEq, Eq, Structural)]
pub struct ValidatorPrefs {
    /// Commission the validator takes, in parts per billion.
    pub commission: u32,
    /// Whether the validator refuses new nominations.
    pub blocked: bool,
}

impl Default for ValidatorPrefs {
    /// No commission, open to nominations.
    fn default() -> (r: Self)
        ensures
            r.commission == 0,
            !r.blocked,
    {
        ValidatorPrefs { commission: 0, blocked: false }
    }
}

/// A record of the accounts that were fully unstaked and removed.
#[derive(Clone, Debug, PartialEq, Eq)]
pub struct RecordKilled {
    /// The removed accounts, in removal order.
    pub accounts: Vec<AccountId>,
}

/// The per-account ledger entry.
#[derive(Clone, Debug, PartialEq, Eq)]
pub struct StakingLedger {
    /// The owning account.
    pub stash: AccountId,
    /// The account rewards are forwarded to.
    pub payee: AccountId,
    /// Everything locked: `active` plus all unlocking chunk values.
    pub total: Balance,
    /// The portion at stake in forthcoming rounds.
    pub active: Balance,
    /// Scheduled unlocks, in creation order.
    pub unlocking: Vec<UnlockChunk>,
    /// The declared role.
    pub status: StakerStatus,
    /// Preferences of the most recent `validate` declaration.
    pub prefs: ValidatorPrefs,
}

/// The sum of the chunk values of `s`.
pub open spec fn sum_chunk_values(s: Seq<UnlockChunk>) -> int
    decreases s.len(),
{
    if s.len() == 0 {
        0
    } else {
        sum_chunk_values(s.drop_last()) + s.last().value
    }
}

/// Appending a chunk adds its value to the sum.
pub proof fn lemma_sum_push(s: Seq<UnlockChunk>, c: UnlockChunk)
    ensures
        sum_chunk_values(s.push(c)) == sum_chunk_values(s) + c.value,
{
    assert(s.push(c).drop_last() =~= s);
}

/// Every chunk value is nonnegative, so the sum is nonnegative.
pub proof fn lemma_sum_nonneg(s: Seq<UnlockChunk>)
    ensures
        sum_chunk_values(s) >= 0,
    decreases s.len(),
{
    if s.len() > 0 {
        lemma_sum_nonneg(s.drop_last());
    }
}

impl StakingLedger {
    /// Well-formedness of one entry: the headline stake invariant.
    pub open spec fn wf(self) -> bool {
        self.total == self.active + sum_chunk_values(self.unlocking@)
    }
}

/// A prefix sum never exceeds the full sum.
pub proof fn lemma_sum_take_le(s: Seq<UnlockChunk>, k: int)
    requires
        0 <= k <= s.len(),
    ensures
        sum_chunk_values(s.take(k)) <= sum_chunk_values(s),
    decreases s.len() - k,
{
    if k == s.len() {
        assert(s.take(k) =~= s);
    } else {
        lemma_sum_take_le(s, k + 1);
        assert(s.take(k + 1).drop_last() =~= s.take(k));
        assert(s.take(k + 1).last() == s[k]);
    }
}

/// The chunks of `s` whose unlock era lies strictly after `era`, in order.
pub open spec fn kept_chunks(s: Seq<UnlockChunk>, era: EraIndex) -> Seq<UnlockChunk>
    decreases s.len(),
{
    if s.len() == 0 {
        Seq::empty()
    } else {
        let rest = kept_chunks(s.drop_last(), era);
        if s.last().unlock_era > era {
            rest.push(s.last())
        } else {
            rest
        }
    }
}

/// The sum of the values of the chunks of `s` due by `era`.
pub open spec fn due_sum(s: Seq<UnlockChunk>, era: EraIndex) -> int
    decreases s.len(),
{
    if s.len() == 0 {
        0
    } else {
        due_sum(s.drop_last(), era) + if s.last().unlock_era <= era {
            s.last().value as int
        } else {
            0
        }
    }
}

/// A chunk sequence splits into its due part and its kept part.
pub proof fn lemma_due_kept_split(s: Seq<UnlockChunk>, era: EraIndex)
    ensures
        sum_chunk_values(s) == due_sum(s, era) + sum_chunk_values(kept_chunks(s, era)),
        due_sum(s, era) >= 0,
    decreases s.len(),
{
    if s.len() > 0 {
        lemma_due_kept_split(s.drop_last(), era);
        if s.last().unlock_era > era {
            lemma_sum_push(kept_chunks(s.drop_last(), era), s.last());
        }
    }
}

/// Every kept chunk unlocks strictly after `era`.
pub proof fn lemma_kept_chunks_late(s: Seq<UnlockChunk>, era: EraIndex)
    ensures
        forall|i: int|
            0 <= i < kept_chunks(s, era).len() ==> (#[trigger] kept_chunks(s, era)[i]).unlock_era
                > era,
    decreases s.len(),
{
    if s.len() > 0 {
        lemma_kept_chunks_late(s.drop_last(), era);
        let rest = kept_chunks(s.drop_last(), era);
        let out = kept_chunks(s, era);
        assert forall|i: int| 0 <= i < out.len() implies out[i].unlock_era > era by {
            if s.last().unlock_era > era {
                if i < rest.len() {
                    assert(out[i] == rest[i]);
                } else {
                    assert(out[i] == s.last());
                }
            } else {
                assert(out[i] == rest[i]);
            }
        }
    }
}

/// Keeping chunks is idempotent: once nothing is due, a second pass
/// removes nothing and withdraws nothing.
pub proof fn lemma_kept_chunks_idempotent(s: Seq<UnlockChunk>, era: EraIndex)
    requires
        forall|i: int| 0 <= i < s.len() ==> (#[trigger] s[i]).unlock_era > era,
    ensures
        kept_chunks(s, era) == s,
        due_sum(s, era) == 0,
    decreases s.len(),
{
    if s.len() > 0 {
        lemma_kept_chunks_idempotent(s.drop_last(), era);
        assert(kept_chunks(s.drop_last(), era).push(s.last()) =~= s);
    } else {
        assert(kept_chunks(s, era) =~= s);
    }
}

/// Kept chunks are never more numerous than the original schedule.
pub proof fn lemma_kept_chunks_len(s: Seq<UnlockChunk>, era: EraIndex)
    ensures
        kept_chunks(s, era).len() <= s.len(),
    decreases s.len(),
{
    if s.len() > 0 {
        lemma_kept_chunks_len(s.drop_last(), era);
    }
}

/// The accounts of `s` other than `who`, in order.
pub open spec fn retain_not(s: Seq<AccountId>, who: AccountId) -> Seq<AccountId>
    decreases s.len(),
{
    if s.len() == 0 {
        Seq::empty()
    } else {
        let rest = retain_not(s.drop_last(), who);
        if s.last() == who {
            rest
        } else {
            rest.push(s.last())
        }
    }
}

/// The retained accounts never hold `who`, come from `s`, and keep
/// every other account of `s`.
pub proof fn lemma_retain_not_properties(s: Seq<AccountId>, who: AccountId)
    ensures
        retain_not(s, who).len() <= s.len(),
        forall|j: int| 0 <= j < retain_not(s, who).len() ==> #[trigger] retain_not(s, who)[j] != who,
        forall|j: int|
            0 <= j < retain_not(s, who).len() ==> s.contains(#[trigger] retain_not(s, who)[j]),
        forall|i: int|
            0 <= i < s.len() && s[i] != who ==> retain_not(s, who).contains(#[trigger] s[i]),
    decreases s.len(),
{
    if s.len() > 0 {
        lemma_retain_not_properties(s.drop_last(), who);
        let rest = retain_not(s.drop_last(), who);
        let out = retain_not(s, who);
        assert forall|j: int| 0 <= j < out.len() implies out[j] != who && s.contains(out[j]) by {
            if s.last() != who && j == out.len() - 1 {
                assert(out[j] == s.last());
                assert(s[s.len() - 1] == s.last());
            } else {
                assert(out[j] == rest[j]);
                assert(s.drop_last().contains(rest[j]));
                let k = choose|k: int| 0 <= k < s.drop_last().len() && s.drop_last()[k] == rest[j];
                assert(s[k] == rest[j]);
            }
        }
        assert forall|i: int| 0 <= i < s.len() && s[i] != who implies out.contains(s[i]) by {
            if i == s.len() - 1 {
                assert(out.last() == s[i]);
            } else {
                assert(s.drop_last()[i] == s[i]);
                assert(rest.contains(s[i]));
                let k = choose|k: int| 0 <= k < rest.len() && rest[k] == s[i];
                assert(out[k] == s[i]);
            }
        }
    }
}

/// Retaining preserves distinctness.
pub proof fn lemma_retain_not_distinct(s: Seq<AccountId>, who: AccountId)
    requires
        distinct_accounts(s),
    ensures
        distinct_accounts(retain_not(s, who)),
    decreases s.len(),
{
    if s.len() > 0 {
        assert(distinct_accounts(s.drop_last())) by {
            assert forall|i: int, j: int|
                0 <= i < j < s.drop_last().len() implies s.drop_last()[i] != s.drop_last()[j] by {
                assert(s[i] == s.drop_last()[i] && s[j] == s.drop_last()[j]);
            }
        }
        lemma_retain_not_distinct(s.drop_last(), who);
        let rest = retain_not(s.drop_last(), who);
        let out = retain_not(s, who);
        if s.last() != who {
            lemma_retain_not_properties(s.drop_last(), who);
            assert forall|i: int, j: int| 0 <= i < j < out.len() implies out[i] != out[j] by {
                if j == out.len() - 1 {
                    assert(out[i] == rest[i]);
                    assert(out[j] == s.last());
                    assert(s.drop_last().contains(rest[i]));
                    let k = choose|k: int|
                        0 <= k < s.drop_last().len() && s.drop_last()[k] == rest[i];
                    assert(s[k] == rest[i]);
                    assert(s[k] != s[s.len() - 1]);
                } else {
                    assert(out[i] == rest[i] && out[j] == rest[j]);
                }
            }
        }
    }
}

/// Configuration constants of the ledger.
#[derive(Clone, Copy, Debug, PartialEq, Eq, Structural)]
pub struct LedgerConfig {
    /// The minimum amount `bond` accepts.
    pub minimum_bond: Balance,
    /// The minimum active stake required to register a nomination intent.
    pub minimum_nominator_bond: Balance,
    /// The minimum active stake required to register a validation intent.
    pub minimum_validator_bond: Balance,
    /// Number of eras an unbonding chunk must wait before withdrawal.
    pub bonding_duration: EraIndex,
    /// Capacity of each account's unlocking schedule.
    pub max_unlock_chunks: usize,
    /// Fraction (parts per billion) of the active validator set that, once
    /// slashed within one era, forces a new era.
    pub offending_threshold: u32,
}

/// The staking ledger: all per-account entries plus the era-wide state
/// slashing reads and the coordinator consumes.
#[derive(Clone, Debug, PartialEq, Eq)]
pub struct Ledger {
    /// One entry per bonded account; stashes are unique.
    pub entries: Vec<StakingLedger>,
    /// The voter list: accounts whose vote the next snapshot captures, in
    /// insertion order (a stake-weighted ordering would be maintained by
    /// a voter-list provider, not re-derived here).
    pub voter_list: Vec<AccountId>,
    /// The validator set active in the current era (the session layer's
    /// current set).
    pub active_validators: Vec<AccountId>,
    /// Active validators slashed within the current era, deduplicated.
    pub offenders: Vec<AccountId>,
    /// The latest planned era.
    pub current_era: EraIndex,
    /// Whether the coordinator must force a new era.
    pub force_era: ForceEra,
    /// Notifications, oldest first.
    pub events: Vec<Event>,
    /// Accounts fully unstaked and removed.
    pub killed: RecordKilled,
    /// Configuration constants.
    pub config: LedgerConfig,
}

/// Whether `s` holds an entry for `who`.
pub open spec fn has_stash(s: Seq<StakingLedger>, who: AccountId) -> bool {
    exists|i: int| 0 <= i < s.len() && s[i].stash == who
}

/// Whether the accounts of `s` are pairwise distinct.
pub open spec fn distinct_accounts(s: Seq<AccountId>) -> bool {
    forall|i: int, j: int| 0 <= i < j < s.len() ==> s[i] != s[j]
}

impl Ledger {
    /// Well-formedness: every entry satisfies the stake invariant and is
    /// within chunk capacity; stashes are unique; the voter list holds
    /// distinct, existing stakers; offenders are distinct active
    /// validators; the active set is distinct.
    pub open spec fn wf(self) -> bool {
        &&& forall|i: int| 0 <= i < self.entries@.len() ==> (#[trigger] self.entries@[i]).wf()
        &&& forall|i: int| 0 <= i < self.entries@.len()
            ==> (#[trigger] self.entries@[i]).unlocking@.len() <= self.config.max_unlock_chunks
        &&& forall|i: int, j: int|
            0 <= i < j < self.entries@.len() ==> self.entries@[i].stash != self.entries@[j].stash
        &&& distinct_accounts(self.voter_list@)
        &&& forall|i: int|
            0 <= i < self.voter_list@.len() ==> has_stash(self.entries@, #[trigger] self.voter_list@[i])
        &&& distinct_accounts(self.offenders@)
        &&& forall|i: int|
            0 <= i < self.offenders@.len() ==> self.active_validators@.contains(
                #[trigger] self.offenders@[i],
            )
        &&& distinct_accounts(self.active_validators@)
    }

    /// Finds the index of `who`'s entry.
    pub fn find_entry(&self, who: AccountId) -> (r: Option<usize>)
        ensures
            match r {
                Some(i) => i < self.entries@.len() && self.entries@[i as int].stash == who,
                None => !has_stash(self.entries@, who),
            },
    {
        let n = self.entries.len();
        let mut i: usize = 0;
        while i < n
            invariant
                n == self.entries@.len(),
                i <= n,
                forall|j: int| 0 <= j < i ==> self.entries@[j].stash != who,
            decreases n - i,
        {
            if self.entries[i].stash == who {
                return Some(i);
            }
            i += 1;
        }
        None
    }

    /// Returns the [`Stake`] of `who`, or `NotStaker`.
    pub fn stake(&self, who: AccountId) -> (r: Result<Stake, Error>)
        ensures
            match r {
                Ok(s) => exists|i: int|
                    0 <= i < self.entries@.len() && self.entries@[i].stash == who
                        && s.total == self.entries@[i].total && s.active == self.entries@[i].active,
                Err(e) => e == Error::NotStaker && !has_stash(self.entries@, who),
            },
    {
        match self.find_entry(who) {
            Some(i) => Ok(Stake { total: self.entries[i].total, active: self.entries[i].active }),
            None => Err(Error::NotStaker),
        }
    }

    /// Total stake of a staker, `Err` if not a staker.
    pub fn total_stake(&self, who: AccountId) -> (r: Result<Balance, Error>)
        ensures
            match r {
                Ok(t) => exists|i: int|
                    0 <= i < self.entries@.len() && self.entries@[i].stash == who
                        && t == self.entries@[i].total,
                Err(e) => e == Error::NotStaker && !has_stash(self.entries@, who),
            },
    {
        match self.stake(who) {
            Ok(s) => Ok(s.total),
            Err(e) => Err(e),
        }
    }

    /// Active stake of a staker, `Err` if not a staker.
    pub fn active_stake(&self, who: AccountId) -> (r: Result<Balance, Error>)
        ensures
            match r {
                Ok(a) => exists|i: int|
                    0 <= i < self.entries@.len() && self.entries@[i].stash == who
                        && a == self.entries@[i].active,
                Err(e) => e == Error::NotStaker && !has_stash(self.entries@, who),
            },
    {
        match self.stake(who) {
            Ok(s) => Ok(s.active),
            Err(e) => Err(e),
        }
    }

    /// Whether a staker has funds mid-unbonding, `Err` if not a staker.
    pub fn is_unbonding(&self, who: AccountId) -> (r: Result<bool, Error>)
        ensures
            match r {
                Ok(b) => exists|i: int|
                    0 <= i < self.entries@.len() && self.entries@[i].stash == who
                        && b == (self.entries@[i].active != self.entries@[i].total),
                Err(e) => e == Error::NotStaker && !has_stash(self.entries@, who),
            },
    {
        match self.stake(who) {
            Ok(s) => Ok(s.active != s.total),
            Err(e) => Err(e),
        }
    }

    /// Whether `who` is currently a member of the voter list.
    pub fn is_voter(&self, who: AccountId) -> (r: bool)
        ensures
            r == self.voter_list@.contains(who),
    {
        contains_account(&self.voter_list, who)
    }

    /// The status of the given staker, `Err` if not staked at all.
    pub fn status(&self, who: AccountId) -> (r: Result<StakerStatus, Error>)
        ensures
            match r {
                Ok(s) => exists|i: int|
                    0 <= i < self.entries@.len() && self.entries@[i].stash == who
                        && s.equivalent(#[trigger] self.entries@[i].status),
                Err(e) => e == Error::NotStaker && !has_stash(self.entries@, who),
            },
    {
        match self.find_entry(who) {
            Some(i) => match &self.entries[i].status {
                StakerStatus::Idle => Ok(StakerStatus::Idle),
                StakerStatus::Validator => Ok(StakerStatus::Validator),
                StakerStatus::Nominator(ts) => Ok(StakerStatus::Nominator(clone_accounts(ts))),
            },
            None => Err(Error::NotStaker),
        }
    }

    /// Whether `who` has declared the intent to validate.
    pub fn is_validator(&self, who: AccountId) -> (r: bool)
        requires
            self.wf(),
        ensures
            r == exists|i: int|
                0 <= i < self.entries@.len() && (#[trigger] self.entries@[i]).stash == who
                    && self.entries@[i].status is Validator,
    {
        match self.find_entry(who) {
            Some(i) => self.entries[i].status.is_validator(),
            None => false,
        }
    }

    /// The nominations of a stash, if it is a nominator.
    pub fn nominations(&self, who: AccountId) -> (r: Option<Vec<AccountId>>)
        requires
            self.wf(),
        ensures
            match r {
                Some(ts) => exists|i: int|
                    0 <= i < self.entries@.len() && (#[trigger] self.entries@[i]).stash == who
                        && self.entries@[i].status.spec_nominations() == Some(ts@),
                None => forall|i: int|
                    0 <= i < self.entries@.len() && (#[trigger] self.entries@[i]).stash == who
                        ==> !(self.entries@[i].status is Nominator),
            },
    {
        match self.find_entry(who) {
            Some(i) => match &self.entries[i].status {
                StakerStatus::Nominator(ts) => Some(clone_accounts(ts)),
                _ => None,
            },
            None => None,
        }
    }

    /// Locks `value` of `who`'s balance, forwarding rewards to `payee`.
    ///
    /// Fails with `AlreadyBonded` if `who` already has an entry and with
    /// `InsufficientBond` if `value` is below the configured minimum; on
    /// success a fresh `Idle` entry with `total == active == value` is
    /// appended and nothing else changes.
    pub fn bond(&mut self, who: AccountId, value: Balance, payee: AccountId) -> (r: Result<
        (),
        Error,
    >)
        requires
            old(self).wf(),
        ensures
            final(self).wf(),
            match r {
                Ok(()) => {
                    let n = old(self).entries@.len() as int;
                    &&& !has_stash(old(self).entries@, who)
                    &&& value >= old(self).config.minimum_bond
                    &&& final(self).entries@.len() == n + 1
                    &&& final(self).entries@.take(n) == old(self).entries@
                    &&& final(self).entries@[n].stash == who
                    &&& final(self).entries@[n].payee == payee
                    &&& final(self).entries@[n].total == value
                    &&& final(self).entries@[n].active == value
                    &&& final(self).entries@[n].unlocking@.len() == 0
                    &&& final(self).entries@[n].status is Idle
                },
                Err(e) => *final(self) == *old(self) && (e == Error::AlreadyBonded
                    ==> has_stash(old(self).entries@, who)) && (e == Error::InsufficientBond ==> !has_stash(
                    old(self).entries@,
                    who,
                ) && value < old(self).config.minimum_bond) && (e == Error::AlreadyBonded || e
                    == Error::InsufficientBond),
            },
            final(self).voter_list == old(self).voter_list,
            final(self).active_validators == old(self).active_validators,
            final(self).offenders == old(self).offenders,
            final(self).current_era == old(self).current_era,
            final(self).force_era == old(self).force_era,
            final(self).events == old(self).events,
            final(self).killed == old(self).killed,
            final(self).config == old(self).config,
    {
        if self.find_entry(who).is_some() {
            return Err(Error::AlreadyBonded);
        }
        if value < self.config.minimum_bond {
            return Err(Error::InsufficientBond);
        }
        let entry = StakingLedger {
            stash: who,
            payee: payee,
            total: value,
            active: value,
            unlocking: Vec::new(),
            status: StakerStatus::Idle,
            prefs: ValidatorPrefs { commission: 0, blocked: false },
        };
        proof {
            assert(sum_chunk_values(entry.unlocking@) == 0);
        }
        self.entries.push(entry);
        proof {
            assert(final(self).entries@.take(old(self).entries@.len() as int)
                =~= old(self).entries@);
        }
        Ok(())
    }

    /// Schedules `value` (capped at the active stake) to unlock at era
    /// `current_era + bonding_duration` (saturating), by appending an
    /// `UnlockChunk`.
    ///
    /// Fails with `NotStaker` if `who` has no entry and with
    /// `TooManyChunks` if the unlocking schedule is at capacity; the
    /// caller must `withdraw_unbonded` first to make room. `total` is
    /// unchanged: the funds only move from `active` into the schedule.
    pub fn unbond(&mut self, who: AccountId, value: Balance) -> (r: Result<(), Error>)
        requires
            old(self).wf(),
        ensures
            final(self).wf(),
            match r {
                Ok(()) => exists|i: int|
                    #![auto]
                    0 <= i < old(self).entries@.len() && old(self).entries@[i].stash == who && {
                        let e = old(self).entries@[i];
                        let amt: Balance = if value <= e.active {
                            value
                        } else {
                            e.active
                        };
                        &&& e.unlocking@.len() < old(self).config.max_unlock_chunks
                        &&& final(self).entries@.len() == old(self).entries@.len()
                        &&& forall|j: int|
                            0 <= j < old(self).entries@.len() && j != i
                                ==> final(self).entries@[j] == old(self).entries@[j]
                        &&& final(self).entries@[i].stash == e.stash
                        &&& final(self).entries@[i].payee == e.payee
                        &&& final(self).entries@[i].total == e.total
                        &&& final(self).entries@[i].active == e.active - amt
                        &&& final(self).entries@[i].unlocking@ == e.unlocking@.push(
                            (UnlockChunk {
                                value: amt,
                                unlock_era: spec_saturating_add_era(
                                    old(self).current_era,
                                    old(self).config.bonding_duration,
                                ),
                            }),
                        )
                        &&& final(self).entries@[i].status == e.status
                        &&& final(self).entries@[i].prefs == e.prefs
                    },
                Err(e) => *final(self) == *old(self) && (e == Error::NotStaker || e
                    == Error::TooManyChunks) && (e == Error::NotStaker <==> !has_stash(
                    old(self).entries@,
                    who,
                )) && (e == Error::TooManyChunks ==> exists|i: int|
                    #![auto]
                    0 <= i < old(self).entries@.len() && old(self).entries@[i].stash == who
                        && old(self).entries@[i].unlocking@.len()
                        >= old(self).config.max_unlock_chunks),
            },
            final(self).voter_list == old(self).voter_list,
            final(self).active_validators == old(self).active_validators,
            final(self).offenders == old(self).offenders,
            final(self).current_era == old(self).current_era,
            final(self).force_era == old(self).force_era,
            final(self).events == old(self).events,
            final(self).killed == old(self).killed,
            final(self).config == old(self).config,
    {
        let idx = match self.find_entry(who) {
            Some(i) => i,
            None => {
                return Err(Error::NotStaker);
            },
        };
        if self.entries[idx].unlocking.len() >= self.config.max_unlock_chunks {
            return Err(Error::TooManyChunks);
        }
        let active = self.entries[idx].active;
        let amt = if value <= active {
            value
        } else {
            active
        };
        let unlock_era = if self.current_era > u32::MAX - self.config.bonding_duration {
            u32::MAX
        } else {
            self.current_era + self.config.bonding_duration
        };
        let chunk = UnlockChunk { value: amt, unlock_era: unlock_era };
        self.entries[idx].active = active - amt;
        self.entries[idx].unlocking.push(chunk);
        proof {
            lemma_sum_push(old(self).entries@[idx as int].unlocking@, chunk);
            assert forall|k: int|
                0 <= k < final(self).entries@.len() implies (#[trigger] final(self).entries@[k]).wf()
                && final(self).entries@[k].unlocking@.len()
                <= final(self).config.max_unlock_chunks by {
                if k != idx {
                    assert(final(self).entries@[k] == old(self).entries@[k]);
                }
            }
            assert forall|k: int|
                0 <= k < final(self).voter_list@.len() implies has_stash(
                final(self).entries@,
                #[trigger] final(self).voter_list@[k],
            ) by {
                let a = final(self).voter_list@[k];
                assert(has_stash(old(self).entries@, a));
                let p = choose|p: int|
                    0 <= p < old(self).entries@.len() && old(self).entries@[p].stash == a;
                assert(final(self).entries@[p].stash == a);
            }
        }
        Ok(())
    }

    /// Bonds `extra` more against `who`'s existing entry, growing `total`
    /// and `active` alike; the amount actually bonded is capped so that
    /// the total saturates instead of overflowing. Fails with `NotStaker`
    /// if `who` has no entry.
    pub fn bond_extra(&mut self, who: AccountId, extra: Balance) -> (r: Result<(), Error>)
        requires
            old(self).wf(),
        ensures
            final(self).wf(),
            match r {
                Ok(()) => exists|i: int|
                    #![auto]
                    0 <= i < old(self).entries@.len() && old(self).entries@[i].stash == who && {
                        let e = old(self).entries@[i];
                        let amt: Balance = if extra <= u64::MAX - e.total {
                            extra
                        } else {
                            (u64::MAX - e.total) as u64
                        };
                        &&& final(self).entries@.len() == old(self).entries@.len()
                        &&& forall|j: int|
                            0 <= j < old(self).entries@.len() && j != i
                                ==> final(self).entries@[j] == old(self).entries@[j]
                        &&& final(self).entries@[i].stash == e.stash
                        &&& final(self).entries@[i].payee == e.payee
                        &&& final(self).entries@[i].total == e.total + amt
                        &&& final(self).entries@[i].active == e.active + amt
                        &&& final(self).entries@[i].unlocking == e.unlocking
                        &&& final(self).entries@[i].status == e.status
                        &&& final(self).entries@[i].prefs == e.prefs
                    },
                Err(e) => *final(self) == *old(self) && e == Error::NotStaker && !has_stash(
                    old(self).entries@,
                    who,
                ),
            },
            final(self).voter_list == old(self).voter_list,
            final(self).active_validators == old(self).active_validators,
            final(self).offenders == old(self).offenders,
            final(self).current_era == old(self).current_era,
            final(self).force_era == old(self).force_era,
            final(self).events == old(self).events,
            final(self).killed == old(self).killed,
            final(self).config == old(self).config,
    {
        let idx = match self.find_entry(who) {
            Some(i) => i,
            None => {
                return Err(Error::NotStaker);
            },
        };
        let total = self.entries[idx].total;
        let amt = if extra <= u64::MAX - total {
            extra
        } else {
            u64::MAX - total
        };
        proof {
            lemma_sum_nonneg(self.entries@[idx as int].unlocking@);
        }
        self.entries[idx].total = total + amt;
        self.entries[idx].active = self.entries[idx].active + amt;
        proof {
            assert forall|k: int|
                0 <= k < final(self).entries@.len() implies (#[trigger] final(self).entries@[k]).wf()
                && final(self).entries@[k].unlocking@.len()
                <= final(self).config.max_unlock_chunks by {
                if k != idx {
                    assert(final(self).entries@[k] == old(self).entries@[k]);
                }
            }
            assert forall|k: int|
                0 <= k < final(self).voter_list@.len() implies has_stash(
                final(self).entries@,
                #[trigger] final(self).voter_list@[k],
            ) by {
                let a = final(self).voter_list@[k];
                assert(has_stash(old(self).entries@, a));
                let p = choose|p: int|
                    0 <= p < old(self).entries@.len() && old(self).entries@[p].stash == a;
                assert(final(self).entries@[p].stash == a);
            }
        }
        Ok(())
    }

    /// Schedules `who`'s whole active stake to unlock: `unbond` of the
    /// full active amount.
    pub fn fully_unbond(&mut self, who: AccountId) -> (r: Result<(), Error>)
        requires
            old(self).wf(),
        ensures
            final(self).wf(),
            match r {
                Ok(()) => exists|i: int|
                    #![auto]
                    0 <= i < old(self).entries@.len() && old(self).entries@[i].stash == who && {
                        let e = old(self).entries@[i];
                        &&& e.unlocking@.len() < old(self).config.max_unlock_chunks
                        &&& final(self).entries@.len() == old(self).entries@.len()
                        &&& forall|j: int|
                            0 <= j < old(self).entries@.len() && j != i
                                ==> final(self).entries@[j] == old(self).entries@[j]
                        &&& final(self).entries@[i].stash == e.stash
                        &&& final(self).entries@[i].payee == e.payee
                        &&& final(self).entries@[i].total == e.total
                        &&& final(self).entries@[i].active == 0
                        &&& final(self).entries@[i].unlocking@ == e.unlocking@.push(
                            (UnlockChunk {
                                value: e.active,
                                unlock_era: spec_saturating_add_era(
                                    old(self).current_era,
                                    old(self).config.bonding_duration,
                                ),
                            }),
                        )
                        &&& final(self).entries@[i].status == e.status
                        &&& final(self).entries@[i].prefs == e.prefs
                    },
                Err(e) => *final(self) == *old(self) && (e == Error::NotStaker || e
                    == Error::TooManyChunks) && (e == Error::NotStaker <==> !has_stash(
                    old(self).entries@,
                    who,
                )),
            },
            final(self).voter_list == old(self).voter_list,
            final(self).active_validators == old(self).active_validators,
            final(self).offenders == old(self).offenders,
            final(self).current_era == old(self).current_era,
            final(self).force_era == old(self).force_era,
            final(self).events == old(self).events,
            final(self).killed == old(self).killed,
            final(self).config == old(self).config,
    {
        let active = match self.find_entry(who) {
            Some(i) => self.entries[i].active,
            None => {
                return Err(Error::NotStaker);
            },
        };
        self.unbond(who, active)
    }

    /// Unlocks every chunk due by the current era.
    ///
    /// Removes all chunks with `unlock_era <= current_era` and deducts
    /// their sum from `total`. Returns whether the account was fully
    /// unstaked (`total` became zero) and therefore removed from the
    /// ledger, the voter list, and recorded as killed. Fails with
    /// `NotStaker` if `who` has no entry.
    pub fn withdraw_unbonded(&mut self, who: AccountId, _num_slashing_spans: u32) -> (r: Result<
        bool,
        Error,
    >)
        requires
            old(self).wf(),
        ensures
            final(self).wf(),
            withdraw_rel(*old(self), who, *final(self), r),
    {
        let idx = match self.find_entry(who) {
            Some(i) => i,
            None => {
                return Err(Error::NotStaker);
            },
        };
        let era = self.current_era;
        let n = self.entries[idx].unlocking.len();
        let ghost useq = self.entries@[idx as int].unlocking@;
        let mut kept: Vec<UnlockChunk> = Vec::new();
        let mut wd: u64 = 0;
        let ghost total0 = self.entries@[idx as int].total;
        proof {
            lemma_due_kept_split(useq, era);
            lemma_sum_nonneg(kept_chunks(useq, era));
        }
        let mut i: usize = 0;
        while i < n
            invariant
                i <= n,
                n == self.entries@[idx as int].unlocking@.len(),
                idx < self.entries@.len(),
                *self == *old(self),
                useq == self.entries@[idx as int].unlocking@,
                era == self.current_era,
                total0 == self.entries@[idx as int].total,
                old(self).wf(),
                kept@ == kept_chunks(useq.take(i as int), era),
                wd == due_sum(useq.take(i as int), era),
            decreases n - i,
        {
            let c = self.entries[idx].unlocking[i];
            proof {
                assert(useq.take(i + 1).drop_last() =~= useq.take(i as int));
                assert(useq.take(i + 1).last() == useq[i as int]);
                lemma_due_kept_split(useq.take(i + 1), era);
                lemma_sum_nonneg(kept_chunks(useq.take(i + 1), era));
                lemma_sum_take_le(useq, i + 1);
                lemma_sum_nonneg(useq.take(i + 1));
                assert(sum_chunk_values(useq) == total0 - self.entries@[idx as int].active);
                assert(due_sum(useq.take(i + 1), era) <= total0);
            }
            if c.unlock_era <= era {
                wd = wd + c.value;
            } else {
                kept.push(c);
            }
            i += 1;
        }
        proof {
            assert(useq.take(n as int) =~= useq);
        }
        let new_total = self.entries[idx].total - wd;
        if new_total == 0 {
            self.entries.remove(idx);
            remove_account(&mut self.voter_list, who);
            self.killed.accounts.push(who);
            proof {
                lemma_retain_not_properties(old(self).voter_list@, who);
                lemma_retain_not_distinct(old(self).voter_list@, who);
                assert forall|k: int|
                    0 <= k < final(self).voter_list@.len() implies has_stash(
                    final(self).entries@,
                    #[trigger] final(self).voter_list@[k],
                ) by {
                    let a = final(self).voter_list@[k];
                    assert(old(self).voter_list@.contains(a));
                    let m = choose|m: int|
                        0 <= m < old(self).voter_list@.len() && old(self).voter_list@[m] == a;
                    assert(has_stash(old(self).entries@, a));
                    let p = choose|p: int|
                        0 <= p < old(self).entries@.len() && old(self).entries@[p].stash == a;
                    assert(a != who);
                    assert(p != idx);
                    if p < idx {
                        assert(final(self).entries@[p].stash == a);
                    } else {
                        assert(final(self).entries@[p - 1].stash == a);
                    }
                }
                assert forall|k: int|
                    0 <= k < final(self).entries@.len() implies (#[trigger] final(self).entries@[k]).wf() && final(self).entries@[k].unlocking@.len()
                    <= final(self).config.max_unlock_chunks by {
                    if k < idx {
                        assert(final(self).entries@[k] == old(self).entries@[k]);
                    } else {
                        assert(final(self).entries@[k] == old(self).entries@[k + 1]);
                    }
                }
                assert forall|a: int, b: int|
                    0 <= a < b < final(self).entries@.len() implies final(self).entries@[a].stash
                    != final(self).entries@[b].stash by {
                    let a0: int = if a < idx {
                        a
                    } else {
                        a + 1
                    };
                    let b0: int = if b < idx {
                        b
                    } else {
                        b + 1
                    };
                    assert(final(self).entries@[a] == old(self).entries@[a0]);
                    assert(final(self).entries@[b] == old(self).entries@[b0]);
                }
                assert(withdraw_rel_at(*old(self), who, *final(self), Ok::<bool, Error>(true), idx as int));
            }
            Ok(true)
        } else {
            self.entries[idx].total = new_total;
            self.entries[idx].unlocking = kept;
            proof {
                lemma_kept_chunks_len(useq, era);
                assert forall|k: int|
                    0 <= k < final(self).entries@.len() implies (#[trigger] final(self).entries@[k]).wf() && final(self).entries@[k].unlocking@.len()
                    <= final(self).config.max_unlock_chunks by {
                    if k != idx {
                        assert(final(self).entries@[k] == old(self).entries@[k]);
                    }
                }
                assert forall|k: int|
                    0 <= k < final(self).voter_list@.len() implies has_stash(
                    final(self).entries@,
                    #[trigger] final(self).voter_list@[k],
                ) by {
                    let a = final(self).voter_list@[k];
                    assert(has_stash(old(self).entries@, a));
                    let p = choose|p: int|
                        0 <= p < old(self).entries@.len() && old(self).entries@[p].stash == a;
                    assert(final(self).entries@[p].stash == a);
                }
                assert(withdraw_rel_at(*old(self), who, *final(self), Ok::<bool, Error>(false), idx as int));
            }
            Ok(false)
        }
    }

    /// Registers `who`'s intent to nominate `targets`.
    ///
    /// Fails with `NotStaker` if `who` has no entry and with
    /// `InsufficientBond` if the active stake is below the minimum
    /// nominator bond. On success the status becomes `Nominator(targets)`
    /// and `who` (re)joins the voter list.
    pub fn nominate(&mut self, who: AccountId, targets: Vec<AccountId>) -> (r: Result<(), Error>)
        requires
            old(self).wf(),
        ensures
            final(self).wf(),
            match r {
                Ok(()) => exists|i: int|
                    #![auto]
                    0 <= i < old(self).entries@.len() && old(self).entries@[i].stash == who && {
                        let e = old(self).entries@[i];
                        &&& e.active >= old(self).config.minimum_nominator_bond
                        &&& final(self).entries@.len() == old(self).entries@.len()
                        &&& forall|j: int|
                            0 <= j < old(self).entries@.len() && j != i
                                ==> final(self).entries@[j] == old(self).entries@[j]
                        &&& final(self).entries@[i].stash == e.stash
                        &&& final(self).entries@[i].payee == e.payee
                        &&& final(self).entries@[i].total == e.total
                        &&& final(self).entries@[i].active == e.active
                        &&& final(self).entries@[i].unlocking == e.unlocking
                        &&& final(self).entries@[i].status.spec_nominations() == Some(targets@)
                        &&& final(self).entries@[i].prefs == e.prefs
                        &&& final(self).voter_list@ == (if old(self).voter_list@.contains(who) {
                            old(self).voter_list@
                        } else {
                            old(self).voter_list@.push(who)
                        })
                    },
                Err(e) => *final(self) == *old(self) && (e == Error::NotStaker || e
                    == Error::InsufficientBond) && (e == Error::NotStaker <==> !has_stash(
                    old(self).entries@,
                    who,
                )) && (e == Error::InsufficientBond ==> exists|i: int|
                    #![auto]
                    0 <= i < old(self).entries@.len() && old(self).entries@[i].stash == who
                        && old(self).entries@[i].active
                        < old(self).config.minimum_nominator_bond),
            },
            final(self).active_validators == old(self).active_validators,
            final(self).offenders == old(self).offenders,
            final(self).current_era == old(self).current_era,
            final(self).force_era == old(self).force_era,
            final(self).events == old(self).events,
            final(self).killed == old(self).killed,
            final(self).config == old(self).config,
    {
        let idx = match self.find_entry(who) {
            Some(i) => i,
            None => {
                return Err(Error::NotStaker);
            },
        };
        if self.entries[idx].active < self.config.minimum_nominator_bond {
            return Err(Error::InsufficientBond);
        }
        self.entries[idx].status = StakerStatus::Nominator(targets);
        if !contains_account(&self.voter_list, who) {
            self.voter_list.push(who);
        }
        proof {
            self.lemma_wf_after_entry_update(*old(self), idx as int, who);
        }
        Ok(())
    }

    /// Registers `who`'s intent to validate with the given preferences.
    ///
    /// Fails with `NotStaker` if `who` has no entry and with
    /// `InsufficientBond` if the active stake is below the minimum
    /// validator bond. On success the status becomes `Validator` and `who`
    /// (re)joins the voter list.
    pub fn validate(&mut self, who: AccountId, prefs: ValidatorPrefs) -> (r: Result<(), Error>)
        requires
            old(self).wf(),
        ensures
            final(self).wf(),
            match r {
                Ok(()) => exists|i: int|
                    #![auto]
                    0 <= i < old(self).entries@.len() && old(self).entries@[i].stash == who && {
                        let e = old(self).entries@[i];
                        &&& e.active >= old(self).config.minimum_validator_bond
                        &&& final(self).entries@.len() == old(self).entries@.len()
                        &&& forall|j: int|
                            0 <= j < old(self).entries@.len() && j != i
                                ==> final(self).entries@[j] == old(self).entries@[j]
                        &&& final(self).entries@[i].stash == e.stash
                        &&& final(self).entries@[i].payee == e.payee
                        &&& final(self).entries@[i].total == e.total
                        &&& final(self).entries@[i].active == e.active
                        &&& final(self).entries@[i].unlocking == e.unlocking
                        &&& final(self).entries@[i].status is Validator
                        &&& final(self).entries@[i].prefs == prefs
                        &&& final(self).voter_list@ == (if old(self).voter_list@.contains(who) {
                            old(self).voter_list@
                        } else {
                            old(self).voter_list@.push(who)
                        })
                    },
                Err(e) => *final(self) == *old(self) && (e == Error::NotStaker || e
                    == Error::InsufficientBond) && (e == Error::NotStaker <==> !has_stash(
                    old(self).entries@,
                    who,
                )) && (e == Error::InsufficientBond ==> exists|i: int|
                    #![auto]
                    0 <= i < old(self).entries@.len() && old(self).entries@[i].stash == who
                        && old(self).entries@[i].active
                        < old(self).config.minimum_validator_bond),
            },
            final(self).active_validators == old(self).active_validators,
            final(self).offenders == old(self).offenders,
            final(self).current_era == old(self).current_era,
            final(self).force_era == old(self).force_era,
            final(self).events == old(self).events,
            final(self).killed == old(self).killed,
            final(self).config == old(self).config,
    {
        let idx = match self.find_entry(who) {
            Some(i) => i,
            None => {
                return Err(Error::NotStaker);
            },
        };
        if self.entries[idx].active < self.config.minimum_validator_bond {
            return Err(Error::InsufficientBond);
        }
        self.entries[idx].status = StakerStatus::Validator;
        self.entries[idx].prefs = prefs;
        if !contains_account(&self.voter_list, who) {
            self.voter_list.push(who);
        }
        proof {
            self.lemma_wf_after_entry_update(*old(self), idx as int, who);
        }
        Ok(())
    }

    /// Sets `who`'s status to `Idle` without unbonding funds and clears
    /// its voter-list membership, recording `Chilled` when the membership
    /// was actually cleared. A no-op for unknown accounts.
    pub fn chill(&mut self, who: AccountId)
        requires
            old(self).wf(),
        ensures
            final(self).wf(),
            !has_stash(old(self).entries@, who) ==> *final(self) == *old(self),
            has_stash(old(self).entries@, who) ==> exists|i: int|
                #![auto]
                0 <= i < old(self).entries@.len() && old(self).entries@[i].stash == who && {
                    let e = old(self).entries@[i];
                    &&& final(self).entries@.len() == old(self).entries@.len()
                    &&& forall|j: int|
                        0 <= j < old(self).entries@.len() && j != i ==> final(self).entries@[j]
                            == old(self).entries@[j]
                    &&& final(self).entries@[i].stash == e.stash
                    &&& final(self).entries@[i].payee == e.payee
                    &&& final(self).entries@[i].total == e.total
                    &&& final(self).entries@[i].active == e.active
                    &&& final(self).entries@[i].unlocking == e.unlocking
                    &&& final(self).entries@[i].status is Idle
                    &&& final(self).entries@[i].prefs == e.prefs
                    &&& final(self).voter_list@ == retain_not(old(self).voter_list@, who)
                    &&& final(self).events@ == (if old(self).voter_list@.contains(who) {
                        old(self).events@.push((Event::Chilled { stash: who }))
                    } else {
                        old(self).events@
                    })
                },
            final(self).active_validators == old(self).active_validators,
            final(self).offenders == old(self).offenders,
            final(self).current_era == old(self).current_era,
            final(self).force_era == old(self).force_era,
            final(self).killed == old(self).killed,
            final(self).config == old(self).config,
    {
        let idx = match self.find_entry(who) {
            Some(i) => i,
            None => {
                return ;
            },
        };
        self.entries[idx].status = StakerStatus::Idle;
        if contains_account(&self.voter_list, who) {
            remove_account(&mut self.voter_list, who);
            self.events.push(Event::Chilled { stash: who });
        } else {
            proof {
                lemma_retain_not_unchanged(old(self).voter_list@, who);
            }
        }
        proof {
            lemma_retain_not_properties(old(self).voter_list@, who);
            lemma_retain_not_distinct(old(self).voter_list@, who);
            self.lemma_wf_after_entry_update(*old(self), idx as int, who);
        }
    }

    /// Applies a slash of `fraction` (parts per billion) against `stash`
    /// for offences in `slash_era`.
    ///
    /// The active stake and every unlocking chunk are reduced
    /// proportionally and `total` is recomputed. The slash clears `stash`'s
    /// voter-list membership (recording `Chilled`) but — a deliberate,
    /// surprising quirk, not a bug — does not clear the declared status:
    /// re-declaring `validate`/`nominate` in the same era restores
    /// membership with all intervening state intact. If `stash` is an
    /// active validator it is recorded as an offender; once the offender
    /// fraction of the active set exceeds the configured threshold, the
    /// era-forcing flag is set to `ForceNew` (recording `ForceEra`). A
    /// `SlashReported` notification is recorded last. A no-op for unknown
    /// accounts.
    pub fn slash(&mut self, stash: AccountId, fraction: u32, slash_era: EraIndex)
        requires
            old(self).wf(),
            fraction <= BILLION,
        ensures
            final(self).wf(),
            !has_stash(old(self).entries@, stash) ==> *final(self) == *old(self),
            has_stash(old(self).entries@, stash) ==> exists|i: int|
                #![auto]
                0 <= i < old(self).entries@.len() && old(self).entries@[i].stash == stash && {
                    let e = old(self).entries@[i];
                    let was_voter = old(self).voter_list@.contains(stash);
                    let new_off = if old(self).active_validators@.contains(stash) && !old(
                        self,
                    ).offenders@.contains(stash) {
                        old(self).offenders@.push(stash)
                    } else {
                        old(self).offenders@
                    };
                    let crossed = new_off.len() * (BILLION as int) > (
                    old(self).config.offending_threshold as int) * old(
                        self,
                    ).active_validators@.len();
                    let set_force = crossed && (old(self).force_era is NotForcing);
                    &&& final(self).entries@.len() == old(self).entries@.len()
                    &&& forall|j: int|
                        0 <= j < old(self).entries@.len() && j != i ==> final(self).entries@[j]
                            == old(self).entries@[j]
                    &&& final(self).entries@[i].stash == e.stash
                    &&& final(self).entries@[i].payee == e.payee
                    &&& final(self).entries@[i].active == spec_slashed(e.active, fraction)
                    &&& final(self).entries@[i].unlocking@.len() == e.unlocking@.len()
                    &&& forall|k: int|
                        0 <= k < e.unlocking@.len() ==> (#[trigger] final(self).entries@[i].unlocking@[k]).value == spec_slashed(
                            e.unlocking@[k].value,
                            fraction,
                        ) && final(self).entries@[i].unlocking@[k].unlock_era
                            == e.unlocking@[k].unlock_era
                    &&& final(self).entries@[i].total == final(self).entries@[i].active
                        + sum_chunk_values(final(self).entries@[i].unlocking@)
                    &&& final(self).entries@[i].status == e.status
                    &&& final(self).entries@[i].prefs == e.prefs
                    &&& final(self).voter_list@ == retain_not(old(self).voter_list@, stash)
                    &&& final(self).offenders@ == new_off
                    &&& final(self).force_era == (if set_force {
                        ForceEra::ForceNew
                    } else {
                        old(self).force_era
                    })
                    &&& final(self).events@ == old(self).events@ + (if was_voter {
                        seq![(Event::Chilled { stash: stash })]
                    } else {
                        Seq::<Event>::empty()
                    }) + (if set_force {
                        seq![(Event::ForceEra { mode: ForceEra::ForceNew })]
                    } else {
                        Seq::<Event>::empty()
                    }) + seq![
                        (Event::SlashReported {
                            validator: stash,
                            slash_era: slash_era,
                            fraction: fraction,
                        }),
                    ]
                },
            final(self).active_validators == old(self).active_validators,
            final(self).current_era == old(self).current_era,
            final(self).killed == old(self).killed,
            final(self).config == old(self).config,
    {
        let idx = match self.find_entry(stash) {
            Some(i) => i,
            None => {
                return ;
            },
        };
        let a0 = self.entries[idx].active;
        let new_active = apply_fraction_loss(a0, fraction);
        let n = self.entries[idx].unlocking.len();
        let ghost useq = self.entries@[idx as int].unlocking@;
        let ghost total0 = self.entries@[idx as int].total;
        let mut new_chunks: Vec<UnlockChunk> = Vec::new();
        let mut acc: u64 = 0;
        let mut i: usize = 0;
        while i < n
            invariant
                i <= n,
                n == useq.len(),
                idx < self.entries@.len(),
                *self == *old(self),
                useq == self.entries@[idx as int].unlocking@,
                total0 == self.entries@[idx as int].total,
                a0 == self.entries@[idx as int].active,
                old(self).wf(),
                fraction <= BILLION,
                new_chunks@.len() == i,
                forall|k: int|
                    0 <= k < i ==> (#[trigger] new_chunks@[k]).value == spec_slashed(
                        useq[k].value,
                        fraction,
                    ) && new_chunks@[k].unlock_era == useq[k].unlock_era && new_chunks@[k].value
                        <= useq[k].value,
                acc == sum_chunk_values(new_chunks@),
            decreases n - i,
        {
            let c = self.entries[idx].unlocking[i];
            let nc = UnlockChunk {
                value: apply_fraction_loss(c.value, fraction),
                unlock_era: c.unlock_era,
            };
            proof {
                lemma_sum_push(new_chunks@, nc);
                assert forall|k: int|
                    0 <= k < new_chunks@.push(nc).len() implies (#[trigger] new_chunks@.push(
                    nc,
                )[k]).value <= useq.take(i + 1)[k].value by {
                    if k < i {
                        assert(new_chunks@.push(nc)[k] == new_chunks@[k]);
                    } else {
                        assert(new_chunks@.push(nc)[k] == nc);
                    }
                }
                lemma_sum_pointwise_le(new_chunks@.push(nc), useq.take(i + 1));
                lemma_sum_take_le(useq, i + 1);
                assert(sum_chunk_values(useq) == total0 - a0);
            }
            acc = acc + nc.value;
            new_chunks.push(nc);
            i += 1;
        }
        proof {
            lemma_sum_pointwise_le(new_chunks@, useq);
            assert(sum_chunk_values(useq) == total0 - a0);
        }
        self.entries[idx].active = new_active;
        self.entries[idx].unlocking = new_chunks;
        self.entries[idx].total = new_active + acc;
        let was_voter = contains_account(&self.voter_list, stash);
        if was_voter {
            remove_account(&mut self.voter_list, stash);
            self.events.push(Event::Chilled { stash: stash });
        } else {
            proof {
                lemma_retain_not_unchanged(old(self).voter_list@, stash);
            }
        }
        if contains_account(&self.active_validators, stash) && !contains_account(
            &self.offenders,
            stash,
        ) {
            self.offenders.push(stash);
        }
        let off_len = self.offenders.len();
        let av_len = self.active_validators.len();
        let crossed = threshold_crossed(off_len, av_len, self.config.offending_threshold);
        let mut set_force = false;
        if crossed {
            match self.force_era {
                ForceEra::NotForcing => {
                    set_force = true;
                },
                _ => {},
            }
        }
        if set_force {
            self.force_era = ForceEra::ForceNew;
            self.events.push(Event::ForceEra { mode: ForceEra::ForceNew });
        }
        self.events.push(
            Event::SlashReported { validator: stash, slash_era: slash_era, fraction: fraction },
        );
        proof {
            lemma_retain_not_properties(old(self).voter_list@, stash);
            lemma_retain_not_distinct(old(self).voter_list@, stash);
            let prev = *old(self);
            assert forall|k: int|
                0 <= k < final(self).entries@.len() implies (#[trigger] final(self).entries@[k]).wf() && final(self).entries@[k].unlocking@.len()
                <= final(self).config.max_unlock_chunks by {
                if k != idx {
                    assert(final(self).entries@[k] == prev.entries@[k]);
                }
            }
            assert forall|a: int, b: int|
                0 <= a < b < final(self).entries@.len() implies final(self).entries@[a].stash
                != final(self).entries@[b].stash by {
                assert(final(self).entries@[a].stash == prev.entries@[a].stash);
                assert(final(self).entries@[b].stash == prev.entries@[b].stash);
            }
            assert forall|k: int|
                0 <= k < final(self).voter_list@.len() implies has_stash(
                final(self).entries@,
                #[trigger] final(self).voter_list@[k],
            ) by {
                let a = final(self).voter_list@[k];
                assert(prev.voter_list@.contains(a));
                assert(has_stash(prev.entries@, a));
                let p = choose|p: int| 0 <= p < prev.entries@.len() && prev.entries@[p].stash == a;
                assert(final(self).entries@[p].stash == a);
            }
            assert forall|a: int, b: int|
                0 <= a < b < final(self).offenders@.len() implies final(self).offenders@[a]
                != final(self).offenders@[b] by {
                if b == final(self).offenders@.len() - 1 && final(self).offenders@.len()
                    == prev.offenders@.len() + 1 {
                    assert(final(self).offenders@[a] == prev.offenders@[a]);
                    assert(prev.offenders@.contains(prev.offenders@[a]));
                } else {
                    assert(final(self).offenders@[a] == prev.offenders@[a]);
                    assert(final(self).offenders@[b] == prev.offenders@[b]);
                }
            }
            assert forall|k: int|
                0 <= k < final(self).offenders@.len() implies final(self).active_validators@.contains(#[trigger] final(self).offenders@[k]) by {
                if k < prev.offenders@.len() {
                    assert(final(self).offenders@[k] == prev.offenders@[k]);
                } else {
                    assert(final(self).offenders@[k] == stash);
                }
            }
            if was_voter {
                if set_force {
                    assert(final(self).events@ =~= prev.events@ + seq![
                        (Event::Chilled { stash: stash }),
                    ] + seq![(Event::ForceEra { mode: ForceEra::ForceNew })] + seq![
                        (Event::SlashReported {
                            validator: stash,
                            slash_era: slash_era,
                            fraction: fraction,
                        }),
                    ]);
                } else {
                    assert(final(self).events@ =~= prev.events@ + seq![
                        (Event::Chilled { stash: stash }),
                    ] + Seq::<Event>::empty() + seq![
                        (Event::SlashReported {
                            validator: stash,
                            slash_era: slash_era,
                            fraction: fraction,
                        }),
                    ]);
                }
            } else {
                if set_force {
                    assert(final(self).events@ =~= prev.events@ + Seq::<Event>::empty() + seq![
                        (Event::ForceEra { mode: ForceEra::ForceNew }),
                    ] + seq![
                        (Event::SlashReported {
                            validator: stash,
                            slash_era: slash_era,
                            fraction: fraction,
                        }),
                    ]);
                } else {
                    assert(final(self).events@ =~= prev.events@ + Seq::<Event>::empty()
                        + Seq::<Event>::empty() + seq![
                        (Event::SlashReported {
                            validator: stash,
                            slash_era: slash_era,
                            fraction: fraction,
                        }),
                    ]);
                }
            }
        }
    }

    /// Begins a new era: advances the era counter (saturating), installs
    /// the given validator set, clears the offender record, and resets the
    /// era-forcing flag to `NotForcing` unless it is `ForceAlways`.
    pub fn start_era(&mut self, validators: Vec<AccountId>)
        requires
            old(self).wf(),
            distinct_accounts(validators@),
        ensures
            final(self).wf(),
            final(self).current_era == spec_saturating_add_era(old(self).current_era, 1),
            final(self).active_validators@ == validators@,
            final(self).offenders@.len() == 0,
            final(self).force_era == (if old(self).force_era is ForceAlways {
                ForceEra::ForceAlways
            } else {
                ForceEra::NotForcing
            }),
            final(self).entries == old(self).entries,
            final(self).voter_list == old(self).voter_list,
            final(self).events == old(self).events,
            final(self).killed == old(self).killed,
            final(self).config == old(self).config,
    {
        self.current_era = if self.current_era > u32::MAX - 1 {
            u32::MAX
        } else {
            self.current_era + 1
        };
        self.active_validators = validators;
        self.offenders = Vec::new();
        match self.force_era {
            ForceEra::ForceAlways => {},
            _ => {
                self.force_era = ForceEra::NotForcing;
            },
        }
    }

    /// Sets the era-forcing flag on behalf of governance, recording the
    /// change as a `ForceEra` notification.
    pub fn set_force_era(&mut self, mode: ForceEra)
        requires
            old(self).wf(),
        ensures
            final(self).wf(),
            final(self).force_era == mode,
            final(self).events@ == old(self).events@.push((Event::ForceEra { mode: mode })),
            final(self).entries == old(self).entries,
            final(self).voter_list == old(self).voter_list,
            final(self).active_validators == old(self).active_validators,
            final(self).offenders == old(self).offenders,
            final(self).current_era == old(self).current_era,
            final(self).killed == old(self).killed,
            final(self).config == old(self).config,
    {
        self.force_era = mode;
        self.events.push(Event::ForceEra { mode: mode });
    }

    /// Establishes `wf` after one entry changed its status or prefs and
    /// `who` was possibly added to or removed from the voter list.
    proof fn lemma_wf_after_entry_update(&self, prev: Ledger, idx: int, who: AccountId)
        requires
            prev.wf(),
            0 <= idx < prev.entries@.len(),
            prev.entries@[idx].stash == who,
            self.entries@.len() == prev.entries@.len(),
            forall|j: int|
                0 <= j < prev.entries@.len() && j != idx ==> self.entries@[j] == prev.entries@[j],
            self.entries@[idx].stash == prev.entries@[idx].stash,
            self.entries@[idx].total == prev.entries@[idx].total,
            self.entries@[idx].active == prev.entries@[idx].active,
            self.entries@[idx].unlocking == prev.entries@[idx].unlocking,
            self.voter_list@ == prev.voter_list@ || self.voter_list@ == prev.voter_list@.push(who)
                || self.voter_list@ == retain_not(prev.voter_list@, who),
            self.voter_list@ == prev.voter_list@.push(who) ==> !prev.voter_list@.contains(who),
            self.active_validators == prev.active_validators,
            self.offenders == prev.offenders,
            self.config == prev.config,
        ensures
            self.wf(),
    {
        assert forall|k: int|
            0 <= k < self.entries@.len() implies (#[trigger] self.entries@[k]).wf()
            && self.entries@[k].unlocking@.len() <= self.config.max_unlock_chunks by {
            if k != idx {
                assert(self.entries@[k] == prev.entries@[k]);
            } else {
                assert(prev.entries@[idx].wf());
            }
        }
        assert forall|a: int, b: int|
            0 <= a < b < self.entries@.len() implies self.entries@[a].stash
            != self.entries@[b].stash by {
            assert(self.entries@[a].stash == prev.entries@[a].stash);
            assert(self.entries@[b].stash == prev.entries@[b].stash);
        }
        if self.voter_list@ == retain_not(prev.voter_list@, who) {
            lemma_retain_not_properties(prev.voter_list@, who);
            lemma_retain_not_distinct(prev.voter_list@, who);
        }
        assert forall|k: int|
            0 <= k < self.voter_list@.len() implies has_stash(
            self.entries@,
            #[trigger] self.voter_list@[k],
        ) by {
            let a = self.voter_list@[k];
            if self.voter_list@ == prev.voter_list@.push(who) && k == self.voter_list@.len() - 1 {
                assert(self.entries@[idx].stash == who);
            } else {
                if self.voter_list@ == retain_not(prev.voter_list@, who) {
                    assert(prev.voter_list@.contains(a));
                } else {
                    assert(prev.voter_list@[k] == a);
                }
                assert(has_stash(prev.entries@, a));
                let p = choose|p: int|
                    0 <= p < prev.entries@.len() && prev.entries@[p].stash == a;
                assert(self.entries@[p].stash == a);
            }
        }
        if self.voter_list@ == prev.voter_list@.push(who) {
            assert forall|a: int, b: int|
                0 <= a < b < self.voter_list@.len() implies self.voter_list@[a]
                != self.voter_list@[b] by {
                if b == self.voter_list@.len() - 1 {
                    assert(self.voter_list@[a] == prev.voter_list@[a]);
                    assert(prev.voter_list@.contains(prev.voter_list@[a]));
                } else {
                    assert(self.voter_list@[a] == prev.voter_list@[a]);
                    assert(self.voter_list@[b] == prev.voter_list@[b]);
                }
            }
        }
    }
}

/// A pointwise-smaller chunk sequence has a smaller sum.
pub proof fn lemma_sum_pointwise_le(a: Seq<UnlockChunk>, b: Seq<UnlockChunk>)
    requires
        a.len() == b.len(),
        forall|i: int| 0 <= i < a.len() ==> (#[trigger] a[i]).value <= b[i].value,
    ensures
        sum_chunk_values(a) <= sum_chunk_values(b),
    decreases a.len(),
{
    if a.len() > 0 {
        assert forall|i: int|
            0 <= i < a.drop_last().len() implies (#[trigger] a.drop_last()[i]).value
            <= b.drop_last()[i].value by {
            assert(a.drop_last()[i] == a[i]);
            assert(b.drop_last()[i] == b[i]);
        }
        lemma_sum_pointwise_le(a.drop_last(), b.drop_last());
        assert(a[a.len() - 1].value <= b[b.len() - 1].value);
    }
}

/// Retaining an absent account changes nothing.
pub proof fn lemma_retain_not_unchanged(s: Seq<AccountId>, who: AccountId)
    requires
        !s.contains(who),
    ensures
        retain_not(s, who) == s,
    decreases s.len(),
{
    if s.len() > 0 {
        assert forall|k: int| 0 <= k < s.drop_last().len() implies s.drop_last()[k] != who by {
            assert(s[k] == s.drop_last()[k]);
        }
        assert(!s.drop_last().contains(who));
        lemma_retain_not_unchanged(s.drop_last(), who);
        assert(s[s.len() - 1] == s.last());
        assert(s.last() != who);
        assert(retain_not(s.drop_last(), who).push(s.last()) =~= s);
    } else {
        assert(retain_not(s, who) =~= s);
    }
}

/// The value left after a proportional slash of `fraction` parts per
/// billion: `v - floor(v * fraction / BILLION)`.
pub open spec fn spec_slashed(v: Balance, fraction: u32) -> int {
    v - (v * fraction) / (BILLION as int)
}

/// Reduces `v` by `fraction` parts per billion, rounding the cut down.
pub fn apply_fraction_loss(v: Balance, fraction: u32) -> (r: Balance)
    requires
        fraction <= BILLION,
    ensures
        r == spec_slashed(v, fraction),
        r <= v,
{
    proof {
        vstd::arithmetic::mul::lemma_mul_inequality(
            fraction as int,
            BILLION as int,
            v as int,
        );
        vstd::arithmetic::div_mod::lemma_div_is_ordered(
            (v as int) * (fraction as int),
            (v as int) * (BILLION as int),
            BILLION as int,
        );
        vstd::arithmetic::div_mod::lemma_div_multiples_vanish(v as int, BILLION as int);
        assert((v as int) * (BILLION as int) == (BILLION as int) * (v as int));
        vstd::arithmetic::div_mod::lemma_div_pos_is_pos((v as int) * (fraction as int), BILLION as int) ;
        vstd::arithmetic::mul::lemma_mul_nonnegative(v as int, fraction as int);
    }
    let cut = (((v as u128) * (fraction as u128)) / (BILLION as u128)) as u64;
    v - cut
}

/// Decides whether `count` members of a set of `set_len` exceed the
/// fraction `threshold` (parts per billion) of the set.
pub fn threshold_crossed(count: usize, set_len: usize, threshold: u32) -> (r: bool)
    ensures
        r == ((count as int) * (BILLION as int) > (threshold as int) * (set_len as int)),
{
    proof {
        vstd::arithmetic::mul::lemma_mul_inequality(count as int, u64::MAX as int, BILLION as int);
        vstd::arithmetic::mul::lemma_mul_inequality(
            threshold as int,
            u32::MAX as int,
            set_len as int,
        );
        vstd::arithmetic::mul::lemma_mul_inequality(set_len as int, u64::MAX as int, u32::MAX as int);
        assert((threshold as int) * (set_len as int) == (set_len as int) * (threshold as int));
    }
    let lhs = (count as u128) * (BILLION as u128);
    let rhs = (threshold as u128) * (set_len as u128);
    lhs > rhs
}

/// Saturating era addition.
pub open spec fn spec_saturating_add_era(a: EraIndex, b: EraIndex) -> EraIndex {
    if a + b > u32::MAX {
        u32::MAX
    } else {
        (a + b) as u32
    }
}

/// Relates a ledger before a `withdraw_unbonded` call for `who` to the
/// ledger and result after it.
pub open spec fn withdraw_rel(
    l: Ledger,
    who: AccountId,
    l2: Ledger,
    r: Result<bool, Error>,
) -> bool {
    if !has_stash(l.entries@, who) {
        l2 == l && r == Err::<bool, Error>(Error::NotStaker)
    } else {
        exists|i: int| #[trigger] withdraw_rel_at(l, who, l2, r, i)
    }
}

/// The body of `withdraw_rel` at a fixed witness index: the entry at `i`
/// is `who`'s; its due chunks are removed and their sum deducted from
/// `total`; if `total` is exhausted the account is removed from the
/// entries and the voter list and recorded as killed.
pub open spec fn withdraw_rel_at(
    l: Ledger,
    who: AccountId,
    l2: Ledger,
    r: Result<bool, Error>,
    i: int,
) -> bool {
    0 <= i < l.entries@.len() && l.entries@[i].stash == who && {
        let e = l.entries@[i];
        let kept = kept_chunks(e.unlocking@, l.current_era);
        let wd = due_sum(e.unlocking@, l.current_era);
        &&& l2.active_validators == l.active_validators
        &&& l2.offenders == l.offenders
        &&& l2.current_era == l.current_era
        &&& l2.force_era == l.force_era
        &&& l2.events == l.events
        &&& l2.config == l.config
        &&& if e.total - wd == 0 {
            &&& l2.entries@ == l.entries@.remove(i)
            &&& l2.voter_list@ == retain_not(l.voter_list@, who)
            &&& l2.killed.accounts@ == l.killed.accounts@.push(who)
            &&& r == Ok::<bool, Error>(true)
        } else {
            &&& l2.entries@.len() == l.entries@.len()
            &&& forall|j: int|
                0 <= j < l.entries@.len() && j != i ==> l2.entries@[j] == l.entries@[j]
            &&& l2.entries@[i].stash == e.stash
            &&& l2.entries@[i].payee == e.payee
            &&& l2.entries@[i].active == e.active
            &&& l2.entries@[i].total == e.total - wd
            &&& l2.entries@[i].unlocking@ == kept
            &&& l2.entries@[i].status == e.status
            &&& l2.entries@[i].prefs == e.prefs
            &&& l2.voter_list == l.voter_list
            &&& l2.killed == l.killed
            &&& r == Ok::<bool, Error>(false)
        }
    }
}

/// Removes every occurrence of `who` from an account vector, keeping the
/// order of the rest.
pub fn remove_account(v: &mut Vec<AccountId>, who: AccountId)
    ensures
        final(v)@ == retain_not(old(v)@, who),
{
    let n = v.len();
    let mut out: Vec<AccountId> = Vec::new();
    let mut i: usize = 0;
    while i < n
        invariant
            i <= n,
            n == v@.len(),
            *v == *old(v),
            out@ == retain_not(v@.take(i as int), who),
        decreases n - i,
    {
        proof {
            assert(v@.take(i + 1).drop_last() =~= v@.take(i as int));
            assert(v@.take(i + 1).last() == v@[i as int]);
        }
        let a = v[i];
        if a != who {
            out.push(a);
        }
        i += 1;
    }
    proof {
        assert(v@.take(n as int) =~= v@);
    }
    *v = out;
}

/// Copies an account vector.
pub fn clone_accounts(v: &Vec<AccountId>) -> (r: Vec<AccountId>)
    ensures
        r@ == v@,
{
    let r = v.clone();
    proof {
        assert(r@ =~= v@);
    }
    r
}

/// Decides membership of `who` in an account vector.
pub fn contains_account(v: &Vec<AccountId>, who: AccountId) -> (r: bool)
    ensures
        r == v@.contains(who),
{
    let n = v.len();
    let mut i: usize = 0;
    while i < n
        invariant
            n == v@.len(),
            i <= n,
            forall|j: int| 0 <= j < i ==> v@[j] != who,
        decreases n - i,
    {
        if v[i] == who {
            return true;
        }
        i += 1;
    }
    false
}

} // verus!
