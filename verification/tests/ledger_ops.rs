use staking_election::errors::Error;
use staking_election::events::Event;
use staking_election::events::ForceEra;
use staking_election::ledger::Ledger;
use staking_election::ledger::LedgerConfig;
use staking_election::ledger::RecordKilled;
use staking_election::ledger::StakerStatus;
use staking_election::ledger::UnlockChunk;
use staking_election::ledger::ValidatorPrefs;
use staking_election::ledger::BILLION;

fn base_ledger() -> Ledger {
    Ledger {
        entries: vec![],
        voter_list: vec![],
        active_validators: vec![],
        offenders: vec![],
        current_era: 0,
        force_era: ForceEra::NotForcing,
        events: vec![],
        killed: RecordKilled { accounts: vec![] },
        config: LedgerConfig {
            minimum_bond: 10,
            minimum_nominator_bond: 10,
            minimum_validator_bond: 10,
            bonding_duration: 3,
            max_unlock_chunks: 4,
            offending_threshold: 500_000_000,
        },
    }
}

fn assert_stake_accounting(l: &Ledger) {
    for e in &l.entries {
        let chunk_sum: u64 = e.unlocking.iter().map(|c| c.value).sum();
        assert_eq!(e.total, e.active + chunk_sum);
    }
}

#[test]
fn bond_creates_idle_entry() {
    let mut l = base_ledger();
    assert_eq!(l.bond(1, 100, 9), Ok(()));
    assert_eq!(l.entries.len(), 1);
    assert_eq!(l.entries[0].stash, 1);
    assert_eq!(l.entries[0].payee, 9);
    assert_eq!(l.entries[0].total, 100);
    assert_eq!(l.entries[0].active, 100);
    assert!(l.entries[0].unlocking.is_empty());
    assert_eq!(l.entries[0].status, StakerStatus::Idle);
    assert_stake_accounting(&l);
}

#[test]
fn bond_rejects_duplicates_and_dust() {
    let mut l = base_ledger();
    assert_eq!(l.bond(1, 9, 1), Err(Error::InsufficientBond));
    assert_eq!(l.bond(1, 100, 1), Ok(()));
    assert_eq!(l.bond(1, 100, 1), Err(Error::AlreadyBonded));
    assert_eq!(l.entries.len(), 1);
}

#[test]
fn unbond_appends_dated_chunk() {
    let mut l = base_ledger();
    l.bond(1, 100, 1).unwrap();
    assert_eq!(l.unbond(1, 60), Ok(()));
    assert_eq!(l.entries[0].active, 40);
    assert_eq!(l.entries[0].total, 100);
    assert_eq!(l.entries[0].unlocking, vec![UnlockChunk { value: 60, unlock_era: 3 }]);
    assert_stake_accounting(&l);
}

#[test]
fn unbond_caps_at_active_stake() {
    let mut l = base_ledger();
    l.bond(1, 100, 1).unwrap();
    assert_eq!(l.unbond(1, 1000), Ok(()));
    assert_eq!(l.entries[0].active, 0);
    assert_eq!(l.entries[0].unlocking, vec![UnlockChunk { value: 100, unlock_era: 3 }]);
    assert_stake_accounting(&l);
}

#[test]
fn unbond_rejects_when_chunk_list_full() {
    let mut l = base_ledger();
    l.bond(1, 100, 1).unwrap();
    for _ in 0..4 {
        assert_eq!(l.unbond(1, 10), Ok(()));
    }
    assert_eq!(l.unbond(1, 10), Err(Error::TooManyChunks));
    assert_eq!(l.unbond(2, 10), Err(Error::NotStaker));
    assert_stake_accounting(&l);
}

#[test]
fn withdraw_unbonded_removes_due_chunks_only() {
    // Bond 100, unbond 60 at era 0 with bonding_duration 3: at era 2 the
    // chunk is not yet due; at era 3 the full 60 unlocks.
    let mut l = base_ledger();
    l.bond(1, 100, 1).unwrap();
    l.unbond(1, 60).unwrap();
    l.start_era(vec![]);
    l.start_era(vec![]);
    assert_eq!(l.current_era, 2);
    assert_eq!(l.withdraw_unbonded(1, 0), Ok(false));
    assert_eq!(l.entries[0].total, 100);
    assert_eq!(l.entries[0].unlocking.len(), 1);
    l.start_era(vec![]);
    assert_eq!(l.current_era, 3);
    assert_eq!(l.withdraw_unbonded(1, 0), Ok(false));
    assert_eq!(l.entries[0].total, 40);
    assert_eq!(l.entries[0].active, 40);
    assert!(l.entries[0].unlocking.is_empty());
    assert_stake_accounting(&l);
}

#[test]
fn withdraw_unbonded_twice_changes_nothing_the_second_time() {
    let mut l = base_ledger();
    l.bond(1, 100, 1).unwrap();
    l.unbond(1, 60).unwrap();
    l.start_era(vec![]);
    l.start_era(vec![]);
    l.start_era(vec![]);
    assert_eq!(l.withdraw_unbonded(1, 0), Ok(false));
    let after_first = l.clone();
    assert_eq!(l.withdraw_unbonded(1, 0), Ok(false));
    assert_eq!(l, after_first);
}

#[test]
fn withdraw_unbonded_kills_fully_unstaked_account() {
    let mut l = base_ledger();
    l.bond(1, 100, 1).unwrap();
    l.unbond(1, 100).unwrap();
    l.start_era(vec![]);
    l.start_era(vec![]);
    l.start_era(vec![]);
    assert_eq!(l.withdraw_unbonded(1, 0), Ok(true));
    assert!(l.entries.is_empty());
    assert_eq!(l.killed.accounts, vec![1]);
    assert_eq!(l.withdraw_unbonded(1, 0), Err(Error::NotStaker));
    assert_eq!(l.killed.accounts, vec![1]);
}

#[test]
fn nominate_requires_minimum_bond_and_joins_voter_list() {
    let mut l = base_ledger();
    assert_eq!(l.nominate(1, vec![5]), Err(Error::NotStaker));
    l.bond(1, 100, 1).unwrap();
    l.unbond(1, 95).unwrap();
    assert_eq!(l.nominate(1, vec![5]), Err(Error::InsufficientBond));
    let mut l2 = base_ledger();
    l2.bond(1, 100, 1).unwrap();
    assert_eq!(l2.nominate(1, vec![5, 6]), Ok(()));
    assert_eq!(l2.status(1), Ok(StakerStatus::Nominator(vec![5, 6])));
    assert_eq!(l2.nominations(1), Some(vec![5, 6]));
    assert!(l2.is_voter(1));
    // re-nominating does not duplicate the membership
    assert_eq!(l2.nominate(1, vec![7]), Ok(()));
    assert_eq!(l2.voter_list, vec![1]);
    assert_eq!(l2.nominations(1), Some(vec![7]));
}

#[test]
fn validate_sets_intent_and_prefs() {
    let mut l = base_ledger();
    l.bond(1, 100, 1).unwrap();
    let prefs = ValidatorPrefs { commission: 7, blocked: false };
    assert_eq!(l.validate(1, prefs), Ok(()));
    assert!(l.is_validator(1));
    assert_eq!(l.entries[0].prefs, prefs);
    assert!(l.is_voter(1));
    assert_eq!(l.nominations(1), None);
    // becoming a nominator clears the validator role and vice versa
    l.nominate(1, vec![2]).unwrap();
    assert!(!l.is_validator(1));
    l.validate(1, ValidatorPrefs::default()).unwrap();
    assert!(l.is_validator(1));
    assert_eq!(l.nominations(1), None);
}

#[test]
fn chill_idles_and_leaves_funds_bonded() {
    let mut l = base_ledger();
    l.bond(1, 100, 1).unwrap();
    l.validate(1, ValidatorPrefs::default()).unwrap();
    l.chill(1);
    assert_eq!(l.status(1), Ok(StakerStatus::Idle));
    assert!(!l.is_voter(1));
    assert_eq!(l.stake(1).unwrap().total, 100);
    assert_eq!(l.events, vec![Event::Chilled { stash: 1 }]);
    // chilling an account with no membership records nothing further
    l.chill(1);
    assert_eq!(l.events.len(), 1);
}

#[test]
fn slash_reduces_active_and_chunks_proportionally() {
    let mut l = base_ledger();
    l.bond(1, 100, 1).unwrap();
    l.unbond(1, 50).unwrap();
    // 10% of everything: active 50 -> 45, chunk 50 -> 45, total 100 -> 90.
    l.slash(1, BILLION / 10, 0);
    assert_eq!(l.entries[0].active, 45);
    assert_eq!(l.entries[0].unlocking, vec![UnlockChunk { value: 45, unlock_era: 3 }]);
    assert_eq!(l.entries[0].total, 90);
    assert_stake_accounting(&l);
    assert_eq!(
        l.events,
        vec![Event::SlashReported { validator: 1, slash_era: 0, fraction: BILLION / 10 }]
    );
}

#[test]
fn slash_rounds_the_cut_down() {
    let mut l = base_ledger();
    l.bond(1, 33, 1).unwrap();
    // a third of 33 is 11, but a third of 10 is 3.33..: the cut rounds down
    let third = 333_333_333;
    l.slash(1, third, 0);
    // floor(33 * 333_333_333 / 1_000_000_000) = floor(10.99..) = 10
    assert_eq!(l.entries[0].active, 23);
    assert_stake_accounting(&l);
}

#[test]
fn slash_chills_but_keeps_declared_status() {
    let mut l = base_ledger();
    l.bond(81, 100, 81).unwrap();
    l.validate(81, ValidatorPrefs::default()).unwrap();
    assert!(l.is_voter(81));
    l.slash(81, BILLION / 10, 0);
    // membership is cleared, but the declared role survives: re-declaring
    // in the same era restores membership with nothing else lost.
    assert!(!l.is_voter(81));
    assert_eq!(l.status(81), Ok(StakerStatus::Validator));
}

#[test]
fn slash_of_unknown_account_is_a_no_op() {
    let mut l = base_ledger();
    l.bond(1, 100, 1).unwrap();
    let before = l.clone();
    l.slash(99, BILLION / 10, 0);
    assert_eq!(l, before);
}

#[test]
fn slash_over_threshold_forces_new_era() {
    let mut l = base_ledger();
    for v in [1u64, 2, 3] {
        l.bond(v, 100, v).unwrap();
        l.validate(v, ValidatorPrefs::default()).unwrap();
    }
    l.active_validators = vec![1, 2, 3];
    // threshold 50%: one offender of three (33%) stays below it
    l.slash(1, BILLION / 10, 0);
    assert_eq!(l.force_era, ForceEra::NotForcing);
    assert_eq!(l.offenders, vec![1]);
    // two of three (66%) cross it
    l.slash(2, BILLION / 10, 0);
    assert_eq!(l.force_era, ForceEra::ForceNew);
    assert_eq!(l.offenders, vec![1, 2]);
    assert!(l.events.contains(&Event::ForceEra { mode: ForceEra::ForceNew }));
    // repeated slashes of the same offender are not double-counted
    l.slash(2, BILLION / 10, 0);
    assert_eq!(l.offenders, vec![1, 2]);
}

#[test]
fn start_era_resets_per_era_state() {
    let mut l = base_ledger();
    l.bond(1, 100, 1).unwrap();
    l.validate(1, ValidatorPrefs::default()).unwrap();
    l.active_validators = vec![1];
    l.slash(1, BILLION / 10, 0);
    assert_eq!(l.force_era, ForceEra::ForceNew);
    assert_eq!(l.offenders, vec![1]);
    l.start_era(vec![1, 2]);
    assert_eq!(l.current_era, 1);
    assert_eq!(l.active_validators, vec![1, 2]);
    assert!(l.offenders.is_empty());
    assert_eq!(l.force_era, ForceEra::NotForcing);
}

#[test]
fn force_always_survives_era_starts() {
    let mut l = base_ledger();
    l.set_force_era(ForceEra::ForceAlways);
    assert_eq!(l.events, vec![Event::ForceEra { mode: ForceEra::ForceAlways }]);
    l.start_era(vec![]);
    assert_eq!(l.force_era, ForceEra::ForceAlways);
}

#[test]
fn stake_accounting_holds_after_every_operation() {
    let mut l = base_ledger();
    l.bond(1, 100, 1).unwrap();
    assert_stake_accounting(&l);
    l.bond(2, 250, 2).unwrap();
    assert_stake_accounting(&l);
    l.unbond(1, 30).unwrap();
    assert_stake_accounting(&l);
    l.unbond(2, 250).unwrap();
    assert_stake_accounting(&l);
    l.validate(1, ValidatorPrefs::default()).unwrap();
    assert_stake_accounting(&l);
    l.slash(1, 250_000_000, 0);
    assert_stake_accounting(&l);
    l.start_era(vec![]);
    l.start_era(vec![]);
    l.start_era(vec![]);
    l.withdraw_unbonded(1, 0).unwrap();
    assert_stake_accounting(&l);
    l.withdraw_unbonded(2, 0).unwrap();
    assert_stake_accounting(&l);
}

#[test]
fn bond_extra_grows_total_and_active() {
    let mut l = base_ledger();
    assert_eq!(l.bond_extra(1, 10), Err(Error::NotStaker));
    l.bond(1, 100, 1).unwrap();
    assert_eq!(l.bond_extra(1, 40), Ok(()));
    assert_eq!(l.entries[0].total, 140);
    assert_eq!(l.entries[0].active, 140);
    // the amount actually bonded saturates instead of overflowing
    assert_eq!(l.bond_extra(1, u64::MAX), Ok(()));
    assert_eq!(l.entries[0].total, u64::MAX);
    assert_eq!(l.entries[0].active, u64::MAX);
    assert_stake_accounting(&l);
}

#[test]
fn fully_unbond_schedules_the_whole_active_stake() {
    let mut l = base_ledger();
    l.bond(1, 100, 1).unwrap();
    l.unbond(1, 30).unwrap();
    assert_eq!(l.fully_unbond(1), Ok(()));
    assert_eq!(l.entries[0].active, 0);
    assert_eq!(l.entries[0].total, 100);
    assert_eq!(
        l.entries[0].unlocking,
        vec![
            UnlockChunk { value: 30, unlock_era: 3 },
            UnlockChunk { value: 70, unlock_era: 3 },
        ]
    );
    assert_stake_accounting(&l);
}

#[test]
fn stake_queries_report_entry_state() {
    let mut l = base_ledger();
    l.bond(1, 100, 1).unwrap();
    l.unbond(1, 25).unwrap();
    let s = l.stake(1).unwrap();
    assert_eq!(s.total, 100);
    assert_eq!(s.active, 75);
    assert_eq!(l.total_stake(1), Ok(100));
    assert_eq!(l.active_stake(1), Ok(75));
    assert_eq!(l.is_unbonding(1), Ok(true));
    assert_eq!(l.stake(2), Err(Error::NotStaker));
}
