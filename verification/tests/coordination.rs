use staking_election::errors::ElectionError;
use staking_election::events::Event;
use staking_election::events::ForceEra;
use staking_election::ledger::Ledger;
use staking_election::ledger::LedgerConfig;
use staking_election::ledger::RecordKilled;
use staking_election::ledger::ValidatorPrefs;
use staking_election::ledger::BILLION;
use staking_election::machine::ElectionConfig;
use staking_election::machine::ElectionMachine;
use staking_election::score::ElectionScore;
use staking_election::snapshot::Snapshot;
use staking_election::solution::score_of;
use staking_election::solution::Solution;
use staking_election::solution::Support;
use staking_election::system::log_current_time;
use staking_election::system::System;

fn base_config() -> ElectionConfig {
    ElectionConfig {
        signed_phase_len: 4,
        max_signed_submissions: 3,
        signed_deposit: 5,
        request_window: 1000,
        max_snapshot_voters: 100,
        max_snapshot_targets: 100,
    }
}

fn ledger_with_validators(ids: &[u64], stake: u64, threshold: u32) -> Ledger {
    let mut l = Ledger {
        entries: vec![],
        voter_list: vec![],
        active_validators: vec![],
        offenders: vec![],
        current_era: 0,
        force_era: ForceEra::NotForcing,
        events: vec![],
        killed: RecordKilled { accounts: vec![] },
        config: LedgerConfig {
            minimum_bond: 10,
            minimum_nominator_bond: 10,
            minimum_validator_bond: 10,
            bonding_duration: 3,
            max_unlock_chunks: 4,
            offending_threshold: threshold,
        },
    };
    for &v in ids {
        l.bond(v, stake, v).unwrap();
        l.validate(v, ValidatorPrefs::default()).unwrap();
    }
    l.active_validators = ids.to_vec();
    l
}

fn test_system(ids: &[u64]) -> System {
    let ledger = ledger_with_validators(ids, 100, BILLION / 2);
    let machine = ElectionMachine::new(base_config());
    System::new(ledger, machine, 2, 10)
}

fn self_vote_solution(snap: &Snapshot) -> Solution {
    let mut supports = Vec::new();
    for v in &snap.voters {
        if snap.targets.contains(&v.who) {
            supports.push(Support {
                target: v.who,
                total: v.weight as u128,
                voters: vec![(v.who, v.weight as u128)],
            });
        }
    }
    let score = score_of(&supports);
    Solution { score, supports }
}

#[test]
fn block_progression_works() {
    // A mined solution is in place in time: blocks, sessions and eras
    // progress, and the next round's signed window opens.
    let mut sys = test_system(&[11, 21, 31]);
    assert_eq!(sys.ledger.current_era, 0);
    assert_eq!(sys.session_index, 0);
    assert!(sys.machine.current_phase().is_off());

    sys.roll_block();
    assert!(sys.machine.current_phase().is_signed());
    let sol = self_vote_solution(sys.machine.snapshot.as_ref().unwrap());
    sys.machine.submit_signed(9, sol).unwrap();
    while sys.block < 20 {
        sys.roll_block();
    }
    assert_eq!(sys.ledger.current_era, 1);
    assert_eq!(sys.session_index, 2);
    assert!(sys.machine.current_phase().is_off());
    assert_eq!(sys.ledger.active_validators, vec![11, 21, 31]);

    sys.roll_block();
    assert!(sys.machine.current_phase().is_signed());

    // If the solution is delayed, the machine ends up in emergency mode:
    // the era does not progress, but the session does.
    let mut sys = test_system(&[11, 21, 31]);
    assert_eq!(sys.ledger.current_era, 0);
    assert_eq!(sys.session_index, 0);
    assert!(sys.machine.current_phase().is_off());
    while sys.block < 20 {
        sys.roll_block();
    }
    assert!(sys.machine.current_phase().is_emergency());
    assert_eq!(sys.ledger.current_era, 0);
    assert_eq!(sys.session_index, 2);
}

#[test]
fn enters_emergency_phase_after_forcing_before_elect() {
    // Enough slashes cross the offending threshold and force a new era
    // before any solution was queued: the election request fails and the
    // machine enters emergency mode. Recovery goes through
    // set_emergency_election_result, after which the era progresses with
    // the asserted validator set.
    let mut sys = test_system(&[11, 21, 31]);
    let session_validators_before = sys.ledger.active_validators.clone();
    assert!(sys.machine.current_phase().is_off());
    assert_eq!(sys.ledger.force_era, ForceEra::NotForcing);

    // slashes so that the ledger goes into ForceNew: 2 of 3 cross 50%
    sys.ledger.slash(11, BILLION / 10, 0);
    sys.ledger.slash(21, BILLION / 10, 0);
    assert_eq!(sys.ledger.force_era, ForceEra::ForceNew);

    // the session advances without a solution: emergency
    sys.rotate_session();
    assert!(sys.machine.current_phase().is_emergency());
    let t = log_current_time(&sys);
    assert!(t.phase.is_emergency());

    let era_before_delayed_next = sys.ledger.current_era;
    // try to advance further: the era will not move
    sys.rotate_session();
    assert_eq!(sys.ledger.current_era, era_before_delayed_next);
    sys.rotate_session();
    assert_eq!(sys.ledger.current_era, era_before_delayed_next);

    // the machine is still in the emergency phase
    assert!(sys.machine.current_phase().is_emergency());
    // the session validator set remains the same
    assert_eq!(sys.ledger.active_validators, session_validators_before);

    // performs recovery through the set emergency result
    let supports = vec![
        Support { target: 21, total: 20, voters: vec![(21, 10), (31, 10)] },
        Support { target: 31, total: 10, voters: vec![(31, 10)] },
        Support { target: 41, total: 10, voters: vec![(41, 10)] },
    ];
    assert!(sys.machine.set_emergency_election_result(supports).is_ok());
    assert!(sys.machine.current_phase().is_off());

    // the next rotation elects the asserted set and the era progresses
    sys.rotate_session();
    assert_eq!(sys.ledger.active_validators, vec![21, 31, 41]);
    assert_eq!(sys.ledger.current_era, era_before_delayed_next + 1);
}

#[test]
fn continous_slashes_below_offending_threshold() {
    // Continuously slash one of the active validators per era. The
    // offending fraction is recomputed per era against the current set,
    // so it never crosses the threshold and never forces a new era; but
    // as the slashed validators drop out of the voter list, the submitted
    // solutions eventually miss the minimum election score and the
    // election fails into emergency mode.
    let ids: Vec<u64> = (1..=10).collect();
    let mut l = ledger_with_validators(&ids, 500, BILLION / 2);
    let mut m = ElectionMachine::new(base_config());
    // set a minimum election score
    m.set_minimum_untrusted_score(Some(ElectionScore {
        minimal_stake: 500,
        sum_stake: 1000,
        sum_stake_squared: 500,
    }));
    assert_eq!(l.active_validators.len(), 10);

    let mut victim: u64 = 1;
    let mut now: u64 = 1;
    loop {
        // slash 10% of one active validator: always below the threshold
        l.slash(victim, BILLION / 10, l.current_era);
        assert_eq!(l.force_era, ForceEra::NotForcing);
        victim += 1;

        // run an election round over the remaining voter list
        m.request_election(&l, now, now + 19).unwrap();
        let sol = self_vote_solution(m.snapshot.as_ref().unwrap());
        m.submit_signed(100 + victim, sol).unwrap();
        m.on_block(now + 4);
        m.on_block(now + 5);
        m.on_block(now + 6);
        now += 100;
        match m.elect() {
            Ok(sol) => {
                let winners: Vec<u64> = sol.supports.iter().map(|s| s.target).collect();
                l.start_era(winners);
            },
            Err(e) => {
                // the minimum score is out of reach: emergency mode
                assert_eq!(e, ElectionError::NoQueuedSolution);
                assert!(m.current_phase().is_emergency());
                break;
            },
        }
    }
    // ten validators of five hundred each: the sum component of the
    // minimum score fails once a single voter remains
    assert_eq!(l.current_era, 8);
}

#[test]
fn set_validation_intention_after_chilled() {
    // A slashed validator is chilled and leaves the voter list, but stays
    // in the current validator set; its declared status survives, so
    // re-declaring the intent to validate in the same era restores the
    // membership. Nominations pointing at it remain intact throughout.
    let mut l = ledger_with_validators(&[11, 81], 100, BILLION / 3);
    l.bond(21, 100, 21).unwrap();
    l.nominate(21, vec![81]).unwrap();

    assert!(l.active_validators.contains(&81));
    assert!(l.is_voter(81));
    assert_eq!(l.nominations(21), Some(vec![81]));

    // the validator is slashed: chilled out of the voter list, but still
    // part of the active validator set for the current era
    l.slash(81, BILLION / 10, 0);
    assert!(l.active_validators.contains(&81));
    assert!(!l.is_voter(81));
    assert_eq!(
        l.events,
        vec![
            Event::Chilled { stash: 81 },
            Event::ForceEra { mode: ForceEra::ForceNew },
            Event::SlashReported { validator: 81, slash_era: 0, fraction: BILLION / 10 },
        ]
    );

    // after the slash, the nominations remain
    assert_eq!(l.nominations(21), Some(vec![81]));

    // the validator sets its intention to stake again in the same era
    assert_eq!(l.validate(81, ValidatorPrefs::default()), Ok(()));
    assert!(l.is_voter(81));

    // progress the era: the validator is still part of the validator set
    l.start_era(vec![11, 81]);
    assert!(l.active_validators.contains(&81));
    assert!(l.is_voter(81));
    assert_eq!(l.nominations(21), Some(vec![81]));
}

#[test]
fn sub_threshold_slashes_never_force_until_the_threshold_is_crossed() {
    // One slashed validator out of ten is 10%, below a 50% threshold; as
    // the set shrinks by one per era the fraction grows, and only the
    // tenth slash — against a set of one — crosses the threshold and sets
    // ForceNew.
    let ids: Vec<u64> = (1..=10).collect();
    let mut l = ledger_with_validators(&ids, 100, BILLION / 2);
    for e in 0..9u32 {
        let victim = e as u64 + 1;
        l.slash(victim, BILLION / 10, e);
        assert_eq!(l.force_era, ForceEra::NotForcing);
        let remaining: Vec<u64> = (victim + 1..=10).collect();
        l.start_era(remaining);
    }
    assert_eq!(l.active_validators, vec![10]);
    l.slash(10, BILLION / 10, 9);
    assert_eq!(l.force_era, ForceEra::ForceNew);
}

#[test]
fn log_current_time_reports_the_clock() {
    let mut sys = test_system(&[11, 21, 31]);
    let t = log_current_time(&sys);
    assert_eq!(t.block, 0);
    assert_eq!(t.session, 0);
    assert_eq!(t.era, 0);
    assert!(t.phase.is_off());
    sys.roll_block();
    sys.roll_block();
    let t = log_current_time(&sys);
    assert_eq!(t.block, 2);
    assert_eq!(t.session, 0);
    assert_eq!(t.era, 0);
    assert!(t.phase.is_signed());
}
