use staking_election::errors::ElectionError;
use staking_election::errors::Error;
use staking_election::events::Event;
use staking_election::events::ForceEra;
use staking_election::ledger::Ledger;
use staking_election::ledger::LedgerConfig;
use staking_election::ledger::RecordKilled;
use staking_election::ledger::ValidatorPrefs;
use staking_election::machine::ElectionConfig;
use staking_election::machine::ElectionMachine;
use staking_election::machine::Phase;
use staking_election::score::ElectionScore;
use staking_election::snapshot::Snapshot;
use staking_election::snapshot::Voter;
use staking_election::solution::check_feasibility;
use staking_election::solution::score_of;
use staking_election::solution::Solution;
use staking_election::solution::Support;

fn base_ledger() -> Ledger {
    Ledger {
        entries: vec![],
        voter_list: vec![],
        active_validators: vec![],
        offenders: vec![],
        current_era: 0,
        force_era: ForceEra::NotForcing,
        events: vec![],
        killed: RecordKilled { accounts: vec![] },
        config: LedgerConfig {
            minimum_bond: 10,
            minimum_nominator_bond: 10,
            minimum_validator_bond: 10,
            bonding_duration: 3,
            max_unlock_chunks: 4,
            offending_threshold: 500_000_000,
        },
    }
}

fn base_config() -> ElectionConfig {
    ElectionConfig {
        signed_phase_len: 4,
        max_signed_submissions: 3,
        signed_deposit: 5,
        request_window: 1000,
        max_snapshot_voters: 100,
        max_snapshot_targets: 100,
    }
}

/// A ledger whose voter list holds the given validators, self-staked.
fn ledger_with_validators(ids: &[u64], stake: u64) -> Ledger {
    let mut l = base_ledger();
    for &v in ids {
        l.bond(v, stake, v).unwrap();
        l.validate(v, ValidatorPrefs::default()).unwrap();
    }
    l.active_validators = ids.to_vec();
    l
}

/// The solution in which each target of the snapshot backs itself with
/// its full weight.
fn self_vote_solution(snap: &Snapshot) -> Solution {
    let mut supports = Vec::new();
    for v in &snap.voters {
        if snap.targets.contains(&v.who) {
            supports.push(Support {
                target: v.who,
                total: v.weight as u128,
                voters: vec![(v.who, v.weight as u128)],
            });
        }
    }
    let score = score_of(&supports);
    Solution { score, supports }
}

#[test]
fn request_election_captures_the_snapshot() {
    let l = ledger_with_validators(&[1, 2, 3], 100);
    let mut m = ElectionMachine::new(base_config());
    assert_eq!(m.request_election(&l, 1, 20), Ok(()));
    assert!(m.current_phase().is_signed());
    let snap = m.snapshot.as_ref().unwrap();
    assert_eq!(snap.block, 1);
    assert_eq!(snap.targets, vec![1, 2, 3]);
    assert_eq!(snap.voters.len(), 3);
    assert_eq!(snap.voters[0].who, 1);
    assert_eq!(snap.voters[0].weight, 100);
    assert_eq!(snap.voters[0].targets, vec![1]);
    // a second request while a round runs is refused
    let mut m2 = m.clone();
    assert_eq!(m2.request_election(&l, 2, 20), Err(Error::CallNotAllowed));
    // a request outside the window is refused
    let mut m3 = ElectionMachine::new(base_config());
    assert_eq!(m3.request_election(&l, 1, 99999), Err(Error::CallNotAllowed));
}

#[test]
fn feasibility_accepts_the_honest_solution() {
    let l = ledger_with_validators(&[1, 2], 100);
    let mut m = ElectionMachine::new(base_config());
    m.request_election(&l, 1, 20).unwrap();
    let snap = m.snapshot.as_ref().unwrap();
    let sol = self_vote_solution(snap);
    assert!(check_feasibility(snap, &sol));
}

#[test]
fn feasibility_rejects_corrupted_solutions() {
    let l = ledger_with_validators(&[1, 2], 100);
    let mut m = ElectionMachine::new(base_config());
    m.request_election(&l, 1, 20).unwrap();
    let snap = m.snapshot.as_ref().unwrap();
    let good = self_vote_solution(snap);

    // a support total that does not match the sum of its backing
    let mut bad = good.clone();
    bad.supports[0].total = 99;
    assert!(!check_feasibility(snap, &bad));

    // a claimed score that does not match the recomputation
    let mut bad = good.clone();
    bad.score = ElectionScore { minimal_stake: 1000, sum_stake: 2000, sum_stake_squared: 0 };
    assert!(!check_feasibility(snap, &bad));

    // a target outside the snapshot
    let mut bad = good.clone();
    bad.supports[0].target = 77;
    assert!(!check_feasibility(snap, &bad));

    // a voter assigning more stake than its snapshot weight
    let mut bad = good.clone();
    bad.supports[0].total = 200;
    bad.supports[0].voters = vec![(1, 200)];
    bad.score = score_of(&bad.supports);
    assert!(!check_feasibility(snap, &bad));

    // a voter backing a target it never declared
    let mut bad = good.clone();
    bad.supports[0].voters = vec![(2, 100)];
    assert!(!check_feasibility(snap, &bad));

    // the same target supported twice
    let mut bad = good.clone();
    bad.supports[1].target = bad.supports[0].target;
    bad.score = score_of(&bad.supports);
    assert!(!check_feasibility(snap, &bad));
}

#[test]
fn signed_round_returns_the_submitted_supports_unmodified() {
    // Round trip: the solution accepted in SignedValidation and returned
    // by elect reproduces the exact supports mapping submitted.
    let l = ledger_with_validators(&[1, 2], 100);
    let mut m = ElectionMachine::new(base_config());
    m.request_election(&l, 1, 20).unwrap();
    let sol = self_vote_solution(m.snapshot.as_ref().unwrap());
    let submitted_supports = sol.supports.clone();
    assert_eq!(m.submit_signed(9, sol), Ok(()));
    m.on_block(5);
    assert!(m.current_phase().is_signed_validation());
    m.on_block(6);
    assert!(m.current_phase().is_unsigned());
    let elected = m.elect().unwrap();
    assert_eq!(elected.supports, submitted_supports);
    assert!(m.current_phase().is_off());
    assert_eq!(m.round, 1);
    assert_eq!(m.events, vec![Event::ElectionFinalized { score: elected.score }]);
    assert!(m.snapshot.is_none());
}

#[test]
fn validation_evicts_infeasible_candidates_and_falls_back() {
    let l = ledger_with_validators(&[1, 2], 100);
    let mut m = ElectionMachine::new(base_config());
    m.request_election(&l, 1, 20).unwrap();
    let good = self_vote_solution(m.snapshot.as_ref().unwrap());
    let mut cheat = good.clone();
    cheat.supports[0].total = 1_000_000;
    cheat.supports[0].voters = vec![(1, 1_000_000)];
    cheat.score = score_of(&cheat.supports);
    assert_eq!(m.submit_signed(7, good.clone()), Ok(()));
    assert_eq!(m.submit_signed(8, cheat), Ok(()));
    m.on_block(5);
    // best first: the cheating solution is evicted, validation continues
    m.on_block(6);
    assert!(m.current_phase().is_signed_validation());
    assert_eq!(m.submissions.len(), 1);
    // the honest runner-up is accepted next
    m.on_block(7);
    assert!(m.current_phase().is_unsigned());
    assert_eq!(m.elect().unwrap().supports, good.supports);
}

#[test]
fn validation_of_an_empty_queue_opens_the_unsigned_window() {
    let l = ledger_with_validators(&[1, 2], 100);
    let mut m = ElectionMachine::new(base_config());
    m.request_election(&l, 1, 20).unwrap();
    m.on_block(5);
    m.on_block(6);
    assert!(m.current_phase().is_unsigned());
    assert!(m.queued.is_none());
}

#[test]
fn unsigned_submissions_are_verified_on_the_spot() {
    let l = ledger_with_validators(&[1, 2], 100);
    let mut m = ElectionMachine::new(base_config());
    m.request_election(&l, 1, 20).unwrap();
    m.on_block(5);
    m.on_block(6);
    let good = self_vote_solution(m.snapshot.as_ref().unwrap());
    let mut cheat = good.clone();
    cheat.supports[0].total = 1_000_000;
    cheat.supports[0].voters = vec![(1, 1_000_000)];
    cheat.score = score_of(&cheat.supports);
    assert_eq!(m.submit_unsigned(5, cheat, 7), Err(Error::Infeasible));
    assert_eq!(m.submit_unsigned(5, good.clone(), 7), Ok(()));
    // one submission per block per submitter
    assert_eq!(m.submit_unsigned(5, good.clone(), 7), Err(Error::DuplicateSubmission));
    // no improvement: the same score is refused
    assert_eq!(m.submit_unsigned(6, good.clone(), 8), Err(Error::ScoreTooLow));
    assert_eq!(m.elect().unwrap().supports, good.supports);
}

#[test]
fn unsigned_path_is_closed_by_a_preseeded_solution() {
    let l = ledger_with_validators(&[1, 2], 100);
    let mut m = ElectionMachine::new(base_config());
    m.request_election(&l, 1, 20).unwrap();
    let sol = self_vote_solution(m.snapshot.as_ref().unwrap());
    m.submit_signed(9, sol.clone()).unwrap();
    m.on_block(5);
    m.on_block(6);
    assert!(m.current_phase().is_unsigned());
    assert_eq!(m.submit_unsigned(5, sol, 7), Err(Error::CallNotAllowed));
}

#[test]
fn minimum_untrusted_score_gates_both_paths() {
    let l = ledger_with_validators(&[1, 2], 100);
    let mut m = ElectionMachine::new(base_config());
    m.set_minimum_untrusted_score(Some(ElectionScore {
        minimal_stake: 500,
        sum_stake: 1000,
        sum_stake_squared: 500,
    }));
    m.request_election(&l, 1, 20).unwrap();
    let sol = self_vote_solution(m.snapshot.as_ref().unwrap());
    // the honest solution scores (100, 200, 20000): below the minimum
    m.submit_signed(9, sol.clone()).unwrap();
    m.on_block(5);
    m.on_block(6);
    // evicted for want of score; the queue is spent
    assert!(m.current_phase().is_signed_validation());
    m.on_block(7);
    assert!(m.current_phase().is_unsigned());
    assert_eq!(m.submit_unsigned(5, sol, 8), Err(Error::ScoreTooLow));
}

#[test]
fn missed_deadline_with_empty_queue_forces_emergency() {
    // The deadline passes with an empty solution queue: the phase becomes
    // Emergency; elect fails with NoQueuedSolution; a subsequent
    // set_emergency_election_result succeeds and resets the phase to Off.
    let l = ledger_with_validators(&[1, 2], 100);
    let mut m = ElectionMachine::new(base_config());
    m.request_election(&l, 1, 20).unwrap();
    m.on_block(20);
    assert!(m.current_phase().is_emergency());
    assert_eq!(m.events, vec![Event::ElectionFailed]);
    assert_eq!(m.elect(), Err(ElectionError::NoQueuedSolution));
    let supports = vec![Support { target: 3, total: 10, voters: vec![(4, 10)] }];
    assert_eq!(m.set_emergency_election_result(supports.clone()), Ok(()));
    assert!(m.current_phase().is_off());
    let elected = m.elect().unwrap();
    assert_eq!(elected.supports, supports);
}

#[test]
fn emergency_calls_are_refused_outside_emergency() {
    let mut m = ElectionMachine::new(base_config());
    assert!(m.current_phase().is_off());
    assert_eq!(m.set_emergency_election_result(vec![]), Err(Error::CallNotAllowed));
    assert_eq!(m.governance_fallback(None, None), Err(Error::CallNotAllowed));
}

#[test]
fn governance_fallback_elects_first_choices() {
    let mut m = ElectionMachine::new(base_config());
    m.phase = Phase::Emergency;
    m.snapshot = Some(Snapshot {
        voters: vec![
            Voter { who: 1, weight: 10, targets: vec![7, 8] },
            Voter { who: 2, weight: 20, targets: vec![8] },
            Voter { who: 3, weight: 5, targets: vec![99] },
        ],
        targets: vec![7, 8],
        block: 1,
    });
    assert_eq!(m.governance_fallback(None, None), Ok(()));
    assert!(m.current_phase().is_off());
    let sol = m.elect().unwrap();
    assert_eq!(
        sol.supports,
        vec![
            Support { target: 7, total: 10, voters: vec![(1, 10)] },
            Support { target: 8, total: 20, voters: vec![(2, 20)] },
        ]
    );
}

#[test]
fn governance_fallback_respects_the_caps() {
    let mut m = ElectionMachine::new(base_config());
    m.phase = Phase::Emergency;
    m.snapshot = Some(Snapshot {
        voters: vec![
            Voter { who: 1, weight: 10, targets: vec![7] },
            Voter { who: 2, weight: 20, targets: vec![8] },
        ],
        targets: vec![7, 8],
        block: 1,
    });
    // only the first target and the first voter are considered
    assert_eq!(m.governance_fallback(Some(1), Some(1)), Ok(()));
    let sol = m.elect().unwrap();
    assert_eq!(sol.supports, vec![Support { target: 7, total: 10, voters: vec![(1, 10)] }]);
}
