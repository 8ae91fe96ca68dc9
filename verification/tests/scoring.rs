use staking_election::errors::Error;
use staking_election::events::ForceEra;
use staking_election::ledger::Ledger;
use staking_election::ledger::LedgerConfig;
use staking_election::ledger::RecordKilled;
use staking_election::machine::ElectionConfig;
use staking_election::machine::ElectionMachine;
use staking_election::machine::Phase;
use staking_election::score::ElectionScore;
use staking_election::snapshot::Snapshot;
use staking_election::solution::score_of;
use staking_election::solution::Solution;
use staking_election::solution::Support;

fn score(a: u128, b: u128, c: u128) -> ElectionScore {
    ElectionScore { minimal_stake: a, sum_stake: b, sum_stake_squared: c }
}

fn scored_solution(a: u128, b: u128, c: u128) -> Solution {
    Solution { score: score(a, b, c), supports: vec![] }
}

fn signed_phase_machine() -> ElectionMachine {
    ElectionMachine {
        phase: Phase::Signed,
        round: 0,
        snapshot: Some(Snapshot { voters: vec![], targets: vec![], block: 1 }),
        submissions: vec![],
        queued: None,
        queued_from_signed: false,
        minimum_score: None,
        deadline: 100,
        signed_until: 50,
        unsigned_block: 0,
        unsigned_submitters: vec![],
        events: vec![],
        config: ElectionConfig {
            signed_phase_len: 4,
            max_signed_submissions: 3,
            signed_deposit: 5,
            request_window: 1000,
            max_snapshot_voters: 100,
            max_snapshot_targets: 100,
        },
    }
}

#[test]
fn score_comparison_is_lexicographic() {
    assert!(score(2, 0, 0).better_than(&score(1, 9, 9)));
    assert!(score(1, 5, 0).better_than(&score(1, 4, 9)));
    assert!(score(1, 5, 7).better_than(&score(1, 5, 6)));
    assert!(!score(1, 5, 7).better_than(&score(1, 5, 7)));
    assert!(!score(1, 9, 9).better_than(&score(2, 0, 0)));
    assert!(score(1, 5, 7).at_least(&score(1, 5, 7)));
    assert!(!score(1, 5, 6).at_least(&score(1, 5, 7)));
}

#[test]
fn best_scored_submission_is_retained() {
    // Inserting scores (10,0,0), (20,0,0), (15,0,0) in that order leaves
    // (20,0,0) as the retained best: a submission must strictly beat the
    // current best, so the third is refused.
    let mut m = signed_phase_machine();
    assert_eq!(m.submit_signed(1, scored_solution(10, 0, 0)), Ok(()));
    assert_eq!(m.submit_signed(2, scored_solution(20, 0, 0)), Ok(()));
    assert_eq!(m.submit_signed(3, scored_solution(15, 0, 0)), Err(Error::ScoreTooLow));
    assert_eq!(m.submissions.len(), 2);
    assert_eq!(m.submissions.last().unwrap().solution.score, score(20, 0, 0));
}

#[test]
fn equal_scores_lose_the_tie() {
    // Submission order is the tiebreak: an equal score does not displace
    // the first submission that reached it.
    let mut m = signed_phase_machine();
    assert_eq!(m.submit_signed(1, scored_solution(10, 0, 0)), Ok(()));
    assert_eq!(m.submit_signed(2, scored_solution(10, 0, 0)), Err(Error::ScoreTooLow));
    assert_eq!(m.submissions.len(), 1);
    assert_eq!(m.submissions[0].who, 1);
}

#[test]
fn full_queue_evicts_the_lowest_scored_submission() {
    let mut m = signed_phase_machine();
    assert_eq!(m.submit_signed(1, scored_solution(10, 0, 0)), Ok(()));
    assert_eq!(m.submit_signed(2, scored_solution(20, 0, 0)), Ok(()));
    assert_eq!(m.submit_signed(3, scored_solution(30, 0, 0)), Ok(()));
    assert_eq!(m.submit_signed(4, scored_solution(40, 0, 0)), Ok(()));
    assert_eq!(m.submissions.len(), 3);
    assert_eq!(m.submissions[0].solution.score, score(20, 0, 0));
    assert_eq!(m.submissions[2].solution.score, score(40, 0, 0));
}

#[test]
fn one_submission_per_author_per_round() {
    let mut m = signed_phase_machine();
    assert_eq!(m.submit_signed(1, scored_solution(10, 0, 0)), Ok(()));
    assert_eq!(m.submit_signed(1, scored_solution(20, 0, 0)), Err(Error::DuplicateSubmission));
}

#[test]
fn submissions_deposit_the_configured_bond() {
    let mut m = signed_phase_machine();
    assert_eq!(m.submit_signed(1, scored_solution(10, 0, 0)), Ok(()));
    assert_eq!(m.submissions[0].deposit, 5);
}

#[test]
fn submissions_outside_the_signed_window_are_refused() {
    let mut m = signed_phase_machine();
    m.phase = Phase::Off;
    assert_eq!(m.submit_signed(1, scored_solution(10, 0, 0)), Err(Error::CallNotAllowed));
}

#[test]
fn an_author_can_withdraw_before_validation() {
    let mut m = signed_phase_machine();
    m.submit_signed(1, scored_solution(10, 0, 0)).unwrap();
    m.submit_signed(2, scored_solution(20, 0, 0)).unwrap();
    assert_eq!(m.withdraw_signed(1), Ok(()));
    assert_eq!(m.submissions.len(), 1);
    assert_eq!(m.submissions[0].who, 2);
    assert_eq!(m.withdraw_signed(1), Err(Error::NoSubmission));
    m.phase = Phase::SignedValidation;
    assert_eq!(m.withdraw_signed(2), Err(Error::CallNotAllowed));
}

#[test]
fn score_of_computes_the_three_components() {
    let supports = vec![
        Support { target: 1, total: 10, voters: vec![(7, 10)] },
        Support { target: 2, total: 4, voters: vec![(8, 4)] },
        Support { target: 3, total: 6, voters: vec![(9, 6)] },
    ];
    let s = score_of(&supports);
    assert_eq!(s, score(4, 20, 152));
    let empty: Vec<Support> = vec![];
    assert_eq!(score_of(&empty), score(0, 0, 0));
}

#[test]
fn score_of_saturates_instead_of_overflowing() {
    let supports = vec![
        Support { target: 1, total: u128::MAX, voters: vec![(7, u128::MAX)] },
        Support { target: 2, total: 2, voters: vec![(8, 2)] },
    ];
    let s = score_of(&supports);
    assert_eq!(s.minimal_stake, 2);
    assert_eq!(s.sum_stake, u128::MAX);
    assert_eq!(s.sum_stake_squared, u128::MAX);
}

#[test]
fn ledger_and_machine_state_can_be_assembled() {
    // the context object holds all state explicitly: no hidden singletons
    let l = Ledger {
        entries: vec![],
        voter_list: vec![],
        active_validators: vec![],
        offenders: vec![],
        current_era: 0,
        force_era: ForceEra::NotForcing,
        events: vec![],
        killed: RecordKilled { accounts: vec![] },
        config: LedgerConfig {
            minimum_bond: 1,
            minimum_nominator_bond: 1,
            minimum_validator_bond: 1,
            bonding_duration: 1,
            max_unlock_chunks: 1,
            offending_threshold: 1,
        },
    };
    assert_eq!(l.current_era, 0);
    let m = signed_phase_machine();
    assert!(m.current_phase().is_signed());
}
