//! Lifecycle walkthroughs: stage transitions, candidacy admission, and
//! election conclusion.

use council::actions;
use council::council::Module;
use council::election::recieve_referendum_results;
use council::ledger::Ledger;
use council::state::{CouncilParams, CouncilState};
use council::types::{
    CastVote, CouncilStage, CouncilStageAnnouncing, CouncilStageElection, CouncilStageIdle, Error,
    Event, OptionResult, Origin,
};

fn params() -> CouncilParams {
    CouncilParams {
        min_number_of_extra_candidates: 1,
        council_size: 3,
        min_candidate_stake: 10,
        announcing_period_duration: 5,
        idle_period_duration: 7,
        elected_member_reward_period: 4,
        budget_refill_period: 6,
    }
}

fn setup() -> (CouncilState, Ledger) {
    let st = CouncilState::new(params());
    let mut lg = Ledger::new();
    for account in 101..=106u64 {
        lg.deposit(account, 1000);
    }
    (st, lg)
}

/// Announce member `m` staking 10 from account `100 + m`.
fn announce(st: &mut CouncilState, lg: &mut Ledger, m: u64) -> Result<Vec<Event>, Error> {
    actions::announce_candidacy(
        st,
        lg,
        Origin::Signed(10 * m),
        m,
        Some(10 * m),
        true,
        true,
        100 + m,
        200 + m,
        10,
    )
}

#[test]
fn initial_stage_is_idle_until_block_one() {
    let (mut st, mut lg) = setup();
    assert_eq!(
        st.stage().stage,
        CouncilStage::Idle(CouncilStageIdle { ends_at: 1 })
    );
    st.next_budget_refill = 100;
    st.next_reward_payments = 100;
    let outcome = Module::advance(&mut st, &mut lg, 0);
    assert_eq!(
        st.stage().stage,
        CouncilStage::Idle(CouncilStageIdle { ends_at: 1 })
    );
    assert!(outcome.events.is_empty());
    let outcome = Module::advance(&mut st, &mut lg, 1);
    assert_eq!(
        st.stage().stage,
        CouncilStage::Announcing(CouncilStageAnnouncing {
            candidates_count: 0,
            ends_at: 6,
        })
    );
    assert_eq!(st.announcement_period_nr(), 1);
    assert_eq!(outcome.events, vec![Event::AnnouncingPeriodStarted(6)]);
}

#[test]
fn announcing_restarts_with_three_of_four_needed_candidates() {
    // Council size 3 with 1 extra candidate required: 4 are needed, 3 is
    // not enough, so the stage resets and the cycle counter grows by 1.
    let (mut st, mut lg) = setup();
    Module::advance(&mut st, &mut lg, 1);
    for m in 1..=3u64 {
        announce(&mut st, &mut lg, m).unwrap();
    }
    let cycle_before = st.announcement_period_nr();
    let outcome = Module::advance(&mut st, &mut lg, 6);
    assert_eq!(
        st.stage().stage,
        CouncilStage::Announcing(CouncilStageAnnouncing {
            candidates_count: 0,
            ends_at: 11,
        })
    );
    assert_eq!(st.announcement_period_nr(), cycle_before + 1);
    assert_eq!(outcome.events, vec![Event::NotEnoughCandidates(11)]);
    assert!(outcome.referendum_start.is_none());
}

#[test]
fn announcing_proceeds_to_election_with_four_candidates() {
    let (mut st, mut lg) = setup();
    Module::advance(&mut st, &mut lg, 1);
    for m in 1..=4u64 {
        announce(&mut st, &mut lg, m).unwrap();
    }
    let outcome = Module::advance(&mut st, &mut lg, 6);
    assert_eq!(
        st.stage().stage,
        CouncilStage::Election(CouncilStageElection { candidates_count: 4 })
    );
    assert_eq!(outcome.events, vec![Event::VotingPeriodStarted(4)]);
    // The voting subsystem accounts for one slot itself: council size 3
    // asks for 2 extra winning targets, tagged with the current cycle.
    let request = outcome.referendum_start.unwrap();
    assert_eq!(request.extra_winning_target_count, 2);
    assert_eq!(request.cycle_id, 1);
}

#[test]
fn stage_does_not_conclude_before_its_end_block() {
    let (mut st, mut lg) = setup();
    Module::advance(&mut st, &mut lg, 1);
    let outcome = Module::advance(&mut st, &mut lg, 3);
    assert_eq!(
        st.stage().stage,
        CouncilStage::Announcing(CouncilStageAnnouncing {
            candidates_count: 0,
            ends_at: 6,
        })
    );
    assert_eq!(outcome.candidate_count, Some(0));
    assert!(outcome.events.is_empty());
}

#[test]
fn candidate_cycle_id_matches_announcement_cycle() {
    let (mut st, mut lg) = setup();
    Module::advance(&mut st, &mut lg, 1);
    announce(&mut st, &mut lg, 1).unwrap();
    let record = st.candidate(1).unwrap();
    assert_eq!(record.cycle_id, st.announcement_period_nr());
    assert!(Module::is_valid_candidate_id(&st, 1));
    // After the announcing stage restarts, the cycle moves on and the
    // record goes stale.
    Module::advance(&mut st, &mut lg, 6);
    let record = st.candidate(1).unwrap();
    assert_ne!(record.cycle_id, st.announcement_period_nr());
    assert!(!Module::is_valid_candidate_id(&st, 1));
}

#[test]
fn election_seats_winners_and_swaps_locks() {
    let (mut st, mut lg) = setup();
    Module::advance(&mut st, &mut lg, 1);
    for m in 1..=4u64 {
        announce(&mut st, &mut lg, m).unwrap();
    }
    Module::advance(&mut st, &mut lg, 6);
    let winners = vec![
        OptionResult { option_id: 1, vote_power: 30 },
        OptionResult { option_id: 2, vote_power: 20 },
        OptionResult { option_id: 3, vote_power: 10 },
    ];
    let outcome = recieve_referendum_results(&mut st, &mut lg, &winners, 8);
    assert_eq!(
        st.stage().stage,
        CouncilStage::Idle(CouncilStageIdle { ends_at: 15 })
    );
    let seated = st.council_members();
    assert_eq!(seated.len(), 3);
    assert_eq!(*seated[0].member_id(), 1);
    assert_eq!(seated[0].staking_account_id, 101);
    assert_eq!(seated[0].last_payment_block, 8);
    assert_eq!(seated[0].unpaid_reward, 0);
    // Winners' candidacy records are cleared and their candidacy locks
    // released; the loser keeps both until it releases the stake.
    assert!(st.candidate(1).is_none());
    assert!(st.candidate(4).is_some());
    assert_eq!(lg.candidacy_locks.get(&101), None);
    assert_eq!(lg.candidacy_locks.get(&104), Some(&10));
    // Councilor locks mirror the seated set exactly.
    assert_eq!(lg.councilor_locks.get(&101), Some(&10));
    assert_eq!(lg.councilor_locks.get(&102), Some(&10));
    assert_eq!(lg.councilor_locks.get(&103), Some(&10));
    assert_eq!(lg.councilor_locks.get(&104), None);
    let elected = outcome.elected.unwrap();
    assert_eq!(elected.len(), 3);
    assert_eq!(
        outcome.events.last().unwrap(),
        &Event::NewCouncilElected(vec![1, 2, 3], 15)
    );
}

#[test]
fn failed_election_restarts_announcing_and_keeps_council() {
    let (mut st, mut lg) = setup();
    Module::advance(&mut st, &mut lg, 1);
    for m in 1..=4u64 {
        announce(&mut st, &mut lg, m).unwrap();
    }
    Module::advance(&mut st, &mut lg, 6);
    // Two winners instead of three: a failed election.
    let winners = vec![
        OptionResult { option_id: 1, vote_power: 30 },
        OptionResult { option_id: 2, vote_power: 20 },
    ];
    let cycle_before = st.announcement_period_nr();
    let outcome = recieve_referendum_results(&mut st, &mut lg, &winners, 8);
    assert_eq!(
        st.stage().stage,
        CouncilStage::Announcing(CouncilStageAnnouncing {
            candidates_count: 0,
            ends_at: 13,
        })
    );
    assert_eq!(st.announcement_period_nr(), cycle_before + 1);
    assert!(st.council_members().is_empty());
    assert!(outcome.elected.is_none());
    assert_eq!(outcome.events, vec![Event::NewCouncilNotElected(13)]);
    // Candidacy records and locks are untouched by the failure.
    assert!(st.candidate(1).is_some());
    assert_eq!(lg.candidacy_locks.get(&101), Some(&10));
}

#[test]
fn winner_without_candidacy_record_is_skipped() {
    let (mut st, mut lg) = setup();
    Module::advance(&mut st, &mut lg, 1);
    for m in 1..=4u64 {
        announce(&mut st, &mut lg, m).unwrap();
    }
    Module::advance(&mut st, &mut lg, 6);
    // Member 9 never announced: its seat is silently omitted.
    let winners = vec![
        OptionResult { option_id: 1, vote_power: 30 },
        OptionResult { option_id: 9, vote_power: 20 },
        OptionResult { option_id: 3, vote_power: 10 },
    ];
    let outcome = recieve_referendum_results(&mut st, &mut lg, &winners, 8);
    assert_eq!(
        st.stage().stage,
        CouncilStage::Idle(CouncilStageIdle { ends_at: 15 })
    );
    let seated = st.council_members();
    assert_eq!(seated.len(), 2);
    assert_eq!(*seated[0].member_id(), 1);
    assert_eq!(*seated[1].member_id(), 3);
    assert!(outcome.elected.is_some());
}

#[test]
fn vote_stake_release_rules() {
    // A vote cast in cycle 5 for a losing candidate: released while the
    // cycle is still 5 and the stage is idle; forbidden during an
    // election.
    let (mut st, _lg) = setup();
    st.announcement_period_nr = 5;
    st.stage.stage = CouncilStage::Idle(CouncilStageIdle { ends_at: 100 });
    let vote = CastVote { cycle_id: 5, stake: 10, vote_for: Some(9) };
    assert_eq!(Module::can_unlock_vote_stake(&st, &vote), Ok(()));
    st.stage.stage = CouncilStage::Election(CouncilStageElection { candidates_count: 4 });
    assert_eq!(
        Module::can_unlock_vote_stake(&st, &vote),
        Err(Error::CantReleaseStakeNow)
    );
    // A vote from a past cycle is always recoverable.
    let old_vote = CastVote { cycle_id: 4, stake: 10, vote_for: Some(9) };
    assert_eq!(Module::can_unlock_vote_stake(&st, &old_vote), Ok(()));
}

#[test]
fn vote_for_seated_winner_is_not_recoverable() {
    let (mut st, mut lg) = setup();
    Module::advance(&mut st, &mut lg, 1);
    for m in 1..=4u64 {
        announce(&mut st, &mut lg, m).unwrap();
    }
    Module::advance(&mut st, &mut lg, 6);
    let winners = vec![
        OptionResult { option_id: 1, vote_power: 30 },
        OptionResult { option_id: 2, vote_power: 20 },
        OptionResult { option_id: 3, vote_power: 10 },
    ];
    recieve_referendum_results(&mut st, &mut lg, &winners, 8);
    let cycle = st.announcement_period_nr();
    let for_winner = CastVote { cycle_id: cycle, stake: 10, vote_for: Some(2) };
    let for_loser = CastVote { cycle_id: cycle, stake: 10, vote_for: Some(4) };
    assert_eq!(
        Module::can_unlock_vote_stake(&st, &for_winner),
        Err(Error::CantReleaseStakeNow)
    );
    assert_eq!(Module::can_unlock_vote_stake(&st, &for_loser), Ok(()));
}

#[test]
fn try_progress_stage_reports_candidate_count() {
    let (mut st, mut lg) = setup();
    Module::advance(&mut st, &mut lg, 1);
    announce(&mut st, &mut lg, 1).unwrap();
    announce(&mut st, &mut lg, 2).unwrap();
    let progress = Module::try_progress_stage(&mut st, 3);
    assert_eq!(progress.candidate_count, Some(2));
    assert!(progress.events.is_empty());
}
