//! Admission rules for user actions: each refusal reason, and the effects
//! of accepted actions.

use council::actions::{
    announce_candidacy, decrease_council_budget, fund_council_budget, funding_request,
    plan_budget_refill, release_candidacy_stake, set_budget, set_budget_increment,
    set_candidacy_note, set_councilor_reward, withdraw_candidacy,
};
use council::council::Module;
use council::ledger::Ledger;
use council::state::{CouncilParams, CouncilState};
use council::types::{
    CouncilMember, CouncilStage, CouncilStageAnnouncing, CouncilStageElection, CouncilStageIdle,
    Error, Event, FundingRequestParameters, Origin,
};

fn params() -> CouncilParams {
    CouncilParams {
        min_number_of_extra_candidates: 1,
        council_size: 3,
        min_candidate_stake: 10,
        announcing_period_duration: 5,
        idle_period_duration: 7,
        elected_member_reward_period: 4,
        budget_refill_period: 6,
    }
}

/// A state already in an announcing stage, with a funded ledger.
fn announcing_setup() -> (CouncilState, Ledger) {
    let mut st = CouncilState::new(params());
    st.stage.stage = CouncilStage::Announcing(CouncilStageAnnouncing {
        candidates_count: 0,
        ends_at: 6,
    });
    st.announcement_period_nr = 1;
    let mut lg = Ledger::new();
    for account in 101..=106u64 {
        lg.deposit(account, 1000);
    }
    (st, lg)
}

fn announce(st: &mut CouncilState, lg: &mut Ledger, m: u64, stake: u64) -> Result<Vec<Event>, Error> {
    announce_candidacy(
        st,
        lg,
        Origin::Signed(10 * m),
        m,
        Some(10 * m),
        true,
        true,
        100 + m,
        200 + m,
        stake,
    )
}

#[test]
fn announce_locks_stake_and_counts_candidate() {
    let (mut st, mut lg) = announcing_setup();
    let events = announce(&mut st, &mut lg, 1, 25).unwrap();
    assert_eq!(events, vec![Event::NewCandidate(1, 101, 201, 25)]);
    assert_eq!(lg.candidacy_locks.get(&101), Some(&25));
    assert_eq!(
        st.stage().stage,
        CouncilStage::Announcing(CouncilStageAnnouncing {
            candidates_count: 1,
            ends_at: 6,
        })
    );
    let record = st.candidate(1).unwrap();
    assert_eq!(record.stake, 25);
    assert_eq!(record.vote_power, 0);
    assert_eq!(record.note_hash, None);
}

#[test]
fn announce_refusals() {
    let (mut st, mut lg) = announcing_setup();
    // Caller does not control the member.
    assert_eq!(
        announce_candidacy(&mut st, &mut lg, Origin::Signed(99), 1, Some(10), true, true, 101, 201, 10),
        Err(Error::MemberIdNotMatchAccount)
    );
    // Staking account not the member's.
    assert_eq!(
        announce_candidacy(&mut st, &mut lg, Origin::Signed(10), 1, Some(10), false, true, 101, 201, 10),
        Err(Error::MemberIdNotMatchAccount)
    );
    // Conflicting stake purposes on the account.
    assert_eq!(
        announce_candidacy(&mut st, &mut lg, Origin::Signed(10), 1, Some(10), true, false, 101, 201, 10),
        Err(Error::ConflictingStake)
    );
    // Stake below the configured minimum.
    assert_eq!(announce(&mut st, &mut lg, 1, 9), Err(Error::CandidacyStakeTooLow));
    // Balance cannot cover the stake.
    assert_eq!(
        announce(&mut st, &mut lg, 1, 1001),
        Err(Error::InsufficientBalanceForStaking)
    );
    // Nothing was admitted, so nothing changed.
    assert!(st.candidate(1).is_none());
    assert!(lg.candidacy_locks.is_empty());
}

#[test]
fn announce_twice_in_one_cycle_is_refused() {
    let (mut st, mut lg) = announcing_setup();
    announce(&mut st, &mut lg, 1, 10).unwrap();
    assert_eq!(announce(&mut st, &mut lg, 1, 10), Err(Error::CantCandidateTwice));
}

#[test]
fn announce_outside_announcing_stage_is_refused() {
    let (mut st, mut lg) = announcing_setup();
    st.stage.stage = CouncilStage::Idle(CouncilStageIdle { ends_at: 9 });
    assert_eq!(announce(&mut st, &mut lg, 1, 10), Err(Error::CantCandidateNow));
    st.stage.stage = CouncilStage::Election(CouncilStageElection { candidates_count: 4 });
    assert_eq!(announce(&mut st, &mut lg, 1, 10), Err(Error::CantCandidateNow));
}

#[test]
fn announce_with_full_candidate_count_is_an_arithmetic_error() {
    let (mut st, mut lg) = announcing_setup();
    st.stage.stage = CouncilStage::Announcing(CouncilStageAnnouncing {
        candidates_count: u32::MAX,
        ends_at: 6,
    });
    assert_eq!(announce(&mut st, &mut lg, 1, 10), Err(Error::ArithmeticError));
    assert!(st.candidate(1).is_none());
    assert!(lg.candidacy_locks.is_empty());
}

#[test]
fn stale_candidacy_is_replaced_on_reannouncement() {
    let (mut st, mut lg) = announcing_setup();
    announce(&mut st, &mut lg, 1, 10).unwrap();
    // A new cycle begins; the old record goes stale but keeps its lock.
    st.announcement_period_nr = 2;
    st.stage.stage = CouncilStage::Announcing(CouncilStageAnnouncing {
        candidates_count: 0,
        ends_at: 20,
    });
    // Re-announcing from a different account releases the old stake.
    let events = announce_candidacy(
        &mut st, &mut lg, Origin::Signed(10), 1, Some(10), true, true, 105, 201, 12,
    )
    .unwrap();
    assert_eq!(events, vec![Event::NewCandidate(1, 105, 201, 12)]);
    assert_eq!(lg.candidacy_locks.get(&101), None);
    assert_eq!(lg.candidacy_locks.get(&105), Some(&12));
    assert_eq!(st.candidate(1).unwrap().cycle_id, 2);
}

#[test]
fn release_candidacy_stake_rules() {
    let (mut st, mut lg) = announcing_setup();
    // No record at all.
    assert_eq!(
        release_candidacy_stake(&mut st, &mut lg, Origin::Signed(10), 1, Some(10)),
        Err(Error::NoStake)
    );
    announce(&mut st, &mut lg, 1, 10).unwrap();
    // Live record while the cycle is still running.
    assert_eq!(
        release_candidacy_stake(&mut st, &mut lg, Origin::Signed(10), 1, Some(10)),
        Err(Error::StakeStillNeeded)
    );
    // Once the cycle concludes into the idle stage, release is allowed.
    st.stage.stage = CouncilStage::Idle(CouncilStageIdle { ends_at: 30 });
    let events =
        release_candidacy_stake(&mut st, &mut lg, Origin::Signed(10), 1, Some(10)).unwrap();
    assert_eq!(events, vec![Event::CandidacyStakeRelease(1)]);
    assert!(st.candidate(1).is_none());
    assert_eq!(lg.candidacy_locks.get(&101), None);
}

#[test]
fn stale_candidacy_stake_releases_any_time() {
    let (mut st, mut lg) = announcing_setup();
    announce(&mut st, &mut lg, 1, 10).unwrap();
    st.announcement_period_nr = 2;
    let events =
        release_candidacy_stake(&mut st, &mut lg, Origin::Signed(10), 1, Some(10)).unwrap();
    assert_eq!(events, vec![Event::CandidacyStakeRelease(1)]);
}

#[test]
fn withdraw_candidacy_rules() {
    let (mut st, mut lg) = announcing_setup();
    assert_eq!(
        withdraw_candidacy(&mut st, &mut lg, Origin::Signed(10), 1, Some(10)),
        Err(Error::NotCandidatingNow)
    );
    announce(&mut st, &mut lg, 1, 10).unwrap();
    st.stage.stage = CouncilStage::Election(CouncilStageElection { candidates_count: 1 });
    assert_eq!(
        withdraw_candidacy(&mut st, &mut lg, Origin::Signed(10), 1, Some(10)),
        Err(Error::CantWithdrawCandidacyNow)
    );
    st.stage.stage = CouncilStage::Announcing(CouncilStageAnnouncing {
        candidates_count: 1,
        ends_at: 6,
    });
    let events = withdraw_candidacy(&mut st, &mut lg, Origin::Signed(10), 1, Some(10)).unwrap();
    assert_eq!(events, vec![Event::CandidacyWithdraw(1)]);
    assert!(st.candidate(1).is_none());
    assert_eq!(lg.candidacy_locks.get(&101), None);
    assert_eq!(
        st.stage().stage,
        CouncilStage::Announcing(CouncilStageAnnouncing {
            candidates_count: 0,
            ends_at: 6,
        })
    );
}

#[test]
fn set_candidacy_note_rules() {
    let (mut st, mut lg) = announcing_setup();
    assert_eq!(
        set_candidacy_note(&mut st, Origin::Signed(10), 1, Some(10), vec![7, 7], 42),
        Err(Error::NotCandidatingNow)
    );
    announce(&mut st, &mut lg, 1, 10).unwrap();
    let events =
        set_candidacy_note(&mut st, Origin::Signed(10), 1, Some(10), vec![7, 7], 42).unwrap();
    assert_eq!(events, vec![Event::CandidacyNoteSet(1, vec![7, 7])]);
    assert_eq!(st.candidate(1).unwrap().note_hash, Some(42));
    // Once the election has concluded, the note can no longer be set.
    st.stage.stage = CouncilStage::Idle(CouncilStageIdle { ends_at: 30 });
    assert_eq!(
        set_candidacy_note(&mut st, Origin::Signed(10), 1, Some(10), vec![8], 43),
        Err(Error::NotCandidatingNow)
    );
}

#[test]
fn admin_actions_require_root() {
    let mut st = CouncilState::new(params());
    let user = Origin::Signed(7);
    assert_eq!(set_budget(&mut st, user, 5), Err(Error::BadOrigin));
    assert_eq!(plan_budget_refill(&mut st, user, 5), Err(Error::BadOrigin));
    assert_eq!(set_budget_increment(&mut st, user, 5), Err(Error::BadOrigin));
    assert_eq!(set_councilor_reward(&mut st, user, 5), Err(Error::BadOrigin));
    assert_eq!(decrease_council_budget(&mut st, user, 5), Err(Error::BadOrigin));
}

#[test]
fn admin_actions_update_figures() {
    let mut st = CouncilState::new(params());
    assert_eq!(
        set_budget(&mut st, Origin::Root, 500).unwrap(),
        vec![Event::BudgetBalanceSet(500)]
    );
    assert_eq!(st.budget(), 500);
    assert_eq!(
        plan_budget_refill(&mut st, Origin::Root, 77).unwrap(),
        vec![Event::BudgetRefillPlanned(77)]
    );
    assert_eq!(st.next_budget_refill(), 77);
    assert_eq!(
        set_budget_increment(&mut st, Origin::Root, 9).unwrap(),
        vec![Event::BudgetIncrementUpdated(9)]
    );
    assert_eq!(st.budget_increment(), 9);
    assert_eq!(
        set_councilor_reward(&mut st, Origin::Root, 3).unwrap(),
        vec![Event::CouncilorRewardUpdated(3)]
    );
    assert_eq!(st.councilor_reward(), 3);
    assert_eq!(
        decrease_council_budget(&mut st, Origin::Root, 120).unwrap(),
        vec![Event::CouncilBudgetDecreased(120)]
    );
    assert_eq!(st.budget(), 380);
    // Decreasing saturates at zero.
    decrease_council_budget(&mut st, Origin::Root, 1000).unwrap();
    assert_eq!(st.budget(), 0);
}

#[test]
fn funding_request_pays_each_entry() {
    let mut st = CouncilState::new(params());
    let mut lg = Ledger::new();
    st.budget = 100;
    let batch = vec![
        FundingRequestParameters { account: 5, amount: 30 },
        FundingRequestParameters { account: 6, amount: 20 },
    ];
    let events = funding_request(&mut st, &mut lg, Origin::Root, &batch).unwrap();
    assert_eq!(
        events,
        vec![Event::RequestFunded(5, 30), Event::RequestFunded(6, 20)]
    );
    assert_eq!(st.budget(), 50);
    assert_eq!(lg.balance(5), 30);
    assert_eq!(lg.balance(6), 20);
}

#[test]
fn funding_request_with_repeated_account_is_rejected_whole() {
    let mut st = CouncilState::new(params());
    let mut lg = Ledger::new();
    st.budget = 100;
    let batch = vec![
        FundingRequestParameters { account: 5, amount: 30 },
        FundingRequestParameters { account: 5, amount: 20 },
    ];
    assert_eq!(
        funding_request(&mut st, &mut lg, Origin::Root, &batch),
        Err(Error::RepeatedFundRequestAccount)
    );
    // No partial transfer happened.
    assert_eq!(st.budget(), 100);
    assert_eq!(lg.balance(5), 0);
}

#[test]
fn funding_request_other_refusals() {
    let mut st = CouncilState::new(params());
    let mut lg = Ledger::new();
    st.budget = 40;
    let batch = vec![FundingRequestParameters { account: 5, amount: 30 }];
    assert_eq!(
        funding_request(&mut st, &mut lg, Origin::Signed(1), &batch),
        Err(Error::BadOrigin)
    );
    let too_much = vec![FundingRequestParameters { account: 5, amount: 41 }];
    assert_eq!(
        funding_request(&mut st, &mut lg, Origin::Root, &too_much),
        Err(Error::InsufficientFundsForFundingRequest)
    );
    let empty: Vec<FundingRequestParameters> = vec![];
    assert_eq!(
        funding_request(&mut st, &mut lg, Origin::Root, &empty),
        Err(Error::EmptyFundingRequests)
    );
    let zero = vec![
        FundingRequestParameters { account: 5, amount: 30 },
        FundingRequestParameters { account: 6, amount: 0 },
    ];
    assert_eq!(
        funding_request(&mut st, &mut lg, Origin::Root, &zero),
        Err(Error::ZeroBalanceFundRequest)
    );
    assert_eq!(st.budget(), 40);
}

#[test]
fn fund_council_budget_burns_and_credits() {
    let mut st = CouncilState::new(params());
    let mut lg = Ledger::new();
    lg.deposit(10, 100);
    let events = fund_council_budget(
        &mut st,
        &mut lg,
        Origin::Signed(10),
        1,
        Some(10),
        60,
        vec![1, 2, 3],
    )
    .unwrap();
    assert_eq!(events, vec![Event::CouncilBudgetFunded(1, 60, vec![1, 2, 3])]);
    assert_eq!(st.budget(), 60);
    assert_eq!(lg.balance(10), 40);
}

#[test]
fn fund_council_budget_refusals() {
    let mut st = CouncilState::new(params());
    let mut lg = Ledger::new();
    lg.deposit(10, 100);
    assert_eq!(
        fund_council_budget(&mut st, &mut lg, Origin::Signed(11), 1, Some(10), 60, vec![]),
        Err(Error::MemberIdNotMatchAccount)
    );
    assert_eq!(
        fund_council_budget(&mut st, &mut lg, Origin::Signed(10), 1, Some(10), 0, vec![]),
        Err(Error::ZeroTokensFunding)
    );
    assert_eq!(
        fund_council_budget(&mut st, &mut lg, Origin::Signed(10), 1, Some(10), 101, vec![]),
        Err(Error::InsufficientTokensForFunding)
    );
    assert_eq!(st.budget(), 0);
    assert_eq!(lg.balance(10), 100);
}

#[test]
fn remarks_require_the_right_role() {
    let mut st = CouncilState::new(params());
    st.council_members = vec![CouncilMember {
        staking_account_id: 101,
        reward_account_id: 201,
        membership_id: 1,
        stake: 10,
        last_payment_block: 0,
        unpaid_reward: 0,
    }];
    assert_eq!(
        Module::councilor_remark(&st, Origin::Signed(10), 1, Some(10), vec![5]).unwrap(),
        vec![Event::CouncilorRemarked(1, vec![5])]
    );
    assert_eq!(
        Module::councilor_remark(&st, Origin::Signed(20), 2, Some(20), vec![5]),
        Err(Error::NotCouncilor)
    );
    assert_eq!(
        Module::candidate_remark(&st, Origin::Signed(10), 1, Some(10), vec![6]),
        Err(Error::CandidateDoesNotExist)
    );
    let mut lg = Ledger::new();
    lg.deposit(102, 100);
    st.stage.stage = CouncilStage::Announcing(CouncilStageAnnouncing {
        candidates_count: 0,
        ends_at: 6,
    });
    announce_candidacy(
        &mut st, &mut lg, Origin::Signed(20), 2, Some(20), true, true, 102, 202, 10,
    )
    .unwrap();
    assert_eq!(
        Module::candidate_remark(&st, Origin::Signed(20), 2, Some(20), vec![6]).unwrap(),
        vec![Event::CandidateRemarked(2, vec![6])]
    );
}

#[test]
fn try_withdraw_respects_the_budget() {
    let mut st = CouncilState::new(params());
    let mut lg = Ledger::new();
    st.budget = 50;
    assert_eq!(
        Module::try_withdraw(&mut st, &mut lg, 5, 51),
        Err(Error::InsufficientBalanceForTransfer)
    );
    assert_eq!(Module::try_withdraw(&mut st, &mut lg, 5, 20), Ok(()));
    assert_eq!(Module::get_budget(&st), 30);
    assert_eq!(lg.balance(5), 20);
}

#[test]
fn vote_power_accumulates_for_live_candidates_only() {
    let (mut st, mut lg) = announcing_setup();
    announce(&mut st, &mut lg, 1, 10).unwrap();
    assert_eq!(Module::get_option_power(&st, 1), 0);
    Module::increase_option_power(&mut st, 1, 30);
    Module::increase_option_power(&mut st, 1, 12);
    assert_eq!(Module::get_option_power(&st, 1), 42);
    // Without a record nothing accumulates.
    Module::increase_option_power(&mut st, 9, 30);
    assert_eq!(Module::get_option_power(&st, 9), 0);
    // A stale candidacy is no longer a voting option: its weight is frozen.
    st.announcement_period_nr += 1;
    Module::increase_option_power(&mut st, 1, 5);
    assert_eq!(Module::get_option_power(&st, 1), 42);
}
