//! Reward accounting: accrual, payable splits, the payout pass, budget
//! conservation and idempotence, and the automatic refill.

use council::calculations::{get_current_reward, payable_reward};
use council::council::Module;
use council::ledger::Ledger;
use council::rewards::pay_elected_member_rewards;
use council::state::{CouncilParams, CouncilState};
use council::types::{CouncilMember, Event};

fn params() -> CouncilParams {
    CouncilParams {
        min_number_of_extra_candidates: 1,
        council_size: 3,
        min_candidate_stake: 10,
        announcing_period_duration: 5,
        idle_period_duration: 7,
        elected_member_reward_period: 4,
        budget_refill_period: 6,
    }
}

fn member(id: u64, last_payment_block: u64, unpaid_reward: u64) -> CouncilMember {
    CouncilMember {
        staking_account_id: 100 + id,
        reward_account_id: 200 + id,
        membership_id: id,
        stake: 10,
        last_payment_block,
        unpaid_reward,
    }
}

#[test]
fn current_reward_accrues_per_block() {
    // residue + elapsed blocks * reward per block
    let m = member(1, 4, 5);
    assert_eq!(get_current_reward(&m, 3, 10), 5 + 6 * 3);
    // Nothing accrues at the payment block itself beyond the residue.
    assert_eq!(get_current_reward(&m, 3, 4), 5);
}

#[test]
fn current_reward_saturates() {
    let m = member(1, 0, u64::MAX - 1);
    assert_eq!(get_current_reward(&m, 2, 10), u64::MAX);
}

#[test]
fn payable_reward_splits_against_balance() {
    assert_eq!(payable_reward(100, 80), (80, 0));
    assert_eq!(payable_reward(20, 80), (20, 60));
    assert_eq!(payable_reward(0, 80), (0, 80));
}

#[test]
fn shortfall_pays_first_seat_in_full_and_records_residue() {
    // Budget 100, two seats each owed 80: the first is paid in full, the
    // second gets the remaining 20 and records 60 unpaid.
    let mut st = CouncilState::new(params());
    let mut lg = Ledger::new();
    st.council_members = vec![member(1, 0, 0), member(2, 0, 0)];
    st.budget = 100;
    st.councilor_reward = 8;
    let events = pay_elected_member_rewards(&mut st, &mut lg, 10);
    assert_eq!(
        events,
        vec![
            Event::RewardPayment(1, 201, 80, 0),
            Event::RewardPayment(2, 202, 20, 60),
        ]
    );
    assert_eq!(st.budget(), 0);
    assert_eq!(st.council_members()[0].unpaid_reward, 0);
    assert_eq!(st.council_members()[0].last_payment_block, 10);
    assert_eq!(st.council_members()[1].unpaid_reward, 60);
    assert_eq!(st.council_members()[1].last_payment_block, 10);
    assert_eq!(lg.balance(201), 80);
    assert_eq!(lg.balance(202), 20);
    assert_eq!(st.next_reward_payments(), 14);
}

#[test]
fn budget_is_conserved_by_the_pass() {
    let mut st = CouncilState::new(params());
    let mut lg = Ledger::new();
    st.council_members = vec![member(1, 0, 0), member(2, 0, 0), member(3, 0, 7)];
    st.budget = 1000;
    st.councilor_reward = 5;
    let events = pay_elected_member_rewards(&mut st, &mut lg, 6);
    let mut paid_total: u64 = 0;
    for event in &events {
        match event {
            Event::RewardPayment(_, _, paid, missing) => {
                // paid + missing is exactly what was accrued: 6 blocks at
                // 5 per block, plus seat 3's residue of 7.
                assert!(*paid + *missing == 30 || *paid + *missing == 37);
                paid_total += paid;
            }
            _ => panic!("unexpected event"),
        }
    }
    assert_eq!(st.budget(), 1000 - paid_total);
}

#[test]
fn pass_is_idempotent_at_the_same_block() {
    // A second pass at the same block finds every paid seat settled: it
    // accrues only the recorded residue, and with the budget drained it
    // pays nothing and changes no seat.
    let mut st = CouncilState::new(params());
    let mut lg = Ledger::new();
    st.council_members = vec![member(1, 0, 0), member(2, 0, 0)];
    st.budget = 100;
    st.councilor_reward = 8;
    pay_elected_member_rewards(&mut st, &mut lg, 10);
    let seats_after_first = st.council_members().clone();
    let budget_after_first = st.budget();
    let events = pay_elected_member_rewards(&mut st, &mut lg, 10);
    assert_eq!(
        events,
        vec![
            Event::RewardPayment(1, 201, 0, 0),
            Event::RewardPayment(2, 202, 0, 60),
        ]
    );
    assert_eq!(st.council_members(), &seats_after_first);
    assert_eq!(st.budget(), budget_after_first);
    assert_eq!(lg.balance(201), 80);
    assert_eq!(lg.balance(202), 20);
}

#[test]
fn zero_accrual_emits_empty_payment_and_leaves_seat_alone() {
    let mut st = CouncilState::new(params());
    let mut lg = Ledger::new();
    st.council_members = vec![member(1, 10, 0)];
    st.budget = 50;
    st.councilor_reward = 8;
    let events = pay_elected_member_rewards(&mut st, &mut lg, 10);
    assert_eq!(events, vec![Event::RewardPayment(1, 201, 0, 0)]);
    assert_eq!(st.budget(), 50);
    assert_eq!(st.council_members()[0].last_payment_block, 10);
    assert_eq!(lg.balance(201), 0);
}

#[test]
fn refill_happens_at_its_scheduled_block() {
    let mut st = CouncilState::new(params());
    let mut lg = Ledger::new();
    st.budget = 5;
    st.budget_increment = 13;
    st.next_budget_refill = 9;
    st.next_reward_payments = 50;
    let events = Module::try_process_budget(&mut st, &mut lg, 9);
    assert_eq!(
        events,
        vec![Event::BudgetRefill(13), Event::BudgetRefillPlanned(15)]
    );
    assert_eq!(st.budget(), 18);
    assert_eq!(st.next_budget_refill(), 15);
    // Off-schedule blocks do nothing.
    let events = Module::try_process_budget(&mut st, &mut lg, 10);
    assert!(events.is_empty());
    assert_eq!(st.budget(), 18);
}

#[test]
fn refill_feeds_the_same_tick_payout() {
    // When refill and payout fall on the same block, the payout draws on
    // the refilled budget.
    let mut st = CouncilState::new(params());
    let mut lg = Ledger::new();
    st.council_members = vec![member(1, 0, 0)];
    st.budget = 0;
    st.budget_increment = 40;
    st.councilor_reward = 3;
    st.next_budget_refill = 8;
    st.next_reward_payments = 8;
    let events = Module::try_process_budget(&mut st, &mut lg, 8);
    assert_eq!(
        events,
        vec![
            Event::BudgetRefill(40),
            Event::BudgetRefillPlanned(14),
            Event::RewardPayment(1, 201, 24, 0),
        ]
    );
    assert_eq!(st.budget(), 16);
    assert_eq!(lg.balance(201), 24);
}

#[test]
fn advance_runs_stage_then_budget() {
    let mut st = CouncilState::new(params());
    let mut lg = Ledger::new();
    st.budget_increment = 7;
    st.next_budget_refill = 1;
    st.next_reward_payments = 99;
    let outcome = Module::advance(&mut st, &mut lg, 1);
    // Block 1 both ends the initial idle stage and refills the budget.
    assert_eq!(
        outcome.events,
        vec![
            Event::AnnouncingPeriodStarted(6),
            Event::BudgetRefill(7),
            Event::BudgetRefillPlanned(7),
        ]
    );
    assert_eq!(st.budget(), 7);
}
