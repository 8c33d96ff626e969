//! The lifecycle driver: the per-tick entry point that advances stages on
//! time-boundary crossings and triggers the scheduled budget refill and
//! reward payout.

use vstd::prelude::*;

use crate::calculations::{sat_add, sat_add64};
use crate::checks;
use crate::ledger::Ledger;
use crate::mutations;
use crate::rewards::{
    pay_elected_member_rewards, spec_apply_reward_deposits, spec_pay_pass, spec_reward_events,
};
use crate::state::CouncilState;
use crate::types::{
    stage_transition_ok, AccountId, Balance, BlockNumber, Candidate, CastVote, CouncilStage,
    CouncilStageAnnouncing, CouncilStageElection, CouncilStageUpdate, Error, Event, MemberId,
    Origin, ReferendumStartRequest, VotePower,
};

verus! {

/// The state after the announcing stage restarts at `now`: a fresh
/// announcing stage with no candidates, a precomputed end block, and a
/// bumped cycle counter.
pub open spec fn spec_restart_announcing(st: CouncilState, now: BlockNumber) -> CouncilState {
    CouncilState {
        stage: CouncilStageUpdate {
            stage: CouncilStage::Announcing(
                CouncilStageAnnouncing {
                    candidates_count: 0u32,
                    ends_at: sat_add64(now, st.params.announcing_period_duration),
                },
            ),
            changed_at: now,
        },
        announcement_period_nr: sat_add64(st.announcement_period_nr, 1),
        ..st
    }
}

/// Candidates needed for the announcing stage to conclude into an
/// election: the council size plus the configured extra margin.
pub open spec fn spec_min_candidate_count(st: CouncilState) -> u32 {
    st.params.council_size.saturating_add(st.params.min_number_of_extra_candidates)
}

/// The state after the stage-progress check at `now`: an announcing stage
/// whose end has arrived restarts (too few candidates) or concludes into
/// an election; an idle stage whose end has arrived concludes into a
/// fresh announcing stage; anything else is left as it is.
pub open spec fn spec_after_progress(st: CouncilState, now: BlockNumber) -> CouncilState {
    match st.stage.stage {
        CouncilStage::Announcing(stage_data) => if now == stage_data.ends_at {
            if stage_data.candidates_count < spec_min_candidate_count(st) {
                spec_restart_announcing(st, now)
            } else {
                CouncilState {
                    stage: CouncilStageUpdate {
                        stage: CouncilStage::Election(
                            CouncilStageElection {
                                candidates_count: stage_data.candidates_count,
                            },
                        ),
                        changed_at: now,
                    },
                    ..st
                }
            }
        } else {
            st
        },
        CouncilStage::Idle(stage_data) => if now == stage_data.ends_at {
            spec_restart_announcing(st, now)
        } else {
            st
        },
        CouncilStage::Election(_) => st,
    }
}

/// The events the stage-progress check emits at `now`.
pub open spec fn spec_progress_events(st: CouncilState, now: BlockNumber) -> Seq<Event> {
    match st.stage.stage {
        CouncilStage::Announcing(stage_data) => if now == stage_data.ends_at {
            if stage_data.candidates_count < spec_min_candidate_count(st) {
                seq![
                    Event::NotEnoughCandidates(
                        sat_add64(now, st.params.announcing_period_duration),
                    ),
                ]
            } else {
                seq![Event::VotingPeriodStarted(stage_data.candidates_count)]
            }
        } else {
            Seq::empty()
        },
        CouncilStage::Idle(stage_data) => if now == stage_data.ends_at {
            seq![
                Event::AnnouncingPeriodStarted(
                    sat_add64(now, st.params.announcing_period_duration),
                ),
            ]
        } else {
            Seq::empty()
        },
        CouncilStage::Election(_) => Seq::empty(),
    }
}

/// The candidate count the stage-progress check reports as a cost hint:
/// the announcing stage's count, nothing otherwise.
pub open spec fn spec_progress_hint(st: CouncilState) -> Option<u32> {
    match st.stage.stage {
        CouncilStage::Announcing(stage_data) => Some(stage_data.candidates_count),
        _ => None,
    }
}

/// The vote-start instruction the stage-progress check hands to the host:
/// present exactly when the announcing stage concludes into an election.
/// The voting subsystem accounts for one winning slot itself, so it is
/// asked for one fewer than the council size.
pub open spec fn spec_progress_referendum(st: CouncilState, now: BlockNumber) -> Option<
    ReferendumStartRequest,
> {
    match st.stage.stage {
        CouncilStage::Announcing(stage_data) => if now == stage_data.ends_at
            && stage_data.candidates_count >= spec_min_candidate_count(st) {
            Some(
                ReferendumStartRequest {
                    extra_winning_target_count: st.params.council_size.saturating_sub(1),
                    cycle_id: st.announcement_period_nr,
                },
            )
        } else {
            None
        },
        _ => None,
    }
}

/// How one scheduled-budget check relates the state and ledger before it
/// to those after it: when the refill block has arrived the budget grows
/// by the increment and the next refill is planned; when the payout block
/// has arrived the payout pass (`spec_pay_pass`) runs on the (possibly
/// refilled) budget and the next payout is planned.
pub open spec fn budget_step_post(
    pre: CouncilState,
    prelg: Ledger,
    post: CouncilState,
    postlg: Ledger,
    now: BlockNumber,
) -> bool {
    let refilled = now == pre.next_budget_refill;
    let mid_budget = if refilled {
        sat_add64(pre.budget, pre.budget_increment)
    } else {
        pre.budget
    };
    let mid_refill = if refilled {
        sat_add64(now, pre.params.budget_refill_period)
    } else {
        pre.next_budget_refill
    };
    if now == pre.next_reward_payments {
        let pass = spec_pay_pass(pre.council_members@, mid_budget, pre.councilor_reward, now);
        &&& post.council_members@ == pass.members
        &&& post == (CouncilState {
            council_members: post.council_members,
            budget: pass.balance,
            next_budget_refill: mid_refill,
            next_reward_payments: sat_add64(now, pre.params.elected_member_reward_period),
            ..pre
        })
        &&& postlg.balances@ == spec_apply_reward_deposits(
            prelg.balances@,
            pre.council_members@,
            pass.payments,
        )
        &&& postlg.candidacy_locks@ == prelg.candidacy_locks@
        &&& postlg.councilor_locks@ == prelg.councilor_locks@
    } else {
        &&& post == (CouncilState { budget: mid_budget, next_budget_refill: mid_refill, ..pre })
        &&& postlg.balances@ == prelg.balances@
        &&& postlg.candidacy_locks@ == prelg.candidacy_locks@
        &&& postlg.councilor_locks@ == prelg.councilor_locks@
    }
}

/// The events one scheduled-budget check emits at `now`: the refill and
/// its plan when the refill block has arrived, then one payment event per
/// seat when the payout block has arrived.
pub open spec fn spec_budget_events(st: CouncilState, now: BlockNumber) -> Seq<Event> {
    let refilled = now == st.next_budget_refill;
    let mid_budget = if refilled {
        sat_add64(st.budget, st.budget_increment)
    } else {
        st.budget
    };
    let refill_events: Seq<Event> = if refilled {
        seq![
            Event::BudgetRefill(st.budget_increment),
            Event::BudgetRefillPlanned(sat_add64(now, st.params.budget_refill_period)),
        ]
    } else {
        Seq::empty()
    };
    if now == st.next_reward_payments {
        refill_events + spec_reward_events(
            st.council_members@,
            spec_pay_pass(st.council_members@, mid_budget, st.councilor_reward, now).payments,
        )
    } else {
        refill_events
    }
}

/// What one stage-progress check hands back to the host: the candidate
/// count when the stage was announcing (a cost hint for the scheduler,
/// not part of the functional contract), the events, and the instruction
/// to start a vote when the announcing stage concluded successfully.
pub struct StageProgress {
    pub candidate_count: Option<u32>,
    pub events: Vec<Event>,
    pub referendum_start: Option<ReferendumStartRequest>,
}

/// Everything one tick does.
pub struct TickOutcome {
    pub candidate_count: Option<u32>,
    pub events: Vec<Event>,
    pub referendum_start: Option<ReferendumStartRequest>,
}

/// Whether the stake behind a cast vote may be released: always for a vote
/// from a past cycle; for a vote of the current cycle only once the
/// election has concluded (idle stage) and only when the vote did not go
/// to a winning (seated) candidate.
pub open spec fn spec_can_unlock_vote_stake(st: CouncilState, vote: CastVote) -> bool {
    ||| vote.cycle_id != st.announcement_period_nr
    ||| (st.stage.stage is Idle && match vote.vote_for {
        Some(membership_id) => !st.is_councilor(membership_id),
        None => true,
    })
}

/// The lifecycle driver and the queries the external voting subsystem
/// consumes: a namespace of entry points over the council state, as the
/// host calls them.
pub struct Module;

impl Module {

/// Conclude the announcing stage at `now`. With fewer candidates than the
/// council size plus the configured extra margin, the announcing stage
/// restarts from `now` with a fresh end block and a bumped cycle counter;
/// otherwise the election stage begins and the external voting subsystem
/// is asked to start a vote.
pub fn end_announcement_period(st: &mut CouncilState, now: BlockNumber, candidates_count: u32) -> (r:
    (Vec<Event>, Option<ReferendumStartRequest>))
    requires
        old(st).stage.stage is Announcing,
    ensures
        candidates_count < spec_min_candidate_count(*old(st)) ==> {
            &&& *final(st) == spec_restart_announcing(*old(st), now)
            &&& r.0@ == seq![
                Event::NotEnoughCandidates(
                    sat_add64(now, old(st).params.announcing_period_duration),
                ),
            ]
            &&& r.1 is None
        },
        candidates_count >= spec_min_candidate_count(*old(st)) ==> {
            &&& *final(st) == (CouncilState {
                stage: CouncilStageUpdate {
                    stage: CouncilStage::Election(CouncilStageElection { candidates_count }),
                    changed_at: now,
                },
                ..*old(st)
            })
            &&& r.0@ == seq![Event::VotingPeriodStarted(candidates_count)]
            &&& r.1 == Some(
                ReferendumStartRequest {
                    extra_winning_target_count: old(st).params.council_size.saturating_sub(1),
                    cycle_id: old(st).announcement_period_nr,
                },
            )
        },
        stage_transition_ok(old(st).stage.stage, final(st).stage.stage),
{
    let min_candidate_count = st.params.council_size.saturating_add(
        st.params.min_number_of_extra_candidates,
    );
    let mut events: Vec<Event> = Vec::new();
    if candidates_count < min_candidate_count {
        let ends_at = mutations::start_announcing_period(st, now);
        events.push(Event::NotEnoughCandidates(ends_at));
        proof {
            assert(events@ =~= seq![Event::NotEnoughCandidates(ends_at)]);
        }
        return (events, None);
    }
    let request = mutations::finalize_announcing_period(st, now, candidates_count);
    events.push(Event::VotingPeriodStarted(candidates_count));
    proof {
        assert(events@ =~= seq![Event::VotingPeriodStarted(candidates_count)]);
    }
    (events, Some(request))
}

/// Conclude the idle stage at `now`: a fresh announcing stage begins and
/// the cycle counter is bumped.
pub fn end_idle_period(st: &mut CouncilState, now: BlockNumber) -> (events: Vec<Event>)
    ensures
        *final(st) == spec_restart_announcing(*old(st), now),
        events@ == seq![
            Event::AnnouncingPeriodStarted(
                sat_add64(now, old(st).params.announcing_period_duration),
            ),
        ],
        stage_transition_ok(old(st).stage.stage, final(st).stage.stage),
{
    let ends_at = mutations::start_announcing_period(st, now);
    let mut events: Vec<Event> = Vec::new();
    events.push(Event::AnnouncingPeriodStarted(ends_at));
    proof {
        assert(events@ =~= seq![Event::AnnouncingPeriodStarted(ends_at)]);
    }
    events
}

/// Check whether the current stage's end time has arrived and conclude it
/// if so. Returns the candidate count when the stage was announcing, as a
/// cost hint for the host's scheduler.
pub fn try_progress_stage(st: &mut CouncilState, now: BlockNumber) -> (r: StageProgress)
    ensures
        *final(st) == spec_after_progress(*old(st), now),
        r.events@ == spec_progress_events(*old(st), now),
        r.candidate_count == spec_progress_hint(*old(st)),
        r.referendum_start == spec_progress_referendum(*old(st), now),
        stage_transition_ok(old(st).stage.stage, final(st).stage.stage),
{
    match st.stage.stage {
        CouncilStage::Announcing(stage_data) => {
            let number_of_candidates = stage_data.candidates_count;
            if now == stage_data.ends_at {
                let (events, referendum_start) = Module::end_announcement_period(
                    st,
                    now,
                    stage_data.candidates_count,
                );
                StageProgress {
                    candidate_count: Some(number_of_candidates),
                    events,
                    referendum_start,
                }
            } else {
                StageProgress {
                    candidate_count: Some(number_of_candidates),
                    events: Vec::new(),
                    referendum_start: None,
                }
            }
        },
        CouncilStage::Idle(stage_data) => {
            if now == stage_data.ends_at {
                let events = Module::end_idle_period(st, now);
                StageProgress { candidate_count: None, events, referendum_start: None }
            } else {
                StageProgress { candidate_count: None, events: Vec::new(), referendum_start: None }
            }
        },
        CouncilStage::Election(_) => StageProgress {
            candidate_count: None,
            events: Vec::new(),
            referendum_start: None,
        },
    }
}

/// Refill the budget by the configured increment and plan the next refill
/// one refill period after `now`.
pub fn refill_budget(st: &mut CouncilState, now: BlockNumber) -> (events: Vec<Event>)
    ensures
        *final(st) == (CouncilState {
            budget: sat_add64(old(st).budget, old(st).budget_increment),
            next_budget_refill: sat_add64(now, old(st).params.budget_refill_period),
            ..*old(st)
        }),
        events@ == seq![
            Event::BudgetRefill(old(st).budget_increment),
            Event::BudgetRefillPlanned(sat_add64(now, old(st).params.budget_refill_period)),
        ],
{
    let refill_amount = st.budget_increment;
    mutations::increase_budget(st, refill_amount);
    let next_refill = sat_add(now, st.params.budget_refill_period);
    mutations::plan_budget_refill(st, next_refill);
    let mut events: Vec<Event> = Vec::new();
    events.push(Event::BudgetRefill(refill_amount));
    events.push(Event::BudgetRefillPlanned(next_refill));
    proof {
        assert(events@ =~= seq![
            Event::BudgetRefill(refill_amount),
            Event::BudgetRefillPlanned(next_refill),
        ]);
    }
    events
}

/// Run the scheduled budget work at `now`: the automatic refill when its
/// block has arrived, then the reward payout pass when its block has
/// arrived. The payout draws on the refilled budget.
pub fn try_process_budget(st: &mut CouncilState, lg: &mut Ledger, now: BlockNumber) -> (events: Vec<
    Event,
>)
    ensures
        budget_step_post(*old(st), *old(lg), *final(st), *final(lg), now),
        events@ == spec_budget_events(*old(st), now),
        old(st).locks_consistent(*old(lg)) ==> final(st).locks_consistent(*final(lg)),
{
    let mut events: Vec<Event> = Vec::new();
    if now == st.next_budget_refill {
        let mut refill_events = Module::refill_budget(st, now);
        events.append(&mut refill_events);
    }
    proof {
        if old(st).locks_consistent(*old(lg)) {
            CouncilState::lemma_locks_same_records(*old(st), *st, *lg);
        }
    }
    if now == st.next_reward_payments {
        let mut payment_events = pay_elected_member_rewards(st, lg, now);
        events.append(&mut payment_events);
    }
    proof {
        assert(events@ =~= spec_budget_events(*old(st), now));
    }
    events
}

/// Advance the lifecycle by one tick at `now`: progress the stage on a
/// time-boundary crossing, then run the scheduled budget refill and reward
/// payout. The candidate count is a cost hint for the host's scheduler.
pub fn advance(st: &mut CouncilState, lg: &mut Ledger, now: BlockNumber) -> (r: TickOutcome)
    ensures
        budget_step_post(
            spec_after_progress(*old(st), now),
            *old(lg),
            *final(st),
            *final(lg),
            now,
        ),
        r.events@ == spec_progress_events(*old(st), now) + spec_budget_events(
            spec_after_progress(*old(st), now),
            now,
        ),
        r.candidate_count == spec_progress_hint(*old(st)),
        r.referendum_start == spec_progress_referendum(*old(st), now),
        stage_transition_ok(old(st).stage.stage, final(st).stage.stage),
        old(st).locks_consistent(*old(lg)) ==> final(st).locks_consistent(*final(lg)),
{
    let progress = Module::try_progress_stage(st, now);
    proof {
        if old(st).locks_consistent(*old(lg)) {
            CouncilState::lemma_locks_same_records(*old(st), *st, *lg);
        }
    }
    let mut events = progress.events;
    let mut budget_events = Module::try_process_budget(st, lg, now);
    events.append(&mut budget_events);
    TickOutcome {
        candidate_count: progress.candidate_count,
        events,
        referendum_start: progress.referendum_start,
    }
}

/// Answer the voting subsystem's question whether a cast vote's stake may
/// be released.
pub fn can_unlock_vote_stake(st: &CouncilState, vote: &CastVote) -> (r: Result<(), Error>)
    ensures
        r is Ok <==> spec_can_unlock_vote_stake(*st, *vote),
        r is Err ==> r == Err::<(), Error>(Error::CantReleaseStakeNow),
{
    if vote.cycle_id != st.announcement_period_nr {
        return Ok(());
    }
    let is_idle = match st.stage.stage {
        CouncilStage::Idle(_) => true,
        _ => false,
    };
    if !is_idle {
        return Err(Error::CantReleaseStakeNow);
    }
    let voted_for = match vote.vote_for {
        Some(membership_id) => membership_id,
        None => {
            return Ok(());
        },
    };
    let n = st.council_members.len();
    let mut i: usize = 0;
    while i < n
        invariant
            i <= n,
            n == st.council_members@.len(),
            vote.cycle_id == st.announcement_period_nr,
            st.stage.stage is Idle,
            vote.vote_for == Some(voted_for),
            forall|j: int| 0 <= j < i ==> st.council_members@[j].membership_id != voted_for,
        decreases n - i,
    {
        if st.council_members[i].member_id() == &voted_for {
            proof {
                assert(st.council_members@[i as int].membership_id == voted_for);
                assert(st.is_councilor(voted_for));
            }
            return Err(Error::CantReleaseStakeNow);
        }
        i = i + 1;
    }
    Ok(())
}

/// Answer the voting subsystem's question whether an identity is a valid
/// voting option: true exactly for a live-cycle candidacy.
pub fn is_valid_candidate_id(st: &CouncilState, membership_id: MemberId) -> (r: bool)
    ensures
        r == st.is_live_candidate(membership_id),
{
    match st.candidate(membership_id) {
        Some(candidate) => candidate.cycle_id == st.announcement_period_nr,
        None => false,
    }
}

/// The current vote weight recorded for a candidate; zero without a
/// record.
pub fn get_option_power(st: &CouncilState, membership_id: MemberId) -> (r: VotePower)
    ensures
        r == if st.candidates@.contains_key(membership_id) {
            st.candidates@[membership_id].vote_power
        } else {
            0u64
        },
{
    match st.candidate(membership_id) {
        Some(candidate) => candidate.vote_power,
        None => 0,
    }
}

/// Record vote weight received for a candidate, saturating at the maximum;
/// without a live candidacy for the identity, nothing changes.
pub fn increase_option_power(st: &mut CouncilState, membership_id: MemberId, amount: VotePower)
    ensures
        final(st).candidates@ == if old(st).is_live_candidate(membership_id) {
            old(st).candidates@.insert(
                membership_id,
                Candidate {
                    vote_power: sat_add64(
                        old(st).candidates@[membership_id].vote_power,
                        amount,
                    ),
                    ..old(st).candidates@[membership_id]
                },
            )
        } else {
            old(st).candidates@
        },
        *final(st) == (CouncilState { candidates: final(st).candidates, ..*old(st) }),
        forall|lg: Ledger| old(st).locks_consistent(lg) ==> final(st).locks_consistent(lg),
{
    let existing = match st.candidates.get(&membership_id) {
        Some(c) => if c.cycle_id == st.announcement_period_nr {
            Some(*c)
        } else {
            None
        },
        None => None,
    };
    if let Some(candidate) = existing {
        let updated = Candidate {
            vote_power: sat_add(candidate.vote_power, amount),
            ..candidate
        };
        st.candidates.insert(membership_id, updated);
        proof {
            assert forall|lg: Ledger| old(st).locks_consistent(lg) implies st.locks_consistent(
                lg,
            ) by {
                CouncilState::lemma_locks_after_candidate_update(
                    *old(st),
                    *st,
                    lg,
                    membership_id,
                    updated,
                );
            }
        }
    }
}

/// Require that the caller controls a seated council member.
pub fn ensure_member_consulate(
    st: &CouncilState,
    origin: Origin,
    member_id: MemberId,
    member_controller: Option<AccountId>,
) -> (r: Result<(), Error>)
    ensures
        match r {
            Ok(()) => {
                &&& checks::spec_user_membership(origin, member_controller) is Ok
                &&& st.is_councilor(member_id)
            },
            Err(e) => match checks::spec_user_membership(origin, member_controller) {
                Err(e0) => e == e0,
                Ok(_) => !st.is_councilor(member_id) && e == Error::NotCouncilor,
            },
        },
{
    match checks::ensure_user_membership(origin, member_controller) {
        Ok(_) => {},
        Err(e) => {
            return Err(e);
        },
    }
    let n = st.council_members.len();
    let mut i: usize = 0;
    while i < n
        invariant
            i <= n,
            n == st.council_members@.len(),
            checks::spec_user_membership(origin, member_controller) is Ok,
            forall|j: int| 0 <= j < i ==> st.council_members@[j].membership_id != member_id,
        decreases n - i,
    {
        if st.council_members[i].member_id() == &member_id {
            proof {
                assert(st.council_members@[i as int].membership_id == member_id);
                assert(st.is_councilor(member_id));
            }
            return Ok(());
        }
        i = i + 1;
    }
    Err(Error::NotCouncilor)
}

/// Councilor remark: a message from a seated member, with no state effect
/// beyond the event.
pub fn councilor_remark(
    st: &CouncilState,
    origin: Origin,
    councilor_id: MemberId,
    member_controller: Option<AccountId>,
    msg: Vec<u8>,
) -> (r: Result<Vec<Event>, Error>)
    ensures
        match r {
            Ok(events) => {
                &&& checks::spec_user_membership(origin, member_controller) is Ok
                &&& st.is_councilor(councilor_id)
                &&& events@ == seq![Event::CouncilorRemarked(councilor_id, msg)]
            },
            Err(e) => match checks::spec_user_membership(origin, member_controller) {
                Err(e0) => e == e0,
                Ok(_) => !st.is_councilor(councilor_id) && e == Error::NotCouncilor,
            },
        },
{
    match Module::ensure_member_consulate(st, origin, councilor_id, member_controller) {
        Ok(()) => {},
        Err(e) => {
            return Err(e);
        },
    }
    let mut events: Vec<Event> = Vec::new();
    events.push(Event::CouncilorRemarked(councilor_id, msg));
    proof {
        assert(events@.len() == 1);
    }
    Ok(events)
}

/// Candidate remark: a message from a live candidate, with no state effect
/// beyond the event.
pub fn candidate_remark(
    st: &CouncilState,
    origin: Origin,
    candidate_id: MemberId,
    member_controller: Option<AccountId>,
    msg: Vec<u8>,
) -> (r: Result<Vec<Event>, Error>)
    ensures
        match r {
            Ok(events) => {
                &&& checks::spec_user_membership(origin, member_controller) is Ok
                &&& st.is_live_candidate(candidate_id)
                &&& events@ == seq![Event::CandidateRemarked(candidate_id, msg)]
            },
            Err(e) => match checks::spec_user_membership(origin, member_controller) {
                Err(e0) => e == e0,
                Ok(_) => !st.is_live_candidate(candidate_id) && e == Error::CandidateDoesNotExist,
            },
        },
{
    match checks::ensure_user_membership(origin, member_controller) {
        Ok(_) => {},
        Err(e) => {
            return Err(e);
        },
    }
    if !Module::is_valid_candidate_id(st, candidate_id) {
        return Err(Error::CandidateDoesNotExist);
    }
    let mut events: Vec<Event> = Vec::new();
    events.push(Event::CandidateRemarked(candidate_id, msg));
    proof {
        assert(events@.len() == 1);
    }
    Ok(events)
}

/// The current budget balance.
pub fn get_budget(st: &CouncilState) -> (r: Balance)
    ensures
        r == st.budget,
{
    st.budget
}

/// Withdraw from the council budget into an account: fails, changing
/// nothing, iff the budget does not cover the amount.
pub fn try_withdraw(
    st: &mut CouncilState,
    lg: &mut Ledger,
    account_id: AccountId,
    amount: Balance,
) -> (r: Result<(), Error>)
    ensures
        match r {
            Err(e) => {
                &&& *final(st) == *old(st)
                &&& *final(lg) == *old(lg)
                &&& old(st).budget < amount
                &&& e == Error::InsufficientBalanceForTransfer
            },
            Ok(()) => {
                &&& old(st).budget >= amount
                &&& *final(st) == (CouncilState {
                    budget: (old(st).budget - amount) as Balance,
                    ..*old(st)
                })
                &&& final(lg).balances@ == old(lg).balances@.insert(
                    account_id,
                    sat_add64(old(lg).balance_of(account_id), amount),
                )
                &&& final(lg).candidacy_locks@ == old(lg).candidacy_locks@
                &&& final(lg).councilor_locks@ == old(lg).councilor_locks@
            },
        },
{
    if st.budget < amount {
        return Err(Error::InsufficientBalanceForTransfer);
    }
    lg.deposit(account_id, amount);
    mutations::decrease_budget(st, amount);
    Ok(())
}

}

} // verus!
