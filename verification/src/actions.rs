//! User-submitted actions. Every action validates admission first and
//! mutates only after all checks pass: a refused action leaves the state
//! and the ledger exactly as they were.

use vstd::prelude::*;

use crate::calculations::{sat_add64, sat_sub64};
use crate::checks;
use crate::ledger::{balance_in, Ledger};
use crate::mutations;
use crate::state::CouncilState;
use crate::types::{
    AccountId, Balance, Candidate, CouncilStage, CouncilStageAnnouncing, CouncilStageUpdate,
    Error, Event, FundingRequestParameters, MemberId, Origin,
};

verus! {

/// The record a fresh candidacy announcement creates: no votes, no note,
/// tagged with the cycle in which it was announced.
pub open spec fn spec_new_candidate(
    staking_account_id: AccountId,
    reward_account_id: AccountId,
    cycle_id: u64,
    stake: Balance,
) -> Candidate {
    Candidate {
        staking_account_id,
        reward_account_id,
        cycle_id,
        stake,
        vote_power: 0u64,
        note_hash: None,
    }
}

/// Construct the record for a new candidacy announced in the current
/// cycle.
pub fn prepare_new_candidate(
    st: &CouncilState,
    staking_account_id: AccountId,
    reward_account_id: AccountId,
    stake: Balance,
) -> (r: Candidate)
    ensures
        r == spec_new_candidate(
            staking_account_id,
            reward_account_id,
            st.announcement_period_nr,
            stake,
        ),
{
    Candidate {
        staking_account_id,
        reward_account_id,
        cycle_id: st.announcement_period_nr,
        stake,
        vote_power: 0,
        note_hash: None,
    }
}

/// Announce a candidacy for the next council. Admission follows
/// `spec_can_announce_candidacy`; a candidacy the member left over from a
/// past cycle is released and replaced. The stake is locked on the staking
/// account only after every check has passed. Fails with an arithmetic
/// error, changing nothing, when the stage's candidate count cannot grow.
///
/// The external registry binds a staking account to at most one member, so
/// a positive `staking_account_ok` verdict rules out an account recorded
/// for another member's candidacy; the caller passes that guarantee on.
pub fn announce_candidacy(
    st: &mut CouncilState,
    lg: &mut Ledger,
    origin: Origin,
    membership_id: MemberId,
    member_controller: Option<AccountId>,
    staking_account_ok: bool,
    free_of_conflicting_stakes: bool,
    staking_account_id: AccountId,
    reward_account_id: AccountId,
    stake: Balance,
) -> (r: Result<Vec<Event>, Error>)
    requires
        old(st).locks_consistent(*old(lg)),
        staking_account_ok ==> forall|m: MemberId|
            old(st).candidates@.contains_key(m) && m != membership_id ==> old(
                st,
            ).candidates@[m].staking_account_id != staking_account_id,
    ensures
        ({
            let check = checks::spec_can_announce_candidacy(
                *old(st),
                *old(lg),
                origin,
                membership_id,
                member_controller,
                staking_account_ok,
                free_of_conflicting_stakes,
                staking_account_id,
                stake,
            );
            match r {
                Err(e) => {
                    &&& *final(st) == *old(st)
                    &&& *final(lg) == *old(lg)
                    &&& match check {
                        Err(e0) => e == e0,
                        Ok((stage_data, _)) => stage_data.candidates_count == u32::MAX && e
                            == Error::ArithmeticError,
                    }
                },
                Ok(events) => {
                    &&& check matches Ok((stage_data, previous)) && {
                        &&& stage_data.candidates_count < u32::MAX
                        &&& final(st).candidates@ == old(st).candidates@.insert(
                            membership_id,
                            spec_new_candidate(
                                staking_account_id,
                                reward_account_id,
                                old(st).announcement_period_nr,
                                stake,
                            ),
                        )
                        &&& *final(st) == (CouncilState {
                            candidates: final(st).candidates,
                            stage: CouncilStageUpdate {
                                stage: CouncilStage::Announcing(
                                    CouncilStageAnnouncing {
                                        candidates_count: (stage_data.candidates_count + 1) as u32,
                                        ends_at: stage_data.ends_at,
                                    },
                                ),
                                changed_at: old(st).stage.changed_at,
                            },
                            ..*old(st)
                        })
                        &&& final(lg).candidacy_locks@ == (match previous {
                            Some(previous_account) => old(lg).candidacy_locks@.remove(
                                previous_account,
                            ),
                            None => old(lg).candidacy_locks@,
                        }).insert(staking_account_id, stake)
                        &&& final(lg).balances@ == old(lg).balances@
                        &&& final(lg).councilor_locks@ == old(lg).councilor_locks@
                        &&& events@ == seq![
                            Event::NewCandidate(
                                membership_id,
                                staking_account_id,
                                reward_account_id,
                                stake,
                            ),
                        ]
                        &&& final(st).locks_consistent(*final(lg))
                    }
                },
            }
        }),
{
    let (stage_data, previous_staking_account_id) = match checks::can_announce_candidacy(
        st,
        lg,
        origin,
        membership_id,
        member_controller,
        staking_account_ok,
        free_of_conflicting_stakes,
        staking_account_id,
        stake,
    ) {
        Ok(data) => data,
        Err(e) => {
            return Err(e);
        },
    };
    if stage_data.candidates_count == u32::MAX {
        return Err(Error::ArithmeticError);
    }
    let candidate = prepare_new_candidate(st, staking_account_id, reward_account_id, stake);
    if let Some(previous_account) = previous_staking_account_id {
        mutations::release_candidacy_stake(st, lg, membership_id, previous_account);
    }
    match mutations::announce_candidacy(st, lg, &stage_data, membership_id, &candidate, stake) {
        Ok(()) => {},
        Err(e) => {
            proof {
                assert(false);
            }
            return Err(e);
        },
    }
    let mut events: Vec<Event> = Vec::new();
    events.push(
        Event::NewCandidate(membership_id, staking_account_id, reward_account_id, stake),
    );
    proof {
        assert(events@ =~= seq![
            Event::NewCandidate(membership_id, staking_account_id, reward_account_id, stake),
        ]);
    }
    Ok(events)
}

/// Release candidacy stake that is no longer needed: admissible for a
/// stale record at any time, and for a live one once the cycle has
/// concluded (idle stage).
pub fn release_candidacy_stake(
    st: &mut CouncilState,
    lg: &mut Ledger,
    origin: Origin,
    membership_id: MemberId,
    member_controller: Option<AccountId>,
) -> (r: Result<Vec<Event>, Error>)
    requires
        old(st).locks_consistent(*old(lg)),
    ensures
        ({
            let check = checks::spec_can_release_candidacy_stake(
                *old(st),
                origin,
                membership_id,
                member_controller,
            );
            match r {
                Err(e) => {
                    &&& *final(st) == *old(st)
                    &&& *final(lg) == *old(lg)
                    &&& check == Err::<AccountId, Error>(e)
                },
                Ok(events) => {
                    &&& check matches Ok(account) && {
                        &&& final(st).candidates@ == old(st).candidates@.remove(membership_id)
                        &&& *final(st) == (CouncilState {
                            candidates: final(st).candidates,
                            ..*old(st)
                        })
                        &&& final(lg).candidacy_locks@ == old(lg).candidacy_locks@.remove(account)
                        &&& final(lg).balances@ == old(lg).balances@
                        &&& final(lg).councilor_locks@ == old(lg).councilor_locks@
                        &&& events@ == seq![Event::CandidacyStakeRelease(membership_id)]
                        &&& final(st).locks_consistent(*final(lg))
                    }
                },
            }
        }),
{
    let staking_account_id = match checks::can_release_candidacy_stake(
        st,
        origin,
        membership_id,
        member_controller,
    ) {
        Ok(account) => account,
        Err(e) => {
            return Err(e);
        },
    };
    mutations::release_candidacy_stake(st, lg, membership_id, staking_account_id);
    let mut events: Vec<Event> = Vec::new();
    events.push(Event::CandidacyStakeRelease(membership_id));
    proof {
        assert(events@ =~= seq![Event::CandidacyStakeRelease(membership_id)]);
    }
    Ok(events)
}

/// Withdraw a live candidacy during the announcing stage, releasing its
/// stake and lowering the stage's candidate count.
pub fn withdraw_candidacy(
    st: &mut CouncilState,
    lg: &mut Ledger,
    origin: Origin,
    membership_id: MemberId,
    member_controller: Option<AccountId>,
) -> (r: Result<Vec<Event>, Error>)
    requires
        old(st).locks_consistent(*old(lg)),
    ensures
        ({
            let check = checks::spec_can_withdraw_candidacy(
                *old(st),
                origin,
                membership_id,
                member_controller,
            );
            match r {
                Err(e) => {
                    &&& *final(st) == *old(st)
                    &&& *final(lg) == *old(lg)
                    &&& check == Err::<(CouncilStageAnnouncing, Candidate), Error>(e)
                },
                Ok(events) => {
                    &&& check matches Ok((stage_data, candidate)) && {
                        &&& final(st).candidates@ == old(st).candidates@.remove(membership_id)
                        &&& *final(st) == (CouncilState {
                            candidates: final(st).candidates,
                            stage: CouncilStageUpdate {
                                stage: CouncilStage::Announcing(
                                    CouncilStageAnnouncing {
                                        candidates_count:
                                            stage_data.candidates_count.saturating_sub(1),
                                        ends_at: stage_data.ends_at,
                                    },
                                ),
                                changed_at: old(st).stage.changed_at,
                            },
                            ..*old(st)
                        })
                        &&& final(lg).candidacy_locks@ == old(lg).candidacy_locks@.remove(
                            candidate.staking_account_id,
                        )
                        &&& final(lg).balances@ == old(lg).balances@
                        &&& final(lg).councilor_locks@ == old(lg).councilor_locks@
                        &&& events@ == seq![Event::CandidacyWithdraw(membership_id)]
                        &&& final(st).locks_consistent(*final(lg))
                    }
                },
            }
        }),
{
    let (stage_data, candidate) = match checks::can_withdraw_candidacy(
        st,
        origin,
        membership_id,
        member_controller,
    ) {
        Ok(data) => data,
        Err(e) => {
            return Err(e);
        },
    };
    mutations::withdraw_candidacy(st, lg, &stage_data, membership_id, &candidate);
    let mut events: Vec<Event> = Vec::new();
    events.push(Event::CandidacyWithdraw(membership_id));
    proof {
        assert(events@ =~= seq![Event::CandidacyWithdraw(membership_id)]);
    }
    Ok(events)
}

/// Set a short note for a live candidacy. The note itself is carried in
/// the event; the record stores the hash the host computed for it.
pub fn set_candidacy_note(
    st: &mut CouncilState,
    origin: Origin,
    membership_id: MemberId,
    member_controller: Option<AccountId>,
    note: Vec<u8>,
    note_hash: u64,
) -> (r: Result<Vec<Event>, Error>)
    ensures
        ({
            let check = checks::spec_can_set_candidacy_note(
                *old(st),
                origin,
                membership_id,
                member_controller,
            );
            match r {
                Err(e) => {
                    &&& *final(st) == *old(st)
                    &&& check == Err::<(), Error>(e)
                },
                Ok(events) => {
                    &&& check is Ok
                    &&& final(st).candidates@ == old(st).candidates@.insert(
                        membership_id,
                        Candidate {
                            note_hash: Some(note_hash),
                            ..old(st).candidates@[membership_id]
                        },
                    )
                    &&& *final(st) == (CouncilState {
                        candidates: final(st).candidates,
                        ..*old(st)
                    })
                    &&& events@ == seq![Event::CandidacyNoteSet(membership_id, note)]
                },
            }
        }),
        forall|lg: Ledger| old(st).locks_consistent(lg) ==> final(st).locks_consistent(lg),
{
    match checks::can_set_candidacy_note(st, origin, membership_id, member_controller) {
        Ok(()) => {},
        Err(e) => {
            return Err(e);
        },
    }
    mutations::set_candidacy_note(st, membership_id, note_hash);
    let mut events: Vec<Event> = Vec::new();
    events.push(Event::CandidacyNoteSet(membership_id, note));
    proof {
        assert(events@.len() == 1);
    }
    Ok(events)
}

/// Set the budget balance (root only).
pub fn set_budget(st: &mut CouncilState, origin: Origin, balance: Balance) -> (r: Result<
    Vec<Event>,
    Error,
>)
    ensures
        match r {
            Err(e) => *final(st) == *old(st) && e == Error::BadOrigin && !(origin is Root),
            Ok(events) => {
                &&& origin is Root
                &&& *final(st) == (CouncilState { budget: balance, ..*old(st) })
                &&& events@ == seq![Event::BudgetBalanceSet(balance)]
            },
        },
{
    match checks::can_set_budget(origin) {
        Ok(()) => {},
        Err(e) => {
            return Err(e);
        },
    }
    mutations::set_budget(st, balance);
    let mut events: Vec<Event> = Vec::new();
    events.push(Event::BudgetBalanceSet(balance));
    proof {
        assert(events@ =~= seq![Event::BudgetBalanceSet(balance)]);
    }
    Ok(events)
}

/// Plan the next automatic budget refill (root only).
pub fn plan_budget_refill(st: &mut CouncilState, origin: Origin, next_refill: u64) -> (r: Result<
    Vec<Event>,
    Error,
>)
    ensures
        match r {
            Err(e) => *final(st) == *old(st) && e == Error::BadOrigin && !(origin is Root),
            Ok(events) => {
                &&& origin is Root
                &&& *final(st) == (CouncilState { next_budget_refill: next_refill, ..*old(st) })
                &&& events@ == seq![Event::BudgetRefillPlanned(next_refill)]
            },
        },
{
    match checks::can_plan_budget_refill(origin) {
        Ok(()) => {},
        Err(e) => {
            return Err(e);
        },
    }
    mutations::plan_budget_refill(st, next_refill);
    let mut events: Vec<Event> = Vec::new();
    events.push(Event::BudgetRefillPlanned(next_refill));
    proof {
        assert(events@ =~= seq![Event::BudgetRefillPlanned(next_refill)]);
    }
    Ok(events)
}

/// Set the amount added at every budget refill (root only).
pub fn set_budget_increment(st: &mut CouncilState, origin: Origin, budget_increment: Balance) -> (r:
    Result<Vec<Event>, Error>)
    ensures
        match r {
            Err(e) => *final(st) == *old(st) && e == Error::BadOrigin && !(origin is Root),
            Ok(events) => {
                &&& origin is Root
                &&& *final(st) == (CouncilState { budget_increment, ..*old(st) })
                &&& events@ == seq![Event::BudgetIncrementUpdated(budget_increment)]
            },
        },
{
    match checks::can_set_budget_increment(origin) {
        Ok(()) => {},
        Err(e) => {
            return Err(e);
        },
    }
    mutations::set_budget_increment(st, budget_increment);
    let mut events: Vec<Event> = Vec::new();
    events.push(Event::BudgetIncrementUpdated(budget_increment));
    proof {
        assert(events@ =~= seq![Event::BudgetIncrementUpdated(budget_increment)]);
    }
    Ok(events)
}

/// Set the per-block councilor reward (root only).
pub fn set_councilor_reward(st: &mut CouncilState, origin: Origin, councilor_reward: Balance) -> (r:
    Result<Vec<Event>, Error>)
    ensures
        match r {
            Err(e) => *final(st) == *old(st) && e == Error::BadOrigin && !(origin is Root),
            Ok(events) => {
                &&& origin is Root
                &&& *final(st) == (CouncilState { councilor_reward, ..*old(st) })
                &&& events@ == seq![Event::CouncilorRewardUpdated(councilor_reward)]
            },
        },
{
    match checks::can_set_councilor_reward(origin) {
        Ok(()) => {},
        Err(e) => {
            return Err(e);
        },
    }
    mutations::set_councilor_reward(st, councilor_reward);
    let mut events: Vec<Event> = Vec::new();
    events.push(Event::CouncilorRewardUpdated(councilor_reward));
    proof {
        assert(events@ =~= seq![Event::CouncilorRewardUpdated(councilor_reward)]);
    }
    Ok(events)
}

/// Decrease the council budget by the given amount, saturating at zero
/// (root only).
pub fn decrease_council_budget(st: &mut CouncilState, origin: Origin, reduction_amount: Balance) -> (r:
    Result<Vec<Event>, Error>)
    ensures
        match r {
            Err(e) => *final(st) == *old(st) && e == Error::BadOrigin && !(origin is Root),
            Ok(events) => {
                &&& origin is Root
                &&& *final(st) == (CouncilState {
                    budget: sat_sub64(old(st).budget, reduction_amount),
                    ..*old(st)
                })
                &&& events@ == seq![Event::CouncilBudgetDecreased(reduction_amount)]
            },
        },
{
    match checks::can_decrease_council_budget(origin) {
        Ok(()) => {},
        Err(e) => {
            return Err(e);
        },
    }
    mutations::decrease_budget(st, reduction_amount);
    let mut events: Vec<Event> = Vec::new();
    events.push(Event::CouncilBudgetDecreased(reduction_amount));
    proof {
        assert(events@ =~= seq![Event::CouncilBudgetDecreased(reduction_amount)]);
    }
    Ok(events)
}

/// The sum a funding-request batch asks for, saturating like the running
/// total the validation computes.
pub open spec fn spec_funding_total(requests: Seq<FundingRequestParameters>) -> Balance
    decreases requests.len(),
{
    if requests.len() == 0 {
        0u64
    } else {
        sat_add64(spec_funding_total(requests.drop_last()), requests.last().amount)
    }
}

/// The first fault among the batch entries from position `i` on: an entry
/// asking for nothing, or an entry repeating an earlier entry's account.
pub open spec fn spec_funding_entries_error(
    requests: Seq<FundingRequestParameters>,
    i: int,
) -> Option<Error>
    decreases requests.len() - i,
{
    if i < 0 || i >= requests.len() {
        None
    } else if requests[i].amount == 0 {
        Some(Error::ZeroBalanceFundRequest)
    } else if exists|j: int| 0 <= j < i && requests[j].account == requests[i].account {
        Some(Error::RepeatedFundRequestAccount)
    } else {
        spec_funding_entries_error(requests, i + 1)
    }
}

/// Admission rule for a funding-request batch: root only; the batch total
/// must fit in the budget; the batch must be non-empty; every entry must
/// ask for something, from an account no earlier entry uses.
pub open spec fn spec_can_funding_request(
    st: CouncilState,
    origin: Origin,
    requests: Seq<FundingRequestParameters>,
) -> Option<Error> {
    if !(origin is Root) {
        Some(Error::BadOrigin)
    } else if spec_funding_total(requests) > st.budget {
        Some(Error::InsufficientFundsForFundingRequest)
    } else if requests.len() == 0 {
        Some(Error::EmptyFundingRequests)
    } else {
        spec_funding_entries_error(requests, 0)
    }
}

/// The ledger balances after a funding-request batch is paid out, entry by
/// entry in batch order.
pub open spec fn spec_apply_funding_deposits(
    balances: Map<AccountId, Balance>,
    requests: Seq<FundingRequestParameters>,
) -> Map<AccountId, Balance>
    decreases requests.len(),
{
    if requests.len() == 0 {
        balances
    } else {
        let prior = spec_apply_funding_deposits(balances, requests.drop_last());
        prior.insert(
            requests.last().account,
            sat_add64(balance_in(prior, requests.last().account), requests.last().amount),
        )
    }
}

/// Transfer funds from the council budget to the batch's accounts (root
/// only). The batch is rejected whole: on any fault no transfer happens;
/// on success the budget drops by the batch total and every entry's amount
/// is deposited into its account.
pub fn funding_request(
    st: &mut CouncilState,
    lg: &mut Ledger,
    origin: Origin,
    funding_requests: &Vec<FundingRequestParameters>,
) -> (r: Result<Vec<Event>, Error>)
    ensures
        ({
            let check = spec_can_funding_request(*old(st), origin, funding_requests@);
            match r {
                Err(e) => {
                    &&& *final(st) == *old(st)
                    &&& *final(lg) == *old(lg)
                    &&& check == Some(e)
                },
                Ok(events) => {
                    &&& check is None
                    &&& *final(st) == (CouncilState {
                        budget: (old(st).budget - spec_funding_total(funding_requests@)) as Balance,
                        ..*old(st)
                    })
                    &&& final(lg).balances@ == spec_apply_funding_deposits(
                        old(lg).balances@,
                        funding_requests@,
                    )
                    &&& final(lg).candidacy_locks@ == old(lg).candidacy_locks@
                    &&& final(lg).councilor_locks@ == old(lg).councilor_locks@
                    &&& events@ == Seq::new(
                        funding_requests@.len(),
                        |i: int| Event::RequestFunded(
                            funding_requests@[i].account,
                            funding_requests@[i].amount,
                        ),
                    )
                },
            }
        }),
        old(st).locks_consistent(*old(lg)) ==> final(st).locks_consistent(*final(lg)),
{
    match checks::ensure_root(origin) {
        Ok(()) => {},
        Err(e) => {
            return Err(e);
        },
    }
    let n = funding_requests.len();
    let mut funding_total: Balance = 0;
    let mut i: usize = 0;
    proof {
        assert(funding_requests@.take(0) =~= Seq::<FundingRequestParameters>::empty());
    }
    while i < n
        invariant
            i <= n,
            n == funding_requests@.len(),
            funding_total == spec_funding_total(funding_requests@.take(i as int)),
        decreases n - i,
    {
        funding_total = crate::calculations::sat_add(funding_total, funding_requests[i].amount);
        proof {
            assert(funding_requests@.take(i as int + 1).drop_last() =~= funding_requests@.take(
                i as int,
            ));
            assert(funding_requests@.take(i as int + 1).last() == funding_requests@[i as int]);
        }
        i = i + 1;
    }
    proof {
        assert(funding_requests@.take(n as int) =~= funding_requests@);
    }
    if funding_total > st.budget {
        return Err(Error::InsufficientFundsForFundingRequest);
    }
    if n == 0 {
        return Err(Error::EmptyFundingRequests);
    }
    let mut i: usize = 0;
    while i < n
        invariant
            i <= n,
            n == funding_requests@.len(),
            n > 0,
            origin is Root,
            *st == *old(st),
            *lg == *old(lg),
            funding_total == spec_funding_total(funding_requests@),
            funding_total <= old(st).budget,
            spec_funding_entries_error(funding_requests@, 0) == spec_funding_entries_error(
                funding_requests@,
                i as int,
            ),
        decreases n - i,
    {
        if funding_requests[i].amount == 0 {
            return Err(Error::ZeroBalanceFundRequest);
        }
        let mut j: usize = 0;
        while j < i
            invariant
                j <= i,
                i < n,
                n == funding_requests@.len(),
                n > 0,
                origin is Root,
                *st == *old(st),
                *lg == *old(lg),
                funding_total == spec_funding_total(funding_requests@),
                funding_total <= old(st).budget,
                spec_funding_entries_error(funding_requests@, 0) == spec_funding_entries_error(
                    funding_requests@,
                    i as int,
                ),
                funding_requests@[i as int].amount != 0,
                forall|k: int| 0 <= k < j ==> funding_requests@[k].account != funding_requests@[
                    i as int
                ].account,
            decreases i - j,
        {
            if funding_requests[j].account == funding_requests[i].account {
                proof {
                    assert(exists|k: int|
                        0 <= k < i && funding_requests@[k].account == funding_requests@[
                            i as int
                        ].account);
                }
                return Err(Error::RepeatedFundRequestAccount);
            }
            j = j + 1;
        }
        i = i + 1;
    }
    mutations::decrease_budget(st, funding_total);
    let mut events: Vec<Event> = Vec::new();
    let mut i: usize = 0;
    proof {
        assert(funding_requests@.take(0) =~= Seq::<FundingRequestParameters>::empty());
    }
    while i < n
        invariant
            i <= n,
            n == funding_requests@.len(),
            lg.balances@ == spec_apply_funding_deposits(
                old(lg).balances@,
                funding_requests@.take(i as int),
            ),
            lg.candidacy_locks@ == old(lg).candidacy_locks@,
            lg.councilor_locks@ == old(lg).councilor_locks@,
            events@.len() == i,
            forall|k: int| 0 <= k < i ==> events@[k] == (Event::RequestFunded(
                funding_requests@[k].account,
                funding_requests@[k].amount,
            )),
        decreases n - i,
    {
        let request = funding_requests[i];
        lg.deposit(request.account, request.amount);
        events.push(Event::RequestFunded(request.account, request.amount));
        proof {
            assert(funding_requests@.take(i as int + 1).drop_last() =~= funding_requests@.take(
                i as int,
            ));
            assert(funding_requests@.take(i as int + 1).last() == funding_requests@[i as int]);
        }
        i = i + 1;
    }
    proof {
        assert(funding_requests@.take(n as int) =~= funding_requests@);
        assert(events@ =~= Seq::new(
            funding_requests@.len(),
            |i: int| Event::RequestFunded(
                funding_requests@[i].account,
                funding_requests@[i].amount,
            ),
        ));
        if old(st).locks_consistent(*old(lg)) {
            CouncilState::lemma_locks_after_member_rewards(*old(st), *st, *old(lg), *lg);
        }
    }
    Ok(events)
}

/// Top up the council budget from a member's controller account: the
/// amount must be positive and within the account's usable balance; it is
/// burnt there and credited to the budget.
pub fn fund_council_budget(
    st: &mut CouncilState,
    lg: &mut Ledger,
    origin: Origin,
    member_id: MemberId,
    member_controller: Option<AccountId>,
    amount: Balance,
    rationale: Vec<u8>,
) -> (r: Result<Vec<Event>, Error>)
    ensures
        ({
            match r {
                Err(e) => {
                    &&& *final(st) == *old(st)
                    &&& *final(lg) == *old(lg)
                    &&& match checks::spec_user_membership(origin, member_controller) {
                        Err(e0) => e == e0,
                        Ok(account) => if amount == 0 {
                            e == Error::ZeroTokensFunding
                        } else {
                            amount > old(lg).usable_of(account) && e
                                == Error::InsufficientTokensForFunding
                        },
                    }
                },
                Ok(events) => {
                    &&& checks::spec_user_membership(origin, member_controller) matches Ok(account)
                        && {
                        &&& amount > 0
                        &&& amount <= old(lg).usable_of(account)
                        &&& *final(st) == (CouncilState {
                            budget: sat_add64(old(st).budget, amount),
                            ..*old(st)
                        })
                        &&& final(lg).balances@ == old(lg).balances@.insert(
                            account,
                            (old(lg).balance_of(account) - amount) as Balance,
                        )
                        &&& final(lg).candidacy_locks@ == old(lg).candidacy_locks@
                        &&& final(lg).councilor_locks@ == old(lg).councilor_locks@
                        &&& events@ == seq![Event::CouncilBudgetFunded(member_id, amount, rationale)]
                    }
                },
            }
        }),
{
    let account_id = match checks::ensure_user_membership(origin, member_controller) {
        Ok(account) => account,
        Err(e) => {
            return Err(e);
        },
    };
    if amount == 0 {
        return Err(Error::ZeroTokensFunding);
    }
    if lg.usable_balance(account_id) < amount {
        return Err(Error::InsufficientTokensForFunding);
    }
    let burnt = lg.burn_from_usable(account_id, amount);
    proof {
        assert(burnt);
    }
    mutations::increase_budget(st, amount);
    let mut events: Vec<Event> = Vec::new();
    events.push(Event::CouncilBudgetFunded(member_id, amount, rationale));
    proof {
        assert(events@.len() == 1);
    }
    Ok(events)
}

} // verus!
