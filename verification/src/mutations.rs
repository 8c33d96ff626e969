//! The state mutator: the only functions that write the council state, the
//! candidacy records and the stake locks. Each write is atomic from the
//! caller's point of view and preserves the locking invariant.

use vstd::prelude::*;

use crate::calculations::{sat_add, sat_add64};
use crate::ledger::Ledger;
use crate::state::CouncilState;
use crate::types::{AccountId, Candidate, CouncilMember, Error, MemberId};
use crate::types::{
    Balance, BlockNumber, CouncilStage, CouncilStageAnnouncing, CouncilStageElection,
    CouncilStageUpdate, ReferendumStartRequest,
};

verus! {

/// Enter a fresh announcing stage at `now` and bump the cycle counter.
/// Returns the precomputed end block of the new stage.
pub fn start_announcing_period(st: &mut CouncilState, now: BlockNumber) -> (ends_at: BlockNumber)
    ensures
        ends_at == sat_add64(now, old(st).params.announcing_period_duration),
        *final(st) == (CouncilState {
            stage: CouncilStageUpdate {
                stage: CouncilStage::Announcing(
                    CouncilStageAnnouncing { candidates_count: 0u32, ends_at },
                ),
                changed_at: now,
            },
            announcement_period_nr: sat_add64(old(st).announcement_period_nr, 1),
            ..*old(st)
        }),
{
    let ends_at = sat_add(now, st.params.announcing_period_duration);
    st.stage = CouncilStageUpdate {
        stage: CouncilStage::Announcing(CouncilStageAnnouncing { candidates_count: 0, ends_at }),
        changed_at: now,
    };
    st.announcement_period_nr = sat_add(st.announcement_period_nr, 1);
    ends_at
}

/// Move from the announcing stage to the election stage at `now`, and hand
/// back the start instruction for the external voting subsystem: one
/// winning slot fewer than the council size (the subsystem accounts for one
/// slot itself), tagged with the current cycle.
pub fn finalize_announcing_period(
    st: &mut CouncilState,
    now: BlockNumber,
    candidates_count: u32,
) -> (r: ReferendumStartRequest)
    ensures
        r.extra_winning_target_count == old(st).params.council_size.saturating_sub(1),
        r.cycle_id == old(st).announcement_period_nr,
        *final(st) == (CouncilState {
            stage: CouncilStageUpdate {
                stage: CouncilStage::Election(CouncilStageElection { candidates_count }),
                changed_at: now,
            },
            ..*old(st)
        }),
{
    let extra_winning_target_count = st.params.council_size.saturating_sub(1);
    st.stage = CouncilStageUpdate {
        stage: CouncilStage::Election(CouncilStageElection { candidates_count }),
        changed_at: now,
    };
    ReferendumStartRequest { extra_winning_target_count, cycle_id: st.announcement_period_nr }
}

/// Release a member's candidacy stake: remove the candidacy lock from the
/// staking account and drop the candidacy record.
pub fn release_candidacy_stake(
    st: &mut CouncilState,
    lg: &mut Ledger,
    membership_id: MemberId,
    account_id: AccountId,
)
    requires
        old(st).locks_consistent(*old(lg)),
        old(st).candidates@.contains_key(membership_id),
        old(st).candidates@[membership_id].staking_account_id == account_id,
    ensures
        final(st).candidates@ == old(st).candidates@.remove(membership_id),
        *final(st) == (CouncilState { candidates: final(st).candidates, ..*old(st) }),
        final(lg).candidacy_locks@ == old(lg).candidacy_locks@.remove(account_id),
        final(lg).balances@ == old(lg).balances@,
        final(lg).councilor_locks@ == old(lg).councilor_locks@,
        final(st).locks_consistent(*final(lg)),
{
    lg.unlock_candidacy(account_id);
    st.candidates.remove(&membership_id);
    proof {
        CouncilState::lemma_locks_after_candidate_remove(
            *old(st),
            *st,
            *old(lg),
            *lg,
            membership_id,
        );
    }
}

/// Record a new candidacy: insert the record, raise the announcing stage's
/// candidate count, and lock the stake on the staking account. Fails with
/// an arithmetic error, changing nothing, iff the candidate count cannot be
/// incremented.
pub fn announce_candidacy(
    st: &mut CouncilState,
    lg: &mut Ledger,
    stage_data: &CouncilStageAnnouncing,
    membership_id: MemberId,
    candidate: &Candidate,
    stake: Balance,
) -> (r: Result<(), Error>)
    requires
        old(st).locks_consistent(*old(lg)),
        old(st).stage.stage == CouncilStage::Announcing(*stage_data),
        !old(st).candidates@.contains_key(membership_id),
        forall|m: MemberId| old(st).candidates@.contains_key(m)
            ==> old(st).candidates@[m].staking_account_id != candidate.staking_account_id,
        candidate.stake == stake,
    ensures
        match r {
            Ok(()) => {
                &&& stage_data.candidates_count < u32::MAX
                &&& final(st).candidates@ == old(st).candidates@.insert(
                    membership_id,
                    *candidate,
                )
                &&& *final(st) == (CouncilState {
                    candidates: final(st).candidates,
                    stage: CouncilStageUpdate {
                        stage: CouncilStage::Announcing(
                            CouncilStageAnnouncing {
                                candidates_count: (stage_data.candidates_count + 1) as u32,
                                ends_at: stage_data.ends_at,
                            },
                        ),
                        changed_at: old(st).stage.changed_at,
                    },
                    ..*old(st)
                })
                &&& final(lg).candidacy_locks@ == old(lg).candidacy_locks@.insert(
                    candidate.staking_account_id,
                    stake,
                )
                &&& final(lg).balances@ == old(lg).balances@
                &&& final(lg).councilor_locks@ == old(lg).councilor_locks@
                &&& final(st).locks_consistent(*final(lg))
            },
            Err(e) => {
                &&& e == Error::ArithmeticError
                &&& stage_data.candidates_count == u32::MAX
                &&& *final(st) == *old(st)
                &&& *final(lg) == *old(lg)
            },
        },
{
    let new_count = match stage_data.candidates_count.checked_add(1) {
        Some(c) => c,
        None => {
            return Err(Error::ArithmeticError);
        },
    };
    st.candidates.insert(membership_id, *candidate);
    st.stage = CouncilStageUpdate {
        stage: CouncilStage::Announcing(
            CouncilStageAnnouncing { candidates_count: new_count, ends_at: stage_data.ends_at },
        ),
        changed_at: st.stage.changed_at,
    };
    lg.lock_candidacy(candidate.staking_account_id, stake);
    proof {
        CouncilState::lemma_locks_after_candidate_insert(
            *old(st),
            *st,
            *old(lg),
            *lg,
            membership_id,
            *candidate,
        );
    }
    Ok(())
}

/// Withdraw an announced candidacy: release its stake and record, and lower
/// the announcing stage's candidate count.
pub fn withdraw_candidacy(
    st: &mut CouncilState,
    lg: &mut Ledger,
    stage_data: &CouncilStageAnnouncing,
    membership_id: MemberId,
    candidate: &Candidate,
)
    requires
        old(st).locks_consistent(*old(lg)),
        old(st).stage.stage == CouncilStage::Announcing(*stage_data),
        old(st).candidates@.contains_key(membership_id),
        old(st).candidates@[membership_id].staking_account_id == candidate.staking_account_id,
    ensures
        final(st).candidates@ == old(st).candidates@.remove(membership_id),
        *final(st) == (CouncilState {
            candidates: final(st).candidates,
            stage: CouncilStageUpdate {
                stage: CouncilStage::Announcing(
                    CouncilStageAnnouncing {
                        candidates_count: stage_data.candidates_count.saturating_sub(1),
                        ends_at: stage_data.ends_at,
                    },
                ),
                changed_at: old(st).stage.changed_at,
            },
            ..*old(st)
        }),
        final(lg).candidacy_locks@ == old(lg).candidacy_locks@.remove(
            candidate.staking_account_id,
        ),
        final(lg).balances@ == old(lg).balances@,
        final(lg).councilor_locks@ == old(lg).councilor_locks@,
        final(st).locks_consistent(*final(lg)),
{
    release_candidacy_stake(st, lg, membership_id, candidate.staking_account_id);
    st.stage = CouncilStageUpdate {
        stage: CouncilStage::Announcing(
            CouncilStageAnnouncing {
                candidates_count: stage_data.candidates_count.saturating_sub(1),
                ends_at: stage_data.ends_at,
            },
        ),
        changed_at: st.stage.changed_at,
    };
    proof {
        CouncilState::lemma_locks_after_candidate_remove(
            *old(st),
            *st,
            *old(lg),
            *lg,
            membership_id,
        );
    }
}

/// Attach a note hash to a member's candidacy record. Without a record for
/// the member, nothing changes.
pub fn set_candidacy_note(st: &mut CouncilState, membership_id: MemberId, note_hash: u64)
    ensures
        final(st).candidates@ == if old(st).candidates@.contains_key(membership_id) {
            old(st).candidates@.insert(
                membership_id,
                Candidate {
                    note_hash: Some(note_hash),
                    ..old(st).candidates@[membership_id]
                },
            )
        } else {
            old(st).candidates@
        },
        *final(st) == (CouncilState { candidates: final(st).candidates, ..*old(st) }),
        forall|lg: Ledger| old(st).locks_consistent(lg) ==> final(st).locks_consistent(lg),
{
    let existing = match st.candidates.get(&membership_id) {
        Some(c) => Some(*c),
        None => None,
    };
    if let Some(c) = existing {
        let updated = Candidate { note_hash: Some(note_hash), ..c };
        st.candidates.insert(membership_id, updated);
        proof {
            assert forall|lg: Ledger| old(st).locks_consistent(lg) implies st.locks_consistent(
                lg,
            ) by {
                CouncilState::lemma_locks_after_candidate_update(
                    *old(st),
                    *st,
                    lg,
                    membership_id,
                    updated,
                );
            }
        }
    }
}

/// Pay one seated member: mint the payable amount into the reward account
/// and record the payment block and the unpaid residue on the seat.
pub fn pay_reward(
    st: &mut CouncilState,
    lg: &mut Ledger,
    member_index: usize,
    account_id: AccountId,
    amount: Balance,
    missing_balance: Balance,
    now: BlockNumber,
)
    requires
        member_index < old(st).council_members@.len(),
    ensures
        final(st).council_members@ == old(st).council_members@.update(
            member_index as int,
            CouncilMember {
                last_payment_block: now,
                unpaid_reward: missing_balance,
                ..old(st).council_members@[member_index as int]
            },
        ),
        *final(st) == (CouncilState {
            council_members: final(st).council_members,
            ..*old(st)
        }),
        final(lg).balances@ == old(lg).balances@.insert(
            account_id,
            sat_add64(old(lg).balance_of(account_id), amount),
        ),
        final(lg).candidacy_locks@ == old(lg).candidacy_locks@,
        final(lg).councilor_locks@ == old(lg).councilor_locks@,
{
    lg.deposit(account_id, amount);
    let m = st.council_members[member_index];
    let updated = CouncilMember { last_payment_block: now, unpaid_reward: missing_balance, ..m };
    st.council_members[member_index] = updated;
}

/// Set the budget balance.
pub fn set_budget(st: &mut CouncilState, balance: Balance)
    ensures
        *final(st) == (CouncilState { budget: balance, ..*old(st) }),
{
    st.budget = balance;
}

/// Increase the budget balance, saturating at the maximum.
pub fn increase_budget(st: &mut CouncilState, amount: Balance)
    ensures
        *final(st) == (CouncilState {
            budget: sat_add64(old(st).budget, amount),
            ..*old(st)
        }),
{
    st.budget = sat_add(st.budget, amount);
}

/// Decrease the budget balance, saturating at zero.
pub fn decrease_budget(st: &mut CouncilState, amount: Balance)
    ensures
        *final(st) == (CouncilState {
            budget: crate::calculations::sat_sub64(old(st).budget, amount),
            ..*old(st)
        }),
{
    st.budget = crate::calculations::sat_sub(st.budget, amount);
}

/// Plan the next automatic budget refill.
pub fn plan_budget_refill(st: &mut CouncilState, refill_at: BlockNumber)
    ensures
        *final(st) == (CouncilState { next_budget_refill: refill_at, ..*old(st) }),
{
    st.next_budget_refill = refill_at;
}

/// Set the amount added at every budget refill.
pub fn set_budget_increment(st: &mut CouncilState, budget_increment: Balance)
    ensures
        *final(st) == (CouncilState { budget_increment, ..*old(st) }),
{
    st.budget_increment = budget_increment;
}

/// Set the per-block councilor reward.
pub fn set_councilor_reward(st: &mut CouncilState, councilor_reward: Balance)
    ensures
        *final(st) == (CouncilState { councilor_reward, ..*old(st) }),
{
    st.councilor_reward = councilor_reward;
}

/// Persist the balance left after a payout pass and schedule the next one.
pub fn finish_reward_payments(st: &mut CouncilState, new_balance: Balance, now: BlockNumber)
    ensures
        *final(st) == (CouncilState {
            budget: new_balance,
            next_reward_payments: sat_add64(now, old(st).params.elected_member_reward_period),
            ..*old(st)
        }),
{
    st.budget = new_balance;
    st.next_reward_payments = sat_add(now, st.params.elected_member_reward_period);
}

} // verus!
