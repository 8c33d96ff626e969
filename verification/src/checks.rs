//! The admission checker: validates that a requested user action is legal
//! given the current stage, the candidacy records and the caller's
//! identity, and hands the mutator the data it needs. No check mutates
//! anything.
//!
//! Identity questions are answered by the external membership registry;
//! the host passes its verdicts in: the member's controller account, and
//! whether a claimed staking account belongs to the member.

use vstd::prelude::*;

use crate::ledger::Ledger;
use crate::state::CouncilState;
use crate::types::{
    AccountId, Balance, Candidate, CouncilStage, CouncilStageAnnouncing, Error, MemberId, Origin,
};

verus! {

/// The controller account a caller speaks for: the origin must be signed
/// by exactly the member's controller account, as the external registry
/// reports it (`member_controller`; absent for an unknown member).
pub open spec fn spec_user_membership(
    origin: Origin,
    member_controller: Option<AccountId>,
) -> Result<AccountId, Error> {
    match (origin, member_controller) {
        (Origin::Signed(account), Some(controller)) => if account == controller {
            Ok(account)
        } else {
            Err(Error::MemberIdNotMatchAccount)
        },
        _ => Err(Error::MemberIdNotMatchAccount),
    }
}

/// Resolve the caller's controlling account for a claimed member identity.
pub fn ensure_user_membership(origin: Origin, member_controller: Option<AccountId>) -> (r: Result<
    AccountId,
    Error,
>)
    ensures
        r == spec_user_membership(origin, member_controller),
{
    match (origin, member_controller) {
        (Origin::Signed(account), Some(controller)) => if account == controller {
            Ok(account)
        } else {
            Err(Error::MemberIdNotMatchAccount)
        },
        _ => Err(Error::MemberIdNotMatchAccount),
    }
}

/// Admission rule for announcing a candidacy, in order: the caller must
/// control the member; the staking account must belong to the member
/// (`staking_account_ok`, the registry's verdict) and be free of
/// conflicting stake purposes (`free_of_conflicting_stakes`, the stake
/// subsystem's verdict); the stage must be announcing; a live candidacy
/// for the member must not exist (a stale one is released and replaced,
/// its staking account returned); the stake must reach the configured
/// minimum and be covered by the account's balance.
pub open spec fn spec_can_announce_candidacy(
    st: CouncilState,
    lg: Ledger,
    origin: Origin,
    membership_id: MemberId,
    member_controller: Option<AccountId>,
    staking_account_ok: bool,
    free_of_conflicting_stakes: bool,
    staking_account_id: AccountId,
    stake: Balance,
) -> Result<(CouncilStageAnnouncing, Option<AccountId>), Error> {
    if spec_user_membership(origin, member_controller) is Err {
        Err(Error::MemberIdNotMatchAccount)
    } else if !staking_account_ok {
        Err(Error::MemberIdNotMatchAccount)
    } else if !free_of_conflicting_stakes {
        Err(Error::ConflictingStake)
    } else {
        match st.stage.stage {
            CouncilStage::Announcing(stage_data) => {
                if st.candidates@.contains_key(membership_id) && st.candidates@[
                    membership_id
                ].cycle_id == st.announcement_period_nr {
                    Err(Error::CantCandidateTwice)
                } else {
                    let existing = if st.candidates@.contains_key(membership_id) {
                        Some(st.candidates@[membership_id].staking_account_id)
                    } else {
                        None
                    };
                    if stake < st.params.min_candidate_stake {
                        Err(Error::CandidacyStakeTooLow)
                    } else if !(lg.balance_of(staking_account_id) >= stake) {
                        Err(Error::InsufficientBalanceForStaking)
                    } else {
                        Ok((stage_data, existing))
                    }
                }
            },
            _ => Err(Error::CantCandidateNow),
        }
    }
}

/// Check that a candidacy announcement is admissible.
pub fn can_announce_candidacy(
    st: &CouncilState,
    lg: &Ledger,
    origin: Origin,
    membership_id: MemberId,
    member_controller: Option<AccountId>,
    staking_account_ok: bool,
    free_of_conflicting_stakes: bool,
    staking_account_id: AccountId,
    stake: Balance,
) -> (r: Result<(CouncilStageAnnouncing, Option<AccountId>), Error>)
    ensures
        r == spec_can_announce_candidacy(
            *st,
            *lg,
            origin,
            membership_id,
            member_controller,
            staking_account_ok,
            free_of_conflicting_stakes,
            staking_account_id,
            stake,
        ),
{
    if let Err(_) = ensure_user_membership(origin, member_controller) {
        return Err(Error::MemberIdNotMatchAccount);
    }
    if !staking_account_ok {
        return Err(Error::MemberIdNotMatchAccount);
    }
    if !free_of_conflicting_stakes {
        return Err(Error::ConflictingStake);
    }
    let stage_data = match st.stage.stage {
        CouncilStage::Announcing(stage_data) => stage_data,
        _ => {
            return Err(Error::CantCandidateNow);
        },
    };
    let mut existing_staking_account_id: Option<AccountId> = None;
    if let Some(candidate) = st.candidate(membership_id) {
        if candidate.cycle_id == st.announcement_period_nr {
            return Err(Error::CantCandidateTwice);
        }
        existing_staking_account_id = Some(candidate.staking_account_id);
    }
    if stake < st.params.min_candidate_stake {
        return Err(Error::CandidacyStakeTooLow);
    }
    if !lg.is_enough_balance_for_stake(staking_account_id, stake) {
        return Err(Error::InsufficientBalanceForStaking);
    }
    Ok((stage_data, existing_staking_account_id))
}

/// Admission rule for releasing candidacy stake: the caller must control
/// the member, a candidacy record must exist, and a record of the current
/// cycle may only be released once the cycle has concluded (idle stage); a
/// stale record may be released at any time.
pub open spec fn spec_can_release_candidacy_stake(
    st: CouncilState,
    origin: Origin,
    membership_id: MemberId,
    member_controller: Option<AccountId>,
) -> Result<AccountId, Error> {
    if spec_user_membership(origin, member_controller) is Err {
        Err(Error::MemberIdNotMatchAccount)
    } else if !st.candidates@.contains_key(membership_id) {
        Err(Error::NoStake)
    } else if st.candidates@[membership_id].cycle_id == st.announcement_period_nr
        && !(st.stage.stage is Idle) {
        Err(Error::StakeStillNeeded)
    } else {
        Ok(st.candidates@[membership_id].staking_account_id)
    }
}

/// Check that releasing a member's candidacy stake is admissible.
pub fn can_release_candidacy_stake(
    st: &CouncilState,
    origin: Origin,
    membership_id: MemberId,
    member_controller: Option<AccountId>,
) -> (r: Result<AccountId, Error>)
    ensures
        r == spec_can_release_candidacy_stake(*st, origin, membership_id, member_controller),
{
    if let Err(_) = ensure_user_membership(origin, member_controller) {
        return Err(Error::MemberIdNotMatchAccount);
    }
    match st.candidate(membership_id) {
        None => Err(Error::NoStake),
        Some(candidate) => {
            let is_idle = match st.stage.stage {
                CouncilStage::Idle(_) => true,
                _ => false,
            };
            if candidate.cycle_id == st.announcement_period_nr && !is_idle {
                return Err(Error::StakeStillNeeded);
            }
            Ok(candidate.staking_account_id)
        },
    }
}

/// Admission rule for withdrawing a candidacy: the caller must control the
/// member, a record must exist, the stage must be announcing, and the
/// record must belong to the current cycle.
pub open spec fn spec_can_withdraw_candidacy(
    st: CouncilState,
    origin: Origin,
    membership_id: MemberId,
    member_controller: Option<AccountId>,
) -> Result<(CouncilStageAnnouncing, Candidate), Error> {
    if spec_user_membership(origin, member_controller) is Err {
        Err(Error::MemberIdNotMatchAccount)
    } else if !st.candidates@.contains_key(membership_id) {
        Err(Error::NotCandidatingNow)
    } else {
        match st.stage.stage {
            CouncilStage::Announcing(stage_data) => {
                if st.candidates@[membership_id].cycle_id != st.announcement_period_nr {
                    Err(Error::NotCandidatingNow)
                } else {
                    Ok((stage_data, st.candidates@[membership_id]))
                }
            },
            _ => Err(Error::CantWithdrawCandidacyNow),
        }
    }
}

/// Check that withdrawing a candidacy is admissible.
pub fn can_withdraw_candidacy(
    st: &CouncilState,
    origin: Origin,
    membership_id: MemberId,
    member_controller: Option<AccountId>,
) -> (r: Result<(CouncilStageAnnouncing, Candidate), Error>)
    ensures
        r == spec_can_withdraw_candidacy(*st, origin, membership_id, member_controller),
{
    if let Err(_) = ensure_user_membership(origin, member_controller) {
        return Err(Error::MemberIdNotMatchAccount);
    }
    match st.candidate(membership_id) {
        None => Err(Error::NotCandidatingNow),
        Some(candidate) => {
            match st.stage.stage {
                CouncilStage::Announcing(stage_data) => {
                    if candidate.cycle_id != st.announcement_period_nr {
                        return Err(Error::NotCandidatingNow);
                    }
                    Ok((stage_data, candidate))
                },
                _ => Err(Error::CantWithdrawCandidacyNow),
            }
        },
    }
}

/// Admission rule for setting a candidacy note: the caller must control
/// the member, a live-cycle record must exist, and the election must not
/// have concluded (idle stage).
pub open spec fn spec_can_set_candidacy_note(
    st: CouncilState,
    origin: Origin,
    membership_id: MemberId,
    member_controller: Option<AccountId>,
) -> Result<(), Error> {
    if spec_user_membership(origin, member_controller) is Err {
        Err(Error::MemberIdNotMatchAccount)
    } else if !st.candidates@.contains_key(membership_id) {
        Err(Error::NotCandidatingNow)
    } else if st.candidates@[membership_id].cycle_id != st.announcement_period_nr {
        Err(Error::NotCandidatingNow)
    } else if st.stage.stage is Idle {
        Err(Error::NotCandidatingNow)
    } else {
        Ok(())
    }
}

/// Check that setting a candidacy note is admissible.
pub fn can_set_candidacy_note(
    st: &CouncilState,
    origin: Origin,
    membership_id: MemberId,
    member_controller: Option<AccountId>,
) -> (r: Result<(), Error>)
    ensures
        r == spec_can_set_candidacy_note(*st, origin, membership_id, member_controller),
{
    if let Err(_) = ensure_user_membership(origin, member_controller) {
        return Err(Error::MemberIdNotMatchAccount);
    }
    match st.candidate(membership_id) {
        None => Err(Error::NotCandidatingNow),
        Some(candidate) => {
            if candidate.cycle_id != st.announcement_period_nr {
                return Err(Error::NotCandidatingNow);
            }
            match st.stage.stage {
                CouncilStage::Idle(_) => Err(Error::NotCandidatingNow),
                _ => Ok(()),
            }
        },
    }
}

/// Administrative actions are open to the privileged root origin alone.
pub open spec fn spec_root_only(origin: Origin) -> Result<(), Error> {
    if origin is Root {
        Ok(())
    } else {
        Err(Error::BadOrigin)
    }
}

/// Check that the budget balance may be set.
pub fn can_set_budget(origin: Origin) -> (r: Result<(), Error>)
    ensures
        r == spec_root_only(origin),
{
    ensure_root(origin)
}

/// Check that the next budget refill may be planned.
pub fn can_plan_budget_refill(origin: Origin) -> (r: Result<(), Error>)
    ensures
        r == spec_root_only(origin),
{
    ensure_root(origin)
}

/// Check that the budget increment may be set.
pub fn can_set_budget_increment(origin: Origin) -> (r: Result<(), Error>)
    ensures
        r == spec_root_only(origin),
{
    ensure_root(origin)
}

/// Check that the councilor reward may be set.
pub fn can_set_councilor_reward(origin: Origin) -> (r: Result<(), Error>)
    ensures
        r == spec_root_only(origin),
{
    ensure_root(origin)
}

/// Check that the council budget may be decreased.
pub fn can_decrease_council_budget(origin: Origin) -> (r: Result<(), Error>)
    ensures
        r == spec_root_only(origin),
{
    ensure_root(origin)
}

/// Require the privileged root origin.
pub fn ensure_root(origin: Origin) -> (r: Result<(), Error>)
    ensures
        r == spec_root_only(origin),
{
    match origin {
        Origin::Root => Ok(()),
        _ => Err(Error::BadOrigin),
    }
}

} // verus!
