//! Data structures of the council lifecycle.

use vstd::prelude::*;

verus! {

/// Time is a monotonically increasing block counter.
pub type BlockNumber = u64;

/// Balances are plain integral token amounts.
pub type Balance = u64;

/// A member identity in the external membership registry.
pub type MemberId = u64;

/// An account in the external ledger.
pub type AccountId = u64;

/// Accumulated voting weight reported by the voting subsystem.
pub type VotePower = u64;

/// Candidacy announcement stage: users may announce, withdraw, or replace
/// their candidacies until `ends_at` arrives.
///
/// `ends_at` is precomputed when the stage is entered, so later changes to
/// the configured announcing duration never alter an in-progress stage.
#[derive(Clone, Copy, PartialEq, Eq, Debug)]
pub struct CouncilStageAnnouncing {
    pub candidates_count: u32,
    pub ends_at: BlockNumber,
}

/// Election stage: the external voting subsystem collects votes over the
/// `candidates_count` candidates announced in the current cycle.
#[derive(Clone, Copy, PartialEq, Eq, Debug)]
pub struct CouncilStageElection {
    pub candidates_count: u32,
}

/// Idle stage: a council is seated (or none could be elected yet) and no
/// election activity happens until `ends_at` arrives.
///
/// `ends_at` is precomputed at stage entry, as for announcing.
#[derive(Clone, Copy, PartialEq, Eq, Debug)]
pub struct CouncilStageIdle {
    pub ends_at: BlockNumber,
}

/// The single currently-active phase of the council lifecycle.
#[derive(Clone, Copy, PartialEq, Eq, Debug)]
pub enum CouncilStage {
    /// Candidacy announcement period.
    Announcing(CouncilStageAnnouncing),
    /// Election of the new council.
    Election(CouncilStageElection),
    /// The idle phase - no new council election is running now.
    Idle(CouncilStageIdle),
}

impl Default for CouncilStage {
    /// The initial stage is an idle phase that ends at block 1.
    fn default() -> (r: CouncilStage)
        ensures
            r == (CouncilStage::Idle(CouncilStageIdle { ends_at: 1u64 })),
    {
        CouncilStage::Idle(CouncilStageIdle { ends_at: 1u64 })
    }
}

/// The edges the lifecycle may walk: idle leads only into announcing;
/// announcing restarts or leads into an election; an election concludes
/// into idle or, when it fails, back into announcing. A stage may also
/// stay where it is (including an announcing stage whose candidate count
/// moves).
pub open spec fn stage_transition_ok(pre: CouncilStage, post: CouncilStage) -> bool {
    match pre {
        CouncilStage::Idle(_) => post == pre || post is Announcing,
        CouncilStage::Announcing(_) => post is Announcing || post is Election,
        CouncilStage::Election(_) => post == pre || post is Idle || post is Announcing,
    }
}

/// The active stage together with the block at which it began.
#[derive(Clone, Copy, PartialEq, Eq, Debug)]
pub struct CouncilStageUpdate {
    pub stage: CouncilStage,
    pub changed_at: BlockNumber,
}

impl Default for CouncilStageUpdate {
    /// Initially the default idle stage, entered at block 0.
    fn default() -> (r: CouncilStageUpdate)
        ensures
            r.stage == (CouncilStage::Idle(CouncilStageIdle { ends_at: 1u64 })),
            r.changed_at == 0u64,
    {
        CouncilStageUpdate { stage: CouncilStage::Idle(CouncilStageIdle { ends_at: 1u64 }), changed_at: 0u64 }
    }
}

/// One candidacy record, kept from announcement until the stake is released.
///
/// A record whose `cycle_id` equals the current global cycle counter is a
/// live candidacy; a stale `cycle_id` marks a leftover from a past cycle
/// whose stake still awaits release.
#[derive(Clone, Copy, PartialEq, Eq, Debug)]
pub struct Candidate {
    pub staking_account_id: AccountId,
    pub reward_account_id: AccountId,
    pub cycle_id: u64,
    pub stake: Balance,
    pub vote_power: VotePower,
    pub note_hash: Option<u64>,
}

/// One seated council seat.
#[derive(Clone, Copy, PartialEq, Eq, Debug)]
pub struct CouncilMember {
    pub staking_account_id: AccountId,
    pub reward_account_id: AccountId,
    pub membership_id: MemberId,
    pub stake: Balance,
    pub last_payment_block: BlockNumber,
    pub unpaid_reward: Balance,
}

impl CouncilMember {
    /// The identity holding this seat.
    pub fn member_id(&self) -> (r: &MemberId)
        ensures
            *r == self.membership_id,
    {
        &self.membership_id
    }

    /// Builds the seat record for a winning candidate: the candidacy's
    /// accounts and stake carry over, payments start counting from `now`
    /// and nothing is owed yet.
    pub fn from_candidate(candidate: &Candidate, membership_id: MemberId, now: BlockNumber) -> (r: CouncilMember)
        ensures
            r == (CouncilMember {
                staking_account_id: candidate.staking_account_id,
                reward_account_id: candidate.reward_account_id,
                membership_id: membership_id,
                stake: candidate.stake,
                last_payment_block: now,
                unpaid_reward: 0u64,
            }),
    {
        CouncilMember {
            staking_account_id: candidate.staking_account_id,
            reward_account_id: candidate.reward_account_id,
            membership_id: membership_id,
            stake: candidate.stake,
            last_payment_block: now,
            unpaid_reward: 0u64,
        }
    }
}

/// One winning option as reported by the external voting subsystem.
#[derive(Clone, Copy, PartialEq, Eq, Debug)]
pub struct OptionResult {
    pub option_id: MemberId,
    pub vote_power: VotePower,
}

/// A vote as recorded by the external voting subsystem, reduced to the
/// fields this crate's release rule reads.
#[derive(Clone, Copy, PartialEq, Eq, Debug)]
pub struct CastVote {
    pub cycle_id: u64,
    pub stake: Balance,
    pub vote_for: Option<MemberId>,
}

/// One entry of a funding-request batch.
#[derive(Clone, Copy, PartialEq, Eq, Debug)]
pub struct FundingRequestParameters {
    pub account: AccountId,
    pub amount: Balance,
}

/// The origin of a user-submitted action: the privileged root origin or a
/// transaction signed by an account.
#[derive(Clone, Copy, PartialEq, Eq, Debug)]
pub enum Origin {
    Root,
    Signed(AccountId),
}

/// Instruction to the external voting subsystem to start an election,
/// handed to the host when the announcing stage concludes successfully.
///
/// The subsystem is asked for `extra_winning_target_count` winners beyond
/// the one slot it accounts for by itself; the count is therefore one less
/// than the council size.
#[derive(Clone, Copy, PartialEq, Eq, Debug)]
pub struct ReferendumStartRequest {
    pub extra_winning_target_count: u32,
    pub cycle_id: u64,
}

/// Reasons a user action is refused. A refused action has no effect.
#[derive(Clone, Copy, PartialEq, Eq, Debug)]
pub enum Error {
    /// Unexpected arithmetic error (overflow / underflow).
    ArithmeticError,
    /// Origin is invalid.
    BadOrigin,
    /// User tried to announce candidacy outside of the candidacy announcement period.
    CantCandidateNow,
    /// User tried to release stake outside of the revealing period.
    CantReleaseStakeNow,
    /// Candidate haven't provided sufficient stake.
    CandidacyStakeTooLow,
    /// User tried to announce candidacy twice in the same elections.
    CantCandidateTwice,
    /// User tried to announce candidacy with an account that has the
    /// conflicting type of stake.
    ConflictingStake,
    /// Council member and candidates can't withdraw stake yet.
    StakeStillNeeded,
    /// User tried to release stake when no stake exists.
    NoStake,
    /// Insufficient balance for candidacy staking.
    InsufficientBalanceForStaking,
    /// Invalid membership.
    MemberIdNotMatchAccount,
    /// User tried to withdraw candidacy when not candidating.
    NotCandidatingNow,
    /// Can't withdraw candidacy outside of the candidacy announcement period.
    CantWithdrawCandidacyNow,
    /// The member is not a councilor.
    NotCouncilor,
    /// Insufficient funds in council for executing a funding request.
    InsufficientFundsForFundingRequest,
    /// Fund request with no balance.
    ZeroBalanceFundRequest,
    /// The same account is receiving funds from the same request twice.
    RepeatedFundRequestAccount,
    /// Funding requests without receiving accounts.
    EmptyFundingRequests,
    /// Insufficient tokens for funding on the member's controller account.
    InsufficientTokensForFunding,
    /// Trying to fund with zero tokens.
    ZeroTokensFunding,
    /// Candidate id not found.
    CandidateDoesNotExist,
    /// Cannot withdraw: insufficient budget balance.
    InsufficientBalanceForTransfer,
}

/// Observable effects of an operation, in the order they happened.
#[derive(PartialEq, Eq, Debug)]
pub enum Event {
    /// A new announcing period started; its precomputed end block.
    AnnouncingPeriodStarted(BlockNumber),
    /// The announcing period could not conclude for lack of candidates and
    /// restarted; the new period's end block.
    NotEnoughCandidates(BlockNumber),
    /// Candidates are announced and voting starts.
    VotingPeriodStarted(u32),
    /// New candidate announced: member, staking account, reward account, stake.
    NewCandidate(MemberId, AccountId, AccountId, Balance),
    /// New council was elected and appointed; the idle stage's end block.
    NewCouncilElected(Vec<MemberId>, BlockNumber),
    /// New council was not elected; the restarted announcing period's end block.
    NewCouncilNotElected(BlockNumber),
    /// Candidacy stake that was no longer needed was released.
    CandidacyStakeRelease(MemberId),
    /// Candidate has withdrawn his candidacy.
    CandidacyWithdraw(MemberId),
    /// The candidate has set a new note for their candidacy.
    CandidacyNoteSet(MemberId, Vec<u8>),
    /// Reward payment: member, reward account, paid amount, missing amount.
    RewardPayment(MemberId, AccountId, Balance, Balance),
    /// Budget balance was set by the root.
    BudgetBalanceSet(Balance),
    /// Budget balance was increased by automatic refill.
    BudgetRefill(Balance),
    /// The next budget refill was planned.
    BudgetRefillPlanned(BlockNumber),
    /// Budget increment has been updated.
    BudgetIncrementUpdated(Balance),
    /// Councilor reward has been updated.
    CouncilorRewardUpdated(Balance),
    /// Council budget has been decreased by the given amount.
    CouncilBudgetDecreased(Balance),
    /// A funding request entry was paid out to the account.
    RequestFunded(AccountId, Balance),
    /// The council budget was topped up by a member: member, amount, rationale.
    CouncilBudgetFunded(MemberId, Balance, Vec<u8>),
    /// Councilor remark message.
    CouncilorRemarked(MemberId, Vec<u8>),
    /// Candidate remark message.
    CandidateRemarked(MemberId, Vec<u8>),
}

} // verus!
