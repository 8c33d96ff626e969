//! The persistent council state: stage, candidacies, seats, budget figures
//! and schedule, together with the invariants tying it to the ledger's
//! stake locks.

use std::collections::HashMap;
use vstd::prelude::*;

use crate::ledger::Ledger;
use crate::types::{
    AccountId, Balance, BlockNumber, Candidate, CouncilMember, CouncilStage, CouncilStageIdle,
    CouncilStageUpdate, MemberId,
};

verus! {

broadcast use vstd::std_specs::hash::group_hash_axioms;

/// Configured durations and thresholds. These never change while an
/// operation runs; stage end blocks are precomputed at stage entry so a
/// reconfiguration never alters an in-progress stage.
#[derive(Clone, Copy, PartialEq, Eq, Debug)]
pub struct CouncilParams {
    /// Candidates needed beyond the council size for an election to start.
    pub min_number_of_extra_candidates: u32,
    /// Number of seats.
    pub council_size: u32,
    /// Minimum stake a candidate has to lock.
    pub min_candidate_stake: Balance,
    /// Duration of the announcing period.
    pub announcing_period_duration: BlockNumber,
    /// Duration of the idle period.
    pub idle_period_duration: BlockNumber,
    /// Interval for automatic reward payments.
    pub elected_member_reward_period: BlockNumber,
    /// Interval between automatic budget refills.
    pub budget_refill_period: BlockNumber,
}

/// All state this crate owns. No other component writes it.
pub struct CouncilState {
    /// Configuration.
    pub params: CouncilParams,
    /// Current council voting stage and when it began.
    pub stage: CouncilStageUpdate,
    /// Currently seated council, in seat order.
    pub council_members: Vec<CouncilMember>,
    /// All candidacies announced and not yet unstaked, by member identity.
    pub candidates: HashMap<MemberId, Candidate>,
    /// Index of the current candidacy cycle, incremented every time an
    /// announcing period starts.
    pub announcement_period_nr: u64,
    /// Budget for elected members' rewards.
    pub budget: Balance,
    /// The next block at which rewards will be paid.
    pub next_reward_payments: BlockNumber,
    /// The next block at which the budget will be refilled.
    pub next_budget_refill: BlockNumber,
    /// Amount added to the budget at every refill.
    pub budget_increment: Balance,
    /// Councilor reward per block.
    pub councilor_reward: Balance,
}

impl CouncilState {
    /// A candidacy is live when it was announced in the current cycle.
    pub open spec fn is_live_candidate(self, membership_id: MemberId) -> bool {
        self.candidates@.contains_key(membership_id)
            && self.candidates@[membership_id].cycle_id == self.announcement_period_nr
    }

    /// The member currently holds a seat.
    pub open spec fn is_councilor(self, membership_id: MemberId) -> bool {
        exists|i: int|
            0 <= i < self.council_members@.len()
                && self.council_members@[i].membership_id == membership_id
    }

    /// Distinct candidacy records stake from distinct accounts. The
    /// external membership registry binds a staking account to at most one
    /// member, so admission never accepts an account recorded for another
    /// member's candidacy.
    pub open spec fn candidate_accounts_distinct(self) -> bool {
        forall|m1: MemberId, m2: MemberId|
            self.candidates@.contains_key(m1) && self.candidates@.contains_key(m2) && m1 != m2
                ==> self.candidates@[m1].staking_account_id
                != self.candidates@[m2].staking_account_id
    }

    /// Distinct seats stake from distinct accounts.
    pub open spec fn council_accounts_distinct(self) -> bool {
        forall|i: int, j: int|
            0 <= i < self.council_members@.len() && 0 <= j < self.council_members@.len() && i != j
                ==> self.council_members@[i].staking_account_id
                != self.council_members@[j].staking_account_id
    }

    /// The accounts holding a candidacy lock are exactly the staking
    /// accounts of the recorded candidacies, each locked at its stake.
    pub open spec fn candidacy_locks_consistent(self, ledger: Ledger) -> bool {
        &&& forall|m: MemberId|
            self.candidates@.contains_key(m) ==> {
                &&& ledger.candidacy_locks@.contains_key(
                    #[trigger] self.candidates@[m].staking_account_id,
                )
                &&& ledger.candidacy_locks@[self.candidates@[m].staking_account_id]
                    == self.candidates@[m].stake
            }
        &&& forall|a: AccountId|
            #[trigger] ledger.candidacy_locks@.contains_key(a) ==> exists|m: MemberId|
                self.candidates@.contains_key(m) && self.candidates@[m].staking_account_id == a
    }

    /// The accounts holding a councilor lock are exactly the staking
    /// accounts of the seated members, each locked at its stake.
    pub open spec fn councilor_locks_consistent(self, ledger: Ledger) -> bool {
        &&& forall|i: int|
            0 <= i < self.council_members@.len() ==> {
                &&& ledger.councilor_locks@.contains_key(
                    #[trigger] self.council_members@[i].staking_account_id,
                )
                &&& ledger.councilor_locks@[self.council_members@[i].staking_account_id]
                    == self.council_members@[i].stake
            }
        &&& forall|a: AccountId|
            #[trigger] ledger.councilor_locks@.contains_key(a) ==> exists|i: int|
                0 <= i < self.council_members@.len()
                    && self.council_members@[i].staking_account_id == a
    }

    /// The locking invariant: both lock kinds mirror the records that
    /// justify them. Every operation preserves it.
    pub open spec fn locks_consistent(self, ledger: Ledger) -> bool {
        &&& self.candidate_accounts_distinct()
        &&& self.council_accounts_distinct()
        &&& self.candidacy_locks_consistent(ledger)
        &&& self.councilor_locks_consistent(ledger)
    }

    /// A fresh state: the default idle stage ending at block 1, no seats,
    /// no candidacies, all counters and figures at zero.
    pub fn new(params: CouncilParams) -> (r: CouncilState)
        ensures
            r.params == params,
            r.stage == (CouncilStageUpdate {
                stage: CouncilStage::Idle(CouncilStageIdle { ends_at: 1u64 }),
                changed_at: 0u64,
            }),
            r.council_members@ == Seq::<CouncilMember>::empty(),
            r.candidates@ == Map::<MemberId, Candidate>::empty(),
            r.announcement_period_nr == 0u64,
            r.budget == 0u64,
            r.next_reward_payments == 0u64,
            r.next_budget_refill == 0u64,
            r.budget_increment == 0u64,
            r.councilor_reward == 0u64,
    {
        CouncilState {
            params,
            stage: CouncilStageUpdate::default(),
            council_members: Vec::new(),
            candidates: HashMap::new(),
            announcement_period_nr: 0,
            budget: 0,
            next_reward_payments: 0,
            next_budget_refill: 0,
            budget_increment: 0,
            councilor_reward: 0,
        }
    }

    /// The locking invariant holds at the start of the world: with no
    /// candidacies and no seats, no account may hold either lock kind.
    /// Every operation preserves it from there.
    pub proof fn lemma_empty_locks_consistent(st: CouncilState, lg: Ledger)
        requires
            st.candidates@ == Map::<MemberId, Candidate>::empty(),
            st.council_members@ == Seq::<CouncilMember>::empty(),
            lg.candidacy_locks@ == Map::<AccountId, Balance>::empty(),
            lg.councilor_locks@ == Map::<AccountId, Balance>::empty(),
        ensures
            st.locks_consistent(lg),
    {
    }

    /// Removing a candidacy record together with the candidacy lock on its
    /// staking account keeps the locking invariant.
    pub proof fn lemma_locks_after_candidate_remove(
        pre: CouncilState,
        post: CouncilState,
        plg: Ledger,
        qlg: Ledger,
        membership_id: MemberId,
    )
        requires
            pre.locks_consistent(plg),
            pre.candidates@.contains_key(membership_id),
            post.candidates@ == pre.candidates@.remove(membership_id),
            post.council_members@ == pre.council_members@,
            qlg.candidacy_locks@ == plg.candidacy_locks@.remove(
                pre.candidates@[membership_id].staking_account_id,
            ),
            qlg.councilor_locks@ == plg.councilor_locks@,
        ensures
            post.locks_consistent(qlg),
    {
        let account_id = pre.candidates@[membership_id].staking_account_id;
        assert forall|m1: MemberId, m2: MemberId|
            post.candidates@.contains_key(m1) && post.candidates@.contains_key(m2) && m1 != m2
                implies post.candidates@[m1].staking_account_id
                != post.candidates@[m2].staking_account_id by {
            assert(pre.candidates@.contains_key(m1));
            assert(pre.candidates@.contains_key(m2));
        }
        assert forall|m: MemberId| post.candidates@.contains_key(m) implies {
            &&& qlg.candidacy_locks@.contains_key(#[trigger] post.candidates@[m].staking_account_id)
            &&& qlg.candidacy_locks@[post.candidates@[m].staking_account_id]
                == post.candidates@[m].stake
        } by {
            assert(pre.candidates@.contains_key(m));
            assert(pre.candidates@.contains_key(membership_id));
            assert(pre.candidates@[m].staking_account_id != account_id);
        }
        assert forall|a: AccountId| #[trigger] qlg.candidacy_locks@.contains_key(a) implies exists|
            m: MemberId,
        | post.candidates@.contains_key(m) && post.candidates@[m].staking_account_id == a by {
            let m = choose|m: MemberId|
                pre.candidates@.contains_key(m) && pre.candidates@[m].staking_account_id == a;
            assert(post.candidates@.contains_key(m) && post.candidates@[m].staking_account_id
                == a);
        }
    }

    /// Inserting a candidacy record for a fresh member staking from an
    /// account no other record uses, together with its candidacy lock,
    /// keeps the locking invariant.
    pub proof fn lemma_locks_after_candidate_insert(
        pre: CouncilState,
        post: CouncilState,
        plg: Ledger,
        qlg: Ledger,
        membership_id: MemberId,
        candidate: Candidate,
    )
        requires
            pre.locks_consistent(plg),
            !pre.candidates@.contains_key(membership_id),
            forall|m: MemberId| pre.candidates@.contains_key(m)
                ==> pre.candidates@[m].staking_account_id != candidate.staking_account_id,
            post.candidates@ == pre.candidates@.insert(membership_id, candidate),
            post.council_members@ == pre.council_members@,
            qlg.candidacy_locks@ == plg.candidacy_locks@.insert(
                candidate.staking_account_id,
                candidate.stake,
            ),
            qlg.councilor_locks@ == plg.councilor_locks@,
        ensures
            post.locks_consistent(qlg),
    {
        assert forall|m1: MemberId, m2: MemberId|
            post.candidates@.contains_key(m1) && post.candidates@.contains_key(m2) && m1 != m2
                implies post.candidates@[m1].staking_account_id
                != post.candidates@[m2].staking_account_id by {
            if m1 != membership_id && m2 != membership_id {
                assert(pre.candidates@.contains_key(m1));
                assert(pre.candidates@.contains_key(m2));
            }
        }
        assert forall|m: MemberId| post.candidates@.contains_key(m) implies {
            &&& qlg.candidacy_locks@.contains_key(#[trigger] post.candidates@[m].staking_account_id)
            &&& qlg.candidacy_locks@[post.candidates@[m].staking_account_id]
                == post.candidates@[m].stake
        } by {
            if m != membership_id {
                assert(pre.candidates@.contains_key(m));
            }
        }
        assert forall|a: AccountId| #[trigger] qlg.candidacy_locks@.contains_key(a) implies exists|
            m: MemberId,
        | post.candidates@.contains_key(m) && post.candidates@[m].staking_account_id == a by {
            if a == candidate.staking_account_id {
                assert(post.candidates@.contains_key(membership_id)
                    && post.candidates@[membership_id].staking_account_id == a);
            } else {
                let m = choose|m: MemberId|
                    pre.candidates@.contains_key(m) && pre.candidates@[m].staking_account_id == a;
                assert(post.candidates@.contains_key(m) && post.candidates@[m].staking_account_id
                    == a);
            }
        }
    }

    /// Replacing a candidacy record with one staking the same amount from
    /// the same account keeps the locking invariant with an unchanged
    /// ledger.
    pub proof fn lemma_locks_after_candidate_update(
        pre: CouncilState,
        post: CouncilState,
        lg: Ledger,
        membership_id: MemberId,
        candidate: Candidate,
    )
        requires
            pre.locks_consistent(lg),
            pre.candidates@.contains_key(membership_id),
            candidate.staking_account_id == pre.candidates@[membership_id].staking_account_id,
            candidate.stake == pre.candidates@[membership_id].stake,
            post.candidates@ == pre.candidates@.insert(membership_id, candidate),
            post.council_members@ == pre.council_members@,
        ensures
            post.locks_consistent(lg),
    {
        assert forall|m1: MemberId, m2: MemberId|
            post.candidates@.contains_key(m1) && post.candidates@.contains_key(m2) && m1 != m2
                implies post.candidates@[m1].staking_account_id
                != post.candidates@[m2].staking_account_id by {
            assert(pre.candidates@.contains_key(m1));
            assert(pre.candidates@.contains_key(m2));
        }
        assert forall|m: MemberId| post.candidates@.contains_key(m) implies {
            &&& lg.candidacy_locks@.contains_key(#[trigger] post.candidates@[m].staking_account_id)
            &&& lg.candidacy_locks@[post.candidates@[m].staking_account_id]
                == post.candidates@[m].stake
        } by {
            assert(pre.candidates@.contains_key(m));
        }
        assert forall|a: AccountId| #[trigger] lg.candidacy_locks@.contains_key(a) implies exists|
            m: MemberId,
        | post.candidates@.contains_key(m) && post.candidates@[m].staking_account_id == a by {
            let m = choose|m: MemberId|
                pre.candidates@.contains_key(m) && pre.candidates@[m].staking_account_id == a;
            assert(post.candidates@.contains_key(m) && post.candidates@[m].staking_account_id
                == a);
        }
    }

    /// Rewriting the seats' payment bookkeeping, with identities, accounts
    /// and stakes untouched, keeps the locking invariant.
    pub proof fn lemma_locks_after_member_rewards(
        pre: CouncilState,
        post: CouncilState,
        plg: Ledger,
        qlg: Ledger,
    )
        requires
            pre.locks_consistent(plg),
            post.candidates@ == pre.candidates@,
            qlg.candidacy_locks@ == plg.candidacy_locks@,
            qlg.councilor_locks@ == plg.councilor_locks@,
            post.council_members@.len() == pre.council_members@.len(),
            forall|i: int| 0 <= i < pre.council_members@.len() ==> {
                &&& (#[trigger] post.council_members@[i]).staking_account_id
                    == pre.council_members@[i].staking_account_id
                &&& post.council_members@[i].stake == pre.council_members@[i].stake
            },
        ensures
            post.locks_consistent(qlg),
    {
        assert forall|i: int, j: int|
            0 <= i < post.council_members@.len() && 0 <= j < post.council_members@.len() && i != j
                implies post.council_members@[i].staking_account_id
                != post.council_members@[j].staking_account_id by {
            assert(pre.council_members@[i].staking_account_id
                != pre.council_members@[j].staking_account_id);
        }
        assert forall|i: int| 0 <= i < post.council_members@.len() implies {
            &&& qlg.councilor_locks@.contains_key(
                #[trigger] post.council_members@[i].staking_account_id,
            )
            &&& qlg.councilor_locks@[post.council_members@[i].staking_account_id]
                == post.council_members@[i].stake
        } by {
            assert(plg.councilor_locks@.contains_key(pre.council_members@[i].staking_account_id));
        }
        assert forall|a: AccountId| #[trigger] qlg.councilor_locks@.contains_key(a) implies exists|
            i: int,
        | 0 <= i < post.council_members@.len() && post.council_members@[i].staking_account_id
            == a by {
            let i = choose|i: int|
                0 <= i < pre.council_members@.len()
                    && pre.council_members@[i].staking_account_id == a;
            assert(0 <= i < post.council_members@.len()
                && post.council_members@[i].staking_account_id == a);
        }
    }

    /// The locking invariant only reads the candidacy records and the
    /// seats: a state sharing both satisfies it against the same ledger.
    pub proof fn lemma_locks_same_records(pre: CouncilState, post: CouncilState, lg: Ledger)
        requires
            pre.locks_consistent(lg),
            post.candidates@ == pre.candidates@,
            post.council_members@ == pre.council_members@,
        ensures
            post.locks_consistent(lg),
    {
        assert forall|a: AccountId| #[trigger] lg.candidacy_locks@.contains_key(a) implies exists|
            m: MemberId,
        | post.candidates@.contains_key(m) && post.candidates@[m].staking_account_id == a by {
            let m = choose|m: MemberId|
                pre.candidates@.contains_key(m) && pre.candidates@[m].staking_account_id == a;
            assert(post.candidates@.contains_key(m) && post.candidates@[m].staking_account_id
                == a);
        }
        assert forall|a: AccountId| #[trigger] lg.councilor_locks@.contains_key(a) implies exists|
            i: int,
        | 0 <= i < post.council_members@.len() && post.council_members@[i].staking_account_id
            == a by {
            let i = choose|i: int|
                0 <= i < pre.council_members@.len()
                    && pre.council_members@[i].staking_account_id == a;
            assert(0 <= i < post.council_members@.len()
                && post.council_members@[i].staking_account_id == a);
        }
    }

    /// The current stage and when it began.
    pub fn stage(&self) -> (r: CouncilStageUpdate)
        ensures
            r == self.stage,
    {
        self.stage
    }

    /// The currently seated council, in seat order.
    pub fn council_members(&self) -> (r: &Vec<CouncilMember>)
        ensures
            r@ == self.council_members@,
    {
        &self.council_members
    }

    /// The index of the current candidacy cycle.
    pub fn announcement_period_nr(&self) -> (r: u64)
        ensures
            r == self.announcement_period_nr,
    {
        self.announcement_period_nr
    }

    /// The budget for elected members' rewards.
    pub fn budget(&self) -> (r: Balance)
        ensures
            r == self.budget,
    {
        self.budget
    }

    /// The next block at which rewards will be paid.
    pub fn next_reward_payments(&self) -> (r: BlockNumber)
        ensures
            r == self.next_reward_payments,
    {
        self.next_reward_payments
    }

    /// The next block at which the budget will be refilled.
    pub fn next_budget_refill(&self) -> (r: BlockNumber)
        ensures
            r == self.next_budget_refill,
    {
        self.next_budget_refill
    }

    /// The amount added to the budget at every refill.
    pub fn budget_increment(&self) -> (r: Balance)
        ensures
            r == self.budget_increment,
    {
        self.budget_increment
    }

    /// The per-block councilor reward.
    pub fn councilor_reward(&self) -> (r: Balance)
        ensures
            r == self.councilor_reward,
    {
        self.councilor_reward
    }

    /// Look up a candidacy record.
    pub fn candidate(&self, membership_id: MemberId) -> (r: Option<Candidate>)
        ensures
            r == if self.candidates@.contains_key(membership_id) {
                Some(self.candidates@[membership_id])
            } else {
                None::<Candidate>
            },
    {
        match self.candidates.get(&membership_id) {
            Some(c) => Some(*c),
            None => None,
        }
    }
}

} // verus!
