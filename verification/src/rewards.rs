//! The reward payout pass: each seated member, in seat order, is paid its
//! accrued reward as far as the running budget balance allows; shortfalls
//! are recorded on the seat as unpaid residue.
//!
//! `spec_pay_pass` is the mathematical model of the pass; the executable
//! pass is proved to realise it exactly.

use vstd::prelude::*;

use crate::calculations::{
    get_current_reward, payable_reward, sat_add64, spec_current_reward,
};
use crate::ledger::{balance_in, Ledger};
use crate::mutations::{finish_reward_payments, pay_reward};
use crate::state::CouncilState;
use crate::types::{AccountId, Balance, BlockNumber, CouncilMember, Event};

verus! {

/// Result of a payout pass over a seat sequence: the updated seats, the
/// budget balance left, and per seat the pair of the amount paid and the
/// amount that could not be paid.
pub struct RewardPass {
    pub members: Seq<CouncilMember>,
    pub balance: Balance,
    pub payments: Seq<(Balance, Balance)>,
}

/// The payout pass, seat by seat from the first. A seat whose accrued
/// reward cannot be paid at all (zero balance left, or nothing accrued)
/// is left untouched, so its due is recomputed fresh next pass; otherwise
/// the payable split is paid, and the seat records the payment block and
/// the missing residue.
pub open spec fn spec_pay_pass(
    members: Seq<CouncilMember>,
    balance: Balance,
    reward_per_block: Balance,
    now: BlockNumber,
) -> RewardPass
    decreases members.len(),
{
    if members.len() == 0 {
        RewardPass { members: Seq::empty(), balance, payments: Seq::empty() }
    } else {
        let m = members[0];
        let accrued = spec_current_reward(m, reward_per_block, now);
        if balance == 0 || accrued == 0 {
            let rest = spec_pay_pass(members.drop_first(), balance, reward_per_block, now);
            RewardPass {
                members: seq![m] + rest.members,
                balance: rest.balance,
                payments: seq![(0 as Balance, accrued)] + rest.payments,
            }
        } else {
            let paid = if accrued <= balance {
                accrued
            } else {
                balance
            };
            let missing = (accrued - paid) as Balance;
            let updated = CouncilMember { last_payment_block: now, unpaid_reward: missing, ..m };
            let rest = spec_pay_pass(
                members.drop_first(),
                (balance - paid) as Balance,
                reward_per_block,
                now,
            );
            RewardPass {
                members: seq![updated] + rest.members,
                balance: rest.balance,
                payments: seq![(paid, missing)] + rest.payments,
            }
        }
    }
}

/// The ledger balances after the pass's deposits: each seat's paid amount
/// is minted into its reward account, in seat order; a seat paid nothing
/// sees no deposit.
pub open spec fn spec_apply_reward_deposits(
    balances: Map<AccountId, Balance>,
    members: Seq<CouncilMember>,
    payments: Seq<(Balance, Balance)>,
) -> Map<AccountId, Balance>
    decreases members.len(),
{
    if members.len() == 0 {
        balances
    } else {
        let prior = spec_apply_reward_deposits(
            balances,
            members.drop_last(),
            payments.drop_last(),
        );
        let m = members.last();
        let paid = payments[members.len() - 1].0;
        if paid == 0 {
            prior
        } else {
            prior.insert(m.reward_account_id, sat_add64(balance_in(prior, m.reward_account_id), paid))
        }
    }
}

/// The payment events of a pass, one per seat in seat order.
pub open spec fn spec_reward_events(
    members: Seq<CouncilMember>,
    payments: Seq<(Balance, Balance)>,
) -> Seq<Event> {
    Seq::new(
        members.len(),
        |i: int| Event::RewardPayment(
            members[i].membership_id,
            members[i].reward_account_id,
            payments[i].0,
            payments[i].1,
        ),
    )
}

/// A payout pass touches neither a seat's identity nor its accounts nor
/// its stake, and yields one payment per seat.
pub proof fn lemma_pass_shape(
    members: Seq<CouncilMember>,
    balance: Balance,
    reward_per_block: Balance,
    now: BlockNumber,
)
    ensures
        ({
            let pass = spec_pay_pass(members, balance, reward_per_block, now);
            &&& pass.members.len() == members.len()
            &&& pass.payments.len() == members.len()
            &&& forall|i: int| 0 <= i < members.len() ==> {
                &&& (#[trigger] pass.members[i]).membership_id == members[i].membership_id
                &&& pass.members[i].staking_account_id == members[i].staking_account_id
                &&& pass.members[i].reward_account_id == members[i].reward_account_id
                &&& pass.members[i].stake == members[i].stake
            }
        }),
    decreases members.len(),
{
    if members.len() > 0 {
        lemma_pass_shape(members.drop_first(), balance, reward_per_block, now);
        let m = members[0];
        let accrued = spec_current_reward(m, reward_per_block, now);
        if !(balance == 0 || accrued == 0) {
            let paid = if accrued <= balance {
                accrued
            } else {
                balance
            };
            lemma_pass_shape(
                members.drop_first(),
                (balance - paid) as Balance,
                reward_per_block,
                now,
            );
        }
    }
}

/// Pay rewards to the seated council members from the budget, in seat
/// order, then persist the remaining balance and schedule the next pass.
/// Realises `spec_pay_pass` exactly; the returned events report, per seat,
/// what was paid and what is missing.
pub fn pay_elected_member_rewards(
    st: &mut CouncilState,
    lg: &mut Ledger,
    now: BlockNumber,
) -> (events: Vec<Event>)
    ensures
        ({
            let pass = spec_pay_pass(
                old(st).council_members@,
                old(st).budget,
                old(st).councilor_reward,
                now,
            );
            &&& final(st).council_members@ == pass.members
            &&& *final(st) == (CouncilState {
                council_members: final(st).council_members,
                budget: pass.balance,
                next_reward_payments: sat_add64(
                    now,
                    old(st).params.elected_member_reward_period,
                ),
                ..*old(st)
            })
            &&& final(lg).balances@ == spec_apply_reward_deposits(
                old(lg).balances@,
                old(st).council_members@,
                pass.payments,
            )
            &&& final(lg).candidacy_locks@ == old(lg).candidacy_locks@
            &&& final(lg).councilor_locks@ == old(lg).councilor_locks@
            &&& events@ == spec_reward_events(old(st).council_members@, pass.payments)
        }),
        old(st).locks_consistent(*old(lg)) ==> final(st).locks_consistent(*final(lg)),
{
    let ghost orig_members = st.council_members@;
    let ghost full = spec_pay_pass(orig_members, st.budget, st.councilor_reward, now);
    proof {
        lemma_pass_shape(orig_members, st.budget, st.councilor_reward, now);
    }
    let reward_per_block = st.councilor_reward;
    let mut balance = st.budget;
    let mut events: Vec<Event> = Vec::new();
    let n = st.council_members.len();
    let mut i: usize = 0;
    proof {
        assert(orig_members.skip(0) =~= orig_members);
        assert(full.members.skip(0) =~= full.members);
        assert(full.payments.skip(0) =~= full.payments);
        assert(orig_members.take(0) =~= Seq::<CouncilMember>::empty());
        assert(full.payments.take(0) =~= Seq::<(Balance, Balance)>::empty());
    }
    while i < n
        invariant
            i <= n,
            n == orig_members.len(),
            st.council_members@.len() == n,
            *st == (CouncilState { council_members: st.council_members, ..*old(st) }),
            reward_per_block == old(st).councilor_reward,
            full == spec_pay_pass(orig_members, old(st).budget, reward_per_block, now),
            orig_members == old(st).council_members@,
            full.members.len() == n,
            full.payments.len() == n,
            forall|j: int| 0 <= j < i ==> st.council_members@[j] == full.members[j],
            forall|j: int| i <= j < n ==> st.council_members@[j] == orig_members[j],
            ({
                let suffix = spec_pay_pass(
                    orig_members.skip(i as int),
                    balance,
                    reward_per_block,
                    now,
                );
                &&& suffix.balance == full.balance
                &&& suffix.members == full.members.skip(i as int)
                &&& suffix.payments == full.payments.skip(i as int)
            }),
            events@.len() == i,
            forall|j: int| 0 <= j < i ==> events@[j] == (Event::RewardPayment(
                orig_members[j].membership_id,
                orig_members[j].reward_account_id,
                full.payments[j].0,
                full.payments[j].1,
            )),
            lg.balances@ == spec_apply_reward_deposits(
                old(lg).balances@,
                orig_members.take(i as int),
                full.payments.take(i as int),
            ),
            lg.candidacy_locks@ == old(lg).candidacy_locks@,
            lg.councilor_locks@ == old(lg).councilor_locks@,
        decreases n - i,
    {
        let member = st.council_members[i];
        let ghost balance_at_entry = balance;
        proof {
            assert(member == orig_members[i as int]);
            assert(orig_members.skip(i as int).drop_first() =~= orig_members.skip(i as int + 1));
            assert(orig_members.skip(i as int)[0] == orig_members[i as int]);
            assert(orig_members.take(i as int + 1).drop_last() =~= orig_members.take(i as int));
            assert(full.payments.take(i as int + 1).drop_last() =~= full.payments.take(i as int));
        }
        let unpaid_reward = get_current_reward(&member, reward_per_block, now);
        proof {
            let suffix = spec_pay_pass(orig_members.skip(i as int), balance, reward_per_block, now);
            assert(full.payments.skip(i as int)[0] == full.payments[i as int]);
            assert(full.members.skip(i as int)[0] == full.members[i as int]);
            assert(full.payments.skip(i as int)[0] == suffix.payments[0]);
            assert(full.members.skip(i as int)[0] == suffix.members[0]);
        }
        if balance == 0 || unpaid_reward == 0 {
            events.push(
                Event::RewardPayment(member.membership_id, member.reward_account_id, 0, unpaid_reward),
            );
            proof {
                assert(full.payments[i as int] == (0 as Balance, unpaid_reward));
                assert(full.members[i as int] == member);
            }
        } else {
            let (available_balance, missing_balance) = payable_reward(balance, unpaid_reward);
            pay_reward(
                st,
                lg,
                i,
                member.reward_account_id,
                available_balance,
                missing_balance,
                now,
            );
            events.push(
                Event::RewardPayment(
                    member.membership_id,
                    member.reward_account_id,
                    available_balance,
                    missing_balance,
                ),
            );
            balance = balance - available_balance;
            proof {
                assert(full.payments[i as int] == (available_balance, missing_balance));
            }
        }
        proof {
            let i0 = i as int;
            let suffix = spec_pay_pass(
                orig_members.skip(i0),
                balance_at_entry,
                reward_per_block,
                now,
            );
            let rest = spec_pay_pass(orig_members.skip(i0 + 1), balance, reward_per_block, now);
            assert(orig_members.skip(i0).drop_first() =~= orig_members.skip(i0 + 1));
            assert(suffix.members.drop_first() =~= rest.members);
            assert(suffix.payments.drop_first() =~= rest.payments);
            assert(suffix.balance == rest.balance);
            assert(full.members.skip(i0).drop_first() =~= full.members.skip(i0 + 1));
            assert(full.payments.skip(i0).drop_first() =~= full.payments.skip(i0 + 1));
            assert(rest.members =~= full.members.skip(i0 + 1));
            assert(rest.payments =~= full.payments.skip(i0 + 1));
        }
        i = i + 1;
    }
    proof {
        assert(orig_members.skip(n as int) =~= Seq::<CouncilMember>::empty());
        assert(st.council_members@ =~= full.members);
        assert(orig_members.take(n as int) =~= orig_members);
        assert(full.payments.take(n as int) =~= full.payments);
        assert(events@ =~= spec_reward_events(orig_members, full.payments));
    }
    finish_reward_payments(st, balance, now);
    proof {
        if old(st).locks_consistent(*old(lg)) {
            CouncilState::lemma_locks_after_member_rewards(*old(st), *st, *old(lg), *lg);
        }
    }
    events
}

} // verus!
