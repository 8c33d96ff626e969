//! Laws of the reward payout pass, proved of its model `spec_pay_pass`:
//! the budget is conserved against the amounts paid, and a pass settles
//! accounts so that repeating it at the same block accrues nothing new
//! for the seats it paid.

use vstd::prelude::*;

use crate::calculations::spec_current_reward;
use crate::rewards::spec_pay_pass;
use crate::types::{Balance, BlockNumber, CouncilMember};

verus! {

/// The total amount a pass paid out.
pub open spec fn spec_sum_paid(payments: Seq<(Balance, Balance)>) -> int
    decreases payments.len(),
{
    if payments.len() == 0 {
        0
    } else {
        payments[0].0 + spec_sum_paid(payments.drop_first())
    }
}

/// Budget conservation: a payout pass ends with exactly the old balance
/// minus the sum of the amounts paid, never overdrawing; per seat, what is
/// paid never exceeds what is accrued, the missing amount is exactly the
/// accrued remainder, and it is carried into the seat's unpaid reward
/// precisely when something was paid (an unpaid seat is left untouched).
pub proof fn lemma_pass_budget_conservation(
    members: Seq<CouncilMember>,
    balance: Balance,
    reward_per_block: Balance,
    now: BlockNumber,
)
    ensures
        ({
            let pass = spec_pay_pass(members, balance, reward_per_block, now);
            &&& pass.payments.len() == members.len()
            &&& pass.members.len() == members.len()
            &&& spec_sum_paid(pass.payments) <= balance
            &&& pass.balance == balance - spec_sum_paid(pass.payments)
            &&& forall|i: int| 0 <= i < members.len() ==> {
                let accrued = spec_current_reward(members[i], reward_per_block, now);
                &&& (#[trigger] pass.payments[i]).0 <= accrued
                &&& pass.payments[i].1 == accrued - pass.payments[i].0
                &&& (pass.payments[i].0 != 0 ==> pass.members[i] == (CouncilMember {
                    last_payment_block: now,
                    unpaid_reward: pass.payments[i].1,
                    ..members[i]
                }))
                &&& (pass.payments[i].0 == 0 ==> pass.members[i] == members[i])
            }
        }),
    decreases members.len(),
{
    if members.len() > 0 {
        let pass = spec_pay_pass(members, balance, reward_per_block, now);
        let m = members[0];
        let accrued = spec_current_reward(m, reward_per_block, now);
        if balance == 0 || accrued == 0 {
            let rest = spec_pay_pass(members.drop_first(), balance, reward_per_block, now);
            lemma_pass_budget_conservation(members.drop_first(), balance, reward_per_block, now);
            assert(pass.payments.drop_first() =~= rest.payments);
            assert(spec_sum_paid(pass.payments) == 0 + spec_sum_paid(rest.payments));
            assert forall|i: int| 0 <= i < members.len() implies {
                let accrued_i = spec_current_reward(members[i], reward_per_block, now);
                &&& (#[trigger] pass.payments[i]).0 <= accrued_i
                &&& pass.payments[i].1 == accrued_i - pass.payments[i].0
                &&& (pass.payments[i].0 != 0 ==> pass.members[i] == (CouncilMember {
                    last_payment_block: now,
                    unpaid_reward: pass.payments[i].1,
                    ..members[i]
                }))
                &&& (pass.payments[i].0 == 0 ==> pass.members[i] == members[i])
            } by {
                if i > 0 {
                    assert(pass.payments[i] == rest.payments[i - 1]);
                    assert(pass.members[i] == rest.members[i - 1]);
                    assert(members.drop_first()[i - 1] == members[i]);
                }
            }
        } else {
            let paid = if accrued <= balance {
                accrued
            } else {
                balance
            };
            let rest = spec_pay_pass(
                members.drop_first(),
                (balance - paid) as Balance,
                reward_per_block,
                now,
            );
            lemma_pass_budget_conservation(
                members.drop_first(),
                (balance - paid) as Balance,
                reward_per_block,
                now,
            );
            assert(pass.payments.drop_first() =~= rest.payments);
            assert(spec_sum_paid(pass.payments) == paid + spec_sum_paid(rest.payments));
            assert forall|i: int| 0 <= i < members.len() implies {
                let accrued_i = spec_current_reward(members[i], reward_per_block, now);
                &&& (#[trigger] pass.payments[i]).0 <= accrued_i
                &&& pass.payments[i].1 == accrued_i - pass.payments[i].0
                &&& (pass.payments[i].0 != 0 ==> pass.members[i] == (CouncilMember {
                    last_payment_block: now,
                    unpaid_reward: pass.payments[i].1,
                    ..members[i]
                }))
                &&& (pass.payments[i].0 == 0 ==> pass.members[i] == members[i])
            } by {
                if i > 0 {
                    assert(pass.payments[i] == rest.payments[i - 1]);
                    assert(pass.members[i] == rest.members[i - 1]);
                    assert(members.drop_first()[i - 1] == members[i]);
                }
            }
        }
    }
}

/// Reward accrual idempotence: running the payout pass again at the same
/// block changes nothing about what a paid seat accrues. A seat the pass
/// paid has its payment block set to `now` and accrues exactly its
/// recorded unpaid residue; a seat the pass could not pay at all is left
/// untouched, so its due is simply recomputed.
pub proof fn lemma_pass_accrual_idempotent(
    members: Seq<CouncilMember>,
    balance: Balance,
    reward_per_block: Balance,
    now: BlockNumber,
)
    ensures
        ({
            let pass = spec_pay_pass(members, balance, reward_per_block, now);
            &&& pass.members.len() == members.len()
            &&& forall|i: int| 0 <= i < members.len() && (#[trigger] pass.payments[i]).0 != 0 ==> {
                &&& pass.members[i].last_payment_block == now
                &&& spec_current_reward(pass.members[i], reward_per_block, now)
                    == pass.payments[i].1
            }
            &&& forall|i: int| 0 <= i < members.len() && (#[trigger] pass.payments[i]).0 == 0 ==>
                spec_current_reward(pass.members[i], reward_per_block, now) == spec_current_reward(
                    members[i],
                    reward_per_block,
                    now,
                )
        }),
{
    let pass = spec_pay_pass(members, balance, reward_per_block, now);
    lemma_pass_budget_conservation(members, balance, reward_per_block, now);
    assert forall|i: int| 0 <= i < members.len() && (#[trigger] pass.payments[i]).0 != 0 implies {
        &&& pass.members[i].last_payment_block == now
        &&& spec_current_reward(pass.members[i], reward_per_block, now) == pass.payments[i].1
    } by {
        let updated = pass.members[i];
        assert(updated.last_payment_block == now);
        assert(crate::calculations::sat_sub64(now, now) == 0);
        assert(crate::calculations::sat_mul64(0, reward_per_block) == 0);
        assert(crate::calculations::sat_add64(updated.unpaid_reward, 0)
            == updated.unpaid_reward);
        assert(spec_current_reward(updated, reward_per_block, now) == updated.unpaid_reward);
    }
}

} // verus!
