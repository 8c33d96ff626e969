//! Pure reward accounting: saturating arithmetic, reward accrual and the
//! payable/missing split against a budget balance.

use vstd::prelude::*;

use crate::types::{Balance, BlockNumber, CouncilMember};

verus! {

/// `a + b`, clamped at the largest representable value.
pub open spec fn sat_add64(a: u64, b: u64) -> u64 {
    if a + b > u64::MAX {
        u64::MAX
    } else {
        (a + b) as u64
    }
}

/// `a - b`, clamped at zero.
pub open spec fn sat_sub64(a: u64, b: u64) -> u64 {
    if a >= b {
        (a - b) as u64
    } else {
        0u64
    }
}

/// `a * b`, clamped at the largest representable value.
pub open spec fn sat_mul64(a: u64, b: u64) -> u64 {
    if a * b > u64::MAX {
        u64::MAX
    } else {
        (a * b) as u64
    }
}

/// Saturating addition.
pub fn sat_add(a: u64, b: u64) -> (r: u64)
    ensures
        r == sat_add64(a, b),
{
    a.saturating_add(b)
}

/// Saturating subtraction.
pub fn sat_sub(a: u64, b: u64) -> (r: u64)
    ensures
        r == sat_sub64(a, b),
{
    a.saturating_sub(b)
}

/// Saturating multiplication.
pub fn sat_mul(a: u64, b: u64) -> (r: u64)
    ensures
        r == sat_mul64(a, b),
{
    match a.checked_mul(b) {
        Some(r) => r,
        None => u64::MAX,
    }
}

/// The reward a seated member has accrued by `now`: the residue left unpaid
/// at the last payout, plus one reward per block elapsed since then.
pub open spec fn spec_current_reward(
    council_member: CouncilMember,
    reward_per_block: Balance,
    now: BlockNumber,
) -> Balance {
    sat_add64(
        council_member.unpaid_reward,
        sat_mul64(sat_sub64(now, council_member.last_payment_block), reward_per_block),
    )
}

/// Calculate the reward currently owed to a seated member.
pub fn get_current_reward(
    council_member: &CouncilMember,
    reward_per_block: Balance,
    now: BlockNumber,
) -> (r: Balance)
    ensures
        r == spec_current_reward(*council_member, reward_per_block, now),
{
    let elapsed = sat_sub(now, council_member.last_payment_block);
    sat_add(council_member.unpaid_reward, sat_mul(elapsed, reward_per_block))
}

/// Split an owed reward against the remaining budget balance: what can be
/// paid now, and what is missing.
pub fn payable_reward(budget_balance: Balance, reward_amount: Balance) -> (r: (Balance, Balance))
    ensures
        r.0 == if reward_amount <= budget_balance {
            reward_amount
        } else {
            budget_balance
        },
        r.1 == reward_amount - r.0,
        r.0 <= budget_balance,
        r.0 + r.1 == reward_amount,
{
    if reward_amount <= budget_balance {
        (reward_amount, 0)
    } else {
        (budget_balance, reward_amount - budget_balance)
    }
}

} // verus!
