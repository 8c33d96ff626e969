//! Model of the external ledger the council consumes: per-account balances
//! plus the two stake-lock kinds this crate manages. The host mirrors every
//! operation performed here onto the real currency subsystem.
//!
//! A lock never moves tokens; it marks part of an account's balance as
//! frozen. The two lock kinds are keyed separately, so one account can hold
//! a candidacy lock and a councilor lock at the same time.

use std::collections::HashMap;
use vstd::prelude::*;

use crate::calculations::{sat_add, sat_add64, sat_sub, sat_sub64};
use crate::types::{AccountId, Balance};

verus! {

broadcast use vstd::std_specs::hash::group_hash_axioms;

/// The balance an account holds in a balance map; absent accounts hold
/// zero.
pub open spec fn balance_in(balances: Map<AccountId, Balance>, account: AccountId) -> Balance {
    if balances.contains_key(account) {
        balances[account]
    } else {
        0u64
    }
}

/// The ledger state this crate reads and writes.
pub struct Ledger {
    /// Total balance per account; accounts absent from the map hold zero.
    pub balances: HashMap<AccountId, Balance>,
    /// Amount locked per account for candidacy stake.
    pub candidacy_locks: HashMap<AccountId, Balance>,
    /// Amount locked per account for councilor stake.
    pub councilor_locks: HashMap<AccountId, Balance>,
}

impl Ledger {
    /// The total balance of an account.
    pub open spec fn balance_of(self, account: AccountId) -> Balance {
        balance_in(self.balances@, account)
    }

    /// The amount held under the account's candidacy lock, zero if none.
    pub open spec fn candidacy_locked(self, account: AccountId) -> Balance {
        if self.candidacy_locks@.contains_key(account) {
            self.candidacy_locks@[account]
        } else {
            0u64
        }
    }

    /// The amount held under the account's councilor lock, zero if none.
    pub open spec fn councilor_locked(self, account: AccountId) -> Balance {
        if self.councilor_locks@.contains_key(account) {
            self.councilor_locks@[account]
        } else {
            0u64
        }
    }

    /// The part of the balance no lock freezes: what can be burnt or
    /// transferred away right now.
    pub open spec fn usable_of(self, account: AccountId) -> Balance {
        sat_sub64(
            self.balance_of(account),
            sat_add64(self.candidacy_locked(account), self.councilor_locked(account)),
        )
    }

    /// An empty ledger: no accounts, no locks.
    pub fn new() -> (r: Ledger)
        ensures
            r.balances@ == Map::<AccountId, Balance>::empty(),
            r.candidacy_locks@ == Map::<AccountId, Balance>::empty(),
            r.councilor_locks@ == Map::<AccountId, Balance>::empty(),
    {
        Ledger {
            balances: HashMap::new(),
            candidacy_locks: HashMap::new(),
            councilor_locks: HashMap::new(),
        }
    }

    /// Query an account's total balance.
    pub fn balance(&self, account: AccountId) -> (r: Balance)
        ensures
            r == self.balance_of(account),
    {
        match self.balances.get(&account) {
            Some(b) => *b,
            None => 0,
        }
    }

    /// Query an account's usable (unfrozen) balance.
    pub fn usable_balance(&self, account: AccountId) -> (r: Balance)
        ensures
            r == self.usable_of(account),
    {
        let locked = {
            let c = match self.candidacy_locks.get(&account) {
                Some(b) => *b,
                None => 0,
            };
            let k = match self.councilor_locks.get(&account) {
                Some(b) => *b,
                None => 0,
            };
            sat_add(c, k)
        };
        sat_sub(self.balance(account), locked)
    }

    /// Whether the account's balance covers a candidacy stake of `stake`.
    /// The candidacy lock itself is replaced on re-staking and lock kinds
    /// may overlap on the same tokens, so only the total balance bounds a
    /// new candidacy stake.
    pub fn is_enough_balance_for_stake(&self, account: AccountId, stake: Balance) -> (r: bool)
        ensures
            r == (self.balance_of(account) >= stake),
    {
        self.balance(account) >= stake
    }

    /// Mint `amount` into an account, creating it if absent. Saturates at
    /// the maximal representable balance; never fails.
    pub fn deposit(&mut self, account: AccountId, amount: Balance)
        ensures
            final(self).balances@ == old(self).balances@.insert(
                account,
                sat_add64(old(self).balance_of(account), amount),
            ),
            final(self).candidacy_locks@ == old(self).candidacy_locks@,
            final(self).councilor_locks@ == old(self).councilor_locks@,
    {
        let b = self.balance(account);
        self.balances.insert(account, sat_add(b, amount));
    }

    /// Burn `amount` from an account's usable balance. Fails, leaving the
    /// ledger unchanged, iff the usable balance is smaller than `amount`.
    pub fn burn_from_usable(&mut self, account: AccountId, amount: Balance) -> (ok: bool)
        ensures
            ok == (amount <= old(self).usable_of(account)),
            ok ==> final(self).balances@ == old(self).balances@.insert(
                account,
                (old(self).balance_of(account) - amount) as Balance,
            ),
            !ok ==> final(self).balances@ == old(self).balances@,
            final(self).candidacy_locks@ == old(self).candidacy_locks@,
            final(self).councilor_locks@ == old(self).councilor_locks@,
    {
        if amount <= self.usable_balance(account) {
            let b = self.balance(account);
            self.balances.insert(account, b - amount);
            true
        } else {
            false
        }
    }

    /// Set the account's candidacy lock to `amount`, replacing any previous
    /// candidacy lock.
    pub fn lock_candidacy(&mut self, account: AccountId, amount: Balance)
        ensures
            final(self).candidacy_locks@ == old(self).candidacy_locks@.insert(account, amount),
            final(self).balances@ == old(self).balances@,
            final(self).councilor_locks@ == old(self).councilor_locks@,
    {
        self.candidacy_locks.insert(account, amount);
    }

    /// Remove the account's candidacy lock, if any.
    pub fn unlock_candidacy(&mut self, account: AccountId)
        ensures
            final(self).candidacy_locks@ == old(self).candidacy_locks@.remove(account),
            final(self).balances@ == old(self).balances@,
            final(self).councilor_locks@ == old(self).councilor_locks@,
    {
        self.candidacy_locks.remove(&account);
    }

    /// Set the account's councilor lock to `amount`, replacing any previous
    /// councilor lock.
    pub fn lock_councilor(&mut self, account: AccountId, amount: Balance)
        ensures
            final(self).councilor_locks@ == old(self).councilor_locks@.insert(account, amount),
            final(self).balances@ == old(self).balances@,
            final(self).candidacy_locks@ == old(self).candidacy_locks@,
    {
        self.councilor_locks.insert(account, amount);
    }

    /// Remove the account's councilor lock, if any.
    pub fn unlock_councilor(&mut self, account: AccountId)
        ensures
            final(self).councilor_locks@ == old(self).councilor_locks@.remove(account),
            final(self).balances@ == old(self).balances@,
            final(self).candidacy_locks@ == old(self).candidacy_locks@,
    {
        self.councilor_locks.remove(&account);
    }
}

} // verus!
