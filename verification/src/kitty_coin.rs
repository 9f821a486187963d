//! The fungible kitty-coin ledger: account balances and spender allowances,
//! with plain and delegated transfers. The whole supply is created once, when
//! the ledger is made; every transfer conserves the sum of all balances.

use crate::sums::{lemma_map_sum_bound_one, lemma_map_sum_bound_two, lemma_map_sum_insert, map_sum};
use crate::{
    lemma_unpack_pair_map_insert, pair_key, spec_pair_key, unpack_pair_map, AccountId, Balance,
};
use std::collections::HashMap;
use vstd::prelude::*;

verus! {

broadcast use vstd::std_specs::hash::group_hash_axioms, vstd::set::group_set_axioms;

/// The ways a ledger operation can fail.
#[derive(Debug, PartialEq, Eq, Clone, Copy)]
pub enum Error {
    BalanceTooLow,
    AllowanceTooLow,
}

/// Event recorded when coins move; `from` is `None` for the genesis issue.
#[derive(Debug, PartialEq, Eq, Clone, Copy)]
pub struct Transfer {
    pub from: Option<AccountId>,
    pub to: Option<AccountId>,
    pub value: Balance,
}

/// Event recorded when an owner sets a spender's allowance.
#[derive(Debug, PartialEq, Eq, Clone, Copy)]
pub struct Approval {
    pub owner: AccountId,
    pub spender: AccountId,
    pub value: Balance,
}

/// One entry of the ledger's event log.
#[derive(Debug, PartialEq, Eq, Clone, Copy)]
pub enum CoinEvent {
    Transfer(Transfer),
    Approval(Approval),
}

/// The mathematical state of a ledger.
pub struct CoinState {
    pub total_supply: Balance,
    pub balances: Map<AccountId, Balance>,
    pub allowances: Map<(AccountId, AccountId), Balance>,
    pub events: Seq<CoinEvent>,
}

impl CoinState {
    /// The balance of `who`; accounts without an entry hold nothing.
    pub open spec fn balance_of(self, who: AccountId) -> Balance {
        if self.balances.contains_key(who) {
            self.balances[who]
        } else {
            0
        }
    }

    /// How much `spender` may still move out of `owner`'s account.
    pub open spec fn allowance(self, owner: AccountId, spender: AccountId) -> Balance {
        if self.allowances.contains_key((owner, spender)) {
            self.allowances[(owner, spender)]
        } else {
            0
        }
    }

    /// Whether `spender` could move `value` coins out of `from`'s account:
    /// both the allowance and the balance suffice.
    pub open spec fn can_transfer_from(
        self,
        spender: AccountId,
        from: AccountId,
        value: Balance,
    ) -> bool {
        self.allowance(from, spender) >= value && self.balance_of(from) >= value
    }

    /// The ledger invariant: the balances sum exactly to the total supply.
    pub open spec fn wf(self) -> bool {
        &&& self.balances.dom().finite()
        &&& map_sum(self.balances, |v: Balance| v as int) == self.total_supply as int
    }
}

/// Conservation law: in every well-formed ledger state, the balances over
/// all accounts sum to the total supply. The supply is created once, at
/// genesis, and every transfer debits exactly what it credits, so every
/// state the ledger's operations can reach satisfies this.
pub proof fn lemma_balances_sum_to_total_supply(s: CoinState)
    requires
        s.wf(),
    ensures
        map_sum(s.balances, |v: Balance| v as int) == s.total_supply as int,
{
}

/// The fungible ledger.
pub struct KittyCoin {
    total_supply: Balance,
    balances: HashMap<AccountId, Balance>,
    allowances: HashMap<u128, Balance>,
    events: Vec<CoinEvent>,
}

impl View for KittyCoin {
    type V = CoinState;

    closed spec fn view(&self) -> CoinState {
        CoinState {
            total_supply: self.total_supply,
            balances: self.balances@,
            allowances: unpack_pair_map(self.allowances@),
            events: self.events@,
        }
    }
}

impl KittyCoin {
    /// Creates the ledger, issuing the whole supply to the caller.
    pub fn new(caller: AccountId, total_supply: Balance) -> (coin: KittyCoin)
        ensures
            coin@.wf(),
            coin@.total_supply == total_supply,
            coin@.balances == Map::<AccountId, Balance>::empty().insert(caller, total_supply),
            coin@.allowances == Map::<(AccountId, AccountId), Balance>::empty(),
            coin@.events == seq![
                CoinEvent::Transfer(Transfer { from: None, to: Some(caller), value: total_supply }),
            ],
    {
        let mut balances: HashMap<AccountId, Balance> = HashMap::new();
        balances.insert(caller, total_supply);
        let mut events: Vec<CoinEvent> = Vec::new();
        events.push(
            CoinEvent::Transfer(Transfer { from: None, to: Some(caller), value: total_supply }),
        );
        let coin = KittyCoin {
            total_supply,
            balances,
            allowances: HashMap::new(),
            events,
        };
        proof {
            lemma_map_sum_insert(
                Map::<AccountId, Balance>::empty(),
                |v: Balance| v as int,
                caller,
                total_supply,
            );
            assert(unpack_pair_map(Map::<u128, Balance>::empty()) =~= Map::<
                (AccountId, AccountId),
                Balance,
            >::empty());
        }
        coin
    }

    /// The number of coins issued at genesis.
    pub fn total_supply(&self) -> (r: Balance)
        ensures
            r == self@.total_supply,
    {
        self.total_supply
    }

    /// The balance of `who`; zero for accounts never touched.
    pub fn balance_of(&self, who: AccountId) -> (r: Balance)
        ensures
            r == self@.balance_of(who),
    {
        match self.balances.get(&who) {
            Some(v) => *v,
            None => 0,
        }
    }

    /// How much `spender` may still move out of `caller`'s account.
    pub fn allowances_of(&self, caller: AccountId, spender: AccountId) -> (r: Balance)
        ensures
            r == self@.allowance(caller, spender),
    {
        let k = pair_key(caller, spender);
        match self.allowances.get(&k) {
            Some(v) => *v,
            None => 0,
        }
    }

    /// The events recorded so far, oldest first.
    pub fn events(&self) -> (r: &Vec<CoinEvent>)
        ensures
            r@ == self@.events,
    {
        &self.events
    }

    /// Moves `value` coins from `from` to `to`. Fails with `BalanceTooLow`,
    /// changing nothing, when `from` holds less than `value`; otherwise the
    /// debit equals the credit, so the supply is conserved.
    pub fn transfer_helper(&mut self, from: AccountId, to: AccountId, value: Balance) -> (r: Result<
        (),
        Error,
    >)
        requires
            old(self)@.wf(),
        ensures
            final(self)@.wf(),
            final(self)@.total_supply == old(self)@.total_supply,
            final(self)@.allowances == old(self)@.allowances,
            value > old(self)@.balance_of(from) ==> r == Err::<(), Error>(Error::BalanceTooLow)
                && final(self)@ == old(self)@,
            value <= old(self)@.balance_of(from) ==> {
                &&& r == Ok::<(), Error>(())
                &&& forall|a: AccountId| #[trigger]
                    final(self)@.balance_of(a) as int == old(self)@.balance_of(a) as int - (
                    if a == from {
                        value as int
                    } else {
                        0
                    }) + (if a == to {
                        value as int
                    } else {
                        0
                    })
                &&& final(self)@.events == old(self)@.events.push(
                    CoinEvent::Transfer(Transfer { from: Some(from), to: Some(to), value }),
                )
            },
    {
        let ghost f = |v: Balance| v as int;
        let ghost m0 = self.balances@;
        let balance_from = self.balance_of(from);
        if value > balance_from {
            return Err(Error::BalanceTooLow);
        }
        proof {
            if value > 0 {
                if m0.contains_key(to) && to != from {
                    lemma_map_sum_bound_two(m0, f, from, to);
                } else {
                    lemma_map_sum_bound_one(m0, f, from);
                }
            }
            lemma_map_sum_insert(m0, f, from, (balance_from - value) as Balance);
        }
        self.balances.insert(from, balance_from - value);
        let ghost m1 = self.balances@;
        let balance_to = self.balance_of(to);
        proof {
            if value > 0 && m0.contains_key(to) && to != from {
                lemma_map_sum_bound_two(m0, f, from, to);
            }
            lemma_map_sum_insert(m1, f, to, (balance_to + value) as Balance);
        }
        self.balances.insert(to, balance_to + value);
        self.events.push(CoinEvent::Transfer(Transfer { from: Some(from), to: Some(to), value }));
        Ok(())
    }

    /// Moves `value` coins from the caller to `to`.
    pub fn transfer(&mut self, caller: AccountId, to: AccountId, value: Balance) -> (r: Result<
        (),
        Error,
    >)
        requires
            old(self)@.wf(),
        ensures
            final(self)@.wf(),
            final(self)@.total_supply == old(self)@.total_supply,
            final(self)@.allowances == old(self)@.allowances,
            value > old(self)@.balance_of(caller) ==> r == Err::<(), Error>(Error::BalanceTooLow)
                && final(self)@ == old(self)@,
            value <= old(self)@.balance_of(caller) ==> {
                &&& r == Ok::<(), Error>(())
                &&& forall|a: AccountId| #[trigger]
                    final(self)@.balance_of(a) as int == old(self)@.balance_of(a) as int - (
                    if a == caller {
                        value as int
                    } else {
                        0
                    }) + (if a == to {
                        value as int
                    } else {
                        0
                    })
                &&& final(self)@.events == old(self)@.events.push(
                    CoinEvent::Transfer(Transfer { from: Some(caller), to: Some(to), value }),
                )
            },
    {
        self.transfer_helper(caller, to, value)
    }

    /// Sets (overwrites, never adds to) the caller's allowance for `spender`.
    pub fn approve(&mut self, caller: AccountId, spender: AccountId, value: Balance) -> (r: Result<
        (),
        Error,
    >)
        requires
            old(self)@.wf(),
        ensures
            final(self)@.wf(),
            r == Ok::<(), Error>(()),
            final(self)@.total_supply == old(self)@.total_supply,
            final(self)@.balances == old(self)@.balances,
            final(self)@.allowances == old(self)@.allowances.insert((caller, spender), value),
            final(self)@.events == old(self)@.events.push(
                CoinEvent::Approval(Approval { owner: caller, spender, value }),
            ),
    {
        let k = pair_key(caller, spender);
        self.allowances.insert(k, value);
        proof {
            lemma_unpack_pair_map_insert(old(self).allowances@, caller, spender, value);
        }
        self.events.push(CoinEvent::Approval(Approval { owner: caller, spender, value }));
        Ok(())
    }

    /// Moves `value` coins from `from` to `to` on the caller's behalf,
    /// consuming exactly `value` of the caller's allowance from `from`.
    /// Fails with `AllowanceTooLow` or `BalanceTooLow`, changing nothing.
    pub fn transfer_from(
        &mut self,
        caller: AccountId,
        from: AccountId,
        to: AccountId,
        value: Balance,
    ) -> (r: Result<(), Error>)
        requires
            old(self)@.wf(),
        ensures
            final(self)@.wf(),
            final(self)@.total_supply == old(self)@.total_supply,
            old(self)@.allowance(from, caller) < value ==> r == Err::<(), Error>(
                Error::AllowanceTooLow,
            ) && final(self)@ == old(self)@,
            old(self)@.allowance(from, caller) >= value && value > old(self)@.balance_of(from)
                ==> r == Err::<(), Error>(Error::BalanceTooLow) && final(self)@ == old(self)@,
            old(self)@.allowance(from, caller) >= value && value <= old(self)@.balance_of(from)
                ==> {
                &&& r == Ok::<(), Error>(())
                &&& final(self)@.allowances == old(self)@.allowances.insert(
                    (from, caller),
                    (old(self)@.allowance(from, caller) - value) as Balance,
                )
                &&& forall|a: AccountId| #[trigger]
                    final(self)@.balance_of(a) as int == old(self)@.balance_of(a) as int - (
                    if a == from {
                        value as int
                    } else {
                        0
                    }) + (if a == to {
                        value as int
                    } else {
                        0
                    })
                &&& final(self)@.events == old(self)@.events.push(
                    CoinEvent::Transfer(Transfer { from: Some(from), to: Some(to), value }),
                )
            },
    {
        let allowance = self.allowances_of(from, caller);
        if allowance < value {
            return Err(Error::AllowanceTooLow);
        }
        let balance_from = self.balance_of(from);
        if value > balance_from {
            return Err(Error::BalanceTooLow);
        }
        let k = pair_key(from, caller);
        self.allowances.insert(k, allowance - value);
        proof {
            lemma_unpack_pair_map_insert(old(self).allowances@, from, caller, (allowance - value) as Balance);
        }
        self.transfer_helper(from, to, value)
    }
}

} // verus!
