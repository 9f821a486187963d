//! The non-fungible kitty registry: each kitty id is owned by one account,
//! may carry one approved transferee, and owners may grant operators rights
//! over all of their kitties. Minting charges a fixed price in kitty coins.
//!
//! Two counting invariants hold at all times: every account's balance equals
//! the number of kitties mapped to it, and the balances sum to the number of
//! existing kitties.

use crate::kitty_coin::KittyCoin;
use crate::sums::{lemma_map_sum_insert, map_sum};
use crate::{
    lemma_unpack_pair_set_insert, lemma_unpack_pair_set_remove, pair_key, unpack_pair_set,
    AccountId, Balance, KittyId, NULL_ACCOUNT,
};
use std::collections::{HashMap, HashSet};
use vstd::prelude::*;

verus! {

broadcast use vstd::std_specs::hash::group_hash_axioms, vstd::set::group_set_axioms;

/// The ways a registry operation can fail.
#[derive(Debug, PartialEq, Eq, Clone, Copy)]
pub enum Error {
    NotOwner,
    NotApproved,
    TokenExists,
    TokenNotFound,
    CannotInsert,
    CannotFetchValue,
    NotAllowed,
    CoinTransferFail,
}

/// Event recorded when a kitty changes hands; the null account stands in
/// for "nowhere" on mint and burn.
#[derive(Debug, PartialEq, Eq, Clone, Copy)]
pub struct Transfer {
    pub from: Option<AccountId>,
    pub to: Option<AccountId>,
    pub id: KittyId,
}

/// Event recorded when a kitty gains an approved transferee.
#[derive(Debug, PartialEq, Eq, Clone, Copy)]
pub struct Approval {
    pub from: AccountId,
    pub to: AccountId,
    pub id: KittyId,
}

/// Event recorded when an owner grants or revokes an operator.
#[derive(Debug, PartialEq, Eq, Clone, Copy)]
pub struct ApprovalForAll {
    pub owner: AccountId,
    pub operator: AccountId,
    pub approved: bool,
}

/// One entry of the registry's event log.
#[derive(Debug, PartialEq, Eq, Clone, Copy)]
pub enum KittyEvent {
    Transfer(Transfer),
    Approval(Approval),
    ApprovalForAll(ApprovalForAll),
}

/// The kitties an account owns: the ids mapped to it.
pub open spec fn owned_kitties(owners: Map<KittyId, AccountId>, a: AccountId) -> Set<KittyId> {
    owners.dom().filter(|id: KittyId| owners[id] == a)
}

/// The mathematical state of a registry.
pub struct KittiesState {
    pub owners: Map<KittyId, AccountId>,
    pub approvals: Map<KittyId, AccountId>,
    pub counts: Map<AccountId, u64>,
    pub operators: Set<(AccountId, AccountId)>,
    pub account: AccountId,
    pub mint_price: Balance,
    pub events: Seq<KittyEvent>,
}

impl KittiesState {
    /// The owner of kitty `id`, if it exists.
    pub open spec fn owner_of(self, id: KittyId) -> Option<AccountId> {
        if self.owners.contains_key(id) {
            Some(self.owners[id])
        } else {
            None
        }
    }

    /// The account approved to move kitty `id`, if any.
    pub open spec fn get_approved(self, id: KittyId) -> Option<AccountId> {
        if self.approvals.contains_key(id) {
            Some(self.approvals[id])
        } else {
            None
        }
    }

    /// How many kitties `a` owns; accounts without an entry own none.
    pub open spec fn balance_of(self, a: AccountId) -> u64 {
        if self.counts.contains_key(a) {
            self.counts[a]
        } else {
            0
        }
    }

    /// Whether `owner` has authorized `operator` over all of its kitties.
    pub open spec fn is_operator(self, owner: AccountId, operator: AccountId) -> bool {
        self.operators.contains((owner, operator))
    }

    /// Whether `from` may move kitty `id`: it is not the null account and is
    /// the owner, the approved transferee, or an operator of the owner. An
    /// absent `from` counts as matching an absent owner or approval.
    pub open spec fn spec_approved_or_owner(self, from: Option<AccountId>, id: KittyId) -> bool {
        &&& from != Some(NULL_ACCOUNT)
        &&& {
            ||| from == self.owner_of(id)
            ||| from == self.get_approved(id)
            ||| (self.owner_of(id) matches Some(owner) && from matches Some(f)
                && self.is_operator(owner, f))
        }
    }

    /// The owner-or-approval check reads the owner unguarded in its last
    /// disjunct, so it is only defined when that read cannot be reached
    /// with an absent owner or an absent `from`.
    pub open spec fn approved_or_owner_defined(self, from: Option<AccountId>, id: KittyId) -> bool {
        (from != Some(NULL_ACCOUNT) && from != self.owner_of(id) && from != self.get_approved(id))
            ==> (self.owner_of(id) is Some && from is Some)
    }

    /// Whether account `caller` may move kitty `id`.
    pub open spec fn may_transfer(self, caller: AccountId, id: KittyId) -> bool {
        self.spec_approved_or_owner(Some(caller), id)
    }

    /// The registry invariant: every account's balance counts exactly the
    /// kitties mapped to it, and the balances sum to the number of kitties.
    pub open spec fn wf(self) -> bool {
        &&& self.owners.dom().finite()
        &&& self.counts.dom().finite()
        &&& forall|a: AccountId| #[trigger] self.balance_of(a) as int == owned_kitties(
            self.owners,
            a,
        ).len() as int
        &&& map_sum(self.counts, |c: u64| c as int) == self.owners.dom().len() as int
    }
}

/// Adding a fresh kitty enlarges exactly its new owner's kitty set.
proof fn lemma_owned_after_insert(m: Map<KittyId, AccountId>, id: KittyId, to: AccountId)
    requires
        !m.contains_key(id),
    ensures
        owned_kitties(m.insert(id, to), to) == owned_kitties(m, to).insert(id),
        forall|a: AccountId|
            a != to ==> #[trigger] owned_kitties(m.insert(id, to), a) == owned_kitties(m, a),
{
    assert(owned_kitties(m.insert(id, to), to) =~= owned_kitties(m, to).insert(id));
    assert forall|a: AccountId| a != to implies #[trigger] owned_kitties(m.insert(id, to), a)
        == owned_kitties(m, a) by {
        assert(owned_kitties(m.insert(id, to), a) =~= owned_kitties(m, a));
    }
}

/// Removing a kitty shrinks exactly its owner's kitty set.
proof fn lemma_owned_after_remove(m: Map<KittyId, AccountId>, id: KittyId)
    requires
        m.contains_key(id),
    ensures
        owned_kitties(m.remove(id), m[id]) == owned_kitties(m, m[id]).remove(id),
        forall|a: AccountId|
            a != m[id] ==> #[trigger] owned_kitties(m.remove(id), a) == owned_kitties(m, a),
{
    assert(owned_kitties(m.remove(id), m[id]) =~= owned_kitties(m, m[id]).remove(id));
    assert forall|a: AccountId| a != m[id] implies #[trigger] owned_kitties(m.remove(id), a)
        == owned_kitties(m, a) by {
        assert(owned_kitties(m.remove(id), a) =~= owned_kitties(m, a));
    }
}

/// Counting law: in every well-formed registry state, the per-account kitty
/// balances sum to the number of minted-and-not-burned kitties. Minting,
/// transferring and burning each keep the two sides in step, so every state
/// the registry's operations can reach satisfies this.
pub proof fn lemma_balances_sum_to_kitty_count(s: KittiesState)
    requires
        s.wf(),
    ensures
        map_sum(s.counts, |c: u64| c as int) == s.owners.dom().len() as int,
{
}

/// The counting invariants read only the owner and count tables, so any
/// change that leaves both alone preserves them.
proof fn lemma_wf_same_counts(pre: KittiesState, post: KittiesState)
    requires
        pre.wf(),
        post.owners == pre.owners,
        post.counts == pre.counts,
    ensures
        post.wf(),
{
    assert forall|a: AccountId| #[trigger] post.balance_of(a) as int == owned_kitties(
        post.owners,
        a,
    ).len() as int by {
        assert(pre.balance_of(a) as int == owned_kitties(pre.owners, a).len() as int);
    }
}

/// The non-fungible kitty registry.
pub struct Kitties {
    kitty_owner: HashMap<KittyId, AccountId>,
    token_approvals: HashMap<KittyId, AccountId>,
    owned_kitties_count: HashMap<AccountId, u64>,
    operator_approvals: HashSet<u128>,
    account: AccountId,
    mint_price: Balance,
    events: Vec<KittyEvent>,
}

impl View for Kitties {
    type V = KittiesState;

    closed spec fn view(&self) -> KittiesState {
        KittiesState {
            owners: self.kitty_owner@,
            approvals: self.token_approvals@,
            counts: self.owned_kitties_count@,
            operators: unpack_pair_set(self.operator_approvals@),
            account: self.account,
            mint_price: self.mint_price,
            events: self.events@,
        }
    }
}

impl Kitties {
    /// Creates an empty registry. `account` is the registry's own account,
    /// which receives the `mint_price` charged for every mint.
    pub fn new(account: AccountId, mint_price: Balance) -> (k: Kitties)
        ensures
            k@.wf(),
            k@.owners == Map::<KittyId, AccountId>::empty(),
            k@.approvals == Map::<KittyId, AccountId>::empty(),
            k@.counts == Map::<AccountId, u64>::empty(),
            k@.operators == Set::<(AccountId, AccountId)>::empty(),
            k@.account == account,
            k@.mint_price == mint_price,
            k@.events == Seq::<KittyEvent>::empty(),
    {
        let k = Kitties {
            kitty_owner: HashMap::new(),
            token_approvals: HashMap::new(),
            owned_kitties_count: HashMap::new(),
            operator_approvals: HashSet::new(),
            account,
            mint_price,
            events: Vec::new(),
        };
        proof {
            assert(unpack_pair_set(Set::<u128>::empty()) =~= Set::<(AccountId, AccountId)>::empty());
            assert forall|a: AccountId| #[trigger] k@.balance_of(a) as int == owned_kitties(
                k@.owners,
                a,
            ).len() as int by {
                assert(owned_kitties(k@.owners, a) =~= Set::<KittyId>::empty());
            }
        }
        k
    }

    /// How many kitties `of` owns.
    pub fn balance_of_or_zero(&self, of: &AccountId) -> (r: u64)
        ensures
            r == self@.balance_of(*of),
    {
        match self.owned_kitties_count.get(of) {
            Some(c) => *c,
            None => 0,
        }
    }

    /// How many kitties `owner` owns.
    pub fn balance_of(&self, owner: AccountId) -> (r: u64)
        ensures
            r == self@.balance_of(owner),
    {
        self.balance_of_or_zero(&owner)
    }

    /// The owner of kitty `id`, if it exists.
    pub fn owner_of(&self, id: KittyId) -> (r: Option<AccountId>)
        ensures
            r == self@.owner_of(id),
    {
        match self.kitty_owner.get(&id) {
            Some(a) => Some(*a),
            None => None,
        }
    }

    /// The account approved to move kitty `id`, if any.
    pub fn get_approved(&self, id: KittyId) -> (r: Option<AccountId>)
        ensures
            r == self@.get_approved(id),
    {
        match self.token_approvals.get(&id) {
            Some(a) => Some(*a),
            None => None,
        }
    }

    /// Whether `owner` has authorized `operator` over all of its kitties.
    pub fn approved_for_all(&self, owner: AccountId, operator: AccountId) -> (r: bool)
        ensures
            r == self@.is_operator(owner, operator),
    {
        let k = pair_key(owner, operator);
        self.operator_approvals.contains(&k)
    }

    /// Whether `owner` has authorized `operator` over all of its kitties.
    pub fn is_approved_for_all(&self, owner: AccountId, operator: AccountId) -> (r: bool)
        ensures
            r == self@.is_operator(owner, operator),
    {
        self.approved_for_all(owner, operator)
    }

    /// Whether kitty `id` exists.
    pub fn token_exists(&self, id: KittyId) -> (r: bool)
        ensures
            r == self@.owners.contains_key(id),
    {
        self.kitty_owner.contains_key(&id)
    }

    /// Whether `from` may move kitty `id` (owner, approved transferee, or
    /// operator of the owner).
    pub fn approved_or_owner(&self, from: Option<AccountId>, id: KittyId) -> (r: bool)
        requires
            self@.approved_or_owner_defined(from, id),
        ensures
            r == self@.spec_approved_or_owner(from, id),
    {
        let owner = self.owner_of(id);
        let approved = self.get_approved(id);
        match from {
            Some(f) => {
                if f == NULL_ACCOUNT {
                    false
                } else if match owner {
                    Some(o) => o == f,
                    None => false,
                } {
                    true
                } else if match approved {
                    Some(a) => a == f,
                    None => false,
                } {
                    true
                } else {
                    match owner {
                        Some(o) => self.approved_for_all(o, f),
                        None => false,  // excluded by the precondition
                    }
                }
            },
            None => owner.is_none() || approved.is_none(),
        }
    }

    /// The events recorded so far, oldest first.
    pub fn events(&self) -> (r: &Vec<KittyEvent>)
        ensures
            r@ == self@.events,
    {
        &self.events
    }

    /// Drops any approval on kitty `id`.
    pub fn clear_approval(&mut self, id: KittyId)
        requires
            old(self)@.wf(),
        ensures
            final(self)@.wf(),
            final(self)@ == (KittiesState { approvals: old(self)@.approvals.remove(id), ..old(self)@ }),
    {
        self.token_approvals.remove(&id);
        proof {
            lemma_wf_same_counts(old(self)@, self@);
        }
    }

    /// Takes kitty `id` away from `from`: unmaps the id and debits `from`'s
    /// balance. `from` must name the kitty's owner if the kitty exists, or
    /// the balance bookkeeping would be corrupted.
    pub fn remove_token_from(&mut self, from: &AccountId, id: KittyId) -> (r: Result<(), Error>)
        requires
            old(self)@.wf(),
            old(self)@.owners.contains_key(id) ==> old(self)@.owners[id] == *from,
        ensures
            final(self)@.wf(),
            !old(self)@.owners.contains_key(id) ==> r == Err::<(), Error>(Error::TokenNotFound)
                && final(self)@ == old(self)@,
            old(self)@.owners.contains_key(id) ==> {
                &&& r == Ok::<(), Error>(())
                &&& final(self)@.owners == old(self)@.owners.remove(id)
                &&& forall|a: AccountId| #[trigger]
                    final(self)@.balance_of(a) as int == old(self)@.balance_of(a) as int - (
                    if a == *from {
                        1int
                    } else {
                        0int
                    })
                &&& final(self)@.approvals == old(self)@.approvals
                &&& final(self)@.operators == old(self)@.operators
                &&& final(self)@.account == old(self)@.account
                &&& final(self)@.mint_price == old(self)@.mint_price
                &&& final(self)@.events == old(self)@.events
            },
    {
        if !self.kitty_owner.contains_key(&id) {
            return Err(Error::TokenNotFound);
        }
        let ghost f = |c: u64| c as int;
        let ghost m0 = self.kitty_owner@;
        let ghost c0 = self.owned_kitties_count@;
        proof {
            lemma_owned_after_remove(m0, id);
            // `from` owns `id`, so its balance is at least one and its entry exists
            assert(owned_kitties(m0, *from).contains(id));
            assert(old(self)@.balance_of(*from) as int == owned_kitties(m0, *from).len() as int);
            assert(c0.contains_key(*from));
        }
        let count = match self.owned_kitties_count.get(from) {
            Some(c) => *c,
            None => {
                // cannot happen: the owner's entry was just shown to exist
                return Err(Error::CannotFetchValue);
            },
        };
        proof {
            lemma_map_sum_insert(c0, f, *from, (count - 1) as u64);
        }
        self.owned_kitties_count.insert(*from, count - 1);
        self.kitty_owner.remove(&id);
        proof {
            assert forall|a: AccountId| #[trigger] self@.balance_of(a) as int == old(
                self,
            )@.balance_of(a) as int - (if a == *from {
                1int
            } else {
                0int
            }) by {
                assert(old(self)@.balance_of(a) as int == owned_kitties(m0, a).len() as int);
            }
            assert forall|a: AccountId| #[trigger] self@.balance_of(a) as int == owned_kitties(
                self@.owners,
                a,
            ).len() as int by {
                assert(old(self)@.balance_of(a) as int == owned_kitties(m0, a).len() as int);
                if a == m0[id] {
                    assert(owned_kitties(m0.remove(id), a) == owned_kitties(m0, a).remove(id));
                } else {
                    assert(owned_kitties(m0.remove(id), a) == owned_kitties(m0, a));
                }
                assert(self@.owners == m0.remove(id));
            }
        }
        Ok(())
    }

    /// Gives kitty `id` to `to`: maps the id and credits `to`'s balance.
    /// Fails if the id already exists or `to` is the null account.
    pub fn add_token_to(&mut self, to: &AccountId, id: KittyId) -> (r: Result<(), Error>)
        requires
            old(self)@.wf(),
        ensures
            final(self)@.wf(),
            old(self)@.owners.contains_key(id) ==> r == Err::<(), Error>(Error::TokenExists)
                && final(self)@ == old(self)@,
            !old(self)@.owners.contains_key(id) && *to == NULL_ACCOUNT ==> r == Err::<(), Error>(
                Error::NotAllowed,
            ) && final(self)@ == old(self)@,
            !old(self)@.owners.contains_key(id) && *to != NULL_ACCOUNT ==> {
                &&& r == Ok::<(), Error>(())
                &&& final(self)@.owners == old(self)@.owners.insert(id, *to)
                &&& forall|a: AccountId| #[trigger]
                    final(self)@.balance_of(a) as int == old(self)@.balance_of(a) as int + (
                    if a == *to {
                        1int
                    } else {
                        0int
                    })
                &&& final(self)@.approvals == old(self)@.approvals
                &&& final(self)@.operators == old(self)@.operators
                &&& final(self)@.account == old(self)@.account
                &&& final(self)@.mint_price == old(self)@.mint_price
                &&& final(self)@.events == old(self)@.events
            },
    {
        if self.kitty_owner.contains_key(&id) {
            return Err(Error::TokenExists);
        }
        if *to == NULL_ACCOUNT {
            return Err(Error::NotAllowed);
        }
        let ghost f = |c: u64| c as int;
        let ghost m0 = self.kitty_owner@;
        let ghost c0 = self.owned_kitties_count@;
        let count = match self.owned_kitties_count.get(to) {
            Some(c) => *c,
            None => 0,
        };
        self.kitty_owner.insert(id, *to);
        let total = self.kitty_owner.len();
        proof {
            lemma_owned_after_insert(m0, id, *to);
            assert(count == old(self)@.balance_of(*to));
            assert(old(self)@.balance_of(*to) as int == owned_kitties(m0, *to).len() as int);
            assert(!owned_kitties(m0, *to).contains(id));
            assert(owned_kitties(self.kitty_owner@, *to) == owned_kitties(m0, *to).insert(id));
            assert(owned_kitties(self.kitty_owner@, *to).len() == count as int + 1);
            // the new count is bounded by the number of kitties now mapped
            assert(owned_kitties(self.kitty_owner@, *to).subset_of(self.kitty_owner@.dom()));
            vstd::set_lib::lemma_len_subset(
                owned_kitties(self.kitty_owner@, *to),
                self.kitty_owner@.dom(),
            );
            assert(total as int == self.kitty_owner@.dom().len());
            assert(count as int + 1 <= total as int);
            lemma_map_sum_insert(c0, f, *to, (count + 1) as u64);
        }
        self.owned_kitties_count.insert(*to, count + 1);
        proof {
            assert forall|a: AccountId| #[trigger] self@.balance_of(a) as int == old(
                self,
            )@.balance_of(a) as int + (if a == *to {
                1int
            } else {
                0int
            }) by {
                assert(old(self)@.balance_of(a) as int == owned_kitties(m0, a).len() as int);
            }
            assert forall|a: AccountId| #[trigger] self@.balance_of(a) as int == owned_kitties(
                self@.owners,
                a,
            ).len() as int by {
                assert(old(self)@.balance_of(a) as int == owned_kitties(m0, a).len() as int);
                if a == *to {
                    assert(owned_kitties(m0.insert(id, *to), a) == owned_kitties(m0, a).insert(id));
                } else {
                    assert(owned_kitties(m0.insert(id, *to), a) == owned_kitties(m0, a));
                }
                assert(self@.owners == m0.insert(id, *to));
            }
        }
        Ok(())
    }

    /// Grants or revokes `to` as an operator over all of the caller's
    /// kitties. The caller may not name itself. The event is recorded
    /// whether or not the grant changes anything.
    pub fn approve_for_all(&mut self, caller: AccountId, to: AccountId, approved: bool) -> (r:
        Result<(), Error>)
        requires
            old(self)@.wf(),
        ensures
            final(self)@.wf(),
            to == caller ==> r == Err::<(), Error>(Error::NotAllowed) && final(self)@ == old(self)@,
            to != caller ==> {
                &&& r == Ok::<(), Error>(())
                &&& final(self)@.operators == if approved {
                    old(self)@.operators.insert((caller, to))
                } else {
                    old(self)@.operators.remove((caller, to))
                }
                &&& final(self)@.owners == old(self)@.owners
                &&& final(self)@.approvals == old(self)@.approvals
                &&& final(self)@.counts == old(self)@.counts
                &&& final(self)@.account == old(self)@.account
                &&& final(self)@.mint_price == old(self)@.mint_price
                &&& final(self)@.events == old(self)@.events.push(
                    KittyEvent::ApprovalForAll(ApprovalForAll { owner: caller, operator: to, approved }),
                )
            },
    {
        if to == caller {
            return Err(Error::NotAllowed);
        }
        self.events.push(
            KittyEvent::ApprovalForAll(ApprovalForAll { owner: caller, operator: to, approved }),
        );
        let k = pair_key(caller, to);
        let ghost s0 = self.operator_approvals@;
        if approved {
            self.operator_approvals.insert(k);
            proof {
                lemma_unpack_pair_set_insert(s0, caller, to);
            }
        } else {
            self.operator_approvals.remove(&k);
            proof {
                lemma_unpack_pair_set_remove(s0, caller, to);
            }
        }
        proof {
            lemma_wf_same_counts(old(self)@, self@);
        }
        Ok(())
    }

    /// Grants or revokes `to` as an operator over all of the caller's kitties.
    pub fn set_approval_for_all(&mut self, caller: AccountId, to: AccountId, approved: bool) -> (r:
        Result<(), Error>)
        requires
            old(self)@.wf(),
        ensures
            final(self)@.wf(),
            to == caller ==> r == Err::<(), Error>(Error::NotAllowed) && final(self)@ == old(self)@,
            to != caller ==> {
                &&& r == Ok::<(), Error>(())
                &&& final(self)@.operators == if approved {
                    old(self)@.operators.insert((caller, to))
                } else {
                    old(self)@.operators.remove((caller, to))
                }
                &&& final(self)@.owners == old(self)@.owners
                &&& final(self)@.approvals == old(self)@.approvals
                &&& final(self)@.counts == old(self)@.counts
                &&& final(self)@.account == old(self)@.account
                &&& final(self)@.mint_price == old(self)@.mint_price
                &&& final(self)@.events == old(self)@.events.push(
                    KittyEvent::ApprovalForAll(ApprovalForAll { owner: caller, operator: to, approved }),
                )
            },
    {
        self.approve_for_all(caller, to, approved)
    }

    /// Approves `to` to move kitty `id` on the owner's behalf. The caller
    /// must be the owner or one of its operators; the slot must be empty
    /// (an existing approval is only cleared by a transfer, never replaced).
    /// The kitty must exist: its owner is read unguarded.
    pub fn approve_for(&mut self, caller: AccountId, to: &AccountId, id: KittyId) -> (r: Result<
        (),
        Error,
    >)
        requires
            old(self)@.wf(),
            old(self)@.owners.contains_key(id),
        ensures
            final(self)@.wf(),
            !(old(self)@.owners[id] == caller || old(self)@.is_operator(
                old(self)@.owners[id],
                caller,
            )) ==> r == Err::<(), Error>(Error::NotAllowed) && final(self)@ == old(self)@,
            (old(self)@.owners[id] == caller || old(self)@.is_operator(
                old(self)@.owners[id],
                caller,
            )) && *to == NULL_ACCOUNT ==> r == Err::<(), Error>(Error::NotAllowed) && final(self)@
                == old(self)@,
            (old(self)@.owners[id] == caller || old(self)@.is_operator(
                old(self)@.owners[id],
                caller,
            )) && *to != NULL_ACCOUNT && old(self)@.approvals.contains_key(id) ==> r == Err::<
                (),
                Error,
            >(Error::CannotInsert) && final(self)@ == old(self)@,
            (old(self)@.owners[id] == caller || old(self)@.is_operator(
                old(self)@.owners[id],
                caller,
            )) && *to != NULL_ACCOUNT && !old(self)@.approvals.contains_key(id) ==> {
                &&& r == Ok::<(), Error>(())
                &&& final(self)@.approvals == old(self)@.approvals.insert(id, *to)
                &&& final(self)@.owners == old(self)@.owners
                &&& final(self)@.counts == old(self)@.counts
                &&& final(self)@.operators == old(self)@.operators
                &&& final(self)@.account == old(self)@.account
                &&& final(self)@.mint_price == old(self)@.mint_price
                &&& final(self)@.events == old(self)@.events.push(
                    KittyEvent::Approval(Approval { from: caller, to: *to, id }),
                )
            },
    {
        let owner = match self.kitty_owner.get(&id) {
            Some(o) => *o,
            None => {
                // cannot happen: the kitty exists by the precondition
                return Err(Error::NotAllowed);
            },
        };
        if !(owner == caller || self.approved_for_all(owner, caller)) {
            return Err(Error::NotAllowed);
        }
        if *to == NULL_ACCOUNT {
            return Err(Error::NotAllowed);
        }
        if self.token_approvals.contains_key(&id) {
            return Err(Error::CannotInsert);
        }
        self.token_approvals.insert(id, *to);
        self.events.push(KittyEvent::Approval(Approval { from: caller, to: *to, id }));
        proof {
            lemma_wf_same_counts(old(self)@, self@);
        }
        Ok(())
    }

    /// Approves `to` to move kitty `id` on the owner's behalf.
    pub fn approve(&mut self, caller: AccountId, to: AccountId, id: KittyId) -> (r: Result<
        (),
        Error,
    >)
        requires
            old(self)@.wf(),
            old(self)@.owners.contains_key(id),
        ensures
            final(self)@.wf(),
            !(old(self)@.owners[id] == caller || old(self)@.is_operator(
                old(self)@.owners[id],
                caller,
            )) ==> r == Err::<(), Error>(Error::NotAllowed) && final(self)@ == old(self)@,
            (old(self)@.owners[id] == caller || old(self)@.is_operator(
                old(self)@.owners[id],
                caller,
            )) && to == NULL_ACCOUNT ==> r == Err::<(), Error>(Error::NotAllowed) && final(self)@
                == old(self)@,
            (old(self)@.owners[id] == caller || old(self)@.is_operator(
                old(self)@.owners[id],
                caller,
            )) && to != NULL_ACCOUNT && old(self)@.approvals.contains_key(id) ==> r == Err::<
                (),
                Error,
            >(Error::CannotInsert) && final(self)@ == old(self)@,
            (old(self)@.owners[id] == caller || old(self)@.is_operator(
                old(self)@.owners[id],
                caller,
            )) && to != NULL_ACCOUNT && !old(self)@.approvals.contains_key(id) ==> {
                &&& r == Ok::<(), Error>(())
                &&& final(self)@.approvals == old(self)@.approvals.insert(id, to)
                &&& final(self)@.owners == old(self)@.owners
                &&& final(self)@.counts == old(self)@.counts
                &&& final(self)@.operators == old(self)@.operators
                &&& final(self)@.account == old(self)@.account
                &&& final(self)@.mint_price == old(self)@.mint_price
                &&& final(self)@.events == old(self)@.events.push(
                    KittyEvent::Approval(Approval { from: caller, to, id }),
                )
            },
    {
        self.approve_for(caller, &to, id)
    }

    /// Moves kitty `id` from `from` to `to`, when the caller is authorized.
    /// A successful transfer consumes any approval on the kitty. `from` must
    /// name the kitty's owner whenever the transfer would be carried out,
    /// which the counting invariant presupposes.
    pub fn transfer_token_from(
        &mut self,
        caller: AccountId,
        from: &AccountId,
        to: &AccountId,
        id: KittyId,
    ) -> (r: Result<(), Error>)
        requires
            old(self)@.wf(),
            old(self)@.owners.contains_key(id) && old(self)@.may_transfer(caller, id) ==> old(self)@.owners[id] == *from,
        ensures
            final(self)@.wf(),
            !old(self)@.owners.contains_key(id) ==> r == Err::<(), Error>(Error::TokenNotFound)
                && final(self)@ == old(self)@,
            old(self)@.owners.contains_key(id) && !old(self)@.may_transfer(caller, id) ==> r
                == Err::<(), Error>(Error::NotApproved) && final(self)@ == old(self)@,
            old(self)@.owners.contains_key(id) && old(self)@.may_transfer(caller, id) && *to
                == NULL_ACCOUNT ==> r == Err::<(), Error>(Error::NotAllowed) && final(self)@ == old(self)@,
            old(self)@.owners.contains_key(id) && old(self)@.may_transfer(caller, id) && *to
                != NULL_ACCOUNT ==> {
                &&& r == Ok::<(), Error>(())
                &&& final(self)@.owners == old(self)@.owners.insert(id, *to)
                &&& final(self)@.approvals == old(self)@.approvals.remove(id)
                &&& final(self)@.get_approved(id) is None
                &&& forall|a: AccountId| #[trigger]
                    final(self)@.balance_of(a) as int == old(self)@.balance_of(a) as int - (
                    if a == *from {
                        1int
                    } else {
                        0int
                    }) + (if a == *to {
                        1int
                    } else {
                        0int
                    })
                &&& final(self)@.operators == old(self)@.operators
                &&& final(self)@.account == old(self)@.account
                &&& final(self)@.mint_price == old(self)@.mint_price
                &&& final(self)@.events == old(self)@.events.push(
                    KittyEvent::Transfer(Transfer { from: Some(*from), to: Some(*to), id }),
                )
            },
    {
        if !self.token_exists(id) {
            return Err(Error::TokenNotFound);
        }
        if !self.approved_or_owner(Some(caller), id) {
            return Err(Error::NotApproved);
        }
        if *to == NULL_ACCOUNT {
            return Err(Error::NotAllowed);
        }
        self.clear_approval(id);
        let ghost s1 = self@;
        let removed = self.remove_token_from(from, id);
        if removed.is_err() {
            // cannot happen: the kitty was just shown to exist
            return Err(Error::TokenNotFound);
        }
        let ghost s2 = self@;
        let added = self.add_token_to(to, id);
        if added.is_err() {
            // cannot happen: the id was just unmapped and `to` is not null
            return Err(Error::TokenExists);
        }
        let ghost s3 = self@;
        self.events.push(KittyEvent::Transfer(Transfer { from: Some(*from), to: Some(*to), id }));
        proof {
            lemma_wf_same_counts(s3, self@);
            assert(self@.owners =~= old(self)@.owners.insert(id, *to));
            assert forall|a: AccountId| #[trigger] self@.balance_of(a) as int == old(
                self,
            )@.balance_of(a) as int - (if a == *from {
                1int
            } else {
                0int
            }) + (if a == *to {
                1int
            } else {
                0int
            }) by {
                assert(s1.balance_of(a) == old(self)@.balance_of(a));
                assert(s2.balance_of(a) as int == s1.balance_of(a) as int - (if a == *from {
                    1int
                } else {
                    0int
                }));
                assert(s3.balance_of(a) as int == s2.balance_of(a) as int + (if a == *to {
                    1int
                } else {
                    0int
                }));
                assert(self@.balance_of(a) == s3.balance_of(a));
            }
        }
        Ok(())
    }

    /// Moves kitty `id` from the caller to `destination`. Since the kitty is
    /// taken out of the caller's account, the caller must own it whenever
    /// the transfer would be carried out.
    pub fn transfer(&mut self, caller: AccountId, destination: AccountId, id: KittyId) -> (r:
        Result<(), Error>)
        requires
            old(self)@.wf(),
            old(self)@.owners.contains_key(id) && old(self)@.may_transfer(caller, id) ==> old(self)@.owners[id] == caller,
        ensures
            final(self)@.wf(),
            !old(self)@.owners.contains_key(id) ==> r == Err::<(), Error>(Error::TokenNotFound)
                && final(self)@ == old(self)@,
            old(self)@.owners.contains_key(id) && !old(self)@.may_transfer(caller, id) ==> r
                == Err::<(), Error>(Error::NotApproved) && final(self)@ == old(self)@,
            old(self)@.owners.contains_key(id) && old(self)@.may_transfer(caller, id)
                && destination == NULL_ACCOUNT ==> r == Err::<(), Error>(Error::NotAllowed)
                && final(self)@ == old(self)@,
            old(self)@.owners.contains_key(id) && old(self)@.may_transfer(caller, id)
                && destination != NULL_ACCOUNT ==> {
                &&& r == Ok::<(), Error>(())
                &&& final(self)@.owners == old(self)@.owners.insert(id, destination)
                &&& final(self)@.approvals == old(self)@.approvals.remove(id)
                &&& final(self)@.get_approved(id) is None
                &&& forall|a: AccountId| #[trigger]
                    final(self)@.balance_of(a) as int == old(self)@.balance_of(a) as int - (
                    if a == caller {
                        1int
                    } else {
                        0int
                    }) + (if a == destination {
                        1int
                    } else {
                        0int
                    })
                &&& final(self)@.operators == old(self)@.operators
                &&& final(self)@.account == old(self)@.account
                &&& final(self)@.mint_price == old(self)@.mint_price
                &&& final(self)@.events == old(self)@.events.push(
                    KittyEvent::Transfer(Transfer { from: Some(caller), to: Some(destination), id }),
                )
            },
    {
        self.transfer_token_from(caller, &caller, &destination, id)
    }

    /// Moves kitty `id` from `from` to `to` on the caller's behalf.
    pub fn transfer_from(
        &mut self,
        caller: AccountId,
        from: AccountId,
        to: AccountId,
        id: KittyId,
    ) -> (r: Result<(), Error>)
        requires
            old(self)@.wf(),
            old(self)@.owners.contains_key(id) && old(self)@.may_transfer(caller, id) ==> old(self)@.owners[id] == from,
        ensures
            final(self)@.wf(),
            !old(self)@.owners.contains_key(id) ==> r == Err::<(), Error>(Error::TokenNotFound)
                && final(self)@ == old(self)@,
            old(self)@.owners.contains_key(id) && !old(self)@.may_transfer(caller, id) ==> r
                == Err::<(), Error>(Error::NotApproved) && final(self)@ == old(self)@,
            old(self)@.owners.contains_key(id) && old(self)@.may_transfer(caller, id) && to
                == NULL_ACCOUNT ==> r == Err::<(), Error>(Error::NotAllowed) && final(self)@ == old(self)@,
            old(self)@.owners.contains_key(id) && old(self)@.may_transfer(caller, id) && to
                != NULL_ACCOUNT ==> {
                &&& r == Ok::<(), Error>(())
                &&& final(self)@.owners == old(self)@.owners.insert(id, to)
                &&& final(self)@.approvals == old(self)@.approvals.remove(id)
                &&& final(self)@.get_approved(id) is None
                &&& forall|a: AccountId| #[trigger]
                    final(self)@.balance_of(a) as int == old(self)@.balance_of(a) as int - (
                    if a == from {
                        1int
                    } else {
                        0int
                    }) + (if a == to {
                        1int
                    } else {
                        0int
                    })
                &&& final(self)@.operators == old(self)@.operators
                &&& final(self)@.account == old(self)@.account
                &&& final(self)@.mint_price == old(self)@.mint_price
                &&& final(self)@.events == old(self)@.events.push(
                    KittyEvent::Transfer(Transfer { from: Some(from), to: Some(to), id }),
                )
            },
    {
        self.transfer_token_from(caller, &from, &to, id)
    }

    /// Mints kitty `id` for the caller, charging the fixed mint price from
    /// the caller to the registry's account over the coin ledger. The caller
    /// must first have allowed the registry's account to spend that much.
    /// Fails without changing either the registry or the ledger.
    pub fn mint(&mut self, caller: AccountId, id: KittyId, coin: &mut KittyCoin) -> (r: Result<
        (),
        Error,
    >)
        requires
            old(self)@.wf(),
            old(coin)@.wf(),
        ensures
            final(self)@.wf(),
            final(coin)@.wf(),
            !old(coin)@.can_transfer_from(old(self)@.account, caller, old(self)@.mint_price)
                ==> r == Err::<(), Error>(Error::CoinTransferFail) && final(self)@ == old(self)@
                && final(coin)@ == old(coin)@,
            old(coin)@.can_transfer_from(old(self)@.account, caller, old(self)@.mint_price) && old(self)@.owners.contains_key(id) ==> r == Err::<(), Error>(Error::TokenExists) && final(self)@ == old(self)@ && final(coin)@ == old(coin)@,
            old(coin)@.can_transfer_from(old(self)@.account, caller, old(self)@.mint_price)
                && !old(self)@.owners.contains_key(id) && caller == NULL_ACCOUNT ==> r == Err::<
                (),
                Error,
            >(Error::NotAllowed) && final(self)@ == old(self)@ && final(coin)@ == old(coin)@,
            old(coin)@.can_transfer_from(old(self)@.account, caller, old(self)@.mint_price)
                && !old(self)@.owners.contains_key(id) && caller != NULL_ACCOUNT ==> {
                &&& r == Ok::<(), Error>(())
                &&& final(self)@.owners == old(self)@.owners.insert(id, caller)
                &&& forall|a: AccountId| #[trigger]
                    final(self)@.balance_of(a) as int == old(self)@.balance_of(a) as int + (
                    if a == caller {
                        1int
                    } else {
                        0int
                    })
                &&& final(self)@.approvals == old(self)@.approvals
                &&& final(self)@.operators == old(self)@.operators
                &&& final(self)@.account == old(self)@.account
                &&& final(self)@.mint_price == old(self)@.mint_price
                &&& final(self)@.events == old(self)@.events.push(
                    KittyEvent::Transfer(
                        Transfer { from: Some(NULL_ACCOUNT), to: Some(caller), id },
                    ),
                )
                &&& final(coin)@.total_supply == old(coin)@.total_supply
                &&& final(coin)@.allowances == old(coin)@.allowances.insert(
                    (caller, old(self)@.account),
                    (old(coin)@.allowance(caller, old(self)@.account) - old(self)@.mint_price) as Balance,
                )
                &&& forall|a: AccountId| #[trigger]
                    final(coin)@.balance_of(a) as int == old(coin)@.balance_of(a) as int - (
                    if a == caller {
                        old(self)@.mint_price as int
                    } else {
                        0int
                    }) + (if a == old(self)@.account {
                        old(self)@.mint_price as int
                    } else {
                        0int
                    })
                &&& final(coin)@.events == old(coin)@.events.push(
                    crate::kitty_coin::CoinEvent::Transfer(
                        crate::kitty_coin::Transfer {
                            from: Some(caller),
                            to: Some(old(self)@.account),
                            value: old(self)@.mint_price,
                        },
                    ),
                )
            },
    {
        // the payment must be seen to go through before anything changes,
        // so that a failure further down cannot leave the coins moved
        let price = self.mint_price;
        let payee = self.account;
        if coin.allowances_of(caller, payee) < price || coin.balance_of(caller) < price {
            return Err(Error::CoinTransferFail);
        }
        if self.kitty_owner.contains_key(&id) {
            return Err(Error::TokenExists);
        }
        if caller == NULL_ACCOUNT {
            return Err(Error::NotAllowed);
        }
        let payment = coin.transfer_from(payee, caller, payee, price);
        if payment.is_err() {
            // cannot happen: allowance and balance were just checked
            return Err(Error::CoinTransferFail);
        }
        let added = self.add_token_to(&caller, id);
        if added.is_err() {
            // cannot happen: the id is fresh and the caller is not null
            return Err(Error::TokenExists);
        }
        let ghost s1 = self@;
        self.events.push(
            KittyEvent::Transfer(Transfer { from: Some(NULL_ACCOUNT), to: Some(caller), id }),
        );
        proof {
            lemma_wf_same_counts(s1, self@);
            assert forall|a: AccountId| #[trigger] self@.balance_of(a) as int == old(
                self,
            )@.balance_of(a) as int + (if a == caller {
                1int
            } else {
                0int
            }) by {
                assert(s1.balance_of(a) as int == old(self)@.balance_of(a) as int + (
                if a == caller {
                    1int
                } else {
                    0int
                }));
                assert(self@.balance_of(a) == s1.balance_of(a));
            }
        }
        Ok(())
    }

    /// Burns kitty `id`. Only the current owner may burn it; any approval
    /// on the kitty is left behind, as a transfer would clear it.
    pub fn burn(&mut self, caller: AccountId, id: KittyId) -> (r: Result<(), Error>)
        requires
            old(self)@.wf(),
        ensures
            final(self)@.wf(),
            !old(self)@.owners.contains_key(id) ==> r == Err::<(), Error>(Error::TokenNotFound)
                && final(self)@ == old(self)@,
            old(self)@.owners.contains_key(id) && old(self)@.owners[id] != caller ==> r == Err::<
                (),
                Error,
            >(Error::NotOwner) && final(self)@ == old(self)@,
            old(self)@.owners.contains_key(id) && old(self)@.owners[id] == caller ==> {
                &&& r == Ok::<(), Error>(())
                &&& final(self)@.owners == old(self)@.owners.remove(id)
                &&& forall|a: AccountId| #[trigger]
                    final(self)@.balance_of(a) as int == old(self)@.balance_of(a) as int - (
                    if a == caller {
                        1int
                    } else {
                        0int
                    })
                &&& final(self)@.approvals == old(self)@.approvals
                &&& final(self)@.operators == old(self)@.operators
                &&& final(self)@.account == old(self)@.account
                &&& final(self)@.mint_price == old(self)@.mint_price
                &&& final(self)@.events == old(self)@.events.push(
                    KittyEvent::Transfer(
                        Transfer { from: Some(caller), to: Some(NULL_ACCOUNT), id },
                    ),
                )
            },
    {
        let owner = match self.kitty_owner.get(&id) {
            Some(o) => *o,
            None => {
                return Err(Error::TokenNotFound);
            },
        };
        if owner != caller {
            return Err(Error::NotOwner);
        }
        let removed = self.remove_token_from(&caller, id);
        if removed.is_err() {
            // cannot happen: the caller was just shown to own the kitty
            return Err(Error::TokenNotFound);
        }
        let ghost s1 = self@;
        self.events.push(
            KittyEvent::Transfer(Transfer { from: Some(caller), to: Some(NULL_ACCOUNT), id }),
        );
        proof {
            lemma_wf_same_counts(s1, self@);
            assert forall|a: AccountId| #[trigger] self@.balance_of(a) as int == old(
                self,
            )@.balance_of(a) as int - (if a == caller {
                1int
            } else {
                0int
            }) by {
                assert(s1.balance_of(a) as int == old(self)@.balance_of(a) as int - (
                if a == caller {
                    1int
                } else {
                    0int
                }));
                assert(self@.balance_of(a) == s1.balance_of(a));
            }
        }
        Ok(())
    }
}

} // verus!
