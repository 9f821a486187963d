//! The kitty marketplace: owners list kitties for sale at a price, or for
//! adoption at no cost; buyers pay the seller over the coin ledger and
//! adopters take the kitty directly. A kitty is listed in at most one of the
//! two categories at a time, and listing requires the marketplace's account
//! to obtain the registry's per-kitty approval, which is what later lets it
//! move the kitty on the seller's behalf.

use crate::kitties::{Kitties, KittiesState};
use crate::kitty_coin::KittyCoin;
use crate::{AccountId, Balance, KittyId, NULL_ACCOUNT};
use std::collections::HashMap;
use vstd::prelude::*;

verus! {

broadcast use vstd::std_specs::hash::group_hash_axioms, vstd::seq_lib::group_seq_properties;

/// The ways a marketplace operation can fail.
#[derive(Debug, PartialEq, Eq, Clone, Copy)]
pub enum Error {
    /// Kitty does not have any owner
    NoOwner,
    /// Kitty can be listed for sale only by its owner
    NotOwner,
    /// Kitty is not for sale
    NotForSale,
    /// Kitty is already listed for sale
    AlreadyListedForSale,
    /// Kitty is not for adoption
    NotForAdoption,
    /// Kitty is already listed for adoption
    AlreadyListedForAdoption,
    /// Price cannot be zero
    PriceIsZero,
    /// Failed to make kitty coin payment
    CoinTransferFail,
    /// Failed to change kitty ownership
    OwnershipTransferFail,
    /// Owned kitties count not found
    OwnedKittiesCountNotFound,
    /// The marketplace failed to gain the permission to move the kitty to a future adopter
    ListAdoptNotApproved,
    /// The marketplace failed to gain the permission to move the kitty to a future buyer
    ListSaleNotApproved,
}

/// Event recorded when a kitty is put up for adoption.
#[derive(Debug, PartialEq, Eq, Clone, Copy)]
pub struct ListedForAdoption {
    pub owner: AccountId,
    pub kitty_id: KittyId,
}

/// Event recorded when a kitty is adopted.
#[derive(Debug, PartialEq, Eq, Clone, Copy)]
pub struct Adopted {
    pub adopter: AccountId,
    pub kitty_id: KittyId,
}

/// Event recorded when a kitty is put up for sale.
#[derive(Debug, PartialEq, Eq, Clone, Copy)]
pub struct ListedForSale {
    pub owner: AccountId,
    pub kitty_id: KittyId,
    pub price: Balance,
}

/// Event recorded when a kitty is sold.
#[derive(Debug, PartialEq, Eq, Clone, Copy)]
pub struct Sold {
    pub seller: AccountId,
    pub buyer: AccountId,
    pub kitty_id: KittyId,
    pub price: Balance,
}

/// One entry of the marketplace's event log.
#[derive(Debug, PartialEq, Eq, Clone, Copy)]
pub enum MarketEvent {
    ListedForAdoption(ListedForAdoption),
    Adopted(Adopted),
    ListedForSale(ListedForSale),
    Sold(Sold),
}

/// `ids` with every occurrence of `id` taken out, order kept.
pub open spec fn seq_without(ids: Seq<KittyId>, id: KittyId) -> Seq<KittyId>
    decreases ids.len(),
{
    if ids.len() == 0 {
        ids
    } else if ids.last() == id {
        seq_without(ids.drop_last(), id)
    } else {
        seq_without(ids.drop_last(), id).push(ids.last())
    }
}

/// A sequence without duplicates stays that way when an element is pushed
/// that it does not hold.
proof fn lemma_push_no_duplicates(s: Seq<KittyId>, e: KittyId)
    requires
        s.no_duplicates(),
        !s.contains(e),
    ensures
        s.push(e).no_duplicates(),
{
    let t = s.push(e);
    assert forall|i: int, j: int|
        0 <= i < t.len() && 0 <= j < t.len() && i != j implies t[i] != t[j] by {
        if i < s.len() && j < s.len() {
            assert(t[i] == s[i] && t[j] == s[j]);
        } else if j == s.len() && i < s.len() {
            assert(t[i] == s[i]);
            if s[i] == e {
                assert(s.contains(e));
            }
        } else if i == s.len() && j < s.len() {
            assert(t[j] == s[j]);
            if s[j] == e {
                assert(s.contains(e));
            }
        }
    }
}

/// Taking an id out keeps exactly the other ids, keeps the sequence free of
/// duplicates, and never makes it longer.
pub proof fn lemma_seq_without(ids: Seq<KittyId>, id: KittyId)
    ensures
        forall|x: KittyId| #[trigger]
            seq_without(ids, id).contains(x) <==> ids.contains(x) && x != id,
        ids.no_duplicates() ==> seq_without(ids, id).no_duplicates(),
        seq_without(ids, id).len() <= ids.len(),
    decreases ids.len(),
{
    broadcast use vstd::seq_lib::group_seq_properties;

    if ids.len() == 0 {
        assert forall|x: KittyId| #[trigger]
            seq_without(ids, id).contains(x) <==> ids.contains(x) && x != id by {}
    } else {
        let rest = ids.drop_last();
        let last = ids.last();
        lemma_seq_without(rest, id);
        assert(ids =~= rest.push(last));
        assert forall|x: KittyId| #[trigger]
            seq_without(ids, id).contains(x) <==> ids.contains(x) && x != id by {
            assert(ids.contains(x) <==> rest.contains(x) || x == last);
            if last != id {
                assert(seq_without(ids, id) == seq_without(rest, id).push(last));
                assert(seq_without(ids, id).contains(x) <==> seq_without(rest, id).contains(x)
                    || x == last);
            }
        }
        if ids.no_duplicates() {
            assert(rest.no_duplicates()) by {
                assert forall|i: int, j: int|
                    0 <= i < rest.len() && 0 <= j < rest.len() && i != j implies rest[i]
                    != rest[j] by {
                    assert(rest[i] == ids[i] && rest[j] == ids[j]);
                }
            }
            if last != id {
                assert(!rest.contains(last)) by {
                    if rest.contains(last) {
                        let k = choose|k: int| 0 <= k < rest.len() && rest[k] == last;
                        assert(ids[k] == ids[ids.len() - 1]);
                    }
                }
                assert(!seq_without(rest, id).contains(last));
                lemma_push_no_duplicates(seq_without(rest, id), last);
            }
        }
    }
}

/// Whether the registry would let `agent` be approved for kitty `id`, whose
/// owner is `owner`: the agent acts as the owner or as one of its operators,
/// is not the null account, and the kitty's approval slot is free.
pub open spec fn approve_would_succeed(
    k: KittiesState,
    owner: AccountId,
    agent: AccountId,
    id: KittyId,
) -> bool {
    &&& owner == agent || k.is_operator(owner, agent)
    &&& agent != NULL_ACCOUNT
    &&& !k.approvals.contains_key(id)
}

/// The mathematical state of a marketplace.
pub struct MarketState {
    pub account: AccountId,
    pub sale_prices: Map<KittyId, Balance>,
    pub sale_ids: Seq<KittyId>,
    pub adoption: Seq<KittyId>,
    pub events: Seq<MarketEvent>,
}

impl MarketState {
    /// Whether kitty `id` is listed for sale.
    pub open spec fn is_for_sale(self, id: KittyId) -> bool {
        self.sale_prices.contains_key(id)
    }

    /// Whether kitty `id` is listed for adoption.
    pub open spec fn is_for_adoption(self, id: KittyId) -> bool {
        self.adoption.contains(id)
    }

    /// The marketplace invariant: the sale table and the sale id list hold
    /// the same ids, without duplicates and with positive prices, and no
    /// kitty is listed for sale and for adoption at once.
    pub open spec fn wf(self) -> bool {
        &&& self.sale_prices.dom().finite()
        &&& self.sale_ids.no_duplicates()
        &&& self.adoption.no_duplicates()
        &&& forall|id: KittyId| #[trigger]
            self.sale_prices.contains_key(id) ==> self.sale_ids.contains(id)
        &&& forall|id: KittyId| #[trigger]
            self.sale_ids.contains(id) ==> self.sale_prices.contains_key(id)
        &&& forall|id: KittyId|
            self.sale_prices.contains_key(id) ==> #[trigger] self.sale_prices[id] > 0
        &&& forall|id: KittyId| #[trigger]
            self.adoption.contains(id) ==> !self.sale_prices.contains_key(id)
    }
}

/// The kitty marketplace.
pub struct KittyMarket {
    account: AccountId,
    kitties_for_sale: HashMap<KittyId, Balance>,
    kitty_ids_for_sale: Vec<KittyId>,
    kitties_for_adoption: Vec<KittyId>,
    events: Vec<MarketEvent>,
}

impl View for KittyMarket {
    type V = MarketState;

    closed spec fn view(&self) -> MarketState {
        MarketState {
            account: self.account,
            sale_prices: self.kitties_for_sale@,
            sale_ids: self.kitty_ids_for_sale@,
            adoption: self.kitties_for_adoption@,
            events: self.events@,
        }
    }
}

/// Whether `ids` holds `id`.
fn vec_contains_id(ids: &Vec<KittyId>, id: KittyId) -> (r: bool)
    ensures
        r == ids@.contains(id),
{
    let mut i: usize = 0;
    while i < ids.len()
        invariant
            i <= ids@.len(),
            forall|j: int| 0 <= j < i ==> ids@[j] != id,
        decreases ids@.len() - i,
    {
        if ids[i] == id {
            proof {
                assert(ids@[i as int] == id);
            }
            return true;
        }
        i += 1;
    }
    false
}

/// Takes every occurrence of `id` out of `ids`, keeping the order.
fn remove_id(ids: &mut Vec<KittyId>, id: KittyId)
    ensures
        final(ids)@ == seq_without(old(ids)@, id),
{
    let mut out: Vec<KittyId> = Vec::new();
    let mut i: usize = 0;
    while i < ids.len()
        invariant
            i <= ids@.len(),
            ids@ == old(ids)@,
            out@ == seq_without(ids@.subrange(0, i as int), id),
        decreases ids@.len() - i,
    {
        let x = ids[i];
        proof {
            assert(ids@.subrange(0, i as int + 1).drop_last() =~= ids@.subrange(0, i as int));
            assert(ids@.subrange(0, i as int + 1).last() == ids@[i as int]);
        }
        if x != id {
            out.push(x);
        }
        i += 1;
    }
    proof {
        assert(ids@.subrange(0, ids@.len() as int) =~= ids@);
    }
    *ids = out;
}

impl KittyMarket {
    /// Creates an empty marketplace. `account` is the marketplace's own
    /// account, the one that asks the registry for per-kitty approvals and
    /// later moves listed kitties.
    pub fn new(account: AccountId) -> (m: KittyMarket)
        ensures
            m@.wf(),
            m@.account == account,
            m@.sale_prices == Map::<KittyId, Balance>::empty(),
            m@.sale_ids == Seq::<KittyId>::empty(),
            m@.adoption == Seq::<KittyId>::empty(),
            m@.events == Seq::<MarketEvent>::empty(),
    {
        KittyMarket {
            account,
            kitties_for_sale: HashMap::new(),
            kitty_ids_for_sale: Vec::new(),
            kitties_for_adoption: Vec::new(),
            events: Vec::new(),
        }
    }

    /// The kitties waiting to be adopted.
    pub fn adoption_list(&self) -> (r: Vec<KittyId>)
        ensures
            r@ == self@.adoption,
    {
        let mut out: Vec<KittyId> = Vec::new();
        let mut i: usize = 0;
        while i < self.kitties_for_adoption.len()
            invariant
                i <= self@.adoption.len(),
                out@ == self@.adoption.subrange(0, i as int),
            decreases self@.adoption.len() - i,
        {
            out.push(self.kitties_for_adoption[i]);
            proof {
                assert(out@ =~= self@.adoption.subrange(0, i as int + 1));
            }
            i += 1;
        }
        proof {
            assert(out@ =~= self@.adoption);
        }
        out
    }

    /// The kitties for sale, each with its price, in listing order.
    pub fn kitties_for_sale(&self) -> (r: Vec<(KittyId, Balance)>)
        requires
            self@.wf(),
        ensures
            r@.len() == self@.sale_ids.len(),
            forall|i: int|
                0 <= i < r@.len() ==> #[trigger] r@[i] == (
                self@.sale_ids[i],
                self@.sale_prices[self@.sale_ids[i]],
            ),
    {
        let mut out: Vec<(KittyId, Balance)> = Vec::new();
        let mut i: usize = 0;
        while i < self.kitty_ids_for_sale.len()
            invariant
                self@.wf(),
                i <= self@.sale_ids.len(),
                out@.len() == i,
                forall|j: int|
                    0 <= j < i ==> #[trigger] out@[j] == (
                    self@.sale_ids[j],
                    self@.sale_prices[self@.sale_ids[j]],
                ),
            decreases self@.sale_ids.len() - i,
        {
            let id = self.kitty_ids_for_sale[i];
            proof {
                assert(self@.sale_ids.contains(id));
            }
            let price = match self.kitties_for_sale.get(&id) {
                Some(p) => *p,
                None => 0,  // cannot happen: every listed id has a price
            };
            out.push((id, price));
            i += 1;
        }
        out
    }

    /// The events recorded so far, oldest first.
    pub fn events(&self) -> (r: &Vec<MarketEvent>)
        ensures
            r@ == self@.events,
    {
        &self.events
    }

    /// Lists kitty `kitty_id` for adoption. The caller must be its owner,
    /// the kitty must not already be up for adoption, and the registry must
    /// grant the marketplace's account the kitty's approval; listing takes
    /// the kitty off the sale list.
    pub fn list_for_adoption(
        &mut self,
        caller: AccountId,
        kitty_id: KittyId,
        kitties: &mut Kitties,
    ) -> (r: Result<(), Error>)
        requires
            old(self)@.wf(),
            old(kitties)@.wf(),
        ensures
            final(self)@.wf(),
            final(kitties)@.wf(),
            old(kitties)@.owner_of(kitty_id) != Some(caller) ==> r == Err::<(), Error>(
                Error::NotOwner,
            ) && final(self)@ == old(self)@ && final(kitties)@ == old(kitties)@,
            old(kitties)@.owner_of(kitty_id) == Some(caller) && old(self)@.is_for_adoption(
                kitty_id,
            ) ==> r == Err::<(), Error>(Error::AlreadyListedForAdoption) && final(self)@ == old(self)@ && final(kitties)@ == old(kitties)@,
            old(kitties)@.owner_of(kitty_id) == Some(caller) && !old(self)@.is_for_adoption(
                kitty_id,
            ) && !approve_would_succeed(old(kitties)@, caller, old(self)@.account, kitty_id) ==> r
                == Err::<(), Error>(Error::ListAdoptNotApproved) && final(self)@ == old(self)@
                && final(kitties)@ == old(kitties)@,
            old(kitties)@.owner_of(kitty_id) == Some(caller) && !old(self)@.is_for_adoption(
                kitty_id,
            ) && approve_would_succeed(old(kitties)@, caller, old(self)@.account, kitty_id) ==> {
                &&& r == Ok::<(), Error>(())
                &&& final(kitties)@.approvals == old(kitties)@.approvals.insert(
                    kitty_id,
                    old(self)@.account,
                )
                &&& final(kitties)@.owners == old(kitties)@.owners
                &&& final(kitties)@.counts == old(kitties)@.counts
                &&& final(kitties)@.operators == old(kitties)@.operators
                &&& final(kitties)@.account == old(kitties)@.account
                &&& final(kitties)@.mint_price == old(kitties)@.mint_price
                &&& final(kitties)@.events == old(kitties)@.events.push(
                    crate::kitties::KittyEvent::Approval(
                        crate::kitties::Approval {
                            from: old(self)@.account,
                            to: old(self)@.account,
                            id: kitty_id,
                        },
                    ),
                )
                &&& final(self)@.adoption == old(self)@.adoption.push(kitty_id)
                &&& final(self)@.sale_ids == seq_without(old(self)@.sale_ids, kitty_id)
                &&& final(self)@.sale_prices == old(self)@.sale_prices.remove(kitty_id)
                &&& final(self)@.account == old(self)@.account
                &&& final(self)@.events == old(self)@.events.push(
                    MarketEvent::ListedForAdoption(
                        ListedForAdoption { owner: caller, kitty_id },
                    ),
                )
            },
    {
        let owner = match kitties.owner_of(kitty_id) {
            Some(o) => o,
            None => {
                return Err(Error::NotOwner);
            },
        };
        if owner != caller {
            return Err(Error::NotOwner);
        }
        if vec_contains_id(&self.kitties_for_adoption, kitty_id) {
            return Err(Error::AlreadyListedForAdoption);
        }
        let agent = self.account;
        let list_adopt_result = kitties.approve(agent, agent, kitty_id);
        if list_adopt_result.is_err() {
            return Err(Error::ListAdoptNotApproved);
        }
        self.kitties_for_adoption.push(kitty_id);
        remove_id(&mut self.kitty_ids_for_sale, kitty_id);
        self.kitties_for_sale.remove(&kitty_id);
        self.events.push(
            MarketEvent::ListedForAdoption(ListedForAdoption { owner: caller, kitty_id }),
        );
        proof {
            lemma_seq_without(old(self)@.sale_ids, kitty_id);
            lemma_push_no_duplicates(old(self)@.adoption, kitty_id);
            assert forall|x: KittyId| #[trigger] self@.sale_prices.contains_key(x) implies
                self@.sale_ids.contains(x) by {}
            assert forall|x: KittyId| #[trigger] self@.sale_ids.contains(x) implies
                self@.sale_prices.contains_key(x) by {}
            assert forall|x: KittyId| self@.sale_prices.contains_key(x) implies #[trigger]
                self@.sale_prices[x] > 0 by {}
            assert forall|x: KittyId| #[trigger] self@.adoption.contains(x) implies
                !self@.sale_prices.contains_key(x) by {}
        }
        Ok(())
    }

    /// Adopts kitty `kitty_id`: the registry moves it from its owner to the
    /// caller for no payment, and the listing is cleared. The marketplace's
    /// account must still be allowed to move the kitty; a kitty on the
    /// adoption list must still exist in the registry.
    pub fn adopt(&mut self, caller: AccountId, kitty_id: KittyId, kitties: &mut Kitties) -> (r:
        Result<(), Error>)
        requires
            old(self)@.wf(),
            old(kitties)@.wf(),
            old(self)@.is_for_adoption(kitty_id) ==> old(kitties)@.owners.contains_key(kitty_id),
        ensures
            final(self)@.wf(),
            final(kitties)@.wf(),
            !old(self)@.is_for_adoption(kitty_id) ==> r == Err::<(), Error>(Error::NotForAdoption)
                && final(self)@ == old(self)@ && final(kitties)@ == old(kitties)@,
            old(self)@.is_for_adoption(kitty_id) && !(old(kitties)@.may_transfer(
                old(self)@.account,
                kitty_id,
            ) && caller != NULL_ACCOUNT) ==> r == Err::<(), Error>(Error::OwnershipTransferFail)
                && final(self)@ == old(self)@ && final(kitties)@ == old(kitties)@,
            old(self)@.is_for_adoption(kitty_id) && old(kitties)@.may_transfer(
                old(self)@.account,
                kitty_id,
            ) && caller != NULL_ACCOUNT ==> {
                &&& r == Ok::<(), Error>(())
                &&& final(kitties)@.owners == old(kitties)@.owners.insert(kitty_id, caller)
                &&& final(kitties)@.approvals == old(kitties)@.approvals.remove(kitty_id)
                &&& forall|a: AccountId| #[trigger]
                    final(kitties)@.balance_of(a) as int == old(kitties)@.balance_of(a) as int - (
                    if a == old(kitties)@.owners[kitty_id] {
                        1int
                    } else {
                        0int
                    }) + (if a == caller {
                        1int
                    } else {
                        0int
                    })
                &&& final(kitties)@.operators == old(kitties)@.operators
                &&& final(kitties)@.account == old(kitties)@.account
                &&& final(kitties)@.mint_price == old(kitties)@.mint_price
                &&& final(kitties)@.events == old(kitties)@.events.push(
                    crate::kitties::KittyEvent::Transfer(
                        crate::kitties::Transfer {
                            from: Some(old(kitties)@.owners[kitty_id]),
                            to: Some(caller),
                            id: kitty_id,
                        },
                    ),
                )
                &&& final(self)@.adoption == seq_without(old(self)@.adoption, kitty_id)
                &&& final(self)@.sale_prices == old(self)@.sale_prices
                &&& final(self)@.sale_ids == old(self)@.sale_ids
                &&& final(self)@.account == old(self)@.account
                &&& final(self)@.events == old(self)@.events.push(
                    MarketEvent::Adopted(Adopted { adopter: caller, kitty_id }),
                )
            },
    {
        if !vec_contains_id(&self.kitties_for_adoption, kitty_id) {
            return Err(Error::NotForAdoption);
        }
        let owner = match kitties.owner_of(kitty_id) {
            Some(o) => o,
            None => {
                // cannot happen: a kitty on the adoption list still exists
                return Err(Error::NoOwner);
            },
        };
        let agent = self.account;
        let ownership_transfer_result = kitties.transfer_from(agent, owner, caller, kitty_id);
        if ownership_transfer_result.is_err() {
            return Err(Error::OwnershipTransferFail);
        }
        remove_id(&mut self.kitties_for_adoption, kitty_id);
        self.events.push(MarketEvent::Adopted(Adopted { adopter: caller, kitty_id }));
        proof {
            lemma_seq_without(old(self)@.adoption, kitty_id);
            assert forall|x: KittyId| #[trigger] self@.adoption.contains(x) implies
                !self@.sale_prices.contains_key(x) by {}
        }
        Ok(())
    }

    /// Lists kitty `kitty_id` for sale at `price`. The caller must be its
    /// owner, the price must not be zero, the kitty must not already be for
    /// sale, and the registry must grant the marketplace's account the
    /// kitty's approval; listing takes the kitty off the adoption list.
    pub fn list_for_sale(
        &mut self,
        caller: AccountId,
        kitty_id: KittyId,
        price: Balance,
        kitties: &mut Kitties,
    ) -> (r: Result<(), Error>)
        requires
            old(self)@.wf(),
            old(kitties)@.wf(),
        ensures
            final(self)@.wf(),
            final(kitties)@.wf(),
            old(kitties)@.owner_of(kitty_id) != Some(caller) ==> r == Err::<(), Error>(
                Error::NotOwner,
            ) && final(self)@ == old(self)@ && final(kitties)@ == old(kitties)@,
            old(kitties)@.owner_of(kitty_id) == Some(caller) && price == 0 ==> r == Err::<
                (),
                Error,
            >(Error::PriceIsZero) && final(self)@ == old(self)@ && final(kitties)@ == old(kitties)@,
            old(kitties)@.owner_of(kitty_id) == Some(caller) && price != 0 && old(self)@.is_for_sale(kitty_id) ==> r == Err::<(), Error>(Error::AlreadyListedForSale)
                && final(self)@ == old(self)@ && final(kitties)@ == old(kitties)@,
            old(kitties)@.owner_of(kitty_id) == Some(caller) && price != 0 && !old(self)@.is_for_sale(kitty_id) && !approve_would_succeed(
                old(kitties)@,
                caller,
                old(self)@.account,
                kitty_id,
            ) ==> r == Err::<(), Error>(Error::ListSaleNotApproved) && final(self)@ == old(self)@
                && final(kitties)@ == old(kitties)@,
            old(kitties)@.owner_of(kitty_id) == Some(caller) && price != 0 && !old(self)@.is_for_sale(kitty_id) && approve_would_succeed(
                old(kitties)@,
                caller,
                old(self)@.account,
                kitty_id,
            ) ==> {
                &&& r == Ok::<(), Error>(())
                &&& final(kitties)@.approvals == old(kitties)@.approvals.insert(
                    kitty_id,
                    old(self)@.account,
                )
                &&& final(kitties)@.owners == old(kitties)@.owners
                &&& final(kitties)@.counts == old(kitties)@.counts
                &&& final(kitties)@.operators == old(kitties)@.operators
                &&& final(kitties)@.account == old(kitties)@.account
                &&& final(kitties)@.mint_price == old(kitties)@.mint_price
                &&& final(kitties)@.events == old(kitties)@.events.push(
                    crate::kitties::KittyEvent::Approval(
                        crate::kitties::Approval {
                            from: old(self)@.account,
                            to: old(self)@.account,
                            id: kitty_id,
                        },
                    ),
                )
                &&& final(self)@.sale_prices == old(self)@.sale_prices.insert(kitty_id, price)
                &&& final(self)@.sale_ids == old(self)@.sale_ids.push(kitty_id)
                &&& final(self)@.adoption == seq_without(old(self)@.adoption, kitty_id)
                &&& final(self)@.account == old(self)@.account
                &&& final(self)@.events == old(self)@.events.push(
                    MarketEvent::ListedForSale(
                        ListedForSale { owner: caller, kitty_id, price },
                    ),
                )
            },
    {
        let owner = match kitties.owner_of(kitty_id) {
            Some(o) => o,
            None => {
                return Err(Error::NotOwner);
            },
        };
        if owner != caller {
            return Err(Error::NotOwner);
        }
        if price == 0 {
            return Err(Error::PriceIsZero);
        }
        if self.kitties_for_sale.contains_key(&kitty_id) {
            return Err(Error::AlreadyListedForSale);
        }
        let agent = self.account;
        let approve_result = kitties.approve(agent, agent, kitty_id);
        if approve_result.is_err() {
            return Err(Error::ListSaleNotApproved);
        }
        proof {
            // the kitty is not in the sale id list either, so pushing it
            // keeps the list free of duplicates
            assert(!old(self)@.sale_ids.contains(kitty_id));
            lemma_push_no_duplicates(old(self)@.sale_ids, kitty_id);
        }
        self.kitties_for_sale.insert(kitty_id, price);
        self.kitty_ids_for_sale.push(kitty_id);
        remove_id(&mut self.kitties_for_adoption, kitty_id);
        self.events.push(
            MarketEvent::ListedForSale(ListedForSale { owner: caller, kitty_id, price }),
        );
        proof {
            lemma_seq_without(old(self)@.adoption, kitty_id);
            assert forall|x: KittyId| #[trigger] self@.sale_prices.contains_key(x) implies
                self@.sale_ids.contains(x) by {}
            assert forall|x: KittyId| #[trigger] self@.sale_ids.contains(x) implies
                self@.sale_prices.contains_key(x) by {}
            assert forall|x: KittyId| self@.sale_prices.contains_key(x) implies #[trigger]
                self@.sale_prices[x] > 0 by {}
            assert forall|x: KittyId| #[trigger] self@.adoption.contains(x) implies
                !self@.sale_prices.contains_key(x) by {}
        }
        Ok(())
    }

    /// Buys kitty `kitty_id` at its listed price: the caller pays the
    /// seller over the coin ledger (having first allowed the marketplace's
    /// account to spend that much), the registry moves the kitty to the
    /// caller, and the listing is cleared.
    pub fn buy(
        &mut self,
        caller: AccountId,
        kitty_id: KittyId,
        kitties: &mut Kitties,
        coin: &mut KittyCoin,
    ) -> (r: Result<(), Error>)
        requires
            old(self)@.wf(),
            old(kitties)@.wf(),
            old(coin)@.wf(),
        ensures
            final(self)@.wf(),
            final(kitties)@.wf(),
            final(coin)@.wf(),
            !old(self)@.is_for_sale(kitty_id) ==> r == Err::<(), Error>(Error::NotForSale)
                && final(self)@ == old(self)@ && final(kitties)@ == old(kitties)@ && final(coin)@
                == old(coin)@,
            old(self)@.is_for_sale(kitty_id) && old(kitties)@.owner_of(kitty_id) is None ==> r
                == Err::<(), Error>(Error::NoOwner) && final(self)@ == old(self)@ && final(kitties)@ == old(kitties)@ && final(coin)@ == old(coin)@,
            old(self)@.is_for_sale(kitty_id) && old(kitties)@.owner_of(kitty_id) is Some && !old(coin)@.can_transfer_from(old(self)@.account, caller, old(self)@.sale_prices[kitty_id])
                ==> r == Err::<(), Error>(Error::CoinTransferFail) && final(self)@ == old(self)@
                && final(kitties)@ == old(kitties)@ && final(coin)@ == old(coin)@,
            old(self)@.is_for_sale(kitty_id) && old(kitties)@.owner_of(kitty_id) is Some && old(coin)@.can_transfer_from(old(self)@.account, caller, old(self)@.sale_prices[kitty_id])
                && !(old(kitties)@.may_transfer(old(self)@.account, kitty_id) && caller
                != NULL_ACCOUNT) ==> r == Err::<(), Error>(Error::OwnershipTransferFail) && final(self)@ == old(self)@ && final(kitties)@ == old(kitties)@ && final(coin)@ == old(coin)@,
            old(self)@.is_for_sale(kitty_id) && old(kitties)@.owner_of(kitty_id) is Some && old(coin)@.can_transfer_from(old(self)@.account, caller, old(self)@.sale_prices[kitty_id])
                && old(kitties)@.may_transfer(old(self)@.account, kitty_id) && caller
                != NULL_ACCOUNT ==> {
                &&& r == Ok::<(), Error>(())
                &&& forall|a: AccountId| #[trigger]
                    final(coin)@.balance_of(a) as int == old(coin)@.balance_of(a) as int - (
                    if a == caller {
                        old(self)@.sale_prices[kitty_id] as int
                    } else {
                        0int
                    }) + (if a == old(kitties)@.owners[kitty_id] {
                        old(self)@.sale_prices[kitty_id] as int
                    } else {
                        0int
                    })
                &&& final(coin)@.allowances == old(coin)@.allowances.insert(
                    (caller, old(self)@.account),
                    (old(coin)@.allowance(caller, old(self)@.account) - old(self)@.sale_prices[kitty_id]) as Balance,
                )
                &&& final(coin)@.total_supply == old(coin)@.total_supply
                &&& final(coin)@.events == old(coin)@.events.push(
                    crate::kitty_coin::CoinEvent::Transfer(
                        crate::kitty_coin::Transfer {
                            from: Some(caller),
                            to: Some(old(kitties)@.owners[kitty_id]),
                            value: old(self)@.sale_prices[kitty_id],
                        },
                    ),
                )
                &&& final(kitties)@.owners == old(kitties)@.owners.insert(kitty_id, caller)
                &&& final(kitties)@.approvals == old(kitties)@.approvals.remove(kitty_id)
                &&& forall|a: AccountId| #[trigger]
                    final(kitties)@.balance_of(a) as int == old(kitties)@.balance_of(a) as int - (
                    if a == old(kitties)@.owners[kitty_id] {
                        1int
                    } else {
                        0int
                    }) + (if a == caller {
                        1int
                    } else {
                        0int
                    })
                &&& final(kitties)@.operators == old(kitties)@.operators
                &&& final(kitties)@.account == old(kitties)@.account
                &&& final(kitties)@.mint_price == old(kitties)@.mint_price
                &&& final(kitties)@.events == old(kitties)@.events.push(
                    crate::kitties::KittyEvent::Transfer(
                        crate::kitties::Transfer {
                            from: Some(old(kitties)@.owners[kitty_id]),
                            to: Some(caller),
                            id: kitty_id,
                        },
                    ),
                )
                &&& final(self)@.sale_prices == old(self)@.sale_prices.remove(kitty_id)
                &&& final(self)@.sale_ids == seq_without(old(self)@.sale_ids, kitty_id)
                &&& final(self)@.adoption == old(self)@.adoption
                &&& final(self)@.account == old(self)@.account
                &&& final(self)@.events == old(self)@.events.push(
                    MarketEvent::Sold(
                        Sold {
                            seller: old(kitties)@.owners[kitty_id],
                            buyer: caller,
                            kitty_id,
                            price: old(self)@.sale_prices[kitty_id],
                        },
                    ),
                )
            },
    {
        let price = match self.kitties_for_sale.get(&kitty_id) {
            Some(p) => *p,
            None => {
                return Err(Error::NotForSale);
            },
        };
        let seller = match kitties.owner_of(kitty_id) {
            Some(o) => o,
            None => {
                return Err(Error::NoOwner);
            },
        };
        let buyer = caller;
        let agent = self.account;
        // both the payment and the ownership move must be seen to go through
        // before either is made, so that a failure of the second cannot
        // leave only the coins moved
        if coin.allowances_of(buyer, agent) < price || coin.balance_of(buyer) < price {
            return Err(Error::CoinTransferFail);
        }
        if !(kitties.approved_or_owner(Some(agent), kitty_id) && buyer != NULL_ACCOUNT) {
            return Err(Error::OwnershipTransferFail);
        }
        let payment_result = coin.transfer_from(agent, buyer, seller, price);
        if payment_result.is_err() {
            // cannot happen: allowance and balance were just checked
            return Err(Error::CoinTransferFail);
        }
        let ownership_transfer_result = kitties.transfer_from(agent, seller, buyer, kitty_id);
        if ownership_transfer_result.is_err() {
            // cannot happen: the marketplace was just shown to be approved
            return Err(Error::OwnershipTransferFail);
        }
        self.kitties_for_sale.remove(&kitty_id);
        remove_id(&mut self.kitty_ids_for_sale, kitty_id);
        self.events.push(MarketEvent::Sold(Sold { seller, buyer, kitty_id, price }));
        proof {
            lemma_seq_without(old(self)@.sale_ids, kitty_id);
            assert forall|x: KittyId| #[trigger] self@.sale_prices.contains_key(x) implies
                self@.sale_ids.contains(x) by {}
            assert forall|x: KittyId| #[trigger] self@.sale_ids.contains(x) implies
                self@.sale_prices.contains_key(x) by {}
            assert forall|x: KittyId| self@.sale_prices.contains_key(x) implies #[trigger]
                self@.sale_prices[x] > 0 by {}
            assert forall|x: KittyId| #[trigger] self@.adoption.contains(x) implies
                !self@.sale_prices.contains_key(x) by {}
        }
        Ok(())
    }
}

} // verus!
