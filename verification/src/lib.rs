//! An in-process token registry: a fungible ledger, a non-fungible kitty
//! registry, and a marketplace that composes the two.
//!
//! Every state-changing entry point takes the calling account explicitly and
//! returns a typed result; on any error the state is left unchanged, so each
//! operation is atomic on its own. Emitted events are appended to a log held
//! by each component.

use vstd::prelude::*;

pub mod kitties;
pub mod kitty_coin;
pub mod kitty_market;
pub mod sums;

verus! {

/// An account identity, supplied by the embedding system.
/// The null account `0` may never own or receive a kitty.
pub type AccountId = u64;

/// A kitty token id.
pub type KittyId = u32;

/// An amount of fungible kitty coins.
pub type Balance = u128;

/// The null account: tokens may not be transferred or approved to it.
pub const NULL_ACCOUNT: AccountId = 0;

/// Packs an ordered pair of accounts into one key for a table keyed by pairs.
pub open spec fn spec_pair_key(a: AccountId, b: AccountId) -> u128 {
    ((a as int) * 0x1_0000_0000_0000_0000 + (b as int)) as u128
}

/// Packing is injective, so a pair-keyed table confuses no two pairs.
pub proof fn lemma_pair_key_injective(a1: AccountId, b1: AccountId, a2: AccountId, b2: AccountId)
    requires
        spec_pair_key(a1, b1) == spec_pair_key(a2, b2),
    ensures
        a1 == a2,
        b1 == b2,
{
    let d: int = 0x1_0000_0000_0000_0000;
    assert((a1 as int) * d <= 0xffff_ffff_ffff_ffff * d);
    assert((a2 as int) * d <= 0xffff_ffff_ffff_ffff * d);
    let x = spec_pair_key(a1, b1) as int;
    assert(x == (a1 as int) * d + (b1 as int));
    assert(x == (a2 as int) * d + (b2 as int));
    vstd::arithmetic::div_mod::lemma_fundamental_div_mod_converse(x, d, a1 as int, b1 as int);
    vstd::arithmetic::div_mod::lemma_fundamental_div_mod_converse(x, d, a2 as int, b2 as int);
}

pub(crate) fn pair_key(a: AccountId, b: AccountId) -> (k: u128)
    ensures
        k == spec_pair_key(a, b),
{
    (a as u128) * 0x1_0000_0000_0000_0000 + (b as u128)
}

/// Reads a table keyed by packed pairs back as a table keyed by the pairs.
pub open spec fn unpack_pair_map<V>(m: Map<u128, V>) -> Map<(AccountId, AccountId), V> {
    Map::new(
        |p: (AccountId, AccountId)| m.contains_key(spec_pair_key(p.0, p.1)),
        |p: (AccountId, AccountId)| m[spec_pair_key(p.0, p.1)],
    )
}

/// Updating one packed key updates exactly one pair.
pub proof fn lemma_unpack_pair_map_insert<V>(m: Map<u128, V>, a: AccountId, b: AccountId, v: V)
    ensures
        unpack_pair_map(m.insert(spec_pair_key(a, b), v)) == unpack_pair_map(m).insert((a, b), v),
{
    let l = unpack_pair_map(m.insert(spec_pair_key(a, b), v));
    let r = unpack_pair_map(m).insert((a, b), v);
    assert forall|p: (AccountId, AccountId)|
        (#[trigger] l.contains_key(p) <==> r.contains_key(p)) && (l.contains_key(p) ==> l[p]
            == r[p]) by {
        if spec_pair_key(p.0, p.1) == spec_pair_key(a, b) {
            lemma_pair_key_injective(p.0, p.1, a, b);
        }
    }
    assert(l =~= r);
}

/// Reads a set of packed pairs back as a set of pairs.
pub open spec fn unpack_pair_set(s: Set<u128>) -> Set<(AccountId, AccountId)> {
    Set::new(|p: (AccountId, AccountId)| s.contains(spec_pair_key(p.0, p.1)))
}

/// Inserting one packed key inserts exactly one pair.
pub proof fn lemma_unpack_pair_set_insert(s: Set<u128>, a: AccountId, b: AccountId)
    ensures
        unpack_pair_set(s.insert(spec_pair_key(a, b))) == unpack_pair_set(s).insert((a, b)),
{
    let l = unpack_pair_set(s.insert(spec_pair_key(a, b)));
    let r = unpack_pair_set(s).insert((a, b));
    assert forall|p: (AccountId, AccountId)| #[trigger] l.contains(p) <==> r.contains(p) by {
        if spec_pair_key(p.0, p.1) == spec_pair_key(a, b) {
            lemma_pair_key_injective(p.0, p.1, a, b);
        }
    }
    assert(l =~= r);
}

/// Removing one packed key removes exactly one pair.
pub proof fn lemma_unpack_pair_set_remove(s: Set<u128>, a: AccountId, b: AccountId)
    ensures
        unpack_pair_set(s.remove(spec_pair_key(a, b))) == unpack_pair_set(s).remove((a, b)),
{
    let l = unpack_pair_set(s.remove(spec_pair_key(a, b)));
    let r = unpack_pair_set(s).remove((a, b));
    assert forall|p: (AccountId, AccountId)| #[trigger] l.contains(p) <==> r.contains(p) by {
        if spec_pair_key(p.0, p.1) == spec_pair_key(a, b) {
            lemma_pair_key_injective(p.0, p.1, a, b);
        }
    }
    assert(l =~= r);
}

} // verus!
