//! Sums of the values of a finite map, used to state conservation laws:
//! the fungible ledger's balances sum to its total supply, and the kitty
//! registry's per-owner counts sum to the number of existing kitties.

use vstd::prelude::*;

verus! {

broadcast use vstd::set::group_set_axioms;

/// The sum of `f` applied to the values of the finite map `m`.
pub open spec fn map_sum<K, V>(m: Map<K, V>, f: spec_fn(V) -> int) -> int
    recommends
        m.dom().finite(),
    decreases m.dom().len(),
{
    if m.dom().finite() && m.dom().len() > 0 {
        let k = m.dom().choose();
        f(m[k]) + map_sum(m.remove(k), f)
    } else {
        0
    }
}

/// Splitting off any one key: the sum is that key's value plus the sum of the rest.
pub proof fn lemma_map_sum_remove<K, V>(m: Map<K, V>, f: spec_fn(V) -> int, k: K)
    requires
        m.dom().finite(),
        m.dom().contains(k),
    ensures
        map_sum(m, f) == f(m[k]) + map_sum(m.remove(k), f),
    decreases m.dom().len(),
{
    let k0 = m.dom().choose();
    if k0 == k {
        // `map_sum` unfolds with exactly this key.
    } else {
        lemma_map_sum_remove(m.remove(k0), f, k);
        lemma_map_sum_remove(m.remove(k), f, k0);
        assert(m.remove(k0).remove(k) =~= m.remove(k).remove(k0));
    }
}

/// Inserting a key changes the sum by the new value minus the value it replaces.
pub proof fn lemma_map_sum_insert<K, V>(m: Map<K, V>, f: spec_fn(V) -> int, k: K, v: V)
    requires
        m.dom().finite(),
    ensures
        map_sum(m.insert(k, v), f) == map_sum(m, f) + f(v) - if m.dom().contains(k) {
            f(m[k])
        } else {
            0
        },
{
    lemma_map_sum_remove(m.insert(k, v), f, k);
    if m.dom().contains(k) {
        lemma_map_sum_remove(m, f, k);
        assert(m.insert(k, v).remove(k) =~= m.remove(k));
    } else {
        assert(m.insert(k, v).remove(k) =~= m);
    }
}

/// A map whose values are all non-negative under `f` has a non-negative sum.
pub proof fn lemma_map_sum_nonneg<K, V>(m: Map<K, V>, f: spec_fn(V) -> int)
    requires
        m.dom().finite(),
        forall|x: K| m.dom().contains(x) ==> f(#[trigger] m[x]) >= 0,
    ensures
        map_sum(m, f) >= 0,
    decreases m.dom().len(),
{
    if m.dom().len() > 0 {
        let k = m.dom().choose();
        lemma_map_sum_nonneg(m.remove(k), f);
    }
}

/// With non-negative values, any single value is at most the whole sum.
pub proof fn lemma_map_sum_bound_one<K, V>(m: Map<K, V>, f: spec_fn(V) -> int, k: K)
    requires
        m.dom().finite(),
        m.dom().contains(k),
        forall|x: K| m.dom().contains(x) ==> f(#[trigger] m[x]) >= 0,
    ensures
        f(m[k]) <= map_sum(m, f),
{
    lemma_map_sum_remove(m, f, k);
    lemma_map_sum_nonneg(m.remove(k), f);
}

/// With non-negative values, any two distinct values together are at most the sum.
pub proof fn lemma_map_sum_bound_two<K, V>(m: Map<K, V>, f: spec_fn(V) -> int, a: K, b: K)
    requires
        m.dom().finite(),
        m.dom().contains(a),
        m.dom().contains(b),
        a != b,
        forall|x: K| m.dom().contains(x) ==> f(#[trigger] m[x]) >= 0,
    ensures
        f(m[a]) + f(m[b]) <= map_sum(m, f),
{
    lemma_map_sum_remove(m, f, a);
    lemma_map_sum_bound_one(m.remove(a), f, b);
}

} // verus!
