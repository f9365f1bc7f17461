//! Sums over finite maps.

use vstd::prelude::*;

verus! {

/// The sum of `f` over the values of a finite map.
pub open spec fn map_sum<K, V>(m: Map<K, V>, f: spec_fn(V) -> nat) -> nat
    decreases m.dom().len(),
{
    if m.dom().finite() && m.dom().len() > 0 {
        let k = m.dom().choose();
        f(m[k]) + map_sum(m.remove(k), f)
    } else {
        0
    }
}

/// The sum splits off the value at any key.
pub proof fn lemma_sum_remove<K, V>(m: Map<K, V>, f: spec_fn(V) -> nat, k: K)
    requires
        m.dom().finite(),
        m.contains_key(k),
    ensures
        map_sum(m, f) == f(m[k]) + map_sum(m.remove(k), f),
    decreases m.dom().len(),
{
    let c = m.dom().choose();
    assert(m.dom().contains(c)) by {
        assert(m.dom().contains(k));
    }
    assert(m.dom().len() > 0) by {
        if m.dom().len() == 0 {
            assert(m.dom() =~= Set::<K>::empty());
        }
    }
    if c != k {
        lemma_sum_remove(m.remove(c), f, k);
        lemma_sum_remove(m.remove(k), f, c);
        assert(m.remove(c).remove(k) =~= m.remove(k).remove(c));
    }
}

/// The sum after setting the value at a key.
pub proof fn lemma_sum_insert<K, V>(m: Map<K, V>, f: spec_fn(V) -> nat, k: K, v: V)
    requires
        m.dom().finite(),
    ensures
        map_sum(m.insert(k, v), f) == f(v) + map_sum(m.remove(k), f),
{
    lemma_sum_remove(m.insert(k, v), f, k);
    assert(m.insert(k, v).remove(k) =~= m.remove(k));
}

/// The sum over no entries.
pub proof fn lemma_sum_empty<K, V>(f: spec_fn(V) -> nat)
    ensures
        map_sum(Map::<K, V>::empty(), f) == 0,
{
}

} // verus!
