use std::collections::BTreeMap;
use vstd::prelude::*;
use vstd::std_specs::cmp::OrdSpec;
use vstd::std_specs::iter::IteratorSpec;

verus! {

broadcast use {vstd::std_specs::btree::group_btree_axioms, vstd::laws_cmp::group_laws_cmp};

/// The keys of a map, in increasing order.
pub fn keys_of<V>(m: &BTreeMap<usize, V>) -> (r: Vec<usize>)
    ensures
        r@.to_set() == m@.dom(),
        r@.no_duplicates(),
        r@.len() == m@.dom().len(),
        forall|i: int, j: int| 0 <= i < j < r@.len() ==> r@[i] < r@[j],
{
    let mut out: Vec<usize> = Vec::new();
    let iter = m.iter();
    let ghost items = iter.remaining();
    let ghost keys = items.map_values(|kv: (&usize, &V)| *kv.0);
    assert(vstd::std_specs::btree::increasing_seq(keys));
    assert forall|i: int, j: int| 0 <= i < j < keys.len() implies keys[i] < keys[j] by {
        assert(keys[i].cmp_spec(&keys[j]) is Less);
    }
    for kv in it: iter
        invariant
            it.seq() == items,
            keys == items.map_values(|kv: (&usize, &V)| *kv.0),
            forall|i: int, j: int| 0 <= i < j < keys.len() ==> keys[i] < keys[j],
            out@.len() == it.index(),
            forall|i: int| 0 <= i < it.index() ==> out@[i] == *it.seq()[i].0,
    {
        out.push(*kv.0);
    }
    assert(out@ =~= keys);
    assert(out@.no_duplicates()) by {
        assert forall|i: int, j: int| 0 <= i < out@.len() && 0 <= j < out@.len() && i != j implies out@[i] != out@[j] by {
            if i < j {
                assert(keys[i] < keys[j]);
            } else {
                assert(keys[j] < keys[i]);
            }
        }
    }
    assert forall|k: usize| out@.to_set().contains(k) <==> m@.dom().contains(k) by {
        if m@.dom().contains(k) {
            assert(items.contains((&k, &m@[k])));
            let i = choose|i: int| 0 <= i < items.len() && items[i] == (&k, &m@[k]);
            assert(out@[i] == k);
        }
        if out@.to_set().contains(k) {
            let i = choose|i: int| 0 <= i < out@.len() && out@[i] == k;
            assert(m@.contains_key(*items[i].0));
        }
    }
    assert(out@.to_set() =~= m@.dom());
    out
}

} // verus!
