//! Listing the keys of hash maps.
use std::collections::HashMap;
use vstd::prelude::*;
use vstd::std_specs::iter::IteratorSpec;

verus! {

/// Whether `list` names every member of `keys` exactly once.
pub open spec fn lists_exactly<K>(list: Seq<K>, keys: Set<K>) -> bool {
    list.no_duplicates() && list.to_set() == keys
}

/// The keys of a map with 64-bit keys, in the map's own order.
pub fn keys_u64<V>(m: &HashMap<u64, V>) -> (r: Vec<u64>)
    ensures
        lists_exactly(r@, m@.dom()),
{
    broadcast use vstd::std_specs::hash::group_hash_axioms;

    let mut out: Vec<u64> = Vec::new();
    for key in it: m.keys()
        invariant
            out@.len() == it.index(),
            forall|i: int| 0 <= i < out@.len() ==> out@[i] == *it.seq()[i],
    {
        out.push(*key);
    }
    assert(m.keys().remaining().unref() =~= out@);
    out
}

/// The keys of a map with 32-bit keys, in the map's own order.
pub fn keys_u32<V>(m: &HashMap<u32, V>) -> (r: Vec<u32>)
    ensures
        lists_exactly(r@, m@.dom()),
{
    broadcast use vstd::std_specs::hash::group_hash_axioms;

    let mut out: Vec<u32> = Vec::new();
    for key in it: m.keys()
        invariant
            out@.len() == it.index(),
            forall|i: int| 0 <= i < out@.len() ==> out@[i] == *it.seq()[i],
    {
        out.push(*key);
    }
    assert(m.keys().remaining().unref() =~= out@);
    out
}

/// A list of exactly the members of a set holds every member in one place and nothing
/// else.
pub proof fn exact_lists_hold_every_member<K>(list: Seq<K>, keys: Set<K>, key: K)
    requires
        lists_exactly(list, keys),
    ensures
        keys.contains(key) <==> list.contains(key),
        forall|i: int, j: int| 0 <= i < j < list.len() ==> list[i] != list[j],
{
    assert(list.to_set().contains(key) <==> list.contains(key));
}

} // verus!
