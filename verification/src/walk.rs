//! Walking over the keys of a hash map.
use std::collections::HashMap;
use std::hash::Hash;

use vstd::prelude::*;
use vstd::std_specs::hash::obeys_key_model;

verus! {

broadcast use vstd::std_specs::hash::group_hash_axioms;

/// A clone of a value of this type is equal to the value.
pub open spec fn clones_faithfully<K: Clone>() -> bool {
    forall|key: K, copy: K| #[trigger] cloned(key, copy) ==> copy == key
}

/// `order` lists every key of `map` once.
pub open spec fn lists_keys<K, V>(map: Map<K, V>, order: Seq<K>) -> bool {
    &&& order.no_duplicates()
    &&& order.to_set() == map.dom()
}

/// The keys of `map`, in the order in which it is walked. Which order that is, the map decides.
pub fn walk_keys<K: Clone + Eq + Hash, V>(map: &HashMap<K, V>) -> (order: Vec<K>)
    requires
        obeys_key_model::<K>(),
        clones_faithfully::<K>(),
    ensures
        lists_keys(map@, order@),
        order@.len() == map@.len(),
{
    let mut order: Vec<K> = Vec::new();
    for key in iter: map.keys()
        invariant
            obeys_key_model::<K>(),
            clones_faithfully::<K>(),
            order@.len() == iter.index(),
            forall|i: int| 0 <= i < order@.len() ==> #[trigger] order@[i] == *iter.seq()[i],
    {
        let copy = key.clone();
        assert(cloned(*key, copy));
        order.push(copy);
    }
    let ghost walked = vstd::std_specs::iter::IteratorSpec::remaining(&map.keys());
    assert(order@ =~= walked.unref());
    order
}

/// A list of the keys of a map holds exactly the keys that the map has, and each of them once.
pub proof fn law_keys_are_listed_once<K, V>(map: Map<K, V>, order: Seq<K>)
    ensures
        lists_keys(map, order) ==> {
            &&& forall|key: K| #[trigger] order.contains(key) <==> map.contains_key(key)
            &&& forall|i: int, j: int|
                0 <= i < j < order.len() ==> #[trigger] order[i] != #[trigger] order[j]
        },
{
    if lists_keys(map, order) {
        assert forall|key: K| #[trigger] order.contains(key) <==> map.contains_key(key) by {
            assert(order.to_set().contains(key) == map.dom().contains(key));
        }
    }
}

} // verus!
