//! The ids of an ordered map, in their order.

use std::collections::BTreeMap;
use vstd::prelude::*;
use vstd::std_specs::cmp::OrdSpec;
use vstd::std_specs::iter::IteratorSpec;

verus! {

/// Whether `keys` lists each id of `dom` once, from the smallest up.
pub open spec fn lists_in_order(keys: Seq<u64>, dom: Set<u64>) -> bool {
    &&& keys.to_set() == dom
    &&& forall|i: int, j: int| 0 <= i < j < keys.len() ==> keys[i] < keys[j]
}

/// The ids under which `m` holds a value, from the smallest up.
pub fn keys_in_order<V>(m: &BTreeMap<u64, V>) -> (keys: Vec<u64>)
    ensures
        lists_in_order(keys@, m@.dom()),
        keys@.len() == m@.len(),
{
    broadcast use vstd::std_specs::btree::group_btree_axioms;

    let mut keys: Vec<u64> = Vec::new();
    for k in it: m.keys()
        invariant
            keys@.len() == it.index(),
            forall|j: int| 0 <= j < keys@.len() ==> keys@[j] == *it.seq()[j],
    {
        keys.push(*k);
    }
    proof {
        let listed = vstd::std_specs::btree::spec_keys_iter(m).remaining();
        assert(keys@ =~= listed.unref());
        assert forall|i: int, j: int| 0 <= i < j < keys@.len() implies keys@[i] < keys@[j] by {
            assert(OrdSpec::cmp_spec(&listed[i], &listed[j]) is Less);
        }
    }
    keys
}

/// How many ids of `dom` are smaller than `id`: the place of `id` when the
/// ids are listed from the smallest up.
pub open spec fn rank(dom: Set<u64>, id: u64) -> nat {
    dom.filter(|other: u64| other < id).len()
}

/// In a list of the ids from the smallest up, each id stands at its rank.
pub proof fn lemma_listed_at_rank(keys: Seq<u64>, dom: Set<u64>, i: int)
    requires
        lists_in_order(keys, dom),
        0 <= i < keys.len(),
    ensures
        dom.contains(keys[i]),
        rank(dom, keys[i]) == i,
{
    let smaller = dom.filter(|other: u64| other < keys[i]);
    let front = keys.take(i);
    assert(keys.to_set().contains(keys[i]));
    assert(smaller =~= front.to_set()) by {
        assert forall|x: u64| smaller.contains(x) implies front.to_set().contains(x) by {
            assert(keys.to_set().contains(x));
            let j = choose|j: int| 0 <= j < keys.len() && keys[j] == x;
            if j >= i {
                if j > i {
                    assert(keys[i] < keys[j]);
                }
            } else {
                assert(front[j] == x);
            }
        }
        assert forall|x: u64| front.to_set().contains(x) implies smaller.contains(x) by {
            let j = choose|j: int| 0 <= j < front.len() && front[j] == x;
            assert(keys[j] == x);
            assert(keys.to_set().contains(x));
            assert(keys[j] < keys[i]);
        }
    }
    assert(front.no_duplicates()) by {
        assert forall|a: int, b: int| 0 <= a < front.len() && 0 <= b < front.len() && a != b
            implies front[a] != front[b] by {
            if a < b {
                assert(keys[a] < keys[b]);
            } else {
                assert(keys[b] < keys[a]);
            }
        }
    }
    front.unique_seq_to_set();
}

/// Two different ids of a finite set differ in rank.
pub proof fn lemma_rank_tells_apart(dom: Set<u64>, a: u64, b: u64)
    requires
        dom.finite(),
        dom.contains(a),
        dom.contains(b),
        a < b,
    ensures
        rank(dom, a) < rank(dom, b),
{
    let below_a = dom.filter(|other: u64| other < a);
    let below_b = dom.filter(|other: u64| other < b);
    assert(below_b.finite()) by {
        vstd::set_lib::lemma_len_subset(below_b, dom);
    }
    assert(below_b.contains(a));
    assert(below_a.subset_of(below_b.remove(a)));
    vstd::set_lib::lemma_len_subset(below_a, below_b.remove(a));
}

/// Every id of a finite set has a rank below the size of the set.
pub proof fn lemma_rank_below_len(dom: Set<u64>, id: u64)
    requires
        dom.finite(),
        dom.contains(id),
    ensures
        rank(dom, id) < dom.len(),
{
    let below = dom.filter(|other: u64| other < id);
    assert(below.subset_of(dom.remove(id)));
    vstd::set_lib::lemma_len_subset(below, dom.remove(id));
}

/// The id at place `idx` when the ids of `dom` are listed from the
/// smallest up, if the set has that many.
pub open spec fn id_at(dom: Set<u64>, idx: int) -> Option<u64> {
    if exists|id: u64| dom.contains(id) && rank(dom, id) == idx {
        Some(choose|id: u64| dom.contains(id) && rank(dom, id) == idx)
    } else {
        None
    }
}

/// The id at place `idx` when the ids of `m` are listed from the smallest
/// up: `None` where `m` holds `idx` ids or fewer.
pub fn key_at<V>(m: &BTreeMap<u64, V>, idx: usize) -> (r: Option<u64>)
    ensures
        r == id_at(m@.dom(), idx as int),
        r is Some <==> idx < m@.len(),
        r matches Some(id) ==> m@.contains_key(id) && rank(m@.dom(), id) == idx,
{
    broadcast use vstd::std_specs::btree::group_btree_axioms;

    let keys = keys_in_order(m);
    if idx < keys.len() {
        proof {
            lemma_listed_at_rank(keys@, m@.dom(), idx as int);
            let found = keys@[idx as int];
            let chosen = choose|id: u64| m@.dom().contains(id) && rank(m@.dom(), id) == idx;
            if chosen < found {
                lemma_rank_tells_apart(m@.dom(), chosen, found);
            } else if found < chosen {
                lemma_rank_tells_apart(m@.dom(), found, chosen);
            }
        }
        Some(keys[idx])
    } else {
        proof {
            assert forall|id: u64| m@.dom().contains(id) implies rank(m@.dom(), id) != idx by {
                lemma_rank_below_len(m@.dom(), id);
            }
        }
        None
    }
}

} // verus!
