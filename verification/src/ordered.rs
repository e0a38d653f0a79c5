//! Walking a map in the order of its keys.
use std::collections::BTreeMap;
use vstd::prelude::*;

verus! {

/// Holds of keys that stand in ascending order, none of them twice.
pub open spec fn is_ascending(keys: Seq<usize>) -> bool {
    forall|i: int, j: int| 0 <= i < j < keys.len() ==> keys[i] < keys[j]
}

/// Holds where `keys` lists the members of `set` in ascending order.
pub open spec fn lists(keys: Seq<usize>, set: Set<usize>) -> bool {
    &&& is_ascending(keys)
    &&& keys.to_set() == set
}

/// The members of a finite set in ascending order.
pub open spec fn ascending(set: Set<usize>) -> Seq<usize> {
    choose|keys: Seq<usize>| lists(keys, set)
}

/// There is but one way to list a set in ascending order.
proof fn lemma_same_list(a: Seq<usize>, b: Seq<usize>)
    requires
        is_ascending(a),
        is_ascending(b),
        a.to_set() == b.to_set(),
    ensures
        a == b,
    decreases a.len(),
{
    if a.len() == 0 {
        if b.len() > 0 {
            assert(b.to_set().contains(b[0]));
            assert(a.to_set().contains(b[0]));
        }
        assert(a =~= b);
    } else {
        assert(a.to_set().contains(a.last()));
        assert(b.contains(a.last()));
        assert(b.to_set().contains(b.last()));
        assert(a.contains(b.last()));
        let i = choose|i: int| 0 <= i < b.len() && b[i] == a.last();
        let j = choose|j: int| 0 <= j < a.len() && a[j] == b.last();
        assert(a.last() == b.last());
        let (x, y) = (a.drop_last(), b.drop_last());
        assert forall|k: usize| x.to_set().contains(k) implies y.to_set().contains(k) by {
            let m = choose|m: int| 0 <= m < x.len() && x[m] == k;
            assert(a[m] == k);
            assert(a.to_set().contains(k));
            let n = choose|n: int| 0 <= n < b.len() && b[n] == k;
            assert(y[n] == k);
        }
        assert forall|k: usize| y.to_set().contains(k) implies x.to_set().contains(k) by {
            let m = choose|m: int| 0 <= m < y.len() && y[m] == k;
            assert(b[m] == k);
            assert(b.to_set().contains(k));
            let n = choose|n: int| 0 <= n < a.len() && a[n] == k;
            assert(x[n] == k);
        }
        assert(x.to_set() =~= y.to_set());
        lemma_same_list(x, y);
        assert(a =~= x.push(a.last()));
        assert(b =~= y.push(b.last()));
    }
}

/// A list of a set in ascending order is the one that `ascending` names.
pub proof fn lemma_ascending(keys: Seq<usize>, set: Set<usize>)
    requires
        lists(keys, set),
    ensures
        ascending(set) == keys,
{
    lemma_same_list(keys, ascending(set));
}

/// In a list, the key at `i` is a member of the set, is none of the keys before it, and makes the
/// first `i` keys the first `i + 1`.
pub proof fn lemma_next_key(keys: Seq<usize>, set: Set<usize>, i: int)
    requires
        lists(keys, set),
        0 <= i < keys.len(),
    ensures
        set.contains(keys[i]),
        !keys.take(i).contains(keys[i]),
        keys.take(i + 1) == keys.take(i).push(keys[i]),
        forall|k: usize| #[trigger]
            keys.take(i + 1).contains(k) <==> keys.take(i).contains(k) || k == keys[i],
{
    let (done, next) = (keys.take(i), keys.take(i + 1));
    assert(keys.to_set().contains(keys[i]));
    assert(next =~= done.push(keys[i]));
    assert forall|k: usize| #[trigger] next.contains(k) <==> done.contains(k) || k == keys[i] by {
        if done.contains(k) {
            let m = choose|m: int| 0 <= m < done.len() && done[m] == k;
            assert(next[m] == k);
        }
        if k == keys[i] {
            assert(next[i] == k);
        }
    }
}

/// Every finite set can be listed in ascending order.
pub proof fn lemma_ascending_lists(set: Set<usize>)
    requires
        set.finite(),
    ensures
        lists(ascending(set), set),
    decreases set.len(),
{
    if set.len() == 0 {
        assert(set =~= Set::empty());
        assert(lists(Seq::<usize>::empty(), set)) by {
            assert(Seq::<usize>::empty().to_set() =~= set);
        }
    } else {
        let last = choose_largest(set);
        let rest = set.remove(last);
        lemma_ascending_lists(rest);
        let keys = ascending(rest).push(last);
        assert(is_ascending(keys)) by {
            assert forall|i: int, j: int| 0 <= i < j < keys.len() implies keys[i] < keys[j] by {
                assert(ascending(rest).to_set().contains(keys[i]));
                assert(rest.contains(keys[i]));
            }
        }
        assert(keys.to_set() =~= set) by {
            assert forall|k: usize| keys.to_set().contains(k) implies set.contains(k) by {
                let i = choose|i: int| 0 <= i < keys.len() && keys[i] == k;
                if i < ascending(rest).len() {
                    assert(ascending(rest).to_set().contains(k));
                }
            }
            assert forall|k: usize| set.contains(k) implies keys.to_set().contains(k) by {
                if k != last {
                    assert(ascending(rest).to_set().contains(k));
                    let i = choose|i: int|
                        0 <= i < ascending(rest).len() && ascending(rest)[i] == k;
                    assert(keys[i] == k);
                } else {
                    assert(keys[keys.len() - 1] == k);
                }
            }
        }
        assert(lists(keys, set));
    }
}

/// The largest member of a set.
spec fn largest(set: Set<usize>, k: usize) -> bool {
    set.contains(k) && forall|other: usize| set.contains(other) ==> other <= k
}

/// A finite set that is not empty has a largest member.
proof fn choose_largest(set: Set<usize>) -> (last: usize)
    requires
        set.finite(),
        set.len() > 0,
    ensures
        largest(set, last),
    decreases set.len(),
{
    let k = set.choose();
    assert(set.contains(k));
    let rest = set.remove(k);
    if rest.len() == 0 {
        assert(rest =~= Set::empty());
        assert forall|other: usize| set.contains(other) implies other <= k by {
            if other != k {
                assert(rest.contains(other));
            }
        }
        k
    } else {
        let m = choose_largest(rest);
        assert forall|other: usize| set.contains(other) implies other <= m || other <= k by {
            if other != k {
                assert(rest.contains(other));
            }
        }
        if m < k {
            k
        } else {
            m
        }
    }
}

/// The keys of `map` in ascending order.
pub fn ascending_keys<V>(map: &BTreeMap<usize, V>) -> (keys: Vec<usize>)
    ensures
        keys@ == ascending(map@.dom()),
        lists(keys@, map@.dom()),
{
    broadcast use {vstd::std_specs::btree::group_btree_axioms, vstd::laws_cmp::group_laws_cmp};

    let mut keys: Vec<usize> = Vec::new();
    let entries = map.iter();
    let ghost walk = vstd::std_specs::iter::IteratorSpec::remaining(&entries);
    let ghost names = walk.map_values(|kv: (&usize, &V)| *kv.0);
    assert(vstd::std_specs::btree::key_obeys_cmp_spec::<usize>());
    assert(vstd::std_specs::btree::increasing_seq(names));
    assert forall|i: int, j: int| 0 <= i < j < names.len() implies names[i] < names[j] by {
        assert(vstd::std_specs::cmp::OrdSpec::cmp_spec(&names[i], &names[j]) is Less);
    }
    assert(is_ascending(names));
    proof {
        assert forall|k: usize| names.to_set().contains(k) implies map@.dom().contains(k) by {
            let i = choose|i: int| 0 <= i < names.len() && names[i] == k;
            assert(map@.contains_key(*walk[i].0));
        }
        assert forall|k: usize| map@.dom().contains(k) implies names.to_set().contains(k) by {
            assert(map@.contains_key(k));
            let i = choose|i: int| 0 <= i < walk.len() && walk[i] == (&k, &map@[k]);
            assert(names[i] == k);
        }
        assert(names.to_set() =~= map@.dom());
        lemma_ascending(names, map@.dom());
    }
    for entry in it: entries
        invariant
            it.seq() == walk,
            names == walk.map_values(|kv: (&usize, &V)| *kv.0),
            keys@ == names.take(it.index()),
    {
        keys.push(*entry.0);
        assert(keys@ =~= names.take(it.index() + 1));
    }
    assert(keys@ =~= names);
    keys
}

} // verus!
