//! Set operations on `HashSet<usize>`, stated over the sets' views.

use std::collections::HashSet;
use vstd::std_specs::iter::IteratorSpec;
use vstd::prelude::*;

verus! {

broadcast use vstd::std_specs::hash::group_hash_axioms;

/// The set of the first `n` items of `items`.
pub open spec fn seen_so_far(items: Seq<usize>, n: int) -> Set<usize> {
    Set::new(|v: usize| exists|i: int| 0 <= i < n && i < items.len() && items[i] == v)
}

proof fn lemma_seen_so_far_all(items: Seq<usize>)
    ensures
        seen_so_far(items, items.len() as int) == items.to_set(),
{
    assert forall|v: usize| items.to_set().contains(v) implies seen_so_far(
        items,
        items.len() as int,
    ).contains(v) by {
        let i = choose|i: int| 0 <= i < items.len() && items[i] == v;
        assert(0 <= i < items.len() && items[i] == v);
    }
    assert(seen_so_far(items, items.len() as int) =~= items.to_set());
}

proof fn lemma_seen_so_far_step(items: Seq<usize>, n: int)
    requires
        0 <= n < items.len(),
    ensures
        seen_so_far(items, n + 1) == seen_so_far(items, n).insert(items[n]),
{
    assert forall|v: usize| seen_so_far(items, n).insert(items[n]).contains(v) implies seen_so_far(
        items,
        n + 1,
    ).contains(v) by {
        if v == items[n] {
            assert(0 <= n < n + 1 && items[n] == v);
        } else {
            let i = choose|i: int| 0 <= i < n && i < items.len() && items[i] == v;
            assert(0 <= i < n + 1 && items[i] == v);
        }
    }
    assert(seen_so_far(items, n + 1) =~= seen_so_far(items, n).insert(items[n]));
}

/// A fresh set with the same elements as `source`.
pub fn snapshot(source: &HashSet<usize>) -> (copy: HashSet<usize>)
    ensures
        copy@ == source@,
{
    let mut copy: HashSet<usize> = HashSet::new();
    let ghost items: Seq<usize> = source.iter().remaining().unref();
    for value in it: source.iter()
        invariant
            it.seq().unref() == items,
            copy@ == seen_so_far(items, it.index()),
    {
        proof {
            lemma_seen_so_far_step(items, it.index());
        }
        copy.insert(*value);
    }
    proof {
        lemma_seen_so_far_all(items);
    }
    copy
}

/// The elements of `all` that `known` lacks, as a fresh set.
pub fn difference(all: &HashSet<usize>, known: &HashSet<usize>) -> (missing: HashSet<usize>)
    ensures
        missing@ == all@.difference(known@),
{
    let mut missing: HashSet<usize> = HashSet::new();
    let ghost items: Seq<usize> = all.iter().remaining().unref();
    for value in it: all.iter()
        invariant
            it.seq().unref() == items,
            missing@ == seen_so_far(items, it.index()).difference(known@),
    {
        proof {
            lemma_seen_so_far_step(items, it.index());
        }
        if !known.contains(value) {
            missing.insert(*value);
        }
        assert(missing@ =~= seen_so_far(items, it.index() + 1).difference(known@));
    }
    proof {
        lemma_seen_so_far_all(items);
    }
    missing
}

/// Adds every element of `extra` to `target`.
pub fn merge(target: &mut HashSet<usize>, extra: &HashSet<usize>)
    ensures
        final(target)@ == old(target)@.union(extra@),
{
    let ghost items: Seq<usize> = extra.iter().remaining().unref();
    for value in it: extra.iter()
        invariant
            it.seq().unref() == items,
            target@ == old(target)@.union(seen_so_far(items, it.index())),
    {
        proof {
            lemma_seen_so_far_step(items, it.index());
        }
        target.insert(*value);
        assert(target@ =~= old(target)@.union(seen_so_far(items, it.index() + 1)));
    }
    proof {
        lemma_seen_so_far_all(items);
    }
}

} // verus!
