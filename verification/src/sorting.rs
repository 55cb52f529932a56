//! Sorting a list by insertion, which keeps items of equal rank in the
//! order they came in.

use vstd::prelude::*;

verus! {

/// Items that a list can be sorted by.
pub trait Ranked: Sized {
    /// Whether the item can be ranked at all.
    spec fn rankable(&self) -> bool;

    /// Whether `self` must stand before `other`.
    spec fn ranks_before(&self, other: &Self) -> bool;

    /// Tells whether `self` must stand before `other`.
    fn is_before(&self, other: &Self) -> (b: bool)
        requires
            self.rankable(),
            other.rankable(),
        ensures
            b == self.ranks_before(other),
    ;
}

/// The least position from `from` on of an item that `item` must stand
/// before, or the length of the list.
pub open spec fn place_from<T: Ranked>(sorted: Seq<T>, item: T, from: int) -> int
    decreases sorted.len() - from,
{
    if from >= sorted.len() {
        sorted.len() as int
    } else if item.ranks_before(&sorted[from]) {
        from
    } else {
        place_from(sorted, item, from + 1)
    }
}

/// The list with `item` put in before the first item that it must stand
/// before, and at the end when there is none.
pub open spec fn inserted<T: Ranked>(sorted: Seq<T>, item: T) -> Seq<T> {
    sorted.insert(place_from(sorted, item, 0), item)
}

/// The list sorted: its items put in one by one, in their order.
pub open spec fn insertion_sorted<T: Ranked>(items: Seq<T>) -> Seq<T>
    decreases items.len(),
{
    if items.len() == 0 {
        Seq::empty()
    } else {
        inserted(insertion_sorted(items.drop_last()), items.last())
    }
}

/// No item stands behind one that it must stand before.
pub open spec fn is_sorted<T: Ranked>(items: Seq<T>) -> bool {
    forall|i: int, j: int|
        0 <= i < j < items.len() ==> !#[trigger] items[j].ranks_before(&items[i])
}

/// Whether the rank is a strict order: no item must stand before itself,
/// and an item that must stand before a second one must stand before all
/// that the second one must stand before.
pub open spec fn strict_order<T: Ranked>() -> bool {
    &&& forall|a: T| !#[trigger] a.ranks_before(&a)
    &&& forall|a: T, b: T, c: T|
        #[trigger] a.ranks_before(&b) && #[trigger] b.ranks_before(&c) ==> a.ranks_before(&c)
}

/// `place_from` is the least position from `from` on of an item that
/// `item` must stand before.
pub proof fn lemma_place_from<T: Ranked>(sorted: Seq<T>, item: T, from: int)
    requires
        0 <= from <= sorted.len(),
    ensures
        from <= place_from(sorted, item, from) <= sorted.len(),
        forall|i: int|
            from <= i < place_from(sorted, item, from) ==> !item.ranks_before(&#[trigger] sorted[i]),
        place_from(sorted, item, from) < sorted.len() ==> item.ranks_before(
            &sorted[place_from(sorted, item, from)],
        ),
    decreases sorted.len() - from,
{
    if from < sorted.len() && !item.ranks_before(&sorted[from]) {
        lemma_place_from(sorted, item, from + 1);
    }
}

/// Sorting keeps every item, as often as it occurs, and the length.
pub proof fn lemma_sorted_permutes<T: Ranked>(items: Seq<T>)
    ensures
        insertion_sorted(items).to_multiset() == items.to_multiset(),
        insertion_sorted(items).len() == items.len(),
    decreases items.len(),
{
    broadcast use vstd::seq_lib::group_to_multiset_ensures;

    if items.len() > 0 {
        let rest = items.drop_last();
        let sorted = insertion_sorted(rest);
        lemma_sorted_permutes(rest);
        lemma_place_from(sorted, items.last(), 0);
        let at = place_from(sorted, items.last(), 0);
        let after = sorted.insert(at, items.last());
        assert(after.remove(at) =~= sorted);
        assert(after.remove(at).to_multiset() == after.to_multiset().remove(after[at]));
        assert(items =~= rest.push(items.last()));
        assert(items.to_multiset() =~= rest.to_multiset().insert(items.last()));
        assert(after.to_multiset() =~= sorted.to_multiset().insert(items.last()));
    }
}

/// Where the rank is a strict order, the sorted list is in order.
#[verifier::rlimit(40)]
pub proof fn lemma_sorted_in_order<T: Ranked>(items: Seq<T>)
    requires
        strict_order::<T>(),
    ensures
        is_sorted(insertion_sorted(items)),
    decreases items.len(),
{
    if items.len() > 0 {
        let sorted = insertion_sorted(items.drop_last());
        let item = items.last();
        lemma_sorted_in_order(items.drop_last());
        lemma_place_from(sorted, item, 0);
        let at = place_from(sorted, item, 0);
        let after = sorted.insert(at, item);
        assert(after.len() == sorted.len() + 1);
        assert forall|i: int, j: int| 0 <= i < j < after.len() implies !#[trigger] after[j].ranks_before(
            &after[i],
        ) by {
            if j == at {
                assert(after[i] == sorted[i]);
                assert(after[j] == item);
                assert(!item.ranks_before(&sorted[i]));
            } else if i == at {
                assert(after[i] == item);
                assert(after[j] == sorted[j - 1]);
                if sorted[j - 1].ranks_before(&item) {
                    assert(item.ranks_before(&sorted[at]));
                    assert(sorted[j - 1].ranks_before(&sorted[at]));
                    if j - 1 > at {
                        assert(!sorted[j - 1].ranks_before(&sorted[at]));
                    } else {
                        assert(!sorted[at].ranks_before(&sorted[at]));
                    }
                }
            } else {
                let si = if i < at {
                    i
                } else {
                    i - 1
                };
                let sj = if j < at {
                    j
                } else {
                    j - 1
                };
                assert(after[i] == sorted[si]);
                assert(after[j] == sorted[sj]);
                assert(!sorted[sj].ranks_before(&sorted[si]));
            }
        }
    }
}

/// What holds of every item of a list holds of every item of the sorted
/// list.
pub proof fn lemma_sorted_keeps<T: Ranked>(items: Seq<T>, holds: spec_fn(T) -> bool)
    requires
        forall|i: int| 0 <= i < items.len() ==> holds(#[trigger] items[i]),
    ensures
        forall|i: int|
            0 <= i < insertion_sorted(items).len() ==> holds(#[trigger] insertion_sorted(items)[i]),
    decreases items.len(),
{
    if items.len() > 0 {
        let rest = insertion_sorted(items.drop_last());
        assert forall|i: int| 0 <= i < items.drop_last().len() implies holds(
            #[trigger] items.drop_last()[i],
        ) by {
            assert(items.drop_last()[i] == items[i]);
        }
        lemma_sorted_keeps(items.drop_last(), holds);
        lemma_place_from(rest, items.last(), 0);
        let at = place_from(rest, items.last(), 0);
        let after = rest.insert(at, items.last());
        assert forall|i: int| 0 <= i < after.len() implies holds(#[trigger] after[i]) by {
            if i < at {
                assert(after[i] == rest[i]);
            } else if i > at {
                assert(after[i] == rest[i - 1]);
            }
        }
    }
}

/// Whether a list can be sorted: every item can be ranked, or there are
/// fewer than two items, which are never held against each other.
pub open spec fn sortable<T: Ranked>(items: Seq<T>) -> bool {
    items.len() < 2 || forall|i: int| 0 <= i < items.len() ==> (#[trigger] items[i]).rankable()
}

/// Sorts a list by insertion.
pub fn sort<T: Ranked>(items: &mut Vec<T>)
    requires
        sortable(old(items)@),
    ensures
        final(items)@ == insertion_sorted(old(items)@),
{
    let ghost all = items@;
    let mut rest: Vec<T> = Vec::new();
    std::mem::swap(items, &mut rest);
    let ghost mut done: int = 0;
    proof {
        assert(all.subrange(0, 0) =~= Seq::<T>::empty());
        assert(all.subrange(0, all.len() as int) =~= all);
    }
    while rest.len() > 0
        invariant
            0 <= done <= all.len(),
            rest@ == all.subrange(done, all.len() as int),
            items@ == insertion_sorted(all.subrange(0, done)),
            items@.len() == done,
            sortable(all),
            all.len() >= 2 ==> forall|i: int|
                0 <= i < items@.len() ==> (#[trigger] items@[i]).rankable(),
        decreases rest@.len(),
    {
        let item = rest.remove(0);
        proof {
            assert(item == all[done]);
            assert(rest@ =~= all.subrange(done + 1, all.len() as int));
            let next = all.subrange(0, done + 1);
            assert(next.drop_last() =~= all.subrange(0, done));
            assert(next.last() == item);
        }
        let mut at: usize = 0;
        while at < items.len() && !item.is_before(&items[at])
            invariant
                at <= items@.len(),
                items@.len() > 0 ==> item.rankable(),
                items@.len() > 0 ==> forall|i: int|
                    0 <= i < items@.len() ==> (#[trigger] items@[i]).rankable(),
                place_from(items@, item, 0) == place_from(items@, item, at as int),
            decreases items@.len() - at,
        {
            at = at + 1;
        }
        items.insert(at, item);
        proof {
            done = done + 1;
        }
    }
    proof {
        assert(all.subrange(0, done) =~= all);
    }
}

} // verus!
