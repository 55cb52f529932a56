//! Lists of items that carry an identifier: finding, replacing and removing
//! an item by its identifier.

use crate::seqs::{lemma_filter_push, lemma_map_values_push};
use vstd::prelude::*;

verus! {

/// A value that carries an identifier.
pub trait Keyed {
    spec fn key(self) -> u64;
}

/// An item whose view carries the item's identifier.
pub trait Entity: View + Sized where Self::V: Keyed {
    /// The identifier of the item.
    fn id(&self) -> (id: u64)
        ensures
            id == self@.key(),
    ;
}

/// The views of the items of a list.
pub open spec fn views<T: View>(items: Seq<T>) -> Seq<T::V> {
    items.map_values(|item: T| item@)
}

/// The least position from `from` on of a value with the identifier `id`,
/// or the length of the list when there is none.
pub open spec fn first_with_key<V: Keyed>(values: Seq<V>, id: u64, from: int) -> int
    decreases values.len() - from,
{
    if from >= values.len() {
        values.len() as int
    } else if values[from].key() == id {
        from
    } else {
        first_with_key(values, id, from + 1)
    }
}

/// The test that a value has another identifier than `id`.
pub open spec fn other_than<V: Keyed>(id: u64) -> spec_fn(V) -> bool {
    |v: V| v.key() != id
}

/// The list without the values that have the identifier `id`.
pub open spec fn without_key<V: Keyed>(values: Seq<V>, id: u64) -> Seq<V> {
    values.filter(other_than(id))
}

/// The list with `value` in the place of the first value that has the same
/// identifier; the list itself when no value has it.
pub open spec fn replaced<V: Keyed>(values: Seq<V>, value: V) -> Seq<V> {
    let i = first_with_key(values, value.key(), 0);
    if i < values.len() {
        values.update(i, value)
    } else {
        values
    }
}

/// `first_with_key` is the least position from `from` on of a value with
/// the identifier `id`.
pub proof fn lemma_first_with_key<V: Keyed>(values: Seq<V>, id: u64, from: int)
    requires
        0 <= from <= values.len(),
    ensures
        from <= first_with_key(values, id, from) <= values.len(),
        forall|j: int| from <= j < first_with_key(values, id, from) ==> (#[trigger] values[j]).key() != id,
        first_with_key(values, id, from) < values.len() ==> values[first_with_key(
            values,
            id,
            from,
        )].key() == id,
    decreases values.len() - from,
{
    if from < values.len() && values[from].key() != id {
        lemma_first_with_key(values, id, from + 1);
    }
}

/// Finds the first item with the identifier `id`.
pub fn position_by_id<T: Entity>(items: &Vec<T>, id: u64) -> (res: Option<usize>) where T::V: Keyed
    ensures
        match res {
            Some(i) => i < items@.len() && i == first_with_key(views(items@), id, 0),
            None => first_with_key(views(items@), id, 0) == items@.len(),
        },
{
    let mut i: usize = 0;
    while i < items.len()
        invariant
            i <= items@.len(),
            first_with_key(views(items@), id, 0) == first_with_key(views(items@), id, i as int),
        decreases items@.len() - i,
    {
        if items[i].id() == id {
            return Some(i);
        }
        i = i + 1;
    }
    None
}

/// Removes every item with the identifier `id`.
#[verifier::rlimit(40)]
pub fn remove_by_id<T: Entity>(items: &mut Vec<T>, id: u64) where T::V: Keyed
    ensures
        views(final(items)@) == without_key(views(old(items)@), id),
{
    let ghost all = views(items@);
    let ghost pred = other_than::<T::V>(id);
    let mut kept: usize = 0;
    let ghost mut seen: int = 0;
    while kept < items.len()
        invariant
            0 <= kept <= items@.len(),
            kept <= seen <= all.len(),
            items@.len() - kept == all.len() - seen,
            pred == other_than::<T::V>(id),
            views(items@).subrange(0, kept as int) == all.subrange(0, seen).filter(pred),
            views(items@).subrange(kept as int, items@.len() as int) == all.subrange(
                seen,
                all.len() as int,
            ),
        decreases items@.len() - kept,
    {
        let ghost before = views(items@);
        let ghost tail = all.subrange(seen, all.len() as int);
        proof {
            assert(before[kept as int] == before.subrange(kept as int, before.len() as int)[0]);
            assert(tail[0] == all[seen]);
            assert(all.subrange(0, seen + 1) =~= all.subrange(0, seen).push(all[seen]));
            lemma_filter_push(all.subrange(0, seen), all[seen], pred);
        }
        if items[kept].id() == id {
            items.remove(kept);
            proof {
                let after = views(items@);
                assert(after =~= before.remove(kept as int));
                assert(after.subrange(0, kept as int) =~= before.subrange(0, kept as int));
                assert forall|j: int| kept <= j < after.len() implies #[trigger] after[j] == all[j
                    - kept + seen + 1] by {
                    assert(before.subrange(kept as int, before.len() as int)[j - kept + 1] == tail[j
                        - kept + 1]);
                }
                assert(after.subrange(kept as int, after.len() as int) =~= all.subrange(
                    seen + 1,
                    all.len() as int,
                ));
                seen = seen + 1;
            }
        } else {
            proof {
                assert(before.subrange(0, kept + 1) =~= before.subrange(0, kept as int).push(
                    before[kept as int],
                ));
                assert forall|j: int| kept + 1 <= j < before.len() implies #[trigger] before[j]
                    == all[j - kept + seen] by {
                    assert(before.subrange(kept as int, before.len() as int)[j - kept] == tail[j
                        - kept]);
                }
                assert(before.subrange(kept + 1, before.len() as int) =~= all.subrange(
                    seen + 1,
                    all.len() as int,
                ));
                seen = seen + 1;
            }
            kept = kept + 1;
        }
    }
    proof {
        assert(views(items@).subrange(0, kept as int) =~= views(items@));
        assert(all.subrange(0, seen) =~= all);
    }
}

/// Puts `item` in the place of the first item with the same identifier,
/// where there is one.
pub fn replace_by_id<T: Entity>(items: &mut Vec<T>, item: T) where T::V: Keyed
    ensures
        views(final(items)@) == replaced(views(old(items)@), item@),
{
    match position_by_id(items, item.id()) {
        Some(i) => {
            let ghost before = views(items@);
            items.set(i, item);
            assert(views(items@) =~= before.update(i as int, item@));
        },
        None => {},
    }
}

/// Adds `item` at the end.
pub fn append<T: Entity>(items: &mut Vec<T>, item: T) where T::V: Keyed
    ensures
        views(final(items)@) == views(old(items)@).push(item@),
{
    proof {
        lemma_map_values_push(items@, item, |x: T| x@);
    }
    items.push(item);
}

} // verus!
