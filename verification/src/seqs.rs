//! Facts about sequences that the proofs of this library share.

use vstd::prelude::*;

verus! {

/// Filtering a sequence with one more element at its end keeps that element
/// exactly when it passes the filter.
pub proof fn lemma_filter_push<A>(s: Seq<A>, last: A, pred: spec_fn(A) -> bool)
    ensures
        s.push(last).filter(pred) == if pred(last) {
            s.filter(pred).push(last)
        } else {
            s.filter(pred)
        },
{
    assert(s.push(last) =~= s + seq![last]);
    Seq::filter_distributes_over_add(s, seq![last], pred);
    reveal_with_fuel(Seq::filter, 2);
    assert(seq![last].drop_last() =~= Seq::<A>::empty());
    assert(seq![last].filter(pred) =~= if pred(last) {
        seq![last]
    } else {
        Seq::empty()
    });
    assert(s.filter(pred) + seq![last] =~= s.filter(pred).push(last));
    assert(s.filter(pred) + Seq::<A>::empty() =~= s.filter(pred));
}

/// Mapping a sequence with one more element at its end maps that element
/// to the end.
pub proof fn lemma_map_values_push<A, B>(s: Seq<A>, last: A, f: spec_fn(A) -> B)
    ensures
        s.push(last).map_values(f) == s.map_values(f).push(f(last)),
{
    assert(s.push(last).map_values(f) =~= s.map_values(f).push(f(last)));
}

/// The items whose flag is set, in their order. The two lists have the
/// same length.
pub open spec fn flagged<A>(items: Seq<A>, flags: Seq<bool>) -> Seq<A>
    decreases items.len(),
{
    if items.len() == 0 || flags.len() != items.len() {
        Seq::empty()
    } else if flags.last() {
        flagged(items.drop_last(), flags.drop_last()).push(items.last())
    } else {
        flagged(items.drop_last(), flags.drop_last())
    }
}

/// Where each flag says whether its item passes a test, the flagged items
/// are the items that pass the test.
pub proof fn lemma_flagged_is_filter<A>(items: Seq<A>, flags: Seq<bool>, pred: spec_fn(A) -> bool)
    requires
        flags.len() == items.len(),
        forall|i: int| 0 <= i < items.len() ==> flags[i] == pred(#[trigger] items[i]),
    ensures
        flagged(items, flags) == items.filter(pred),
    decreases items.len(),
{
    reveal_with_fuel(Seq::filter, 1);
    if items.len() > 0 {
        lemma_flagged_is_filter(items.drop_last(), flags.drop_last(), pred);
        assert(items =~= items.drop_last().push(items.last()));
        lemma_filter_push(items.drop_last(), items.last(), pred);
    } else {
        assert(items.filter(pred) =~= Seq::<A>::empty());
    }
}

/// Keeps the items whose flag is set and drops the others.
#[verifier::rlimit(40)]
pub fn retain_flagged<T>(items: &mut Vec<T>, flags: &Vec<bool>)
    requires
        flags@.len() == old(items)@.len(),
    ensures
        final(items)@ == flagged(old(items)@, flags@),
{
    let ghost all = items@;
    let mut kept: usize = 0;
    let mut seen: usize = 0;
    proof {
        assert(all.subrange(0, 0) =~= Seq::<T>::empty());
    }
    while seen < flags.len()
        invariant
            kept <= seen <= all.len(),
            flags@.len() == all.len(),
            items@.len() - kept == all.len() - seen,
            items@.subrange(0, kept as int) == flagged(
                all.subrange(0, seen as int),
                flags@.subrange(0, seen as int),
            ),
            items@.subrange(kept as int, items@.len() as int) == all.subrange(
                seen as int,
                all.len() as int,
            ),
        decreases flags@.len() - seen,
    {
        let ghost before = items@;
        let ghost tail = all.subrange(seen as int, all.len() as int);
        proof {
            assert(before[kept as int] == before.subrange(kept as int, before.len() as int)[0]);
            assert(tail[0] == all[seen as int]);
            let next_items = all.subrange(0, seen + 1);
            let next_flags = flags@.subrange(0, seen + 1);
            assert(next_items.drop_last() =~= all.subrange(0, seen as int));
            assert(next_flags.drop_last() =~= flags@.subrange(0, seen as int));
            assert(next_items.last() == all[seen as int]);
            assert(next_flags.last() == flags@[seen as int]);
        }
        if flags[seen] {
            proof {
                assert(before.subrange(0, kept + 1) =~= before.subrange(0, kept as int).push(
                    before[kept as int],
                ));
                assert forall|j: int| kept + 1 <= j < before.len() implies #[trigger] before[j]
                    == all[j - kept + seen] by {
                    assert(before.subrange(kept as int, before.len() as int)[j - kept] == tail[j
                        - kept]);
                }
                assert(before.subrange(kept + 1, before.len() as int) =~= all.subrange(
                    seen + 1,
                    all.len() as int,
                ));
            }
            kept = kept + 1;
        } else {
            items.remove(kept);
            proof {
                let after = items@;
                assert(after.subrange(0, kept as int) =~= before.subrange(0, kept as int));
                assert forall|j: int| kept <= j < after.len() implies #[trigger] after[j] == all[j
                    - kept + seen + 1] by {
                    assert(before.subrange(kept as int, before.len() as int)[j - kept + 1] == tail[j
                        - kept + 1]);
                }
                assert(after.subrange(kept as int, after.len() as int) =~= all.subrange(
                    seen + 1,
                    all.len() as int,
                ));
            }
        }
        seen = seen + 1;
    }
    proof {
        assert(items@.subrange(0, kept as int) =~= items@);
        assert(all.subrange(0, seen as int) =~= all);
        assert(flags@.subrange(0, seen as int) =~= flags@);
    }
}

} // verus!
