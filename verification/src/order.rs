//! Sorting by insertion: what the order of a list is, and that it is one.

use vstd::prelude::*;

verus! {

/// A list with one more item, behind all that it does not go before.
pub open spec fn placed<T>(list: Seq<T>, x: T, less: spec_fn(T, T) -> bool) -> Seq<T>
    decreases list.len(),
{
    if list.len() == 0 || !less(x, list.last()) {
        list.push(x)
    } else {
        placed(list.drop_last(), x, less).push(list.last())
    }
}

/// The items of a list in order; those of the same rank keep theirs.
pub open spec fn sorted<T>(list: Seq<T>, less: spec_fn(T, T) -> bool) -> Seq<T>
    decreases list.len(),
{
    if list.len() == 0 {
        seq![]
    } else {
        placed(sorted(list.drop_last(), less), list.last(), less)
    }
}

/// Whether no item of a list goes before one that stands in front of it.
pub open spec fn in_order<T>(list: Seq<T>, less: spec_fn(T, T) -> bool) -> bool {
    forall|i: int, j: int| 0 <= i < j < list.len() ==> !less(#[trigger] list[j], #[trigger] list[i])
}

/// Whether `less` orders items by some rank: it is never mutual, and what does
/// not go before another does not go before what that does not go before.
pub open spec fn is_ranking<T>(less: spec_fn(T, T) -> bool) -> bool {
    &&& forall|a: T, b: T| #[trigger] less(a, b) ==> !less(b, a)
    &&& forall|a: T, b: T, c: T|
        !(#[trigger] less(a, b)) && !(#[trigger] less(b, c)) ==> !less(a, c)
}

/// Where an item is placed.
pub proof fn lemma_placed_at<T>(list: Seq<T>, x: T, less: spec_fn(T, T) -> bool, k: int)
    requires
        0 <= k <= list.len(),
        forall|j: int| k <= j < list.len() ==> less(x, #[trigger] list[j]),
        k > 0 ==> !less(x, list[k - 1]),
    ensures
        placed(list, x, less) == list.insert(k, x),
    decreases list.len(),
{
    if k == list.len() {
        assert(list.insert(k, x) =~= list.push(x));
    } else {
        lemma_placed_at(list.drop_last(), x, less, k);
        assert(list.drop_last().insert(k, x).push(list.last()) =~= list.insert(k, x));
    }
}

proof fn lemma_placed<T>(list: Seq<T>, x: T, less: spec_fn(T, T) -> bool)
    requires
        is_ranking(less),
        in_order(list, less),
    ensures
        in_order(placed(list, x, less), less),
        placed(list, x, less).to_multiset() =~= list.to_multiset().insert(x),
        placed(list, x, less).len() == list.len() + 1,
        forall|i: int|
            0 <= i <= list.len() ==> (#[trigger] placed(list, x, less)[i] == x || list.contains(
                placed(list, x, less)[i],
            )),
    decreases list.len(),
{
    broadcast use vstd::seq_lib::group_to_multiset_ensures;

    let new = placed(list, x, less);
    if list.len() == 0 || !less(x, list.last()) {
        assert forall|i: int, j: int| 0 <= i < j < new.len() implies !less(
            #[trigger] new[j],
            #[trigger] new[i],
        ) by {
            if j == list.len() {
                if i < list.len() - 1 {
                    assert(!less(list[list.len() - 1], list[i]));
                }
                assert(!less(x, list.last()));
            }
        }
        assert forall|i: int| 0 <= i <= list.len() implies (#[trigger] new[i] == x || list.contains(
            new[i],
        )) by {
            if i < list.len() {
                assert(list[i] == new[i]);
            }
        }
    } else {
        let front = list.drop_last();
        let last = list.last();
        lemma_placed(front, x, less);
        let grown = placed(front, x, less);
        assert(list =~= front.push(last));
        assert forall|i: int, j: int| 0 <= i < j < new.len() implies !less(
            #[trigger] new[j],
            #[trigger] new[i],
        ) by {
            if j == grown.len() {
                if grown[i] == x {
                    assert(less(x, last));
                } else {
                    let m = choose|m: int| 0 <= m < front.len() && front[m] == grown[i];
                    assert(front.contains(grown[i]));
                    assert(list[m] == grown[i]);
                    assert(!less(list[list.len() - 1], list[m]));
                }
            } else {
                assert(new[i] == grown[i] && new[j] == grown[j]);
            }
        }
        assert forall|i: int| 0 <= i <= list.len() implies (#[trigger] new[i] == x || list.contains(
            new[i],
        )) by {
            if i < grown.len() {
                if grown[i] != x {
                    assert(front.contains(grown[i]));
                    let m = choose|m: int| 0 <= m < front.len() && front[m] == grown[i];
                    assert(list[m] == new[i]);
                }
            } else {
                assert(list[list.len() - 1] == new[i]);
            }
        }
        assert(grown.push(last).to_multiset() =~= grown.to_multiset().insert(last));
        assert(list.to_multiset() =~= front.to_multiset().insert(last));
    }
}

/// Sorting puts a list in order, and neither loses nor invents an item.
pub proof fn law_sorted<T>(list: Seq<T>, less: spec_fn(T, T) -> bool)
    requires
        is_ranking(less),
    ensures
        in_order(sorted(list, less), less),
        sorted(list, less).to_multiset() =~= list.to_multiset(),
        sorted(list, less).len() == list.len(),
    decreases list.len(),
{
    broadcast use vstd::seq_lib::group_to_multiset_ensures;

    if list.len() > 0 {
        law_sorted(list.drop_last(), less);
        lemma_placed(sorted(list.drop_last(), less), list.last(), less);
        assert(list =~= list.drop_last().push(list.last()));
    }
}

} // verus!
