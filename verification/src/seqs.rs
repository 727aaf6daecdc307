//! Facts about sequences that several modules share.

use vstd::prelude::*;

verus! {

/// The position of the first item that satisfies a predicate, or the length.
pub open spec fn first_where<T>(items: Seq<T>, wanted: spec_fn(T) -> bool) -> int
    decreases items.len(),
{
    if items.len() == 0 || wanted(items[0]) {
        0
    } else {
        1 + first_where(items.drop_first(), wanted)
    }
}

/// What `first_where` finds is the first such item.
pub proof fn lemma_first_where<T>(items: Seq<T>, wanted: spec_fn(T) -> bool)
    ensures
        0 <= first_where(items, wanted) <= items.len(),
        first_where(items, wanted) < items.len() ==> wanted(items[first_where(items, wanted)]),
        forall|i: int| 0 <= i < first_where(items, wanted) ==> !wanted(#[trigger] items[i]),
    decreases items.len(),
{
    if items.len() > 0 && !wanted(items[0]) {
        let rest = items.drop_first();
        lemma_first_where(rest, wanted);
        assert forall|i: int| 0 <= i < first_where(items, wanted) implies !wanted(
            #[trigger] items[i],
        ) by {
            if i > 0 {
                assert(items[i] == rest[i - 1]);
            }
        }
    }
}

/// A position before which no item satisfies a predicate, and at which one does
/// or the sequence ends, is the one `first_where` finds.
pub proof fn lemma_first_where_is<T>(items: Seq<T>, wanted: spec_fn(T) -> bool, at: int)
    requires
        0 <= at <= items.len(),
        at < items.len() ==> wanted(items[at]),
        forall|i: int| 0 <= i < at ==> !wanted(#[trigger] items[i]),
    ensures
        first_where(items, wanted) == at,
{
    lemma_first_where(items, wanted);
    let found = first_where(items, wanted);
    if found < at {
        assert(!wanted(items[found]));
    }
}

/// The items that satisfy a predicate, in order.
pub open spec fn all_where<T>(items: Seq<T>, wanted: spec_fn(T) -> bool) -> Seq<T>
    decreases items.len(),
{
    if items.len() == 0 {
        items
    } else if wanted(items.last()) {
        all_where(items.drop_last(), wanted).push(items.last())
    } else {
        all_where(items.drop_last(), wanted)
    }
}

/// The concatenation of lists.
pub open spec fn flattened<T>(lists: Seq<Seq<T>>) -> Seq<T>
    decreases lists.len(),
{
    if lists.len() == 0 {
        Seq::empty()
    } else {
        flattened(lists.drop_last()) + lists.last()
    }
}

/// The first items of a list, at most `count`.
pub open spec fn at_most<T>(items: Seq<T>, count: nat) -> Seq<T> {
    if items.len() <= count {
        items
    } else {
        items.take(count as int)
    }
}

/// The position of the last item that satisfies a predicate, or -1.
pub open spec fn last_where<T>(items: Seq<T>, wanted: spec_fn(T) -> bool) -> int
    decreases items.len(),
{
    if items.len() == 0 {
        -1
    } else if wanted(items.last()) {
        items.len() - 1
    } else {
        last_where(items.drop_last(), wanted)
    }
}

/// What `last_where` finds satisfies the predicate.
pub proof fn lemma_last_where<T>(items: Seq<T>, wanted: spec_fn(T) -> bool)
    ensures
        -1 <= last_where(items, wanted) < items.len(),
        last_where(items, wanted) >= 0 ==> wanted(items[last_where(items, wanted)]),
    decreases items.len(),
{
    if items.len() > 0 && !wanted(items.last()) {
        lemma_last_where(items.drop_last(), wanted);
    }
}

} // verus!
