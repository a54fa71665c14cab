//! The first place in a sequence at which something holds.

use vstd::prelude::*;

verus! {

/// The least index from `from` on at which `wanted` holds of the item of
/// `items`, or the length of `items` where it holds of none of them.
pub open spec fn first_where<T>(items: Seq<T>, wanted: spec_fn(T) -> bool, from: int) -> int
    decreases items.len() - from,
{
    if from >= items.len() {
        items.len() as int
    } else if wanted(items[from]) {
        from
    } else {
        first_where(items, wanted, from + 1)
    }
}

/// `first_where` lies between `from` and the length; `wanted` holds at it
/// where it is an index, and holds nowhere between `from` and it.
pub proof fn lemma_first_where<T>(items: Seq<T>, wanted: spec_fn(T) -> bool, from: int)
    requires
        0 <= from <= items.len(),
    ensures
        from <= first_where(items, wanted, from) <= items.len(),
        first_where(items, wanted, from) < items.len() ==> wanted(
            items[first_where(items, wanted, from)],
        ),
        forall|i: int| from <= i < first_where(items, wanted, from) ==> !wanted(#[trigger] items[i]),
    decreases items.len() - from,
{
    if from < items.len() && !wanted(items[from]) {
        lemma_first_where(items, wanted, from + 1);
    }
}

} // verus!
