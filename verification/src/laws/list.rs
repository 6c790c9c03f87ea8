//! What finding and removing come to, told by the parts of a list.

use vstd::prelude::*;

use crate::list::{
    are_indices, first_index, law_each_index_removes_one_item, lemma_first_index_at,
    lemma_first_index_none, lemma_without_no_indices, lemma_without_one_more, remove_indices,
    without_first, without_indices,
};

verus! {

/// The first item of a kind has none of its kind before it, and it alone is taken away.
pub proof fn law_first_of_its_kind<A>(
    before: Seq<A>,
    item: A,
    after: Seq<A>,
    holds: spec_fn(A) -> bool,
)
    requires
        holds(item),
        forall|i: int| 0 <= i < before.len() ==> !holds(#[trigger] before[i]),
    ensures
        first_index(before.push(item) + after, holds) == Some(before.len() as int),
        without_first(before.push(item) + after, holds) == before + after,
{
    let items = before.push(item) + after;
    let n = before.len() as int;
    assert forall|j: int| 0 <= j < n implies !holds(#[trigger] items[j]) by {
        assert(items[j] == before[j]);
    }
    assert(items[n] == item);
    lemma_first_index_at(items, holds, n);
    assert(items.remove(n) =~= before + after);
}

/// Where there is no item of a kind, none is found and none taken away.
pub proof fn law_none_of_its_kind<A>(items: Seq<A>, holds: spec_fn(A) -> bool)
    requires
        forall|i: int| 0 <= i < items.len() ==> !holds(#[trigger] items[i]),
    ensures
        first_index(items, holds) is None,
        without_first(items, holds) == items,
{
    lemma_first_index_none(items, holds);
}

/// To remove at no index changes nothing; to remove at one index takes out the item there; and to
/// remove at several is to remove at the later ones and then at the first.
pub proof fn law_removal<A>(items: Seq<A>, first: usize, later: Seq<usize>)
    requires
        first < items.len(),
        forall|k: int| 0 <= k < later.len() ==> first < #[trigger] later[k],
    ensures
        without_indices(items, Seq::empty()) == items,
        without_indices(items, seq![first]) == items.take(first as int) + items.skip(first + 1),
        first < without_indices(items, later).len(),
        without_indices(items, seq![first] + later) == without_indices(items, later).take(
            first as int,
        ) + without_indices(items, later).skip(first + 1),
{
    lemma_without_no_indices(items, Seq::empty());
    let one = seq![first];
    assert(one.skip(1) =~= Seq::<usize>::empty());
    lemma_without_one_more(items, Seq::empty(), one);
    assert(items.remove(first as int) =~= items.take(first as int) + items.skip(first + 1));
    let all = one + later;
    assert(all.skip(1) =~= later);
    lemma_without_one_more(items, later, all);
    let left = without_indices(items, later);
    assert(left.remove(first as int) =~= left.take(first as int) + left.skip(first + 1));
}

/// `remove_indices` leaves the items whose index was not named, and takes away one for each index.
pub proof fn law_remove_indices<T>(items: &mut Vec<T>, indices: &Vec<usize>)
    requires
        are_indices(indices@, old(items)@.len()),
        call_ensures(remove_indices::<T>, (items, indices), ()),
    ensures
        final(items)@ == without_indices(old(items)@, indices@),
        final(items)@.len() == old(items)@.len() - indices@.len(),
{
    law_each_index_removes_one_item(items@, indices@);
}

} // verus!
