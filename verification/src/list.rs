//! Finding and removing items of a list.

use vstd::prelude::*;

verus! {

// The first item of a kind.

/// The index of the first item of which `holds` holds.
pub open spec fn first_index<A>(items: Seq<A>, holds: spec_fn(A) -> bool) -> Option<int>
    decreases items.len(),
{
    if items.len() == 0 {
        None
    } else if holds(items[0]) {
        Some(0)
    } else {
        match first_index(items.drop_first(), holds) {
            Some(i) => Some(i + 1),
            None => None,
        }
    }
}

/// The items without the first one of which `holds` holds.
pub open spec fn without_first<A>(items: Seq<A>, holds: spec_fn(A) -> bool) -> Seq<A> {
    match first_index(items, holds) {
        Some(i) => items.remove(i),
        None => items,
    }
}

/// What `first_index` gives is the first item of its kind; where it gives nothing, there is none.
pub proof fn lemma_first_index<A>(items: Seq<A>, holds: spec_fn(A) -> bool)
    ensures
        match first_index(items, holds) {
            Some(i) => 0 <= i < items.len() && holds(items[i]) && forall|j: int|
                0 <= j < i ==> !holds(#[trigger] items[j]),
            None => forall|j: int| 0 <= j < items.len() ==> !holds(#[trigger] items[j]),
        },
    decreases items.len(),
{
    if items.len() > 0 && !holds(items[0]) {
        let rest = items.drop_first();
        lemma_first_index(rest, holds);
        match first_index(rest, holds) {
            Some(i) => {
                assert(items[i + 1] == rest[i]);
                assert forall|j: int| 0 <= j < i + 1 implies !holds(#[trigger] items[j]) by {
                    if j > 0 {
                        assert(items[j] == rest[j - 1]);
                    }
                }
            },
            None => {
                assert forall|j: int| 0 <= j < items.len() implies !holds(#[trigger] items[j]) by {
                    if j > 0 {
                        assert(items[j] == rest[j - 1]);
                    }
                }
            },
        }
    }
}

/// The first item of its kind is the one that `first_index` gives.
pub proof fn lemma_first_index_at<A>(items: Seq<A>, holds: spec_fn(A) -> bool, i: int)
    requires
        0 <= i < items.len(),
        holds(items[i]),
        forall|j: int| 0 <= j < i ==> !holds(#[trigger] items[j]),
    ensures
        first_index(items, holds) == Some(i),
{
    lemma_first_index(items, holds);
    let found = first_index(items, holds);
    if found is None {
        assert(!holds(items[i]));
    } else {
        let k = found->0;
        if k < i {
            assert(!holds(items[k]));
        } else if i < k {
            assert(!holds(items[i]));
        }
    }
}

/// Where there is no item of its kind, `first_index` gives nothing.
pub proof fn lemma_first_index_none<A>(items: Seq<A>, holds: spec_fn(A) -> bool)
    requires
        forall|j: int| 0 <= j < items.len() ==> !holds(#[trigger] items[j]),
    ensures
        first_index(items, holds) is None,
{
    lemma_first_index(items, holds);
}

// Removing by index.

/// The items whose index is not among `indices`, in their order.
pub open spec fn without_indices<A>(items: Seq<A>, indices: Seq<usize>) -> Seq<A>
    decreases items.len(),
{
    if items.len() == 0 {
        Seq::empty()
    } else {
        let kept = without_indices(items.drop_last(), indices);
        if exists|k: int| 0 <= k < indices.len() && #[trigger] indices[k] == items.len() - 1 {
            kept
        } else {
            kept.push(items.last())
        }
    }
}

/// The indices are in order, none twice, and each is that of an item.
pub open spec fn are_indices(indices: Seq<usize>, len: nat) -> bool {
    &&& forall|i: int, j: int| 0 <= i < j < indices.len() ==> indices[i] < indices[j]
    &&& forall|i: int| 0 <= i < indices.len() ==> #[trigger] indices[i] < len
}

/// Indices behind the last item leave out none.
pub proof fn lemma_without_no_indices<A>(items: Seq<A>, indices: Seq<usize>)
    requires
        forall|k: int| 0 <= k < indices.len() ==> #[trigger] indices[k] >= items.len(),
    ensures
        without_indices(items, indices) == items,
    decreases items.len(),
{
    if items.len() > 0 {
        lemma_without_no_indices(items.drop_last(), indices);
        assert(items.drop_last().push(items.last()) =~= items);
    }
}

/// To leave out one index more, below all others, is to remove the item there.
pub proof fn lemma_without_one_more<A>(items: Seq<A>, indices: Seq<usize>, more: Seq<usize>)
    requires
        more.len() == indices.len() + 1,
        more.skip(1) == indices,
        more[0] < items.len(),
        forall|k: int| 0 <= k < indices.len() ==> more[0] < #[trigger] indices[k],
    ensures
        more[0] < without_indices(items, indices).len(),
        without_indices(items, more) == without_indices(items, indices).remove(more[0] as int),
    decreases items.len(),
{
    let n = items.len() - 1;
    let rest = items.drop_last();
    let first = more[0] as int;
    if first == n {
        lemma_without_no_indices(items, indices);
        assert forall|k: int| 0 <= k < more.len() implies #[trigger] more[k] >= rest.len() by {
            if k > 0 {
                assert(more.skip(1)[k - 1] == indices[k - 1]);
            }
        }
        lemma_without_no_indices(rest, more);
        assert(more[0] == n);
        assert(items.remove(first) =~= rest);
    } else {
        lemma_without_one_more(rest, indices, more);
        let kept = without_indices(rest, indices);
        if exists|k: int| 0 <= k < indices.len() && #[trigger] indices[k] == n {
            let k = choose|k: int| 0 <= k < indices.len() && #[trigger] indices[k] == n;
            assert(more.skip(1)[k] == more[k + 1]);
            assert(more[k + 1] == n);
        } else {
            assert forall|k: int| 0 <= k < more.len() implies #[trigger] more[k] != n by {
                if k > 0 {
                    assert(more.skip(1)[k - 1] == indices[k - 1]);
                }
            }
            assert(kept.push(items.last()).remove(first) =~= kept.remove(first).push(items.last()));
        }
    }
}

/// Removes the items at `indices`, the last of them first.
pub fn remove_indices<T>(items: &mut Vec<T>, indices: &Vec<usize>)
    requires
        are_indices(indices@, old(items)@.len()),
    ensures
        final(items)@ == without_indices(old(items)@, indices@),
{
    let ghost all = items@;
    let mut k: usize = indices.len();
    proof {
        lemma_without_no_indices(all, indices@.skip(k as int));
    }
    while k > 0
        invariant
            0 <= k <= indices@.len(),
            are_indices(indices@, all.len()),
            items@ == without_indices(all, indices@.skip(k as int)),
        decreases k,
    {
        let ghost left = indices@.skip(k as int);
        k = k - 1;
        proof {
            let more = indices@.skip(k as int);
            assert(more.skip(1) =~= left);
            assert forall|j: int| 0 <= j < left.len() implies more[0] < #[trigger] left[j] by {
                assert(left[j] == indices@[k + 1 + j]);
            }
            lemma_without_one_more(all, left, more);
        }
        items.remove(indices[k]);
    }
    assert(indices@.skip(0) =~= indices@);
}

/// Each index takes away one item.
pub proof fn law_each_index_removes_one_item<A>(items: Seq<A>, indices: Seq<usize>)
    requires
        are_indices(indices, items.len()),
    ensures
        without_indices(items, indices).len() == items.len() - indices.len(),
    decreases indices.len(),
{
    if indices.len() == 0 {
        lemma_without_no_indices(items, indices);
    } else {
        let left = indices.skip(1);
        assert forall|k: int| 0 <= k < left.len() implies indices[0] < #[trigger] left[k] by {
            assert(left[k] == indices[k + 1]);
        }
        assert(are_indices(left, items.len())) by {
            assert forall|i: int, j: int| 0 <= i < j < left.len() implies left[i] < left[j] by {
                assert(left[i] == indices[i + 1]);
                assert(left[j] == indices[j + 1]);
            }
        }
        law_each_index_removes_one_item(items, left);
        lemma_without_one_more(items, left, indices);
    }
}

} // verus!
