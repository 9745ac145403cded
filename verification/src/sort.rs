use crate::size::{lemma_size_order_total, size_order, Size};
use vstd::prelude::*;
use vstd::relations::sorted_by;
use vstd::seq_lib::{lemma_multiset_commutative, lemma_sorted_unique};

verus! {

/// The sizes of `sizes` in ascending order.
pub open spec fn ascending(sizes: Seq<Size>) -> Seq<Size> {
    sizes.sort_by(size_order())
}

/// `ascending(sizes)` holds the sizes of `sizes`, each as often as `sizes` does, and
/// is in order.
pub proof fn lemma_ascending_sorts(sizes: Seq<Size>)
    ensures
        sorted_by(ascending(sizes), size_order()),
        ascending(sizes).to_multiset() == sizes.to_multiset(),
        ascending(sizes).len() == sizes.len(),
{
    lemma_size_order_total();
    sizes.lemma_sort_by_ensures(size_order());
    sizes.to_multiset_ensures();
    ascending(sizes).to_multiset_ensures();
}

/// A sequence in order that holds the same sizes as `sizes` is `ascending(sizes)`:
/// there is only one way to put sizes in order.
pub proof fn lemma_ascending_unique(sizes: Seq<Size>, sorted: Seq<Size>)
    requires
        sorted_by(sorted, size_order()),
        sorted.to_multiset() == sizes.to_multiset(),
    ensures
        sorted == ascending(sizes),
{
    lemma_ascending_sorts(sizes);
    lemma_size_order_total();
    lemma_sorted_unique(sorted, ascending(sizes), size_order());
}

/// Sequences that hold the same sizes, in whatever order, have the same ascending
/// order.
pub proof fn lemma_ascending_of_permutation(a: Seq<Size>, b: Seq<Size>)
    requires
        a.to_multiset() == b.to_multiset(),
    ensures
        ascending(a) == ascending(b),
{
    lemma_ascending_sorts(a);
    lemma_ascending_unique(b, ascending(a));
}

/// Merges two vectors in order into one.
fn merge(left: &Vec<Size>, right: &Vec<Size>) -> (merged: Vec<Size>)
    requires
        sorted_by(left@, size_order()),
        sorted_by(right@, size_order()),
    ensures
        sorted_by(merged@, size_order()),
        merged@.to_multiset() == left@.to_multiset().add(right@.to_multiset()),
{
    let mut merged: Vec<Size> = Vec::new();
    let mut i: usize = 0;
    let mut j: usize = 0;
    proof {
        assert(left@.take(0) =~= merged@);
        assert(right@.take(0) =~= merged@);
        lemma_multiset_commutative(merged@, merged@);
    }
    while i < left.len() || j < right.len()
        invariant
            i <= left.len(),
            j <= right.len(),
            sorted_by(left@, size_order()),
            sorted_by(right@, size_order()),
            sorted_by(merged@, size_order()),
            merged@.to_multiset() == left@.take(i as int).to_multiset().add(
                right@.take(j as int).to_multiset(),
            ),
            forall|k: int, a: int|
                0 <= k < merged@.len() && i <= a < left@.len() ==> #[trigger] merged@[k].precedes(
                    #[trigger] left@[a],
                ),
            forall|k: int, b: int|
                0 <= k < merged@.len() && j <= b < right@.len() ==> #[trigger] merged@[k].precedes(
                    #[trigger] right@[b],
                ),
        decreases left.len() - i + right.len() - j,
    {
        let from_left = if i == left.len() {
            false
        } else if j == right.len() {
            true
        } else {
            left[i] <= right[j]
        };
        let ghost before = merged@;
        if from_left {
            let next = left[i];
            proof {
                assert(left@.take(i + 1) =~= left@.take(i as int).push(next));
                vstd::seq_lib::to_multiset_build(left@.take(i as int), next);
                vstd::seq_lib::to_multiset_build(before, next);
                assert forall|a: int| i + 1 <= a < left@.len() implies next.precedes(
                    #[trigger] left@[a],
                ) by {
                    assert(size_order()(left@[i as int], left@[a]));
                }
                assert forall|b: int| j <= b < right@.len() implies next.precedes(
                    #[trigger] right@[b],
                ) by {
                    if j < b {
                        assert(size_order()(right@[j as int], right@[b]));
                    }
                }
            }
            merged.push(next);
            i += 1;
        } else {
            let next = right[j];
            proof {
                assert(right@.take(j + 1) =~= right@.take(j as int).push(next));
                vstd::seq_lib::to_multiset_build(right@.take(j as int), next);
                vstd::seq_lib::to_multiset_build(before, next);
                assert forall|b: int| j + 1 <= b < right@.len() implies next.precedes(
                    #[trigger] right@[b],
                ) by {
                    assert(size_order()(right@[j as int], right@[b]));
                }
                assert forall|a: int| i <= a < left@.len() implies next.precedes(
                    #[trigger] left@[a],
                ) by {
                    if i < a {
                        assert(size_order()(left@[i as int], left@[a]));
                    }
                }
            }
            merged.push(next);
            j += 1;
        }
        assert forall|a: int, b: int| 0 <= a < b < merged@.len() implies size_order()(
            merged@[a],
            merged@[b],
        ) by {}
    }
    proof {
        assert(left@.take(i as int) =~= left@);
        assert(right@.take(j as int) =~= right@);
    }
    merged
}

/// Returns the sizes of `sizes` from index `from` up to index `to`, in order.
fn sort_range(sizes: &Vec<Size>, from: usize, to: usize) -> (sorted: Vec<Size>)
    requires
        from <= to <= sizes.len(),
    ensures
        sorted_by(sorted@, size_order()),
        sorted@.to_multiset() == sizes@.subrange(from as int, to as int).to_multiset(),
    decreases to - from,
{
    if to - from == 0 {
        proof {
            assert(sizes@.subrange(from as int, to as int) =~= Seq::<Size>::empty());
        }
        Vec::new()
    } else if to - from == 1 {
        let mut sorted: Vec<Size> = Vec::new();
        sorted.push(sizes[from]);
        proof {
            assert(sizes@.subrange(from as int, to as int) =~= sorted@);
        }
        sorted
    } else {
        let middle = from + (to - from) / 2;
        let left = sort_range(sizes, from, middle);
        let right = sort_range(sizes, middle, to);
        proof {
            let low = sizes@.subrange(from as int, middle as int);
            let high = sizes@.subrange(middle as int, to as int);
            assert(sizes@.subrange(from as int, to as int) =~= low + high);
            lemma_multiset_commutative(low, high);
        }
        merge(&left, &right)
    }
}

/// Returns the sizes of `sizes` in ascending order: by height, and by width among equal
/// heights. Takes a number of steps in the order of `n log n` for `n` sizes.
pub fn sort_sizes(sizes: &Vec<Size>) -> (sorted: Vec<Size>)
    ensures
        sorted@ == ascending(sizes@),
{
    let sorted = sort_range(sizes, 0, sizes.len());
    proof {
        assert(sizes@.subrange(0, sizes.len() as int) =~= sizes@);
        lemma_ascending_unique(sizes@, sorted@);
    }
    sorted
}

} // verus!
