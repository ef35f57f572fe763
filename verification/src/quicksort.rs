//! Quicksort: partition around a pivot, sort the parts, put them together.

use vstd::multiset::Multiset;
use vstd::prelude::*;
use crate::sorted;
use crate::sorting::Sorter;

verus! {

/// An upper bound on every element survives any rearrangement: two
/// sequences with the same multiset have the same elements.
proof fn lemma_multiset_keeps_upper_bound(s1: Seq<u64>, s2: Seq<u64>, b: u64)
    requires
        s1.to_multiset() == s2.to_multiset(),
        forall|p: int| 0 <= p < s1.len() ==> s1[p] <= b,
    ensures
        forall|p: int| 0 <= p < s2.len() ==> s2[p] <= b,
{
    broadcast use vstd::seq_lib::to_multiset_contains;

    assert forall|p: int| 0 <= p < s2.len() implies s2[p] <= b by {
        assert(s2.contains(s2[p]));
        assert(s2.to_multiset().count(s2[p]) > 0);
        assert(s1.to_multiset().count(s2[p]) > 0);
        assert(s1.contains(s2[p]));
        let w = choose|w: int| 0 <= w < s1.len() && s1[w] == s2[p];
        assert(s1[w] <= b);
    }
}

/// A strict lower bound on every element survives any rearrangement.
proof fn lemma_multiset_keeps_lower_bound(s1: Seq<u64>, s2: Seq<u64>, b: u64)
    requires
        s1.to_multiset() == s2.to_multiset(),
        forall|p: int| 0 <= p < s1.len() ==> s1[p] > b,
    ensures
        forall|p: int| 0 <= p < s2.len() ==> s2[p] > b,
{
    broadcast use vstd::seq_lib::to_multiset_contains;

    assert forall|p: int| 0 <= p < s2.len() implies s2[p] > b by {
        assert(s2.contains(s2[p]));
        assert(s2.to_multiset().count(s2[p]) > 0);
        assert(s1.to_multiset().count(s2[p]) > 0);
        assert(s1.contains(s2[p]));
        let w = choose|w: int| 0 <= w < s1.len() && s1[w] == s2[p];
        assert(s1[w] > b);
    }
}

/// Sorts the given vector: the result is in non-decreasing order and is a
/// permutation of the input.  The first element serves as the pivot; the
/// rest is partitioned into the values at most the pivot and the values
/// above it, each part is sorted in turn, and the parts are joined around
/// the pivot.
pub fn quicksort(v: Vec<u64>) -> (r: Vec<u64>)
    ensures
        sorted(r@),
        r@.to_multiset() == v@.to_multiset(),
    decreases v@.len(),
{
    broadcast use vstd::seq_lib::to_multiset_len;
    broadcast use vstd::multiset::group_multiset_axioms;

    if v.len() <= 1 {
        return v;
    }
    let pivot = v[0];
    let ghost rest = v@.subrange(1, v@.len() as int);
    let mut low: Vec<u64> = Vec::new();
    let mut high: Vec<u64> = Vec::new();
    let mut i: usize = 1;
    proof {
        broadcast use vstd::multiset::lemma_multiset_empty_len;

        assert(v@.subrange(1, 1) =~= Seq::<u64>::empty());
        assert(Seq::<u64>::empty().to_multiset().len() == 0);
        assert(Seq::<u64>::empty().to_multiset() =~= Multiset::empty());
        assert(low@.to_multiset().add(high@.to_multiset()) =~= Multiset::empty());
    }
    while i < v.len()
        invariant
            1 <= i <= v@.len(),
            rest == v@.subrange(1, v@.len() as int),
            pivot == v@[0],
            forall|p: int| 0 <= p < low@.len() ==> low@[p] <= pivot,
            forall|p: int| 0 <= p < high@.len() ==> high@[p] > pivot,
            low@.to_multiset().add(high@.to_multiset()) == v@.subrange(1, i as int).to_multiset(),
        decreases v@.len() - i,
    {
        proof {
            broadcast use vstd::seq_lib::to_multiset_build;

            assert(v@.subrange(1, i + 1 as int) =~= v@.subrange(1, i as int).push(v@[i as int]));
        }
        if v[i] <= pivot {
            low.push(v[i]);
        } else {
            high.push(v[i]);
        }
        i += 1;
    }
    proof {
        assert(v@.subrange(1, i as int) =~= rest);
        assert(low@.to_multiset().len() == low@.len());
        assert(high@.to_multiset().len() == high@.len());
        assert(rest.to_multiset().len() == rest.len());
        assert(low@.to_multiset().add(high@.to_multiset()).len() == low@.to_multiset().len()
            + high@.to_multiset().len());
        assert(low@.len() + high@.len() == rest.len());
    }
    let sorted_low = quicksort(low);
    let sorted_high = quicksort(high);
    proof {
        lemma_multiset_keeps_upper_bound(low@, sorted_low@, pivot);
        lemma_multiset_keeps_lower_bound(high@, sorted_high@, pivot);
    }
    let mut r = sorted_low;
    r.push(pivot);
    let mut j: usize = 0;
    while j < sorted_high.len()
        invariant
            j <= sorted_high@.len(),
            r@ == sorted_low@ + seq![pivot] + sorted_high@.subrange(0, j as int),
        decreases sorted_high@.len() - j,
    {
        proof {
            assert(sorted_high@.subrange(0, j + 1 as int) =~= sorted_high@.subrange(
                0,
                j as int,
            ).push(sorted_high@[j as int]));
            assert((sorted_low@ + seq![pivot] + sorted_high@.subrange(0, j as int)).push(
                sorted_high@[j as int],
            ) =~= sorted_low@ + seq![pivot] + sorted_high@.subrange(0, j + 1 as int));
        }
        r.push(sorted_high[j]);
        j += 1;
    }
    proof {
        assert(sorted_high@.subrange(0, sorted_high@.len() as int) =~= sorted_high@);
        assert(sorted(r@)) by {
            assert(forall|p: int| 0 <= p < sorted_low@.len() ==> r@[p] == sorted_low@[p]);
            assert(r@[sorted_low@.len() as int] == pivot);
            assert(forall|p: int|
                sorted_low@.len() + 1 <= p < r@.len() ==> r@[p] == sorted_high@[p - sorted_low@.len()
                    - 1]);
        }
        assert(r@.to_multiset() == v@.to_multiset()) by {
            broadcast use vstd::seq_lib::lemma_multiset_commutative;
            broadcast use vstd::seq_lib::to_multiset_build;

            assert(r@ == (sorted_low@ + seq![pivot]) + sorted_high@);
            assert(seq![pivot].to_multiset() =~= Multiset::empty().insert(pivot)) by {
                assert(seq![pivot] =~= Seq::empty().push(pivot));
                assert(Seq::<u64>::empty().to_multiset() =~= Multiset::empty());
            }
            assert(v@ =~= seq![pivot] + rest);
            assert(v@.to_multiset() == seq![pivot].to_multiset().add(rest.to_multiset()));
            assert(r@.to_multiset() == sorted_low@.to_multiset().add(
                seq![pivot].to_multiset(),
            ).add(sorted_high@.to_multiset()));
        }
    }
    r
}

/// Quicksort behind the common sorting interface.
pub struct QuickSort;

impl Sorter for QuickSort {
    fn sort(&self, v: &mut Vec<u64>) {
        let n = v.len();
        let mut input: Vec<u64> = Vec::new();
        let mut idx: usize = 0;
        while idx < n
            invariant
                idx <= n,
                n == v@.len(),
                v@ == old(v)@,
                input@ == v@.subrange(0, idx as int),
            decreases n - idx,
        {
            input.push(v[idx]);
            proof {
                assert(v@.subrange(0, idx as int).push(v@[idx as int]) =~= v@.subrange(
                    0,
                    idx + 1 as int,
                ));
            }
            idx += 1;
        }
        proof {
            assert(input@ =~= old(v)@);
        }
        let result = quicksort(input);
        *v = result;
    }
}

} // verus!
