//! Selection sort: repeatedly swap the smallest remaining value into place.

use vstd::prelude::*;
use crate::sorted;
use crate::sorting::Sorter;

verus! {

/// Swapping two positions of a sequence leaves its multiset unchanged.
proof fn lemma_swap_preserves_multiset(s: Seq<u64>, i: int, j: int)
    requires
        0 <= i < s.len(),
        0 <= j < s.len(),
    ensures
        s.update(i, s[j]).update(j, s[i]).to_multiset() == s.to_multiset(),
{
    broadcast use vstd::seq_lib::to_multiset_update;
    broadcast use vstd::seq_lib::to_multiset_contains;
    broadcast use vstd::multiset::group_multiset_axioms;

    if i == j {
        assert(s.update(i, s[j]).update(j, s[i]) =~= s);
    } else {
        let s1 = s.update(i, s[j]);
        assert(s.contains(s[i]));
        assert(s.contains(s[j]));
        assert(s.to_multiset().count(s[i]) > 0);
        assert(s.to_multiset().count(s[j]) > 0);
        assert(s1[j] == s[j]);
        assert(s1.to_multiset() == s.to_multiset().insert(s[j]).remove(s[i]));
        assert(s1.update(j, s[i]).to_multiset() == s1.to_multiset().insert(s[i]).remove(s1[j]));
        assert(s.to_multiset().insert(s[j]).remove(s[i]).insert(s[i]).remove(s[j])
            =~= s.to_multiset());
    }
}

/// Selection sort, verified: on each pass the smallest value of the
/// unsorted tail is swapped to its final place.
pub struct SelectionSort;

impl Sorter for SelectionSort {
    fn sort(&self, v: &mut Vec<u64>) {
        let n = v.len();
        let mut unsorted: usize = 0;
        while unsorted < n
            invariant
                unsorted <= n,
                n == v.len(),
                sorted(v@.subrange(0, unsorted as int)),
                forall|p: int, q: int| 0 <= p < unsorted <= q < n ==> v@[p] <= v@[q],
                v@.to_multiset() == old(v)@.to_multiset(),
            decreases n - unsorted,
        {
            let mut smallest: usize = unsorted;
            let mut j: usize = unsorted + 1;
            while j < n
                invariant
                    unsorted <= smallest < j <= n,
                    n == v.len(),
                    forall|p: int| unsorted <= p < j ==> v@[smallest as int] <= v@[p],
                decreases n - j,
            {
                if v[j] < v[smallest] {
                    smallest = j;
                }
                j += 1;
            }
            let ghost pre = v@;
            if smallest != unsorted {
                let a = v[unsorted];
                let b = v[smallest];
                proof {
                    lemma_swap_preserves_multiset(v@, unsorted as int, smallest as int);
                }
                v.set(unsorted, b);
                v.set(smallest, a);
                proof {
                    assert(v@ == pre.update(unsorted as int, b).update(smallest as int, a));
                }
            }
            proof {
                assert(v@.subrange(0, unsorted as int) =~= pre.subrange(0, unsorted as int));
                assert(v@[unsorted as int] == pre[smallest as int]);
                assert(forall|q: int|
                    unsorted < q < n ==> v@[q] == pre[q] || v@[q] == pre[unsorted as int]);
                assert forall|p: int, q: int|
                    0 <= p < q < unsorted + 1 implies v@[p] <= v@[q] by {
                    if q < unsorted {
                        assert(pre.subrange(0, unsorted as int)[p] <= pre.subrange(
                            0,
                            unsorted as int,
                        )[q]);
                    } else {
                        assert(v@[q] == pre[smallest as int]);
                        if p < unsorted {
                            assert(pre[p] <= pre[smallest as int]);
                        }
                    }
                }
                assert(sorted(v@.subrange(0, unsorted as int + 1)));
                assert forall|p: int, q: int|
                    0 <= p < unsorted + 1 <= q < n implies v@[p] <= v@[q] by {
                    assert(pre[smallest as int] <= pre[q]);
                    if p < unsorted {
                        assert(pre[p] <= pre[q]);
                        assert(pre[p] <= pre[unsorted as int]);
                    }
                }
            }
            unsorted += 1;
        }
        proof {
            assert(v@.subrange(0, n as int) =~= v@);
        }
    }
}

} // verus!
