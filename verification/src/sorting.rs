//! Sorting of `u64` vectors behind a common interface.
//!
//! Every sorter promises the same thing: afterwards the vector is in
//! non-decreasing order and holds exactly the values it held before, with
//! multiplicity.

use vstd::prelude::*;
use crate::sorted;

verus! {

/// Something that can sort a vector in place.
pub trait Sorter {
    /// Sorts `v` in place: afterwards it is in non-decreasing order and is a
    /// permutation of what it was.
    fn sort(&self, v: &mut Vec<u64>)
        ensures
            sorted(final(v)@),
            final(v)@.to_multiset() == old(v)@.to_multiset(),
    ;
}

/// Sorts `v` with the given sorter.
pub fn sort<S: Sorter>(sorter: &S, v: &mut Vec<u64>)
    ensures
        sorted(final(v)@),
        final(v)@.to_multiset() == old(v)@.to_multiset(),
{
    sorter.sort(v)
}

/// The standard library's sort, taken on trust.
pub struct StdSorter;

/// Relies on `<[u64]>::sort`: documented to sort the slice in place in
/// non-decreasing order; being a (stable) sort, it rearranges the existing
/// elements and neither adds nor removes any.
#[verifier::external_body]
fn sort_via_std(v: &mut Vec<u64>)
    ensures
        sorted(final(v)@),
        final(v)@.to_multiset() == old(v)@.to_multiset(),
{
    v.as_mut_slice().sort();
}

impl Sorter for StdSorter {
    fn sort(&self, v: &mut Vec<u64>) {
        sort_via_std(v);
    }
}

} // verus!
