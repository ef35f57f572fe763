//! A multi-producer, single-consumer unbounded channel with a verified
//! sequential core, together with a few small verified utilities: sorting
//! on `u64` vectors and a string splitter.

use vstd::prelude::*;

pub mod channel;
pub mod model;
pub mod quicksort;
pub mod selectionsort;
pub mod sorting;
pub mod strsplit;

verus! {

/// A sequence of `u64` values is sorted in non-decreasing order.
pub open spec fn sorted(s: Seq<u64>) -> bool {
    forall|i: int, j: int| 0 <= i < j < s.len() ==> s[i] <= s[j]
}

} // verus!
