//! Randomized shuffling, through the `fastrand` crate.

use vstd::prelude::*;

verus! {

/// Relies on `fastrand::shuffle`: an in-place Fisher-Yates shuffle that
/// only swaps elements of the slice, so it neither adds, drops nor alters
/// any of them — which of the orders comes out depends on the global
/// random generator and is left open.
pub assume_specification<T>[ fastrand::shuffle::<T> ](slice: &mut [T])
    ensures
        final(slice)@.len() == old(slice)@.len(),
        final(slice)@.to_multiset() == old(slice)@.to_multiset(),
;

} // verus!
