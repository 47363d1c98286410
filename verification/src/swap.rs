//! Exchanging two integers through mutable references.
use vstd::prelude::*;

verus! {

/// The pair `p` with its two components exchanged.
pub open spec fn swapped(p: (i32, i32)) -> (i32, i32) {
    (p.1, p.0)
}

/// Swaps the `i32`s that `a` and `b` refer to.
pub fn swap_values(a: &mut i32, b: &mut i32)
    ensures
        (*final(a), *final(b)) == swapped((*old(a), *old(b))),
        *final(a) == *old(b),
        *final(b) == *old(a),
{
    let tmp = *a;
    *a = *b;
    *b = tmp;
}

/// Swapping twice restores the values.
pub proof fn lemma_swap_twice_restores(a: i32, b: i32)
    ensures
        swapped(swapped((a, b))) == (a, b),
{
}

/// Swapping moves each value to the other place, for every pair: a pair
/// is left as it was exactly when its two values are equal, and the
/// swapped pair holds the same two values.
pub proof fn lemma_swap_exchanges(a: i32, b: i32)
    ensures
        swapped((a, b)) == (a, b) <==> a == b,
        swapped((a, b)).0 == b,
        swapped((a, b)).1 == a,
{
}

} // verus!
