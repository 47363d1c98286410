//! Integer helpers shared with the C side.
use vstd::prelude::*;

verus! {

/// Adds two C `int`s; the sum has to fit in an `int`.
pub fn bm_add(a: i32, b: i32) -> (r: i32)
    requires
        i32::MIN <= a + b <= i32::MAX,
    ensures
        r == a + b,
{
    a + b
}

} // verus!
