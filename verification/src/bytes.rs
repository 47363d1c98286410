//! Reading single bytes out of byte slices.
use vstd::prelude::*;

verus! {

/// Returns the last byte of `bytes`, or `None` if `bytes` is empty.
pub fn last_byte(bytes: &[u8]) -> (r: Option<u8>)
    ensures
        r == (if bytes@.len() == 0 { None } else { Some(bytes@.last()) }),
{
    if bytes.len() == 0 {
        None
    } else {
        Some(bytes[bytes.len() - 1])
    }
}

} // verus!
