//! Small boundary helpers: byte readers over borrowed buffers and the
//! default database record.
use vstd::prelude::*;

verus! {

/// A bookmark database handle.
pub struct BMDb {
    pub value: u32,
}

/// The default database: its value is zero.
pub fn bm_default_db() -> (r: BMDb)
    ensures
        r.value == 0,
{
    BMDb { value: 0 }
}

/// Entry point kept for C callers under its historical name; it does nothing.
pub fn bm_normalize_url() {
}

/// Hands the caller's buffer straight back.
pub fn copy_bytes(bytes: &mut [u8]) -> (r: &mut [u8])
    ensures
        r@ == old(bytes)@,
        final(bytes)@ == final(r)@,
{
    bytes
}

/// Reads the second byte of `bytes`, which must hold at least two.
pub fn second_byte(bytes: &[u8]) -> (r: u8)
    requires
        bytes@.len() >= 2,
    ensures
        r == bytes@[1],
{
    bytes[1]
}

/// Reads the first byte of `bytes`, which must hold at least one.
pub fn first_byte(bytes: &[u8]) -> (r: u8)
    requires
        bytes@.len() >= 1,
    ensures
        r == bytes@[0],
{
    bytes[0]
}

/// Reports nothing.
pub fn status() {
}

/// Views `bytes` as a run of words without reading them; it does nothing
/// observable.
pub fn pointer_casts(bytes: &[u8]) {
    let _words = bytes;
}

} // verus!
