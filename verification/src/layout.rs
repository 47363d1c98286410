//! Plain data records and the sizes and alignments of a few types.
use vstd::prelude::*;

verus! {

/// A pixel: an alpha channel, a packed color and a layer index.
pub struct Pixel {
    pub alpha: u8,
    pub color: u32,
    pub layer: u16,
}

/// Size of `bool`, in bytes.
pub const BOOL_SIZE: usize = 1;

/// Alignment of `bool`, in bytes.
pub const BOOL_ALIGN: usize = 1;

/// Size of `[u64; 3]`, in bytes.
pub const U64_ARRAY_SIZE: usize = 24;

/// Size of [`Pixel`] as the current compiler lays it out. The default layout
/// is unspecified and may change between compiler versions; this is the
/// figure the compiler picks today. Laid out by C's rules, in declaration
/// order, the same fields would take 12 bytes.
pub const PIXEL_SIZE: usize = 8;

/// Alignment of [`Pixel`]: that of its widest field, `color`.
pub const PIXEL_ALIGN: usize = 4;

/// A record header with its fields ordered from the widest to the narrowest,
/// so that 14 bytes of fields take up 16.
pub struct Header {
    pub id: u64,
    pub len: u32,
    pub flag: bool,
    pub kind: u8,
}

/// [`BOOL_SIZE`] is the size of `bool`.
pub proof fn lemma_bool_size()
    ensures
        BOOL_SIZE == vstd::layout::size_of::<bool>(),
{
    broadcast use vstd::layout::layout_of_primitives;
}

} // verus!
