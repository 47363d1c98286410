//! Bookmark-manager building blocks: URL and tag normalization into
//! caller-owned buffers, owned bookmark records, and the small helpers
//! that sit at the boundary with C callers.

pub mod bytes;
pub mod swap;
pub mod counter;
pub mod layout;
pub mod session;
pub mod arith;
pub mod strlower;
pub mod shout;
pub mod ffi_types;
pub mod lints;
pub mod bookmark;
pub mod url;
pub mod validate_and_narrow;
pub mod high_quality;
pub mod tag;
pub mod benchmarking;
pub mod normalize;

