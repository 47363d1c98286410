//! The normalization module behind the two codes of its C header: every
//! rejection is reported as an invalid URL.
use vstd::prelude::*;
use crate::url::written_nul_terminated;
use crate::high_quality::{NormalizeUrlOutcome, checked_outcome};
use crate::tag::tag_token;

verus! {

/// Result code of this module's entry points.
pub type BmResult = i32;

pub const BM_OK: BmResult = 0;
pub const BM_ERR_INVALID_URL: BmResult = 3;

/// Lowercases a URL into the caller-owned output buffer, NUL-terminated.
///
/// `None` stands for a null pointer. Every rejection (null URL or buffer,
/// a byte that may not appear in a URL, a buffer without room for the result
/// and its terminator) is reported as [`BM_ERR_INVALID_URL`] and leaves `out`
/// exactly as it was.
pub fn bm_normalize_url(raw: Option<&[u8]>, out: Option<&mut [u8]>) -> (r: BmResult)
    ensures
        r == BM_OK || r == BM_ERR_INVALID_URL,
        raw is None || out is None ==> r == BM_ERR_INVALID_URL,
        out matches Some(o) ==> (raw is None ==> final(o)@ == o@),
        raw matches Some(u) ==> (out matches Some(o) ==> {
            &&& (r == BM_OK <==> checked_outcome(u@, o@.len()) == NormalizeUrlOutcome::Success)
            &&& r == BM_OK ==> final(o)@ == written_nul_terminated(u@, o@)
            &&& r != BM_OK ==> final(o)@ == o@
        }),
{
    match crate::high_quality::bm_normalize_url(raw, out) {
        NormalizeUrlOutcome::Success => BM_OK,
        _ => BM_ERR_INVALID_URL,
    }
}

/// Normalizes a tag into the caller-owned output buffer: the first token
/// after leading whitespace, up to the next whitespace or comma, lowercased
/// and NUL-terminated.
///
/// `None` stands for a null pointer. An empty tag, a tag without room for
/// its terminator, or a null argument is reported as [`BM_ERR_INVALID_URL`]
/// and leaves `out` exactly as it was.
pub fn tag_normalize(raw: Option<&[u8]>, out: Option<&mut [u8]>) -> (r: BmResult)
    ensures
        r == BM_OK || r == BM_ERR_INVALID_URL,
        raw is None || out is None ==> r == BM_ERR_INVALID_URL,
        out matches Some(o) ==> (raw is None ==> final(o)@ == o@),
        raw matches Some(s) ==> (out matches Some(o) ==> {
            let t = tag_token(s@);
            &&& (r == BM_OK <==> 0 < t.len() < o@.len())
            &&& r == BM_OK ==> final(o)@ == written_nul_terminated(t, o@)
            &&& r != BM_OK ==> final(o)@ == o@
        }),
{
    let res = crate::tag::tag_normalize(raw, out);
    res.code()
}

} // verus!
