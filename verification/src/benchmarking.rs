//! The checking URL normalizer behind plain integer result codes.
use vstd::prelude::*;
use crate::url::{url_safe, written_nul_terminated};
use crate::high_quality::{NormalizeUrlOutcome, checked_outcome, bm_normalize_url};

verus! {

/// Result code of the integer-coded entry points.
pub type BmResult = i32;

pub const BM_OK: BmResult = 0;
pub const BM_ERR_INVALID_URL: BmResult = 3;
pub const BM_ERR_INVALID_BUFFER: BmResult = 6;
pub const BM_ERR_BUFFER_TOO_SMALL: BmResult = 7;

/// The code reported for each outcome.
pub open spec fn outcome_code(o: NormalizeUrlOutcome) -> BmResult {
    match o {
        NormalizeUrlOutcome::Success => BM_OK,
        NormalizeUrlOutcome::InvalidUrl => BM_ERR_INVALID_URL,
        NormalizeUrlOutcome::InvalidOutBuffer => BM_ERR_INVALID_BUFFER,
        NormalizeUrlOutcome::OutBufferIsTooShort => BM_ERR_BUFFER_TOO_SMALL,
    }
}

/// Normalizes `url` (ASCII lowercase) into `out` and NUL-terminates it,
/// checking the whole URL and the buffer size before writing anything.
///
/// `None` stands for a null pointer. A rejected call leaves `out` exactly as
/// it was.
pub fn bm_normalize_url_rust(url: Option<&[u8]>, out: Option<&mut [u8]>) -> (r: BmResult)
    ensures
        url is None ==> r == BM_ERR_INVALID_URL,
        url is Some && out is None ==> r == BM_ERR_INVALID_BUFFER,
        out matches Some(o) ==> (url is None ==> final(o)@ == o@),
        url matches Some(u) ==> (out matches Some(o) ==> {
            &&& r == outcome_code(checked_outcome(u@, o@.len()))
            &&& r == BM_OK ==> final(o)@ == written_nul_terminated(u@, o@)
            &&& r != BM_OK ==> final(o)@ == o@
        }),
        url matches Some(u) ==> (out is Some ==> ((exists|i: int| 0 <= i < u@.len() && !#[trigger] url_safe(u@[i]))
            ==> r == BM_ERR_INVALID_URL)),
        url matches Some(u) ==> (out matches Some(o) ==> (r == BM_ERR_BUFFER_TOO_SMALL ==> u@.len() >= o@.len())),
{
    match bm_normalize_url(url, out) {
        NormalizeUrlOutcome::Success => BM_OK,
        NormalizeUrlOutcome::InvalidUrl => BM_ERR_INVALID_URL,
        NormalizeUrlOutcome::InvalidOutBuffer => BM_ERR_INVALID_BUFFER,
        NormalizeUrlOutcome::OutBufferIsTooShort => BM_ERR_BUFFER_TOO_SMALL,
    }
}

} // verus!
