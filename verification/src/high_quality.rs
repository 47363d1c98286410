//! URL normalization that checks the whole input before it writes anything.
use vstd::prelude::*;
use crate::url::{url_safe, all_url_safe, written_nul_terminated, check_all_url_safe, write_lowercase_nul};

verus! {

/// How a call of [`bm_normalize_url`] ended.
#[derive(Debug, Clone, Copy, PartialEq, Eq, Structural)]
pub enum NormalizeUrlOutcome {
    Success,
    InvalidUrl,
    InvalidOutBuffer,
    OutBufferIsTooShort,
}

impl NormalizeUrlOutcome {
    /// The integer the C callers of this entry point expect for this outcome.
    pub open spec fn spec_code(self) -> i32 {
        match self {
            NormalizeUrlOutcome::Success => 0,
            NormalizeUrlOutcome::InvalidUrl => 3,
            NormalizeUrlOutcome::InvalidOutBuffer => 3,
            NormalizeUrlOutcome::OutBufferIsTooShort => 6,
        }
    }

    /// The integer the C callers of this entry point expect for this outcome.
    pub fn code(&self) -> (r: i32)
        ensures
            r == self.spec_code(),
    {
        match self {
            NormalizeUrlOutcome::Success => 0,
            NormalizeUrlOutcome::InvalidUrl => 3,
            NormalizeUrlOutcome::InvalidOutBuffer => 3,
            NormalizeUrlOutcome::OutBufferIsTooShort => 6,
        }
    }
}

/// The outcome for a present URL `url` and a present buffer of `out_len` bytes.
pub open spec fn checked_outcome(url: Seq<u8>, out_len: nat) -> NormalizeUrlOutcome {
    if !all_url_safe(url) {
        NormalizeUrlOutcome::InvalidUrl
    } else if url.len() >= out_len {
        NormalizeUrlOutcome::OutBufferIsTooShort
    } else {
        NormalizeUrlOutcome::Success
    }
}

/// Normalizes `url` (ASCII lowercase) into `out` and NUL-terminates it.
///
/// `url` holds the bytes of a C string without its terminator and `None`
/// stands for a null URL; `out` is the caller's buffer, `None` for a null one.
/// The whole URL is checked before `out` is touched, so a rejected call
/// leaves the buffer exactly as it was.
pub fn bm_normalize_url(url: Option<&[u8]>, out: Option<&mut [u8]>) -> (r: NormalizeUrlOutcome)
    ensures
        url is None ==> r == NormalizeUrlOutcome::InvalidUrl,
        url is Some && out is None ==> r == NormalizeUrlOutcome::InvalidOutBuffer,
        out matches Some(o) ==> (url is None ==> final(o)@ == o@),
        url matches Some(u) ==> (out matches Some(o) ==> {
            &&& r == checked_outcome(u@, o@.len())
            &&& r == NormalizeUrlOutcome::Success ==> final(o)@ == written_nul_terminated(u@, o@)
            &&& r != NormalizeUrlOutcome::Success ==> final(o)@ == o@
        }),
        url matches Some(u) ==> (out is Some ==> ((exists|i: int| 0 <= i < u@.len() && !#[trigger] url_safe(u@[i]))
            ==> r == NormalizeUrlOutcome::InvalidUrl)),
        url matches Some(u) ==> (out matches Some(o) ==> (r == NormalizeUrlOutcome::OutBufferIsTooShort
            ==> u@.len() >= o@.len())),
{
    let url = match url {
        Some(u) => u,
        None => return NormalizeUrlOutcome::InvalidUrl,
    };
    let out = match out {
        Some(o) => o,
        None => return NormalizeUrlOutcome::InvalidOutBuffer,
    };
    if !check_all_url_safe(url) {
        return NormalizeUrlOutcome::InvalidUrl;
    }
    if url.len() >= out.len() {
        return NormalizeUrlOutcome::OutBufferIsTooShort;
    }
    write_lowercase_nul(url, out);
    NormalizeUrlOutcome::Success
}

/// Which outcome a present URL and buffer get: a URL holding any byte that
/// may not appear in a URL is invalid whatever the buffer's size; a URL made
/// only of such bytes is too long exactly when the buffer has no room for it
/// and its terminator, and succeeds otherwise.
pub proof fn lemma_checked_outcome_rules(url: Seq<u8>, out_len: nat)
    ensures
        (exists|i: int| 0 <= i < url.len() && !#[trigger] url_safe(url[i])) ==> checked_outcome(url, out_len)
            == NormalizeUrlOutcome::InvalidUrl,
        checked_outcome(url, out_len) == NormalizeUrlOutcome::OutBufferIsTooShort <==> (
        (forall|i: int| 0 <= i < url.len() ==> #[trigger] url_safe(url[i])) && url.len() >= out_len),
        checked_outcome(url, out_len) == NormalizeUrlOutcome::Success <==> (
        (forall|i: int| 0 <= i < url.len() ==> #[trigger] url_safe(url[i])) && url.len() < out_len),
        checked_outcome(url, out_len) != NormalizeUrlOutcome::InvalidOutBuffer,
{
}

} // verus!
