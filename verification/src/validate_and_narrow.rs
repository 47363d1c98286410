//! URL normalization that checks and writes the input byte by byte.
use vstd::prelude::*;
use crate::high_quality;
use crate::url::{all_url_safe, url_safe, lowercase, written_nul_terminated, is_url_safe, lower_byte, ascii_lower};

verus! {

/// How a call of [`bm_normalize_url`] ended.
#[derive(Debug, Clone, Copy, PartialEq, Eq, Structural)]
pub enum NormalizeUrlOutcome {
    Success,
    InvalidUrl,
    InvalidOutBuffer,
    OutBufferIsTooShort,
}

impl NormalizeUrlOutcome {
    /// The integer a C caller receives for this outcome.
    pub open spec fn spec_code(self) -> i32 {
        match self {
            NormalizeUrlOutcome::Success => 0,
            NormalizeUrlOutcome::InvalidUrl => 3,
            NormalizeUrlOutcome::InvalidOutBuffer => 6,
            NormalizeUrlOutcome::OutBufferIsTooShort => 7,
        }
    }

    /// The integer a C caller receives for this outcome.
    pub fn code(&self) -> (r: i32)
        ensures
            r == self.spec_code(),
    {
        match self {
            NormalizeUrlOutcome::Success => 0,
            NormalizeUrlOutcome::InvalidUrl => 3,
            NormalizeUrlOutcome::InvalidOutBuffer => 6,
            NormalizeUrlOutcome::OutBufferIsTooShort => 7,
        }
    }
}

/// The number of leading bytes of `s` that may appear in a URL unescaped.
pub open spec fn safe_prefix_len(s: Seq<u8>) -> nat
    decreases s.len(),
{
    if s.len() == 0 {
        0
    } else if url_safe(s[0]) {
        1 + safe_prefix_len(s.drop_first())
    } else {
        0
    }
}

/// `k` is the length of the safe prefix of `s` when the first `k` bytes are
/// safe and byte `k`, if there is one, is not.
pub proof fn lemma_safe_prefix_len(s: Seq<u8>, k: int)
    requires
        0 <= k <= s.len(),
        forall|j: int| 0 <= j < k ==> #[trigger] url_safe(s[j]),
        k == s.len() || !url_safe(s[k]),
    ensures
        safe_prefix_len(s) == k,
    decreases s.len(),
{
    if s.len() > 0 && k > 0 {
        assert forall|j: int| 0 <= j < k - 1 implies #[trigger] url_safe(s.drop_first()[j]) by {
            assert(url_safe(s[j + 1]));
        }
        lemma_safe_prefix_len(s.drop_first(), k - 1);
    }
}

/// The safe prefix of `s` is safe, and the byte right after it is not.
pub proof fn lemma_safe_prefix_len_bounds(s: Seq<u8>)
    ensures
        safe_prefix_len(s) <= s.len(),
        forall|j: int| 0 <= j < safe_prefix_len(s) ==> #[trigger] url_safe(s[j]),
        safe_prefix_len(s) < s.len() ==> !url_safe(s[safe_prefix_len(s) as int]),
    decreases s.len(),
{
    if s.len() > 0 && url_safe(s[0]) {
        lemma_safe_prefix_len_bounds(s.drop_first());
        assert forall|j: int| 0 <= j < safe_prefix_len(s) implies #[trigger] url_safe(s[j]) by {
            if j > 0 {
                assert(url_safe(s.drop_first()[j - 1]));
            }
        }
    }
}

/// The outcome for a present URL `url` and a present buffer of `out_len`
/// bytes: the bytes are checked in order, and for each one the buffer is
/// checked for room before the byte is checked for safety.
pub open spec fn narrowed_outcome(url: Seq<u8>, out_len: nat) -> NormalizeUrlOutcome {
    let p = safe_prefix_len(url);
    if p < url.len() && p < out_len {
        NormalizeUrlOutcome::InvalidUrl
    } else if url.len() < out_len {
        NormalizeUrlOutcome::Success
    } else {
        NormalizeUrlOutcome::OutBufferIsTooShort
    }
}

/// How many lowercased bytes a rejected call has already written.
pub open spec fn written_before_rejection(url: Seq<u8>, out_len: nat) -> nat {
    let p = safe_prefix_len(url);
    if p < out_len {
        p
    } else {
        out_len
    }
}

/// Normalizes `url` (ASCII lowercase) into `out` and NUL-terminates it.
///
/// `url` holds the bytes of a C string without its terminator and `None`
/// stands for a null URL; `out` is the caller's buffer, `None` for a null
/// one. Each byte is lowercased into `out` as soon as it has been checked,
/// so a rejected call may leave a lowercased prefix of the URL behind.
#[verifier::loop_isolation(false)]
pub fn bm_normalize_url(url: Option<&[u8]>, out: Option<&mut [u8]>) -> (r: NormalizeUrlOutcome)
    ensures
        url is None ==> r == NormalizeUrlOutcome::InvalidUrl,
        url is Some && out is None ==> r == NormalizeUrlOutcome::InvalidOutBuffer,
        out matches Some(o) ==> (url is None ==> final(o)@ == o@),
        url matches Some(u) ==> (out matches Some(o) ==> {
            let w = written_before_rejection(u@, o@.len()) as int;
            &&& r == narrowed_outcome(u@, o@.len())
            &&& r == NormalizeUrlOutcome::Success ==> final(o)@ == written_nul_terminated(u@, o@)
            &&& r != NormalizeUrlOutcome::Success ==> final(o)@ == lowercase(u@.take(w)) + o@.skip(w)
        }),
{
    let url = match url {
        Some(u) => u,
        None => return NormalizeUrlOutcome::InvalidUrl,
    };
    let out = match out {
        Some(o) => o,
        None => return NormalizeUrlOutcome::InvalidOutBuffer,
    };
    let ghost orig = out@;
    let n = url.len();
    let m = out.len();
    for i in 0..n
        invariant
            n == url@.len(),
            m == orig.len(),
            out@.len() == m,
            i <= m,
            forall|j: int| 0 <= j < i ==> #[trigger] url_safe(url@[j]),
            forall|j: int| 0 <= j < i ==> #[trigger] out@[j] == ascii_lower(url@[j]),
            forall|j: int| i <= j < m ==> #[trigger] out@[j] == orig[j],
    {
        if i >= m {
            proof {
                lemma_safe_prefix_len_bounds(url@);
                if safe_prefix_len(url@) < m {
                    assert(url_safe(url@[safe_prefix_len(url@) as int]));
                }
                assert(out@ =~= lowercase(url@.take(m as int)) + orig.skip(m as int));
            }
            return NormalizeUrlOutcome::OutBufferIsTooShort;
        }
        if !is_url_safe(url[i]) {
            proof {
                lemma_safe_prefix_len(url@, i as int);
                assert(out@ =~= lowercase(url@.take(i as int)) + orig.skip(i as int));
            }
            return NormalizeUrlOutcome::InvalidUrl;
        }
        let b = lower_byte(url[i]);
        out[i] = b;
    }
    proof {
        lemma_safe_prefix_len(url@, n as int);
    }
    if n >= m {
        assert(out@ =~= lowercase(url@.take(n as int)) + orig.skip(n as int));
        return NormalizeUrlOutcome::OutBufferIsTooShort;
    }
    out[n] = 0;
    assert(out@ =~= written_nul_terminated(url@, orig));
    NormalizeUrlOutcome::Success
}

/// The byte-by-byte normalizer and the one that checks first
/// ([`high_quality::bm_normalize_url`]) succeed on exactly the same inputs.
pub proof fn lemma_normalizers_accept_alike(url: Seq<u8>, out_len: nat)
    ensures
        (narrowed_outcome(url, out_len) == NormalizeUrlOutcome::Success) <==> (
        high_quality::checked_outcome(url, out_len) == high_quality::NormalizeUrlOutcome::Success),
{
    lemma_safe_prefix_len_bounds(url);
    if all_url_safe(url) {
        lemma_safe_prefix_len(url, url.len() as int);
    } else {
        let i = choose|i: int| 0 <= i < url.len() && !url_safe(url[i]);
        assert(safe_prefix_len(url) <= i);
    }
}

} // verus!
