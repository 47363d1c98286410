//! Reading back what the C shouting helper wrote into its output buffer.
use vstd::prelude::*;
use vstd::slice::slice_subrange;
use vstd::utf8::{valid_utf8, decode_utf8};
use crate::strlower::{c_string_len, lemma_c_string_len};

verus! {

/// The text `String::from_utf8_lossy` makes of `bytes`: each maximal run
/// that is not valid UTF-8 becomes U+FFFD.
pub uninterp spec fn lossy_utf8(bytes: Seq<u8>) -> Seq<char>;

/// Calls `String::from_utf8_lossy` and takes the result as an owned
/// `String`. The contract names its text [`lossy_utf8`] and says that valid
/// UTF-8 is decoded unchanged; how invalid runs are replaced is left unsaid.
#[verifier::external_body]
fn string_from_utf8_lossy(bytes: &[u8]) -> (r: String)
    ensures
        r@ == lossy_utf8(bytes@),
        valid_utf8(bytes@) ==> r@ == decode_utf8(bytes@),
{
    String::from_utf8_lossy(bytes).into_owned()
}

/// Turns what the shouting helper reported into a result: a nonzero
/// `status` is the error; otherwise the C string in `out` (up to its first
/// NUL) is read as text, invalid UTF-8 replaced.
pub fn shout_result(status: i32, out: &[u8]) -> (r: Result<String, i32>)
    ensures
        status != 0 ==> r == Err::<String, i32>(status),
        status == 0 ==> (r matches Ok(s) && s@ == lossy_utf8(
            out@.take(c_string_len(out@) as int),
        )),
{
    if status != 0 {
        return Err(status);
    }
    let n = out.len();
    let mut k: usize = 0;
    while k < n && out[k] != 0
        invariant
            n == out@.len(),
            k <= n,
            forall|j: int| 0 <= j < k ==> #[trigger] out@[j] != 0,
        decreases n - k,
    {
        k = k + 1;
    }
    proof {
        lemma_c_string_len(out@, k as int);
    }
    let text = slice_subrange(out, 0, k);
    assert(text@ =~= out@.take(k as int));
    Ok(string_from_utf8_lossy(text))
}

} // verus!
