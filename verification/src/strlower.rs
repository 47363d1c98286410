//! In-place ASCII lowercasing of a NUL-terminated string.
use vstd::prelude::*;
use crate::url::{lowercase, ascii_lower, lower_byte};

verus! {

/// The length of the C string held in `s`: the index of its first NUL byte,
/// or the length of `s` when it holds none.
pub open spec fn c_string_len(s: Seq<u8>) -> nat
    decreases s.len(),
{
    if s.len() > 0 && s[0] != 0 {
        1 + c_string_len(s.drop_first())
    } else {
        0
    }
}

/// `k` is the C string length of `s` when the first `k` bytes are not NUL
/// and byte `k`, if there is one, is.
pub proof fn lemma_c_string_len(s: Seq<u8>, k: int)
    requires
        0 <= k <= s.len(),
        forall|j: int| 0 <= j < k ==> #[trigger] s[j] != 0,
        k == s.len() || s[k] == 0,
    ensures
        c_string_len(s) == k,
    decreases s.len(),
{
    if s.len() > 0 && k > 0 {
        assert forall|j: int| 0 <= j < k - 1 implies #[trigger] s.drop_first()[j] != 0 by {
            assert(s[j + 1] != 0);
        }
        lemma_c_string_len(s.drop_first(), k - 1);
    }
}

/// The buffer `s` after its C string has been lowercased: the bytes before
/// the first NUL are lowercased, the rest are kept.
pub open spec fn strlowered(s: Seq<u8>) -> Seq<u8> {
    let k = c_string_len(s) as int;
    lowercase(s.take(k)) + s.skip(k)
}

/// The bytes counted as the C string are not NUL.
pub proof fn lemma_c_string_len_prefix(s: Seq<u8>)
    ensures
        c_string_len(s) <= s.len(),
        forall|j: int| 0 <= j < c_string_len(s) ==> #[trigger] s[j] != 0,
        c_string_len(s) < s.len() ==> s[c_string_len(s) as int] == 0,
    decreases s.len(),
{
    if s.len() > 0 && s[0] != 0 {
        lemma_c_string_len_prefix(s.drop_first());
        assert forall|j: int| 0 <= j < c_string_len(s) implies #[trigger] s[j] != 0 by {
            if j > 0 {
                assert(s.drop_first()[j - 1] != 0);
            }
        }
    }
}

/// What lowercasing does to each byte: before the string's first NUL, the
/// bytes `A` to `Z` (0x41 to 0x5a) move up by 32 to `a` to `z`, and every
/// other byte is kept; from the NUL on nothing changes; the length stays.
pub proof fn lemma_strlowered_bytes(s: Seq<u8>)
    ensures
        strlowered(s).len() == s.len(),
        forall|j: int| 0 <= j < s.len() ==> #[trigger] strlowered(s)[j] == (if j < c_string_len(s)
            && 0x41 <= s[j] && s[j] <= 0x5a {
            (s[j] + 32) as u8
        } else {
            s[j]
        }),
{
    lemma_c_string_len_prefix(s);
}

/// Lowercasing a string twice gives what lowercasing it once gives.
pub proof fn lemma_strlower_idempotent(s: Seq<u8>)
    ensures
        strlowered(strlowered(s)) == strlowered(s),
{
    let k = c_string_len(s) as int;
    let t = strlowered(s);
    lemma_c_string_len_prefix(s);
    assert forall|j: int| 0 <= j < k implies #[trigger] t[j] != 0 by {
        assert(s[j] != 0);
    }
    lemma_c_string_len(t, k);
    assert(strlowered(t) =~= t);
}

/// Lowercases, in place, the ASCII letters of the C string held in `c`,
/// up to its first NUL byte; the bytes from the NUL on are left alone. Bytes
/// that are not ASCII letters, valid UTF-8 or not, are left alone too.
/// `None` stands for a null pointer and is a no-op.
pub fn bm_strlower(c: Option<&mut [u8]>)
    ensures
        c matches Some(s) ==> final(s)@ == strlowered(s@),
        c matches Some(s) ==> final(s)@.len() == s@.len(),
        c matches Some(s) ==> (forall|j: int| 0 <= j < s@.len() ==> #[trigger] final(s)@[j] == (
        if j < c_string_len(s@) && 0x41 <= s@[j] && s@[j] <= 0x5a {
            (s@[j] + 32) as u8
        } else {
            s@[j]
        })),
{
    let s = match c {
        Some(s) => s,
        None => return,
    };
    let ghost orig = s@;
    let n = s.len();
    let mut i: usize = 0;
    while i < n && s[i] != 0
        invariant
            n == orig.len(),
            s@.len() == n,
            i <= n,
            forall|j: int| 0 <= j < i ==> #[trigger] orig[j] != 0,
            forall|j: int| 0 <= j < i ==> #[trigger] s@[j] == ascii_lower(orig[j]),
            forall|j: int| i <= j < n ==> #[trigger] s@[j] == orig[j],
        decreases n - i,
    {
        let b = lower_byte(s[i]);
        s[i] = b;
        i = i + 1;
    }
    proof {
        lemma_c_string_len(orig, i as int);
    }
    assert(s@ =~= lowercase(orig.take(i as int)) + orig.skip(i as int));
    proof {
        lemma_strlowered_bytes(orig);
    }
}

} // verus!
