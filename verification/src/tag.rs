//! Tag normalization: the first whitespace- or comma-delimited token of the
//! input, lowercased, written NUL-terminated into a caller-owned buffer.
use vstd::prelude::*;
use vstd::utf8::{
    valid_utf8, decode_utf8, encode_utf8, valid_first_scalar, pop_first_scalar,
    length_of_first_scalar, is_continuation_byte, is_char_boundary, is_leading_byte_width_1,
};
use vstd::string::StringSliceAdditionalSpecFns;
use crate::url::{lowercase, ascii_lower, lower_byte, written_nul_terminated};

verus! {

/// Result codes shared with the C side of the tag module.
#[derive(Debug, Clone, Copy, PartialEq, Eq, Structural)]
pub enum BmResult {
    Success,
    ErrNotFound,
    ErrDuplicate,
    ErrInvalidUrl,
    ErrIo,
    ErrCorrupt,
}

impl BmResult {
    /// The integer a C caller receives for this result.
    pub open spec fn spec_code(self) -> i32 {
        match self {
            BmResult::Success => 0,
            BmResult::ErrNotFound => 1,
            BmResult::ErrDuplicate => 2,
            BmResult::ErrInvalidUrl => 3,
            BmResult::ErrIo => 4,
            BmResult::ErrCorrupt => 5,
        }
    }

    /// The integer a C caller receives for this result.
    pub fn code(&self) -> (r: i32)
        ensures
            r == self.spec_code(),
    {
        match self {
            BmResult::Success => 0,
            BmResult::ErrNotFound => 1,
            BmResult::ErrDuplicate => 2,
            BmResult::ErrInvalidUrl => 3,
            BmResult::ErrIo => 4,
            BmResult::ErrCorrupt => 5,
        }
    }
}

/// Capacity of the tag buffer, terminator included.
pub const BM_MAX_TAG_LEN: usize = 64;

/// ASCII whitespace: space, tab, line feed, form feed and carriage return.
pub open spec fn ascii_whitespace(b: u8) -> bool {
    b == 0x20 || b == 0x09 || b == 0x0a || b == 0x0c || b == 0x0d
}

/// A byte that ends a tag: ASCII whitespace or a comma.
pub open spec fn tag_delimiter(b: u8) -> bool {
    ascii_whitespace(b) || b == 0x2c
}

/// The number of leading whitespace bytes of `s`.
pub open spec fn leading_whitespace(s: Seq<u8>) -> nat
    decreases s.len(),
{
    if s.len() > 0 && ascii_whitespace(s[0]) {
        1 + leading_whitespace(s.drop_first())
    } else {
        0
    }
}

/// The number of leading bytes of `s` that are not delimiters.
pub open spec fn token_len(s: Seq<u8>) -> nat
    decreases s.len(),
{
    if s.len() > 0 && !tag_delimiter(s[0]) {
        1 + token_len(s.drop_first())
    } else {
        0
    }
}

/// The tag in `s`: skip the leading whitespace, then take everything up to
/// the next whitespace or comma.
pub open spec fn tag_token(s: Seq<u8>) -> Seq<u8> {
    let rest = s.skip(leading_whitespace(s) as int);
    rest.take(token_len(rest) as int)
}

/// The tag in `s`, lowercased.
pub open spec fn normalized_tag(s: Seq<u8>) -> Seq<u8> {
    lowercase(tag_token(s))
}

/// `k` is the length of the leading whitespace of `s` when the first `k`
/// bytes are whitespace and byte `k`, if there is one, is not.
pub proof fn lemma_leading_whitespace(s: Seq<u8>, k: int)
    requires
        0 <= k <= s.len(),
        forall|j: int| 0 <= j < k ==> #[trigger] ascii_whitespace(s[j]),
        k == s.len() || !ascii_whitespace(s[k]),
    ensures
        leading_whitespace(s) == k,
    decreases s.len(),
{
    if s.len() > 0 && k > 0 {
        assert forall|j: int| 0 <= j < k - 1 implies #[trigger] ascii_whitespace(s.drop_first()[j]) by {
            assert(ascii_whitespace(s[j + 1]));
        }
        lemma_leading_whitespace(s.drop_first(), k - 1);
    }
}

/// `k` is the token length of `s` when the first `k` bytes are not
/// delimiters and byte `k`, if there is one, is.
pub proof fn lemma_token_len(s: Seq<u8>, k: int)
    requires
        0 <= k <= s.len(),
        forall|j: int| 0 <= j < k ==> !#[trigger] tag_delimiter(s[j]),
        k == s.len() || tag_delimiter(s[k]),
    ensures
        token_len(s) == k,
    decreases s.len(),
{
    if s.len() > 0 && k > 0 {
        assert forall|j: int| 0 <= j < k - 1 implies !#[trigger] tag_delimiter(s.drop_first()[j]) by {
            assert(!tag_delimiter(s[j + 1]));
        }
        lemma_token_len(s.drop_first(), k - 1);
    }
}

/// The counted prefixes stay within the sequence.
pub proof fn lemma_prefix_counts_bounded(s: Seq<u8>)
    ensures
        leading_whitespace(s) <= s.len(),
        token_len(s) <= s.len(),
    decreases s.len(),
{
    if s.len() > 0 {
        lemma_prefix_counts_bounded(s.drop_first());
    }
}

/// Writes the normalized tag of `raw` into `out`, NUL-terminated.
///
/// `raw` holds the bytes of a C string without its terminator and `None`
/// stands for a null pointer; `out` is the caller's buffer, `None` for a null
/// one. The tag has to be non-empty and leave room for the terminator;
/// otherwise the call fails with `ErrInvalidUrl` and `out` is not touched.
pub fn tag_normalize(raw: Option<&[u8]>, out: Option<&mut [u8]>) -> (r: BmResult)
    ensures
        r == BmResult::Success || r == BmResult::ErrInvalidUrl,
        raw is None || out is None ==> r == BmResult::ErrInvalidUrl,
        out matches Some(o) ==> (raw is None ==> final(o)@ == o@),
        raw matches Some(s) ==> (out matches Some(o) ==> {
            let t = tag_token(s@);
            &&& (r == BmResult::Success <==> 0 < t.len() < o@.len())
            &&& r == BmResult::Success ==> final(o)@ == written_nul_terminated(t, o@)
            &&& r != BmResult::Success ==> final(o)@ == o@
        }),
{
    let raw = match raw {
        Some(s) => s,
        None => return BmResult::ErrInvalidUrl,
    };
    let out = match out {
        Some(o) => o,
        None => return BmResult::ErrInvalidUrl,
    };
    let n = raw.len();
    let m = out.len();
    if m == 0 {
        return BmResult::ErrInvalidUrl;
    }
    let mut start: usize = 0;
    while start < n && (raw[start] == 0x20 || raw[start] == 0x09 || raw[start] == 0x0a
        || raw[start] == 0x0c || raw[start] == 0x0d)
        invariant
            n == raw@.len(),
            start <= n,
            forall|j: int| 0 <= j < start ==> #[trigger] ascii_whitespace(raw@[j]),
        decreases n - start,
    {
        start = start + 1;
    }
    proof {
        lemma_leading_whitespace(raw@, start as int);
    }
    let ghost rest = raw@.skip(start as int);
    let mut end: usize = start;
    while end < n && !(raw[end] == 0x20 || raw[end] == 0x09 || raw[end] == 0x0a
        || raw[end] == 0x0c || raw[end] == 0x0d || raw[end] == 0x2c)
        invariant
            n == raw@.len(),
            start <= end <= n,
            rest == raw@.skip(start as int),
            forall|j: int| start <= j < end ==> !#[trigger] tag_delimiter(raw@[j]),
        decreases n - end,
    {
        end = end + 1;
    }
    proof {
        assert forall|j: int| 0 <= j < end - start implies !#[trigger] tag_delimiter(rest[j]) by {
            assert(!tag_delimiter(raw@[start + j]));
        }
        lemma_token_len(rest, (end - start) as int);
    }
    let len = end - start;
    assert(tag_token(raw@) =~= raw@.subrange(start as int, end as int));
    if len == 0 || len >= m {
        return BmResult::ErrInvalidUrl;
    }
    let ghost orig = out@;
    for i in 0..len
        invariant
            n == raw@.len(),
            start + len == end,
            end <= n,
            len < m,
            m == orig.len(),
            out@.len() == m,
            forall|j: int| 0 <= j < i ==> #[trigger] out@[j] == ascii_lower(raw@[start + j]),
            forall|j: int| i <= j < m ==> #[trigger] out@[j] == orig[j],
    {
        let b = lower_byte(raw[start + i]);
        out[i] = b;
    }
    out[len] = 0;
    assert(out@ =~= written_nul_terminated(raw@.subrange(start as int, end as int), orig));
    BmResult::Success
}

/// What normalizing the UTF-8 bytes `raw` of a string gives: the
/// normalized tag decoded as text, or the error code.
pub open spec fn normalize_outcome(raw: Seq<u8>) -> Result<Seq<char>, BmResult> {
    let t = normalized_tag(raw);
    if raw.contains(0u8) {
        Err(BmResult::ErrInvalidUrl)
    } else if t.len() == 0 || t.len() >= BM_MAX_TAG_LEN {
        Err(BmResult::ErrInvalidUrl)
    } else if valid_utf8(t) {
        Ok(decode_utf8(t))
    } else {
        Err(BmResult::ErrInvalidUrl)
    }
}

/// Declares std's `FromUtf8Error`, the error `String::from_utf8` returns
/// for bytes that are not UTF-8; nothing is read from it.
#[verifier::external_type_specification]
#[verifier::external_body]
pub struct ExFromUtf8Error(std::string::FromUtf8Error);

/// Calls `String::from_utf8`, which takes ownership of `bytes` and returns
/// them as a `String` exactly when they are valid UTF-8; this contract says
/// that the result is `Ok` on valid UTF-8 only, holding the decoded text.
#[verifier::external_body]
fn string_from_utf8(bytes: Vec<u8>) -> (r: Result<String, std::string::FromUtf8Error>)
    ensures
        r is Ok <==> valid_utf8(bytes@),
        r matches Ok(s) ==> s@ == decode_utf8(bytes@),
{
    String::from_utf8(bytes)
}

/// Normalizes a tag: rejects input holding a NUL byte, writes the tag into a
/// buffer of [`BM_MAX_TAG_LEN`] bytes with [`tag_normalize`], and reads the
/// NUL-terminated result back as text.
pub fn normalize(raw: &str) -> (r: Result<String, BmResult>)
    ensures
        r is Ok <==> normalize_outcome(raw.spec_bytes()) is Ok,
        r matches Ok(s) ==> normalize_outcome(raw.spec_bytes()) == Ok::<Seq<char>, BmResult>(s@),
        r matches Err(e) ==> normalize_outcome(raw.spec_bytes()) == Err::<Seq<char>, BmResult>(e),
        r matches Ok(s) ==> s@ == decode_utf8(normalized_tag(raw.spec_bytes())),
        r matches Err(e) ==> e == BmResult::ErrInvalidUrl,
{
    let bytes = raw.as_bytes();
    let n = bytes.len();
    for i in 0..n
        invariant
            n == bytes@.len(),
            bytes@ == raw.spec_bytes(),
            forall|j: int| 0 <= j < i ==> #[trigger] bytes@[j] != 0u8,
    {
        if bytes[i] == 0 {
            assert(bytes@[i as int] == 0u8);
            return Err(BmResult::ErrInvalidUrl);
        }
    }
    assert(!bytes@.contains(0u8));
    let mut out: Vec<u8> = vec![0u8; BM_MAX_TAG_LEN];
    let ghost before = out@;
    let result = tag_normalize(Some(bytes), Some(out.as_mut_slice()));
    if result != BmResult::Success {
        return Err(result);
    }
    let ghost t = tag_token(bytes@);
    assert(out@ == written_nul_terminated(t, before));
    proof {
        let lw = leading_whitespace(bytes@) as int;
        lemma_prefix_counts_bounded(bytes@);
        lemma_prefix_counts_bounded(bytes@.skip(lw));
        assert forall|j: int| 0 <= j < t.len() implies #[trigger] lowercase(t)[j] != 0u8 by {
            assert(t[j] == bytes@[lw + j]);
        }
    }
    let mut k: usize = 0;
    while k < out.len() && out[k] != 0
        invariant
            0 <= k <= t.len(),
            t.len() < out@.len(),
            out@ == written_nul_terminated(t, before),
            forall|j: int| 0 <= j < t.len() ==> #[trigger] lowercase(t)[j] != 0u8,
        decreases out@.len() - k,
    {
        assert(k < t.len()) by {
            if k == t.len() {
                assert(out@[k as int] == 0u8);
            }
        }
        k = k + 1;
    }
    assert(k == t.len()) by {
        if k < t.len() {
            assert(out@[k as int] == lowercase(t)[k as int]);
        }
    }
    let mut tag_bytes: Vec<u8> = Vec::new();
    for i in 0..k
        invariant
            k == t.len(),
            t.len() < out@.len(),
            out@ == written_nul_terminated(t, before),
            tag_bytes@ =~= lowercase(t).take(i as int),
    {
        tag_bytes.push(out[i]);
    }
    assert(tag_bytes@ =~= normalized_tag(bytes@));
    match string_from_utf8(tag_bytes) {
        Ok(s) => Ok(s),
        Err(_) => Err(BmResult::ErrInvalidUrl),
    }
}

/// Lowercasing ASCII letters keeps a byte sequence valid UTF-8: the bytes
/// it changes encode one-byte scalars, and every byte of a longer encoding
/// is at least 0x80 and left alone.
pub proof fn lemma_lowercase_keeps_utf8(s: Seq<u8>)
    requires
        valid_utf8(s),
    ensures
        valid_utf8(lowercase(s)),
    decreases s.len(),
{
    if s.len() > 0 {
        let l = lowercase(s);
        let w = length_of_first_scalar(s);
        let rest = pop_first_scalar(s);
        if s[0] <= 0x7f {
            let b = l[0];
            assert(b <= 0x7f);
            assert((b & 0x7f) <= 0x7f) by (bit_vector);
            assert(valid_first_scalar(l));
        } else {
            assert forall|j: int| 0 <= j < w implies #[trigger] l[j] == s[j] by {
                assert(s[j] >= 0x80);
            }
            assert(valid_first_scalar(l));
        }
        assert(length_of_first_scalar(l) == w);
        assert(pop_first_scalar(l) =~= lowercase(rest));
        lemma_lowercase_keeps_utf8(rest);
    }
}

/// In valid UTF-8, the byte after a one-byte scalar starts a new scalar.
pub proof fn lemma_after_ascii_is_boundary(s: Seq<u8>, i: int)
    requires
        valid_utf8(s),
        0 <= i < s.len(),
        s[i] <= 0x7f,
    ensures
        is_char_boundary(s, i + 1),
{
    broadcast use vstd::utf8::is_char_boundary_iff_is_leading_byte,
        vstd::utf8::is_char_boundary_iff_not_is_continuation_byte,
        vstd::utf8::is_char_boundary_start_end_of_seq;

    assert(is_leading_byte_width_1(s[i]));
    assert(is_char_boundary(s, i));
    vstd::utf8::valid_utf8_split(s, i);
    let d = s.subrange(i, s.len() as int);
    assert(valid_utf8(d));
    if i + 1 < s.len() {
        let rest = pop_first_scalar(d);
        assert(length_of_first_scalar(d) == 1);
        assert(rest =~= s.subrange(i + 1, s.len() as int));
        assert(valid_utf8(rest));
        assert(valid_first_scalar(rest));
        assert(rest[0] == s[i + 1]);
        assert(!is_continuation_byte(s[i + 1]));
    }
}

/// The tag taken from the UTF-8 encoding of a string is itself valid UTF-8
/// once lowercased: it starts and ends next to ASCII delimiters or at the
/// ends of the input, so it never splits an encoded character.
pub proof fn lemma_normalized_tag_is_utf8(chars: Seq<char>)
    ensures
        valid_utf8(normalized_tag(encode_utf8(chars))),
{
    broadcast use vstd::utf8::encode_utf8_valid_utf8,
        vstd::utf8::is_char_boundary_iff_is_leading_byte,
        vstd::utf8::is_char_boundary_start_end_of_seq;

    let b = encode_utf8(chars);
    let a = leading_whitespace(b) as int;
    lemma_prefix_counts_bounded(b);
    let c = b.skip(a);
    let k = token_len(c) as int;
    lemma_prefix_counts_bounded(c);
    assert(is_char_boundary(b, a)) by {
        if 0 < a {
            assert(ascii_whitespace(b[a - 1])) by {
                lemma_leading_whitespace_prefix(b);
            }
            lemma_after_ascii_is_boundary(b, a - 1);
        }
    }
    vstd::utf8::valid_utf8_split(b, a);
    assert(c =~= b.subrange(a, b.len() as int));
    assert(valid_utf8(c));
    assert(is_char_boundary(c, k)) by {
        if k < c.len() {
            lemma_token_len_stop(c);
            assert(is_leading_byte_width_1(c[k]));
        }
    }
    vstd::utf8::valid_utf8_split(c, k);
    assert(tag_token(b) =~= c.subrange(0, k));
    lemma_lowercase_keeps_utf8(tag_token(b));
}

/// The leading whitespace of `s` is whitespace.
pub proof fn lemma_leading_whitespace_prefix(s: Seq<u8>)
    ensures
        forall|j: int| 0 <= j < leading_whitespace(s) ==> #[trigger] ascii_whitespace(s[j]),
    decreases s.len(),
{
    if s.len() > 0 && ascii_whitespace(s[0]) {
        lemma_leading_whitespace_prefix(s.drop_first());
        lemma_prefix_counts_bounded(s.drop_first());
        assert forall|j: int| 0 <= j < leading_whitespace(s) implies #[trigger] ascii_whitespace(s[j]) by {
            if j > 0 {
                assert(ascii_whitespace(s.drop_first()[j - 1]));
            }
        }
    }
}

/// A token that stops before the end of `s` stops at a delimiter.
pub proof fn lemma_token_len_stop(s: Seq<u8>)
    ensures
        token_len(s) < s.len() ==> tag_delimiter(s[token_len(s) as int]),
    decreases s.len(),
{
    if s.len() > 0 && !tag_delimiter(s[0]) {
        lemma_token_len_stop(s.drop_first());
    }
}

/// Normalizing a string fails exactly when it holds a NUL byte, or when
/// its tag is empty or leaves no room for the terminator: the UTF-8 check
/// on the way out never rejects the tag.
pub proof fn lemma_normalize_fails_only_on_nul_or_length(raw: &str)
    ensures
        normalize_outcome(raw.spec_bytes()) is Ok <==> ({
            let t = normalized_tag(raw.spec_bytes());
            !raw.spec_bytes().contains(0u8) && 0 < t.len() < BM_MAX_TAG_LEN
        }),
{
    lemma_normalized_tag_is_utf8(raw@);
}

/// The whitespace counted as leading is followed by a byte that is not
/// whitespace, if any.
pub proof fn lemma_leading_whitespace_stop(s: Seq<u8>)
    ensures
        leading_whitespace(s) < s.len() ==> !ascii_whitespace(s[leading_whitespace(s) as int]),
    decreases s.len(),
{
    if s.len() > 0 && ascii_whitespace(s[0]) {
        lemma_leading_whitespace_stop(s.drop_first());
    }
}

/// The bytes counted as the token are not delimiters.
pub proof fn lemma_token_len_prefix(s: Seq<u8>)
    ensures
        forall|j: int| 0 <= j < token_len(s) ==> !#[trigger] tag_delimiter(s[j]),
    decreases s.len(),
{
    if s.len() > 0 && !tag_delimiter(s[0]) {
        lemma_token_len_prefix(s.drop_first());
        lemma_prefix_counts_bounded(s.drop_first());
        assert forall|j: int| 0 <= j < token_len(s) implies !#[trigger] tag_delimiter(s[j]) by {
            if j > 0 {
                assert(!tag_delimiter(s.drop_first()[j - 1]));
            }
        }
    }
}

/// A successful normalization gives the first tag of the input: the input
/// has no NUL byte; it starts with `a` bytes of ASCII whitespace (space,
/// tab, line feed, form feed, carriage return) followed by a byte that is
/// not whitespace; the UTF-8 encoding of the result has between 1 and 63
/// bytes, and byte `j` of it is input byte `a + j` with `A`..`Z` moved to
/// `a`..`z`; none of those input bytes is whitespace or a comma, and the
/// byte after them, if any, is one. The returned `a` is that count.
pub proof fn lemma_normalize_gives_first_tag(raw: Seq<u8>) -> (a: int)
    ensures
        normalize_outcome(raw) matches Ok(s) ==> {
            let t = encode_utf8(s);
            &&& forall|j: int| 0 <= j < raw.len() ==> #[trigger] raw[j] != 0u8
            &&& 0 <= a && a + t.len() <= raw.len()
            &&& 0 < t.len() < 64
            &&& forall|j: int| 0 <= j < a ==> {
                let c = #[trigger] raw[j];
                c == 0x20 || c == 0x09 || c == 0x0a || c == 0x0c || c == 0x0d
            }
            &&& forall|j: int| 0 <= j < t.len() ==> {
                let c = #[trigger] raw[a + j];
                &&& !(c == 0x20 || c == 0x09 || c == 0x0a || c == 0x0c || c == 0x0d || c == 0x2c)
                &&& t[j] == (if 0x41 <= c && c <= 0x5a { (c + 32) as u8 } else { c })
            }
            &&& t.len() == 0 || !(raw[a] == 0x20 || raw[a] == 0x09 || raw[a] == 0x0a
                || raw[a] == 0x0c || raw[a] == 0x0d)
            &&& a + t.len() == raw.len() || {
                let c = raw[a + t.len()];
                c == 0x20 || c == 0x09 || c == 0x0a || c == 0x0c || c == 0x0d || c == 0x2c
            }
        },
{
    let a = leading_whitespace(raw) as int;
    lemma_prefix_counts_bounded(raw);
    let rest = raw.skip(a);
    lemma_prefix_counts_bounded(rest);
    lemma_leading_whitespace_prefix(raw);
    lemma_leading_whitespace_stop(raw);
    lemma_token_len_prefix(rest);
    lemma_token_len_stop(rest);
    if normalize_outcome(raw) is Ok {
        let t = normalized_tag(raw);
        vstd::utf8::decode_utf8_encode_utf8(t);
        assert(encode_utf8(decode_utf8(t)) == t);
        assert(!raw.contains(0u8));
        assert forall|j: int| 0 <= j < raw.len() implies #[trigger] raw[j] != 0u8 by {
            if raw[j] == 0u8 {
                assert(raw.contains(0u8));
            }
        }
        assert forall|j: int| 0 <= j < t.len() implies {
            let c = #[trigger] raw[a + j];
            &&& !(c == 0x20 || c == 0x09 || c == 0x0a || c == 0x0c || c == 0x0d || c == 0x2c)
            &&& t[j] == (if 0x41 <= c && c <= 0x5a { (c + 32) as u8 } else { c })
        } by {
            assert(raw[a + j] == rest[j]);
            assert(!tag_delimiter(rest[j]));
        }
        let tt = encode_utf8(decode_utf8(t));
        assert forall|j: int| 0 <= j < a implies {
                let c = #[trigger] raw[j];
                c == 0x20 || c == 0x09 || c == 0x0a || c == 0x0c || c == 0x0d
            } by {
            assert(ascii_whitespace(raw[j]));
        }
        assert(forall|j: int| 0 <= j < tt.len() ==> {
                let c = #[trigger] raw[a + j];
                &&& !(c == 0x20 || c == 0x09 || c == 0x0a || c == 0x0c || c == 0x0d || c == 0x2c)
                &&& tt[j] == (if 0x41 <= c && c <= 0x5a { (c + 32) as u8 } else { c })
            });
        assert(0 <= a && a + tt.len() <= raw.len());
        assert(0 < tt.len() < 64);
        assert(tt.len() == 0 || !(raw[a] == 0x20 || raw[a] == 0x09 || raw[a] == 0x0a
                || raw[a] == 0x0c || raw[a] == 0x0d)) by {
            assert(raw[a] == rest[0]);
        }
        assert(a + tt.len() == raw.len() || {
                let c = raw[a + tt.len()];
                c == 0x20 || c == 0x09 || c == 0x0a || c == 0x0c || c == 0x0d || c == 0x2c
            }) by {
            if a + tt.len() < raw.len() {
                assert(raw[a + tt.len()] == rest[tt.len() as int]);
            }
        }
    }
    a
}

} // verus!
