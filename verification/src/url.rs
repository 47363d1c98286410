//! Byte-level rules shared by the URL normalizers.
use vstd::prelude::*;

verus! {

/// Whether `b` may appear in a URL unescaped: the RFC 3986 unreserved
/// characters (ASCII letters and digits, `-`, `.`, `_`, `~`), the reserved
/// ones (`:`, `/`, `?`, `#`, `[`, `]`, `@`, `!`, `$`, `&`, `'`, `(`, `)`,
/// `*`, `+`, `,`, `;`, `=`), and the `%` of a percent-escape.
pub open spec fn url_safe(b: u8) -> bool {
    ||| (0x61 <= b && b <= 0x7a)
    ||| (0x41 <= b && b <= 0x5a)
    ||| (0x30 <= b && b <= 0x39)
    ||| b == 0x2d || b == 0x2e || b == 0x5f || b == 0x7e
    ||| b == 0x3a || b == 0x2f || b == 0x3f || b == 0x23 || b == 0x5b || b == 0x5d || b == 0x40
    ||| b == 0x21 || b == 0x24 || b == 0x26 || b == 0x27 || b == 0x28 || b == 0x29
    ||| b == 0x2a || b == 0x2b || b == 0x2c || b == 0x3b || b == 0x3d
    ||| b == 0x25
}

/// Every byte of `s` may appear in a URL unescaped.
pub open spec fn all_url_safe(s: Seq<u8>) -> bool {
    forall|i: int| 0 <= i < s.len() ==> #[trigger] url_safe(s[i])
}

/// ASCII lowercase of one byte; every other byte is left alone.
pub open spec fn ascii_lower(b: u8) -> u8 {
    if 0x41 <= b && b <= 0x5a {
        (b + 32) as u8
    } else {
        b
    }
}

/// ASCII lowercase of every byte of `s`.
pub open spec fn lowercase(s: Seq<u8>) -> Seq<u8> {
    Seq::new(s.len(), |i: int| ascii_lower(s[i]))
}

/// The buffer `buf` after a NUL-terminated, lowercased copy of `url` was
/// written at its start; the bytes past the terminator keep their values.
pub open spec fn written_nul_terminated(url: Seq<u8>, buf: Seq<u8>) -> Seq<u8> {
    lowercase(url) + seq![0u8] + buf.skip(url.len() + 1 as int)
}

/// Returns whether `b` may appear in a URL unescaped.
pub fn is_url_safe(b: u8) -> (r: bool)
    ensures
        r == url_safe(b),
{
    (0x61 <= b && b <= 0x7a) || (0x41 <= b && b <= 0x5a) || (0x30 <= b && b <= 0x39) || b == 0x2d
        || b == 0x2e || b == 0x5f || b == 0x7e || b == 0x3a || b == 0x2f || b == 0x3f || b == 0x23
        || b == 0x5b || b == 0x5d || b == 0x40 || b == 0x21 || b == 0x24 || b == 0x26 || b
        == 0x27 || b == 0x28 || b == 0x29 || b == 0x2a || b == 0x2b || b == 0x2c || b == 0x3b
        || b == 0x3d || b == 0x25
}

/// ASCII lowercase of one byte.
pub(crate) fn lower_byte(b: u8) -> (r: u8)
    ensures
        r == ascii_lower(b),
{
    if 0x41 <= b && b <= 0x5a {
        b + 32
    } else {
        b
    }
}

/// Checks that every byte of `url` may appear in a URL unescaped.
pub(crate) fn check_all_url_safe(url: &[u8]) -> (r: bool)
    ensures
        r == all_url_safe(url@),
{
    let n = url.len();
    for i in 0..n
        invariant
            n == url@.len(),
            forall|j: int| 0 <= j < i ==> #[trigger] url_safe(url@[j]),
    {
        if !is_url_safe(url[i]) {
            return false;
        }
    }
    true
}

/// Writes the lowercased `url` and a NUL terminator at the start of `out`.
pub(crate) fn write_lowercase_nul(url: &[u8], out: &mut [u8])
    requires
        url@.len() < old(out)@.len(),
    ensures
        final(out)@ == written_nul_terminated(url@, old(out)@),
{
    let n = url.len();
    let ghost orig = out@;
    for i in 0..n
        invariant
            n == url@.len(),
            n < orig.len(),
            out@.len() == orig.len(),
            forall|j: int| 0 <= j < i ==> #[trigger] out@[j] == ascii_lower(url@[j]),
            forall|j: int| i <= j < orig.len() ==> #[trigger] out@[j] == orig[j],
    {
        let b = lower_byte(url[i]);
        out[i] = b;
    }
    out[n] = 0;
    assert(out@ =~= written_nul_terminated(url@, orig));
}

/// The bytes that may appear in a URL are exactly the printable ASCII bytes
/// (0x21 to 0x7e) other than `"`, `<`, `>`, `\`, `^`, `` ` ``, `{`, `|` and
/// `}`.
pub proof fn lemma_url_safe_is_printable_minus_unsafe(b: u8)
    ensures
        url_safe(b) <==> (0x21 <= b && b <= 0x7e && b != 0x22 && b != 0x3c && b != 0x3e && b != 0x5c
            && b != 0x5e && b != 0x60 && b != 0x7b && b != 0x7c && b != 0x7d),
{
}

/// Lowercasing keeps the length, moves `A`..`Z` (0x41 to 0x5a) up by 32,
/// and keeps every other byte.
pub proof fn lemma_lowercase_bytes(s: Seq<u8>)
    ensures
        lowercase(s).len() == s.len(),
        forall|j: int| 0 <= j < s.len() ==> #[trigger] lowercase(s)[j] == (if 0x41 <= s[j] && s[j] <= 0x5a {
            (s[j] + 32) as u8
        } else {
            s[j]
        }),
{
}

/// After a successful write the buffer keeps its length, holds the
/// lowercased URL byte for byte, then a NUL, then its old bytes.
pub proof fn lemma_written_nul_terminated_bytes(url: Seq<u8>, buf: Seq<u8>)
    requires
        url.len() < buf.len(),
    ensures
        written_nul_terminated(url, buf).len() == buf.len(),
        forall|j: int| 0 <= j < url.len() ==> #[trigger] written_nul_terminated(url, buf)[j] == (if 0x41
            <= url[j] && url[j] <= 0x5a {
            (url[j] + 32) as u8
        } else {
            url[j]
        }),
        written_nul_terminated(url, buf)[url.len() as int] == 0u8,
        forall|j: int| url.len() < j < buf.len() ==> #[trigger] written_nul_terminated(url, buf)[j] == buf[j],
{
}

} // verus!
