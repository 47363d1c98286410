//! An owned bookmark record, built by copying borrowed C-string contents,
//! and the accessors that hand its parts back.
use vstd::prelude::*;
use vstd::slice::slice_to_vec;

verus! {

/// A bookmark that owns NUL-terminated copies of its URL and tags.
pub struct RustBookmark {
    url: Vec<u8>,
    tags: Vec<Vec<u8>>,
}

impl RustBookmark {
    /// The bytes of the URL, its terminator included.
    pub closed spec fn spec_url(&self) -> Seq<u8> {
        self.url@
    }

    /// The bytes of each tag, in order, terminators included.
    pub closed spec fn spec_tags(&self) -> Seq<Seq<u8>> {
        self.tags@.map_values(|t: Vec<u8>| t@)
    }
}

/// The bytes a tag entry refers to; nothing for a null entry.
pub open spec fn tag_bytes(t: Option<&[u8]>) -> Seq<u8> {
    match t {
        Some(x) => x@,
        None => Seq::empty(),
    }
}

/// The inputs can be copied: a URL is present, and each of the first
/// `n_tags` tags is present (the tag array itself may be absent when there
/// are none).
pub open spec fn copyable(url: Option<&[u8]>, tags: Option<&[Option<&[u8]>]>, n_tags: usize) -> bool {
    &&& url is Some
    &&& n_tags == 0 || (tags matches Some(t) && forall|i: int| 0 <= i < n_tags ==> (#[trigger] t@[i]) is Some)
}

/// `b` holds NUL-terminated copies of `url` and of the first `n_tags` tags.
pub open spec fn holds_copies(
    b: &RustBookmark,
    url: Option<&[u8]>,
    tags: Option<&[Option<&[u8]>]>,
    n_tags: usize,
) -> bool {
    &&& url matches Some(u) && b.spec_url() == u@.push(0u8)
    &&& b.spec_tags().len() == n_tags
    &&& forall|i: int| 0 <= i < n_tags ==> (tags matches Some(t)
        && #[trigger] b.spec_tags()[i] == tag_bytes(t@[i]).push(0u8))
}

/// A copy of the C string content `s`, NUL-terminated.
fn terminated_copy(s: &[u8]) -> (r: Vec<u8>)
    ensures
        r@ == s@.push(0u8),
{
    let mut r = slice_to_vec(s);
    r.push(0);
    r
}

/// A bookmark holding copies keeps its inputs verbatim: the URL is the
/// input bytes followed by one NUL, each counted tag is its input bytes
/// followed by one NUL, and there are exactly `n_tags` tags.
pub proof fn lemma_copies_are_verbatim(
    b: &RustBookmark,
    url: Option<&[u8]>,
    tags: Option<&[Option<&[u8]>]>,
    n_tags: usize,
)
    requires
        copyable(url, tags, n_tags),
        holds_copies(b, url, tags, n_tags),
    ensures
        url matches Some(u) && b.spec_url().len() == u@.len() + 1,
        url matches Some(u) && b.spec_url().last() == 0u8,
        url matches Some(u) && (forall|j: int| 0 <= j < u@.len() ==> #[trigger] b.spec_url()[j] == u@[j]),
        b.spec_tags().len() == n_tags,
        forall|i: int| 0 <= i < n_tags ==> (tags matches Some(t) && t@[i] matches Some(x)
            && #[trigger] b.spec_tags()[i] =~= x@.push(0u8)),
{
    assert forall|i: int| 0 <= i < n_tags implies (tags matches Some(t) && t@[i] matches Some(x)
        && #[trigger] b.spec_tags()[i] =~= x@.push(0u8)) by {
        assert(tags.unwrap()@[i] is Some);
        assert(b.spec_tags()[i] == tag_bytes(tags.unwrap()@[i]).push(0u8));
    }
}

/// Checks the inputs and copies them, NUL-terminated, into a bookmark it owns.
///
/// `url` is the content of a C string and `None` stands for a null pointer;
/// `tags`, when there are tags, holds at least `n_tags` entries, each the
/// content of a C string or `None` for a null pointer. Returns `None` for a
/// null URL, for a null tag array when `n_tags > 0`, and for a null tag.
#[verifier::loop_isolation(false)]
pub fn copy_from_c(url: Option<&[u8]>, tags: Option<&[Option<&[u8]>]>, n_tags: usize) -> (r: Option<RustBookmark>)
    requires
        tags matches Some(t) ==> n_tags <= t@.len(),
    ensures
        r is Some <==> copyable(url, tags, n_tags),
        r matches Some(b) ==> holds_copies(&b, url, tags, n_tags),
        r matches Some(b) ==> (url matches Some(u) && b.spec_url() == u@.push(0u8)),
        r matches Some(b) ==> b.spec_tags().len() == n_tags,
        r matches Some(b) ==> (forall|i: int| 0 <= i < n_tags ==> (tags matches Some(t)
            && t@[i] matches Some(x) && #[trigger] b.spec_tags()[i] == x@.push(0u8))),
{
    let u = match url {
        Some(u) => u,
        None => return None,
    };
    if n_tags > 0 && tags.is_none() {
        return None;
    }
    let mut owned_tags: Vec<Vec<u8>> = Vec::new();
    if n_tags > 0 {
        let t = tags.unwrap();
        for i in 0..n_tags
            invariant
                n_tags <= t@.len(),
                tags == Some(t),
                owned_tags@.len() == i,
                forall|j: int| 0 <= j < i ==> (#[trigger] t@[j]) is Some,
                forall|j: int| 0 <= j < i ==> #[trigger] owned_tags@[j]@ == tag_bytes(t@[j]).push(0u8),
        {
            match t[i] {
                Some(x) => owned_tags.push(terminated_copy(x)),
                None => return None,
            }
        }
    }
    let b = RustBookmark { url: terminated_copy(u), tags: owned_tags };
    assert(b.spec_tags().len() == n_tags);
    assert forall|i: int| 0 <= i < n_tags implies (tags matches Some(t)
        && #[trigger] b.spec_tags()[i] == tag_bytes(t@[i]).push(0u8)) by {
        assert(b.spec_tags()[i] == owned_tags@[i]@);
    }
    Some(b)
}

/// Allocates a bookmark holding copies of the inputs and hands over its
/// ownership; returns `None` where [`copy_from_c`] does.
pub fn rust_bookmark_new(url: Option<&[u8]>, tags: Option<&[Option<&[u8]>]>, n_tags: usize) -> (r: Option<Box<RustBookmark>>)
    requires
        tags matches Some(t) ==> n_tags <= t@.len(),
    ensures
        r is Some <==> copyable(url, tags, n_tags),
        r matches Some(b) ==> holds_copies(&*b, url, tags, n_tags),
        r matches Some(b) ==> (url matches Some(u) && b.spec_url() == u@.push(0u8)),
        r matches Some(b) ==> b.spec_tags().len() == n_tags,
        r matches Some(b) ==> (forall|i: int| 0 <= i < n_tags ==> (tags matches Some(t)
            && t@[i] matches Some(x) && #[trigger] b.spec_tags()[i] == x@.push(0u8))),
{
    match copy_from_c(url, tags, n_tags) {
        Some(b) => Some(Box::new(b)),
        None => None,
    }
}

/// Releases a bookmark; like C's `free`, it accepts `None`.
pub fn rust_bookmark_free(bookmark: Option<Box<RustBookmark>>) {
    let _released = bookmark;
}

/// Borrows the bookmark's URL, NUL-terminated, or returns `None` for a
/// missing bookmark.
pub fn rust_bookmark_url(bookmark: Option<&RustBookmark>) -> (r: Option<&[u8]>)
    ensures
        bookmark is None ==> r is None,
        bookmark matches Some(b) ==> (r matches Some(u) && u@ == b.spec_url()),
{
    match bookmark {
        Some(b) => Some(b.url.as_slice()),
        None => None,
    }
}

/// The number of tags, or zero for a missing bookmark.
pub fn rust_bookmark_tag_count(bookmark: Option<&RustBookmark>) -> (r: usize)
    ensures
        bookmark is None ==> r == 0,
        bookmark matches Some(b) ==> r == b.spec_tags().len(),
{
    match bookmark {
        Some(b) => b.tags.len(),
        None => 0,
    }
}

/// Borrows the tag at `index`, NUL-terminated, or returns `None` if there is
/// no such tag.
pub fn rust_bookmark_tag(bookmark: Option<&RustBookmark>, index: usize) -> (r: Option<&[u8]>)
    ensures
        bookmark is None ==> r is None,
        bookmark matches Some(b) ==> (if index < b.spec_tags().len() {
            r matches Some(t) && t@ == b.spec_tags()[index as int]
        } else {
            r is None
        }),
{
    match bookmark {
        Some(b) => {
            if index < b.tags.len() {
                Some(b.tags[index].as_slice())
            } else {
                None
            }
        }
        None => None,
    }
}

} // verus!
