use bm_core::bookmark::{
    copy_from_c, rust_bookmark_free, rust_bookmark_new, rust_bookmark_tag, rust_bookmark_tag_count,
    rust_bookmark_url,
};

#[test]
fn a_new_bookmark_hands_back_its_parts() {
    let tags = [Some(b"rust".as_slice()), Some(b"ffi".as_slice())];
    let bookmark = rust_bookmark_new(Some(b"https://example.com".as_slice()), Some(&tags[..]), 2).unwrap();

    assert_eq!(rust_bookmark_url(Some(&bookmark)), Some(b"https://example.com\0".as_slice()));
    assert_eq!(rust_bookmark_tag_count(Some(&bookmark)), 2);
    assert_eq!(rust_bookmark_tag(Some(&bookmark), 0), Some(b"rust\0".as_slice()));
    assert_eq!(rust_bookmark_tag(Some(&bookmark), 1), Some(b"ffi\0".as_slice()));
    assert_eq!(rust_bookmark_tag(Some(&bookmark), 2), None);

    rust_bookmark_free(Some(bookmark));
    rust_bookmark_free(None);
}

#[test]
fn missing_bookmarks_have_no_parts() {
    assert_eq!(rust_bookmark_url(None), None);
    assert_eq!(rust_bookmark_tag_count(None), 0);
    assert_eq!(rust_bookmark_tag(None, 0), None);
}

#[test]
fn null_inputs_are_rejected() {
    let tags = [Some(b"rust".as_slice()), None];
    assert!(copy_from_c(None, None, 0).is_none());
    assert!(copy_from_c(Some(b"u".as_slice()), None, 1).is_none());
    assert!(copy_from_c(Some(b"u".as_slice()), Some(&tags[..]), 2).is_none());
}

#[test]
fn only_the_counted_tags_are_copied() {
    let tags = [Some(b"rust".as_slice()), None];
    let bookmark = copy_from_c(Some(b"u".as_slice()), Some(&tags[..]), 1).unwrap();
    assert_eq!(rust_bookmark_tag_count(Some(&bookmark)), 1);

    let bookmark = copy_from_c(Some(b"u".as_slice()), None, 0).unwrap();
    assert_eq!(rust_bookmark_tag_count(Some(&bookmark)), 0);
}
