use bm_core::tag::{BM_MAX_TAG_LEN, BmResult, normalize, tag_normalize};

#[test]
fn lowercases() {
    assert_eq!(normalize("Rust").as_deref(), Ok("rust"));
}

#[test]
fn rejects_empty() {
    assert_eq!(normalize(""), Err(BmResult::ErrInvalidUrl));
}

#[test]
fn rejects_too_long() {
    let too_long = "a".repeat(BM_MAX_TAG_LEN);
    assert_eq!(normalize(&too_long), Err(BmResult::ErrInvalidUrl));
}

#[test]
fn accepts_the_longest_tag_that_fits() {
    let longest = "A".repeat(BM_MAX_TAG_LEN - 1);
    assert_eq!(normalize(&longest), Ok("a".repeat(BM_MAX_TAG_LEN - 1)));
}

#[test]
fn takes_the_first_token() {
    assert_eq!(normalize("  Rust, FFI").as_deref(), Ok("rust"));
    assert_eq!(normalize("\tC\r\nRust").as_deref(), Ok("c"));
}

#[test]
fn rejects_an_interior_nul() {
    assert_eq!(normalize("ru\0st"), Err(BmResult::ErrInvalidUrl));
}

#[test]
fn keeps_non_ascii_letters() {
    assert_eq!(normalize("  ÜBER straße").as_deref(), Ok("Über"));
}

#[test]
fn only_whitespace_and_commas_is_empty() {
    assert_eq!(normalize(" ,rust"), Err(BmResult::ErrInvalidUrl));
}

#[test]
fn null_arguments_are_rejected() {
    let mut out = [7u8; 4];
    assert_eq!(tag_normalize(None, Some(&mut out[..])), BmResult::ErrInvalidUrl);
    assert_eq!(out, [7u8; 4]);
    assert_eq!(tag_normalize(Some(b"x".as_slice()), None), BmResult::ErrInvalidUrl);
    assert_eq!(tag_normalize(Some(b"x".as_slice()), Some(&mut [][..])), BmResult::ErrInvalidUrl);
}

#[test]
fn result_codes_match_the_c_header() {
    assert_eq!(BmResult::Success.code(), 0);
    assert_eq!(BmResult::ErrNotFound.code(), 1);
    assert_eq!(BmResult::ErrDuplicate.code(), 2);
    assert_eq!(BmResult::ErrInvalidUrl.code(), 3);
    assert_eq!(BmResult::ErrIo.code(), 4);
    assert_eq!(BmResult::ErrCorrupt.code(), 5);
}
