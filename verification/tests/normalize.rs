use bm_core::normalize::{BM_ERR_INVALID_URL, BM_OK, bm_normalize_url, tag_normalize};

fn output(buffer: &[u8]) -> &[u8] {
    let end = buffer.iter().position(|&b| b == 0).expect("no terminator");
    &buffer[..end]
}

#[test]
fn normalizes_urls_in_the_callers_buffer() {
    let mut buffer = [0u8; 64];

    let result = bm_normalize_url(Some(b"HTTPS://Rust-Lang.ORG/Book".as_slice()), Some(&mut buffer[..]));

    assert_eq!(result, BM_OK);
    assert_eq!(output(&buffer), b"https://rust-lang.org/book");
}

#[test]
fn rejects_invalid_url_inputs() {
    let input = b"https://example.com".as_slice();
    let with_tab = b"https://example.com/a\tb".as_slice();
    let mut buffer = [0u8; 8];

    assert_eq!(bm_normalize_url(None, Some(&mut buffer[..])), BM_ERR_INVALID_URL);
    assert_eq!(bm_normalize_url(Some(input), None), BM_ERR_INVALID_URL);
    assert_eq!(bm_normalize_url(Some(input), Some(&mut buffer[..])), BM_ERR_INVALID_URL);
    assert_eq!(bm_normalize_url(Some(with_tab), Some(&mut buffer[..])), BM_ERR_INVALID_URL);
    assert_eq!(buffer, [0u8; 8]);
}

#[test]
fn trims_and_normalizes_tags_in_the_callers_buffer() {
    let mut buffer = [0u8; 16];

    let result = tag_normalize(Some(b"  RuSt ignored".as_slice()), Some(&mut buffer[..]));

    assert_eq!(result, BM_OK);
    assert_eq!(output(&buffer), b"rust");
}

#[test]
fn rejects_invalid_tag_inputs() {
    let mut buffer = [0u8; 5];

    assert_eq!(tag_normalize(None, Some(&mut buffer[..])), BM_ERR_INVALID_URL);
    assert_eq!(tag_normalize(Some(b"   ".as_slice()), Some(&mut buffer[..])), BM_ERR_INVALID_URL);
    assert_eq!(tag_normalize(Some(b"rustacean".as_slice()), Some(&mut buffer[..])), BM_ERR_INVALID_URL);
    assert_eq!(buffer, [0u8; 5]);
}

#[test]
fn a_comma_ends_the_tag() {
    let mut buffer = [0u8; 16];

    assert_eq!(tag_normalize(Some(b"\t\nRust,FFI".as_slice()), Some(&mut buffer[..])), BM_OK);
    assert_eq!(output(&buffer), b"rust");
}
