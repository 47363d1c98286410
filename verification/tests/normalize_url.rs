use bm_core::high_quality;
use bm_core::url::is_url_safe;
use bm_core::validate_and_narrow::{NormalizeUrlOutcome, bm_normalize_url};

const BM_OK: i32 = 0;
const BM_ERR_INVALID_URL: i32 = 3;
const BM_ERR_INVALID_BUFFER: i32 = 6;
const BM_ERR_BUFFER_TOO_SMALL: i32 = 7;

/// The bytes of `buf` before its first NUL.
fn until_nul(buf: &[u8]) -> &[u8] {
    let end = buf.iter().position(|&b| b == 0).expect("no terminator");
    &buf[..end]
}

fn normalize(url: &[u8], out: &mut [u8]) -> i32 {
    bm_normalize_url(Some(url), Some(out)).code()
}

#[test]
fn normalize_url_lowercases_ascii() {
    let mut output = vec![0u8; 64];

    let ret = normalize(b"https://Rust-Lang.ORG", &mut output);

    assert_eq!(ret, BM_OK);
    assert_eq!(until_nul(&output), b"https://rust-lang.org");
}

#[test]
fn normalize_url_null_url_is_rejected() {
    let mut output = vec![0u8; 64];

    let ret = bm_normalize_url(None, Some(output.as_mut_slice())).code();

    assert_eq!(ret, BM_ERR_INVALID_URL);
}

#[test]
fn normalize_url_null_out_is_rejected() {
    let ret = bm_normalize_url(Some(b"https://example.com".as_slice()), None).code();

    assert_eq!(ret, BM_ERR_INVALID_BUFFER);
}

#[test]
fn normalize_url_buffer_too_small_is_rejected() {
    let mut output = vec![0u8; 4];

    assert_eq!(normalize(b"https://example.com", &mut output), BM_ERR_BUFFER_TOO_SMALL);
}

#[test]
fn normalize_url_embedded_tab_is_rejected() {
    let mut output = vec![0u8; 64];

    assert_eq!(normalize(b"https://example.com/a\tb", &mut output), BM_ERR_INVALID_URL);
}

#[test]
fn normalize_url_non_utf8_is_rejected() {
    let raw = [b'h', b't', b't', b':', 0x80];
    let mut output = vec![0u8; 64];

    assert_eq!(normalize(&raw, &mut output), BM_ERR_INVALID_URL);
}

#[test]
fn a_buffer_that_fits_exactly_is_accepted() {
    let input = b"https://example.com";
    let mut output = vec![0u8; input.len() + 1];

    let ret = normalize(input, &mut output);

    assert_eq!(ret, BM_OK);
    assert_eq!(until_nul(&output), b"https://example.com");
}

#[test]
fn a_buffer_one_byte_short_is_rejected() {
    let input = b"https://example.com";
    let mut output = vec![0u8; input.len()];

    assert_eq!(normalize(input, &mut output), BM_ERR_BUFFER_TOO_SMALL);
}

#[test]
fn a_zero_length_buffer_is_rejected() {
    let mut output: Vec<u8> = Vec::new();

    assert_eq!(normalize(b"https://example.com", &mut output), BM_ERR_BUFFER_TOO_SMALL);
}

#[test]
fn a_null_url_is_reported_before_a_null_buffer() {
    let ret = bm_normalize_url(None, None);

    assert_eq!(ret.code(), BM_ERR_INVALID_URL);
    assert_eq!(ret, NormalizeUrlOutcome::InvalidUrl);
}

#[test]
fn url_safe_punctuation_is_accepted() {
    let mut output = vec![0u8; 128];

    let ret = normalize(b"HTTPS://USER@EXAMPLE.COM/P_a-TH?Q=1&R=2#FRAG[0]%20", &mut output);

    assert_eq!(ret, BM_OK);
    assert_eq!(until_nul(&output), b"https://user@example.com/p_a-th?q=1&r=2#frag[0]%20");
}

#[test]
fn characters_outside_the_allowlist_are_rejected() {
    for bad in [b' ', b'"', b'<', b'>', b'\\', b'\n'] {
        let mut raw = b"https://example.com/".to_vec();
        raw.push(bad);
        raw.push(b'b');
        let mut output = vec![0u8; 64];

        assert_eq!(
            normalize(&raw, &mut output),
            BM_ERR_INVALID_URL,
            "byte {bad:#04x} should not be accepted in a URL"
        );
    }
}

#[test]
fn a_rejected_url_leaves_its_checked_prefix_lowercased() {
    let mut output = vec![0xAAu8; 8];

    assert_eq!(normalize(b"AB\tCD", &mut output), BM_ERR_INVALID_URL);
    assert_eq!(output, vec![b'a', b'b', 0xAA, 0xAA, 0xAA, 0xAA, 0xAA, 0xAA]);
}

#[test]
fn room_is_checked_before_safety() {
    let mut output = vec![0xAAu8; 2];

    assert_eq!(normalize(b"AB\tCD", &mut output), BM_ERR_BUFFER_TOO_SMALL);
    assert_eq!(output, vec![b'a', b'b']);
}

#[test]
fn the_empty_url_needs_only_the_terminator() {
    let mut output = vec![0xAAu8; 2];

    assert_eq!(normalize(b"", &mut output), BM_OK);
    assert_eq!(output, vec![0, 0xAA]);
}

#[test]
fn the_allowlist_is_exactly_the_url_characters() {
    let allowed: &[u8] = b"abcdefghijklmnopqrstuvwxyzABCDEFGHIJKLMNOPQRSTUVWXYZ0123456789-._~:/?#[]@!$&'()*+,;=%";
    for b in 0..=255u8 {
        assert_eq!(is_url_safe(b), allowed.contains(&b), "byte {b:#04x}");
    }
}

#[test]
fn both_normalizers_accept_alike_and_write_alike() {
    for (url, len) in [
        (b"HTTPS://Example.COM/x".as_slice(), 64usize),
        (b"HTTPS://Example.COM/x".as_slice(), 21),
        (b"HTTPS://Example.COM/x".as_slice(), 22),
        (b"a b".as_slice(), 64),
        (b"".as_slice(), 1),
        (b"".as_slice(), 0),
    ] {
        let mut narrowed = vec![0x55u8; len];
        let mut checked = vec![0x55u8; len];
        let a = bm_normalize_url(Some(url), Some(narrowed.as_mut_slice()));
        let b = high_quality::bm_normalize_url(Some(url), Some(checked.as_mut_slice()));
        assert_eq!(a == NormalizeUrlOutcome::Success, b == high_quality::NormalizeUrlOutcome::Success);
        if a == NormalizeUrlOutcome::Success {
            assert_eq!(narrowed, checked);
        }
    }
}
