use bm_core::benchmarking::{
    BM_ERR_BUFFER_TOO_SMALL, BM_ERR_INVALID_BUFFER, BM_ERR_INVALID_URL, BM_OK, bm_normalize_url_rust,
};

fn rust(raw: &[u8], out_len: usize) -> (i32, [u8; 64]) {
    let mut out = [0u8; 64];
    let result = bm_normalize_url_rust(Some(raw), Some(&mut out[..out_len]));
    (result, out)
}

#[test]
fn the_differential_inputs_get_the_c_return_codes() {
    let (result, out) = rust(b"HTTPS://EXAMPLE.COM/Rust", 64);
    assert_eq!(result, BM_OK);
    let mut expected = [0u8; 64];
    expected[..24].copy_from_slice(b"https://example.com/rust");
    assert_eq!(out, expected);

    let (result, _) = rust(b"https://example.com/has\ta-tab", 64);
    assert_eq!(result, BM_ERR_INVALID_URL);
}

#[test]
fn rejected_input_leaves_the_rust_buffer_untouched() {
    let (rust_result, rust_out) = rust(b"https://example.com/has\ta-tab", 64);

    assert_eq!(rust_result, BM_ERR_INVALID_URL);

    let untouched = [0u8; 64];
    assert_eq!(rust_out, untouched, "the checks run before anything is written");
}

#[test]
fn null_arguments_have_their_own_codes() {
    let mut out = [0u8; 8];
    assert_eq!(bm_normalize_url_rust(None, Some(&mut out[..])), BM_ERR_INVALID_URL);
    assert_eq!(bm_normalize_url_rust(None, None), BM_ERR_INVALID_URL);
    assert_eq!(bm_normalize_url_rust(Some(b"a".as_slice()), None), BM_ERR_INVALID_BUFFER);
}

#[test]
fn too_small_buffer_is_reported_and_untouched() {
    let (result, out) = rust(b"https://example.com", 19);

    assert_eq!(result, BM_ERR_BUFFER_TOO_SMALL);
    assert_eq!(out, [0u8; 64]);
}
