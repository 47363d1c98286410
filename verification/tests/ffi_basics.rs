use bm_core::arith::bm_add;
use bm_core::ffi_types::{Tag, bm_tag_describe};
use bm_core::shout::shout_result;
use bm_core::strlower::bm_strlower;

#[test]
fn lib_test_add() {
    assert_eq!(bm_add(2, 3), 5);
    assert_eq!(bm_add(0, 0), 0);
}

#[test]
fn adds_negative_numbers() {
    assert_eq!(bm_add(-7, 3), -4);
    assert_eq!(bm_add(i32::MAX, i32::MIN), -1);
}

#[test]
fn strlower_lowercases_up_to_the_terminator() {
    let mut s = b"HeLLo, World!\0ABC".to_vec();

    bm_strlower(Some(s.as_mut_slice()));

    assert_eq!(s, b"hello, world!\0ABC".to_vec());
}

#[test]
fn strlower_leaves_non_ascii_bytes_alone() {
    let mut s = vec![b'A', 0x80, 0xC3, b'Z', 0];

    bm_strlower(Some(s.as_mut_slice()));

    assert_eq!(s, vec![b'a', 0x80, 0xC3, b'z', 0]);
}

#[test]
fn strlower_without_terminator_lowercases_everything() {
    let mut s = b"ABC".to_vec();

    bm_strlower(Some(s.as_mut_slice()));

    assert_eq!(s, b"abc".to_vec());
}

#[test]
fn strlower_of_null_is_a_no_op() {
    bm_strlower(None);
}

#[test]
fn describing_a_tag_gives_its_name() {
    let tag = Tag { name: b"rust".to_vec() };

    assert_eq!(bm_tag_describe(tag), b"rust".to_vec());
}

#[test]
fn shout_result_reads_up_to_the_terminator() {
    let mut out = [0u8; 64];
    out[..9].copy_from_slice(b"RUST!\0abc");

    assert_eq!(shout_result(0, &out), Ok("RUST!".to_owned()));
}

#[test]
fn shout_result_passes_a_nonzero_status_through() {
    assert_eq!(shout_result(-2, b"RUST!\0"), Err(-2));
}

#[test]
fn shout_result_replaces_invalid_utf8() {
    assert_eq!(shout_result(0, &[b'R', 0xFF, 0]), Ok("R\u{FFFD}".to_owned()));
}

#[test]
fn strlower_twice_is_strlower_once() {
    let mut once = b"MiXeD\0TAIL".to_vec();
    bm_strlower(Some(once.as_mut_slice()));
    let mut twice = once.clone();
    bm_strlower(Some(twice.as_mut_slice()));

    assert_eq!(once, twice);
}
