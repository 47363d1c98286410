use bm_core::lints::{BMDb, bm_default_db, copy_bytes, first_byte, pointer_casts, second_byte, status};

#[test]
fn reads_the_second_byte() {
    let bytes = b"ab";

    assert_eq!(second_byte(bytes), b'b');
}

#[test]
fn the_public_api_is_still_there() {
    // Naming the items is the assertion: this file does not compile if one
    // of them is missing.
    let _items = (copy_bytes, first_byte, pointer_casts, second_byte, status);
}

#[test]
fn reads_the_first_byte() {
    assert_eq!(first_byte(b"xy"), b'x');
}

#[test]
fn copy_bytes_hands_the_buffer_back() {
    let mut bytes = *b"abc";
    let same = copy_bytes(&mut bytes);
    same[0] = b'z';
    assert_eq!(&bytes, b"zbc");
}

#[test]
fn the_default_db_is_zero_and_the_no_ops_return() {
    let db: BMDb = bm_default_db();
    assert_eq!(db.value, 0);
    status();
    pointer_casts(&[0, 0, 0, 0]);
    bm_core::lints::bm_normalize_url();
}
