//! Tests of the helpers for big-endian integers and byte ranges.

use rustgres::bytes::{
    append_bytes, append_terminated, copy_range, i32_from_be_bytes, i32_to_be_bytes, same_bytes,
    slice_to_array,
};

#[test]
fn integers_are_read_most_significant_byte_first() {
    assert_eq!(i32_from_be_bytes([0, 0, 0, 0]), 0);
    assert_eq!(i32_from_be_bytes([0, 0, 0, 0x56]), 86);
    assert_eq!(i32_from_be_bytes([0, 3, 0, 0]), 196608);
    assert_eq!(i32_from_be_bytes([0x7f, 0xff, 0xff, 0xff]), i32::MAX);
    assert_eq!(i32_from_be_bytes([0x80, 0, 0, 0]), i32::MIN);
    assert_eq!(i32_from_be_bytes([0xff, 0xff, 0xff, 0xff]), -1);
    assert_eq!(i32_from_be_bytes([0x12, 0x34, 0x56, 0x78]), 0x12345678);
}

#[test]
fn integers_are_written_most_significant_byte_first() {
    assert_eq!(i32_to_be_bytes(0), [0, 0, 0, 0]);
    assert_eq!(i32_to_be_bytes(8), [0, 0, 0, 8]);
    assert_eq!(i32_to_be_bytes(196608), [0, 3, 0, 0]);
    assert_eq!(i32_to_be_bytes(i32::MAX), [0x7f, 0xff, 0xff, 0xff]);
    assert_eq!(i32_to_be_bytes(i32::MIN), [0x80, 0, 0, 0]);
    assert_eq!(i32_to_be_bytes(-1), [0xff, 0xff, 0xff, 0xff]);
    assert_eq!(i32_to_be_bytes(-2), [0xff, 0xff, 0xff, 0xfe]);
}

#[test]
fn written_integers_are_read_back() {
    for v in [0, 1, -1, 255, 256, 65535, 65536, 10000, -10000, i32::MAX, i32::MIN] {
        assert_eq!(i32_from_be_bytes(i32_to_be_bytes(v)), v);
        assert_eq!(i32_to_be_bytes(v), v.to_be_bytes());
    }
}

#[test]
fn slice_of_four_becomes_an_array() {
    let bytes = vec![9u8, 8, 7, 6, 5];
    assert_eq!(slice_to_array(&bytes[1..5]), [8, 7, 6, 5]);
}

#[test]
fn range_is_copied() {
    let bytes = vec![1u8, 2, 3, 4, 5];
    assert_eq!(copy_range(&bytes, 1, 4), vec![2, 3, 4]);
    assert_eq!(copy_range(&bytes, 0, 5), bytes);
    assert_eq!(copy_range(&bytes, 2, 2), Vec::<u8>::new());
    assert_eq!(copy_range(&bytes, 5, 5), Vec::<u8>::new());
}

#[test]
fn bytes_are_appended() {
    let mut buffer = vec![1u8];
    append_bytes(&mut buffer, &[2, 3]);
    append_bytes(&mut buffer, &[]);
    assert_eq!(buffer, vec![1, 2, 3]);
    append_terminated(&mut buffer, "ab");
    assert_eq!(buffer, vec![1, 2, 3, b'a', b'b', 0]);
    append_terminated(&mut buffer, "");
    assert_eq!(buffer, vec![1, 2, 3, b'a', b'b', 0, 0]);
    append_terminated(&mut buffer, "\u{e9}");
    assert_eq!(buffer, vec![1, 2, 3, b'a', b'b', 0, 0, 0xc3, 0xa9, 0]);
}

#[test]
fn bytes_are_compared_one_by_one() {
    assert!(same_bytes(b"", b""));
    assert!(same_bytes(b"secret", b"secret"));
    assert!(!same_bytes(b"secret", b"secreT"));
    assert!(!same_bytes(b"secret", b"secre"));
    assert!(!same_bytes(b"", b"a"));
    assert!(!same_bytes(b"Xecret", b"secret"));
}
