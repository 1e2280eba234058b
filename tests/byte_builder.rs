use arrow_array::{Array, BinaryArray};
use arrow_udf_bytes::byte_builder::{GenericByteBuilder, BuilderError};

fn offsets_of(a: &BinaryArray) -> Vec<i32> {
    a.value_offsets().to_vec()
}

fn validity_of(a: &BinaryArray) -> Vec<bool> {
    (0..a.len()).map(|i| a.is_valid(i)).collect()
}

#[test]
fn values_and_nulls_make_offsets_validity_and_bytes() {
    let mut b = GenericByteBuilder::new();
    assert_eq!(b.append_value(b"foo"), Ok(()));
    b.append_null();
    assert_eq!(b.append_value(b"ba"), Ok(()));
    let a = BinaryArray::from(b.finish());
    assert_eq!(offsets_of(&a), vec![0, 3, 3, 5]);
    assert_eq!(validity_of(&a), vec![true, false, true]);
    assert_eq!(a.value_data(), b"fooba");
    assert_eq!(a.value(0), b"foo");
    assert_eq!(a.value(2), b"ba");
}

#[test]
fn abandoned_writer_leaves_no_trace() {
    let mut b = GenericByteBuilder::with_capacity(4, 16);
    assert_eq!(b.append_value(b"x"), Ok(()));
    let before = b.len();
    let mut w = b.writer();
    assert_eq!(w.write(b"ab"), Ok(2));
    assert_eq!(w.write(b"c"), Ok(1));
    w.abandon();
    assert_eq!(b.len(), before);
    let a = BinaryArray::from(b.finish());
    assert_eq!(a.len(), 1);
    assert_eq!(a.value_data(), b"x");
    assert_eq!(offsets_of(&a), vec![0, 1]);
}

#[test]
fn committed_writer_adds_one_element() {
    let mut b = GenericByteBuilder::new();
    let mut w = b.writer();
    assert_eq!(w.write(b"xyz"), Ok(3));
    assert_eq!(w.finish(), Ok(()));
    let a = BinaryArray::from(b.finish());
    assert_eq!(a.len(), 1);
    assert!(a.is_valid(0));
    assert_eq!(a.value(0), b"xyz");
}

#[test]
fn pieces_are_joined_in_order() {
    let mut b = GenericByteBuilder::new();
    b.append_null();
    let mut w = b.writer();
    assert_eq!(w.write(b"he"), Ok(2));
    assert_eq!(w.write_str("ll"), Ok(()));
    assert_eq!(w.write(b""), Ok(0));
    assert_eq!(w.write_str("o\u{e9}"), Ok(()));
    assert_eq!(w.finish(), Ok(()));
    assert_eq!(b.len(), 2);
    let a = BinaryArray::from(b.finish());
    assert_eq!(offsets_of(&a), vec![0, 0, 7]);
    assert_eq!(validity_of(&a), vec![false, true]);
    assert_eq!(a.value(1), "hello\u{e9}".as_bytes());
}

#[test]
fn finish_resets_for_a_second_array() {
    let mut b = GenericByteBuilder::new();
    assert_eq!(b.append_value(b"first"), Ok(()));
    b.append_null();
    let first = BinaryArray::from(b.finish());
    assert_eq!(b.len(), 0);
    assert_eq!(b.append_value(b"2nd"), Ok(()));
    let second = BinaryArray::from(b.finish());
    assert_eq!(offsets_of(&first), vec![0, 5, 5]);
    assert_eq!(validity_of(&first), vec![true, false]);
    assert_eq!(first.value_data(), b"first");
    assert_eq!(offsets_of(&second), vec![0, 3]);
    assert_eq!(validity_of(&second), vec![true]);
    assert_eq!(second.value_data(), b"2nd");
    let third = BinaryArray::from(b.finish());
    assert_eq!(third.len(), 0);
    assert_eq!(offsets_of(&third), vec![0]);
}

#[test]
fn empty_values_are_present_not_null() {
    let mut b = GenericByteBuilder::with_capacity(0, 0);
    assert_eq!(b.append_value(b""), Ok(()));
    b.append_null();
    let mut w = b.writer();
    assert_eq!(w.finish(), Ok(()));
    let a = BinaryArray::from(b.finish());
    assert_eq!(offsets_of(&a), vec![0, 0, 0, 0]);
    assert_eq!(validity_of(&a), vec![true, false, true]);
    assert_eq!(a.value_data().len(), 0);
}

#[test]
fn abandon_after_commit_in_between_keeps_earlier_elements() {
    let mut b = GenericByteBuilder::new();
    let mut w = b.writer();
    assert_eq!(w.write(b"keep"), Ok(4));
    assert_eq!(w.finish(), Ok(()));
    let mut w = b.writer();
    assert_eq!(w.write(b"drop me"), Ok(7));
    w.abandon();
    assert_eq!(b.append_value(b"!"), Ok(()));
    let a = BinaryArray::from(b.finish());
    assert_eq!(offsets_of(&a), vec![0, 4, 5]);
    assert_eq!(a.value_data(), b"keep!");
}

#[test]
fn overflow_error_is_a_plain_value() {
    let e = BuilderError::OffsetOverflow;
    assert_eq!(e, BuilderError::OffsetOverflow);
    assert_eq!(format!("{:?}", e), "OffsetOverflow");
}

#[test]
fn capacity_hints_have_no_effect_on_content() {
    let mut b = GenericByteBuilder::with_capacity(usize::MAX, 3);
    assert_eq!(b.len(), 0);
    assert_eq!(b.append_value(b"abcdef"), Ok(()));
    b.append_null();
    b.append_null();
    assert_eq!(b.len(), 3);
    let a = BinaryArray::from(b.finish());
    assert_eq!(offsets_of(&a), vec![0, 6, 6, 6]);
    assert_eq!(validity_of(&a), vec![true, false, false]);
    assert_eq!(a.null_count(), 2);
}

#[test]
fn all_present_elements_have_no_nulls() {
    let mut b = GenericByteBuilder::new();
    assert_eq!(b.append_value(b"a"), Ok(()));
    assert_eq!(b.append_value(b"bc"), Ok(()));
    let a = BinaryArray::from(b.finish());
    assert_eq!(a.null_count(), 0);
    assert_eq!(offsets_of(&a), vec![0, 1, 3]);
    assert_eq!(a.value(1), b"bc");
}
