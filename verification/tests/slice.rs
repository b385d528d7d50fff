use rep_ops::{LengthMismatch, SliceExt};

#[test]
fn test_fill() {
    let a = &mut [0_u8; 5];
    a.inline_fill(42);
    assert_eq!(a, &[42_u8; 5])
}

#[test]
fn test_position() {
    let a = &[1_u8, 2, 3, 4, 5];
    assert_eq!(a.inline_position(1), Some(0));
    assert_eq!(a.inline_position(2), Some(1));
    assert_eq!(a.inline_position(5), Some(4));
    assert_eq!(a.inline_position(6), None);
}

#[test]
#[should_panic(expected = "length mismatch")]
fn test_copy_from_panic() {
    let a = &mut [0_u8; 3];
    let b = &[1, 2, 3, 4];
    a.inline_copy_from(b).expect("length mismatch");
}

#[test]
fn test_copy_from() {
    let a = &mut [0_u8; 5];
    let b = &[1, 2, 3, 4, 5];
    assert_eq!(a.inline_copy_from(b), Ok(()));
    assert_eq!(a, b)
}

#[test]
#[should_panic(expected = "length mismatch")]
fn test_mismatch_panic() {
    let a = &mut [1_u8, 2, 3];
    let b = &[1_u8, 2];
    a.inline_mismatch(b).expect("length mismatch");
}

#[test]
fn test_mismatch() {
    let empty: [u8; 0] = [];
    assert_eq!(empty.inline_mismatch(&empty), Ok(None));
    assert_eq!([1_u8, 2, 3].inline_mismatch(&[1_u8, 2, 3]), Ok(None));
    assert_eq!([1_u8, 2, 3].inline_mismatch(&[2_u8, 2, 3]), Ok(Some(0)));
    assert_eq!([1_u8, 2, 3].inline_mismatch(&[1_u8, 5, 6]), Ok(Some(1)));
    assert_eq!([1_u8, 2, 3].inline_mismatch(&[1_u8, 2, 4]), Ok(Some(2)));
}

#[test]
fn copy_from_reports_both_lengths_and_writes_nothing() {
    let a = &mut [7_u8, 8, 9];
    let b = &[1_u8, 2, 3, 4];
    assert_eq!(
        a.inline_copy_from(b),
        Err(LengthMismatch { len: 3, other_len: 4 })
    );
    assert_eq!(a, &[7_u8, 8, 9]);
    let short = &[1_u8, 2];
    assert_eq!(
        a.inline_copy_from(short),
        Err(LengthMismatch { len: 3, other_len: 2 })
    );
    assert_eq!(a, &[7_u8, 8, 9]);
}

#[test]
fn mismatch_reports_both_lengths() {
    let a = [1_u8, 2, 3];
    assert_eq!(
        a.inline_mismatch(&[1_u8, 2]),
        Err(LengthMismatch { len: 3, other_len: 2 })
    );
    assert_eq!(
        a.inline_mismatch(&[9_u8, 9, 9, 9]),
        Err(LengthMismatch { len: 3, other_len: 4 })
    );
    let empty: [u8; 0] = [];
    assert_eq!(
        empty.inline_mismatch(&[1_u8]),
        Err(LengthMismatch { len: 0, other_len: 1 })
    );
}

#[test]
fn copy_from_sixteen_bit_into_zeroed_destination() {
    let src = [1_u16, 2, 3, 4, 5];
    let mut dst = [0_u16; 5];
    assert_eq!(dst.inline_copy_from(&src), Ok(()));
    assert_eq!(dst, [1_u16, 2, 3, 4, 5]);
}

#[test]
fn copy_from_on_empty_slices() {
    let src: [i64; 0] = [];
    let mut dst: [i64; 0] = [];
    assert_eq!(dst.inline_copy_from(&src), Ok(()));
}

#[test]
fn fill_on_empty_slice_and_position_in_it() {
    let mut a: [u32; 0] = [];
    a.inline_fill(9);
    assert_eq!(a.inline_position(9), None);
}

#[test]
fn fill_then_position_finds_index_zero() {
    let mut a = [0_i128; 6];
    a.inline_fill(-3);
    assert_eq!(a, [-3_i128; 6]);
    assert_eq!(a.inline_position(-3), Some(0));
    assert_eq!(a.inline_position(3), None);
}
