use rep_ops::{rep_cmps, rep_movs, rep_scas, rep_stos, Binary32, Binary64};

#[test]
fn copy_then_compare_finds_no_mismatch() {
    for n in 0..9_usize {
        let src: Vec<u32> = (0..n).map(|i| (i * 7 + 1) as u32).collect();
        let mut dst = vec![0_u32; n];
        rep_movs(&src, &mut dst, n);
        assert_eq!(dst, src);
        assert_eq!(rep_cmps(&src, &dst, n), None);
        assert_eq!(rep_cmps(&dst, &src, n), None);
    }
}

#[test]
fn copy_then_compare_for_each_integer_width() {
    let a8 = [i8::MIN, -1, 0, 1, i8::MAX];
    let mut d8 = [0_i8; 5];
    rep_movs(&a8, &mut d8, 5);
    assert_eq!(rep_cmps(&a8, &d8, 5), None);

    let a16 = [u16::MAX, 0, 0x8000];
    let mut d16 = [0_u16; 3];
    rep_movs(&a16, &mut d16, 3);
    assert_eq!(rep_cmps(&a16, &d16, 3), None);

    let a64 = [u64::MAX, 1, 0x8000_0000_0000_0000];
    let mut d64 = [0_u64; 3];
    rep_movs(&a64, &mut d64, 3);
    assert_eq!(rep_cmps(&a64, &d64, 3), None);

    let a128 = [i128::MIN, -1, i128::MAX, 1 << 64];
    let mut d128 = [0_i128; 4];
    rep_movs(&a128, &mut d128, 4);
    assert_eq!(rep_cmps(&a128, &d128, 4), None);
}

#[test]
fn copy_leaves_the_rest_of_the_destination() {
    let src = [1_u8, 2, 3, 4, 5];
    let mut dst = [9_u8; 5];
    rep_movs(&src, &mut dst, 3);
    assert_eq!(dst, [1, 2, 3, 9, 9]);
    rep_movs(&src, &mut dst, 0);
    assert_eq!(dst, [1, 2, 3, 9, 9]);
}

#[test]
fn fill_leaves_the_rest_of_the_destination() {
    let mut dst = [9_i16; 5];
    rep_stos(-4_i16, &mut dst, 2);
    assert_eq!(dst, [-4, -4, 9, 9, 9]);
    rep_stos(7_i16, &mut dst, 0);
    assert_eq!(dst, [-4, -4, 9, 9, 9]);
}

#[test]
fn fill_then_scan_finds_index_zero() {
    for n in 0..6_usize {
        let mut region = vec![0_u64; n];
        rep_stos(42_u64, &mut region, n);
        let expected = if n > 0 { Some(0) } else { None };
        assert_eq!(rep_scas(&region, 42_u64, n), expected);
    }
}

#[test]
fn regions_filled_alike_do_not_differ() {
    for n in 0..6_usize {
        let mut a = vec![1_i32; n];
        let mut b = vec![2_i32; n];
        rep_stos(-17_i32, &mut a, n);
        rep_stos(-17_i32, &mut b, n);
        assert_eq!(rep_cmps(&a, &b, n), None);
    }
}

#[test]
fn empty_regions_have_no_mismatch_and_no_occurrence() {
    assert_eq!(rep_cmps::<u8>(&[], &[], 0), None);
    assert_eq!(rep_cmps(&[1_u32, 2], &[3_u32, 4], 0), None);
    assert_eq!(rep_scas::<i64>(&[], 0, 0), None);
    assert_eq!(rep_scas(&[5_u16, 5], 5, 0), None);
}

#[test]
fn compare_reports_every_first_difference() {
    let n = 7_usize;
    let a: Vec<u16> = (0..n).map(|i| i as u16).collect();
    for k in 0..n {
        let mut b = a.clone();
        b[k] = 100;
        assert_eq!(rep_cmps(&a, &b, n), Some(k));
        for later in k + 1..n {
            b[later] = 200;
        }
        assert_eq!(rep_cmps(&a, &b, n), Some(k));
    }
}

#[test]
fn compare_sees_only_the_region() {
    let a = [1_u8, 2, 3, 4];
    let b = [1_u8, 2, 9, 4];
    assert_eq!(rep_cmps(&a, &b, 2), None);
    assert_eq!(rep_cmps(&a, &b, 3), Some(2));
    assert_eq!(rep_cmps(&a, &b, 4), Some(2));
}

#[test]
fn scan_reports_the_first_of_several_occurrences() {
    let src = [3_u32, 1, 4, 1, 5, 9, 2, 6, 5, 3, 5];
    assert_eq!(rep_scas(&src, 1, src.len()), Some(1));
    assert_eq!(rep_scas(&src, 5, src.len()), Some(4));
    assert_eq!(rep_scas(&src, 3, src.len()), Some(0));
    assert_eq!(rep_scas(&src, 6, src.len()), Some(7));
    assert_eq!(rep_scas(&src, 7, src.len()), None);
}

#[test]
fn scan_sees_only_the_region() {
    let src = [3_u32, 1, 4, 1, 5];
    assert_eq!(rep_scas(&src, 5, 4), None);
    assert_eq!(rep_scas(&src, 5, 5), Some(4));
    assert_eq!(rep_scas(&src, 4, 2), None);
}

#[test]
fn compare_tells_signed_zeros_apart() {
    let a = [Binary32::from_bits(1.5_f32.to_bits()), Binary32::from_bits(0.0_f32.to_bits())];
    let b = [Binary32::from_bits(1.5_f32.to_bits()), Binary32::from_bits((-0.0_f32).to_bits())];
    assert_eq!(0.0_f32, -0.0_f32);
    assert_eq!(rep_cmps(&a, &b, 2), Some(1));

    let c = [Binary64::from_bits(0.0_f64.to_bits())];
    let d = [Binary64::from_bits((-0.0_f64).to_bits())];
    assert_eq!(rep_cmps(&c, &d, 1), Some(0));
    assert_eq!(rep_scas(&c, d[0], 1), None);
}

#[test]
fn compare_matches_nans_of_one_bit_pattern() {
    let nan = f32::NAN;
    assert_ne!(nan, nan);
    let a = [Binary32::from_bits(nan.to_bits()), Binary32::from_bits(2.0_f32.to_bits())];
    let b = [Binary32::from_bits(nan.to_bits()), Binary32::from_bits(2.0_f32.to_bits())];
    assert_eq!(rep_cmps(&a, &b, 2), None);
    assert_eq!(rep_scas(&a, Binary32::from_bits(nan.to_bits()), 2), Some(0));

    let other_nan = Binary32::from_bits(nan.to_bits() ^ 1);
    assert_eq!(rep_cmps(&a, &[other_nan, b[1]], 2), Some(0));

    let wide = [Binary64::from_bits(f64::NAN.to_bits())];
    assert_eq!(rep_cmps(&wide, &wide, 1), None);
}
