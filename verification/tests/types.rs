use rep_ops::{Binary32, Binary64, RegisterType};

#[test]
fn widths_are_the_sizes_of_the_types() {
    assert_eq!(<u8 as RegisterType>::width(), 1);
    assert_eq!(<i8 as RegisterType>::width(), 1);
    assert_eq!(<u16 as RegisterType>::width(), 2);
    assert_eq!(<i16 as RegisterType>::width(), 2);
    assert_eq!(<u32 as RegisterType>::width(), 4);
    assert_eq!(<i32 as RegisterType>::width(), 4);
    assert_eq!(<u64 as RegisterType>::width(), 8);
    assert_eq!(<i64 as RegisterType>::width(), 8);
    assert_eq!(<u128 as RegisterType>::width(), 16);
    assert_eq!(<i128 as RegisterType>::width(), 16);
    assert_eq!(<Binary32 as RegisterType>::width(), 4);
    assert_eq!(<Binary64 as RegisterType>::width(), 8);

    assert_eq!(<u8 as RegisterType>::width(), std::mem::size_of::<u8>());
    assert_eq!(<i16 as RegisterType>::width(), std::mem::size_of::<i16>());
    assert_eq!(<u32 as RegisterType>::width(), std::mem::size_of::<u32>());
    assert_eq!(<i64 as RegisterType>::width(), std::mem::size_of::<i64>());
    assert_eq!(<u128 as RegisterType>::width(), std::mem::size_of::<u128>());
    assert_eq!(<Binary32 as RegisterType>::width(), std::mem::size_of::<f32>());
    assert_eq!(<Binary64 as RegisterType>::width(), std::mem::size_of::<f64>());
}

#[test]
fn bitwise_eq_on_integers_is_equality() {
    assert!(0_u8.bitwise_eq(&0));
    assert!(!0_u8.bitwise_eq(&255));
    assert!((-1_i8).bitwise_eq(&-1));
    assert!(!(-1_i8).bitwise_eq(&1));
    assert!(i16::MIN.bitwise_eq(&i16::MIN));
    assert!(!i16::MIN.bitwise_eq(&i16::MAX));
    assert!(u16::MAX.bitwise_eq(&u16::MAX));
    assert!(7_i32.bitwise_eq(&7));
    assert!(!7_i32.bitwise_eq(&-7));
    assert!(u32::MAX.bitwise_eq(&u32::MAX));
    assert!(!u32::MAX.bitwise_eq(&0));
    assert!(i64::MIN.bitwise_eq(&i64::MIN));
    assert!(!1_u64.bitwise_eq(&(1 << 63)));
    assert!(u128::MAX.bitwise_eq(&u128::MAX));
    assert!(!(1_u128 << 64).bitwise_eq(&1));
    assert!(i128::MIN.bitwise_eq(&i128::MIN));
    assert!(!i128::MIN.bitwise_eq(&i128::MAX));
}

#[test]
fn bitwise_eq_on_floats_is_equality_of_bits() {
    let samples_32 = [
        0.0_f32,
        -0.0,
        1.0,
        -1.0,
        f32::MIN_POSITIVE,
        f32::MAX,
        f32::INFINITY,
        f32::NEG_INFINITY,
        f32::NAN,
        f32::from_bits(0x7fc0_0001),
        f32::from_bits(0xffc0_0000),
        f32::from_bits(1),
    ];
    for x in samples_32 {
        for y in samples_32 {
            let a = Binary32::from_bits(x.to_bits());
            let b = Binary32::from_bits(y.to_bits());
            assert_eq!(a.bitwise_eq(&b), x.to_bits() == y.to_bits());
        }
    }
    let samples_64 = [
        0.0_f64,
        -0.0,
        1.0,
        -1.0,
        f64::MIN_POSITIVE,
        f64::MAX,
        f64::INFINITY,
        f64::NEG_INFINITY,
        f64::NAN,
        f64::from_bits(0x7ff8_0000_0000_0001),
        f64::from_bits(0xfff8_0000_0000_0000),
        f64::from_bits(1),
    ];
    for x in samples_64 {
        for y in samples_64 {
            let a = Binary64::from_bits(x.to_bits());
            let b = Binary64::from_bits(y.to_bits());
            assert_eq!(a.bitwise_eq(&b), x.to_bits() == y.to_bits());
        }
    }
}
