use integer_unpack::{unpack, Unpack, UnsignedInt};

#[test]
fn digits_of_u8() {
    let mut it = 0xA5u8.unpack(4, 5);
    assert_eq!(it.size_hint(), (5, Some(5)));
    assert_eq!(it.next(), Some(1));
    assert_eq!(it.size_hint(), (4, Some(4)));
    assert_eq!(it.collect(), vec![1, 2, 2, 0]);
    assert_eq!(it.size_hint(), (0, Some(0)));
}

#[test]
fn digits_of_u16() {
    let mut it = 0xBEEFu16.unpack(16, 5);
    assert_eq!(it.size_hint(), (5, Some(5)));
    assert_eq!(it.next(), Some(0xF));
    assert_eq!(it.size_hint(), (4, Some(4)));
    assert_eq!(it.collect(), vec![0xE, 0xE, 0xB, 0]);
    assert_eq!(it.size_hint(), (0, Some(0)));
}

#[test]
fn digits_of_u32() {
    let mut it = 4_000_000_123u32.unpack(1000, 5);
    assert_eq!(it.size_hint(), (5, Some(5)));
    assert_eq!(it.next(), Some(123));
    assert_eq!(it.size_hint(), (4, Some(4)));
    assert_eq!(it.collect(), vec![0, 0, 4, 0]);
    assert_eq!(it.size_hint(), (0, Some(0)));
}

#[test]
fn digits_of_u64() {
    let mut it = u64::MAX.unpack(1 << 32, 3);
    assert_eq!(it.size_hint(), (3, Some(3)));
    assert_eq!(it.next(), Some(0xFFFF_FFFF));
    assert_eq!(it.size_hint(), (2, Some(2)));
    assert_eq!(it.collect(), vec![0xFFFF_FFFF, 0]);
    assert_eq!(it.size_hint(), (0, Some(0)));
}

#[test]
fn digits_of_u128() {
    let mut it = u128::MAX.unpack(1 << 64, 3);
    assert_eq!(it.size_hint(), (3, Some(3)));
    assert_eq!(it.next(), Some(u64::MAX as u128));
    assert_eq!(it.size_hint(), (2, Some(2)));
    assert_eq!(it.collect(), vec![u64::MAX as u128, 0]);
    assert_eq!(it.size_hint(), (0, Some(0)));
}

#[test]
fn digits_of_usize() {
    let mut it = 54_321usize.unpack(10, 6);
    assert_eq!(it.size_hint(), (6, Some(6)));
    assert_eq!(it.next(), Some(1));
    assert_eq!(it.size_hint(), (5, Some(5)));
    assert_eq!(it.collect(), vec![2, 3, 4, 5, 0]);
    assert_eq!(it.size_hint(), (0, Some(0)));
}

#[test]
fn length_at_the_limit_of_the_type() {
    let mut it = unpack(0xFFu8, 2, 255);
    assert_eq!(it.count(), 255);
    assert_eq!(it.next(), None);
    let mut it = unpack(0xFFu8, 2, 255);
    let digits = it.collect();
    assert_eq!(digits.len(), 255);
    assert_eq!(&digits[..9], &[1, 1, 1, 1, 1, 1, 1, 1, 0]);
}

#[test]
fn zero_and_one_of_each_width() {
    assert_eq!(<u8 as UnsignedInt>::zero_value(), 0);
    assert_eq!(<u16 as UnsignedInt>::zero_value(), 0);
    assert_eq!(<u32 as UnsignedInt>::zero_value(), 0);
    assert_eq!(<u64 as UnsignedInt>::zero_value(), 0);
    assert_eq!(<u128 as UnsignedInt>::zero_value(), 0);
    assert_eq!(<usize as UnsignedInt>::zero_value(), 0);
    assert_eq!(<u8 as UnsignedInt>::one_value(), 1);
    assert_eq!(<u16 as UnsignedInt>::one_value(), 1);
    assert_eq!(<u32 as UnsignedInt>::one_value(), 1);
    assert_eq!(<u64 as UnsignedInt>::one_value(), 1);
    assert_eq!(<u128 as UnsignedInt>::one_value(), 1);
    assert_eq!(<usize as UnsignedInt>::one_value(), 1);
}

#[test]
fn conversion_to_usize_of_each_width() {
    assert_eq!(200u8.try_to_usize(), Some(200));
    assert_eq!(60_000u16.try_to_usize(), Some(60_000));
    assert_eq!(u32::MAX.try_to_usize(), Some(u32::MAX as usize));
    assert_eq!(77u64.try_to_usize(), Some(77));
    assert_eq!(77u128.try_to_usize(), Some(77));
    assert_eq!(usize::MAX.try_to_usize(), Some(usize::MAX));
    assert_eq!((usize::MAX as u128).try_to_usize(), Some(usize::MAX));
    assert_eq!((usize::MAX as u128 + 1).try_to_usize(), None);
    assert_eq!(u128::MAX.try_to_usize(), None);
    if (usize::MAX as u64) < u64::MAX {
        assert_eq!(u64::MAX.try_to_usize(), None);
    } else {
        assert_eq!(u64::MAX.try_to_usize(), Some(usize::MAX));
    }
}

#[test]
fn arithmetic_of_each_width() {
    assert_eq!(UnsignedInt::plus(200u8, 55), 255);
    assert_eq!(UnsignedInt::minus(200u8, 55), 145);
    assert_eq!(UnsignedInt::quotient(200u8, 7), 28);
    assert_eq!(UnsignedInt::remainder(200u8, 7), 4);
    assert_eq!(UnsignedInt::plus(60_000u16, 5_535), 65_535);
    assert_eq!(UnsignedInt::minus(60_000u16, 1), 59_999);
    assert_eq!(UnsignedInt::quotient(60_000u16, 7), 8_571);
    assert_eq!(UnsignedInt::remainder(60_000u16, 7), 3);
    assert_eq!(UnsignedInt::plus(4_000_000_000u32, 294_967_295), u32::MAX);
    assert_eq!(UnsignedInt::minus(4_000_000_000u32, 4_000_000_000), 0);
    assert_eq!(UnsignedInt::quotient(4_000_000_000u32, 3), 1_333_333_333);
    assert_eq!(UnsignedInt::remainder(4_000_000_000u32, 3), 1);
    assert_eq!(UnsignedInt::plus(1u64 << 63, (1 << 63) - 1), u64::MAX);
    assert_eq!(UnsignedInt::minus(u64::MAX, 1 << 63), (1 << 63) - 1);
    assert_eq!(UnsignedInt::quotient(u64::MAX, 1 << 32), 0xFFFF_FFFF);
    assert_eq!(UnsignedInt::remainder(u64::MAX, 1 << 32), 0xFFFF_FFFF);
    assert_eq!(UnsignedInt::plus(1u128 << 127, (1 << 127) - 1), u128::MAX);
    assert_eq!(UnsignedInt::minus(u128::MAX, 1 << 127), (1 << 127) - 1);
    assert_eq!(UnsignedInt::quotient(u128::MAX, 1 << 64), u64::MAX as u128);
    assert_eq!(UnsignedInt::remainder(u128::MAX, 1 << 64), u64::MAX as u128);
    assert_eq!(UnsignedInt::plus(40usize, 2), 42);
    assert_eq!(UnsignedInt::minus(40usize, 2), 38);
    assert_eq!(UnsignedInt::quotient(40usize, 6), 6);
    assert_eq!(UnsignedInt::remainder(40usize, 6), 4);
}

#[test]
fn comparison_of_each_width() {
    assert!(UnsignedInt::less_than(1u8, 2));
    assert!(!UnsignedInt::less_than(2u8, 2));
    assert!(!UnsignedInt::less_than(3u8, 2));
    assert!(UnsignedInt::less_than(0u16, u16::MAX));
    assert!(!UnsignedInt::less_than(u16::MAX, 0));
    assert!(UnsignedInt::less_than(0u32, u32::MAX));
    assert!(!UnsignedInt::less_than(u32::MAX, u32::MAX));
    assert!(UnsignedInt::less_than(0u64, u64::MAX));
    assert!(!UnsignedInt::less_than(u64::MAX, 0));
    assert!(UnsignedInt::less_than(0u128, u128::MAX));
    assert!(!UnsignedInt::less_than(u128::MAX, 0));
    assert!(UnsignedInt::less_than(0usize, usize::MAX));
    assert!(!UnsignedInt::less_than(usize::MAX, usize::MAX));
}
