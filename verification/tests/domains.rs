use binary_search::{binary_search_range, SearchDomain};

#[test]
fn one_is_one_in_every_integer_type() {
    assert_eq!(<u8 as SearchDomain>::one(), 1u8);
    assert_eq!(<u16 as SearchDomain>::one(), 1u16);
    assert_eq!(<u32 as SearchDomain>::one(), 1u32);
    assert_eq!(<u128 as SearchDomain>::one(), 1u128);
    assert_eq!(<i8 as SearchDomain>::one(), 1i8);
    assert_eq!(<i16 as SearchDomain>::one(), 1i16);
    assert_eq!(<i32 as SearchDomain>::one(), 1i32);
    assert_eq!(<i64 as SearchDomain>::one(), 1i64);
    assert_eq!(<i128 as SearchDomain>::one(), 1i128);
    assert_eq!(<isize as SearchDomain>::one(), 1isize);
}

#[test]
fn from_u64_keeps_what_fits_in_an_unsigned_type() {
    assert_eq!(<u8 as SearchDomain>::from_u64(2), Some(2u8));
    assert_eq!(<u8 as SearchDomain>::from_u64(255), Some(255u8));
    assert_eq!(<u8 as SearchDomain>::from_u64(256), None);
    assert_eq!(<u16 as SearchDomain>::from_u64(2), Some(2u16));
    assert_eq!(<u16 as SearchDomain>::from_u64(65535), Some(65535u16));
    assert_eq!(<u16 as SearchDomain>::from_u64(65536), None);
    assert_eq!(<u32 as SearchDomain>::from_u64(2), Some(2u32));
    assert_eq!(<u32 as SearchDomain>::from_u64(4294967295), Some(4294967295u32));
    assert_eq!(<u32 as SearchDomain>::from_u64(4294967296), None);
    assert_eq!(<u128 as SearchDomain>::from_u64(2), Some(2u128));
    assert_eq!(
        <u128 as SearchDomain>::from_u64(u64::MAX),
        Some(18446744073709551615u128)
    );
}

#[test]
fn from_u64_keeps_what_fits_in_a_signed_type() {
    assert_eq!(<i8 as SearchDomain>::from_u64(2), Some(2i8));
    assert_eq!(<i8 as SearchDomain>::from_u64(127), Some(127i8));
    assert_eq!(<i8 as SearchDomain>::from_u64(128), None);
    assert_eq!(<i16 as SearchDomain>::from_u64(2), Some(2i16));
    assert_eq!(<i16 as SearchDomain>::from_u64(32767), Some(32767i16));
    assert_eq!(<i16 as SearchDomain>::from_u64(32768), None);
    assert_eq!(<i32 as SearchDomain>::from_u64(2), Some(2i32));
    assert_eq!(<i32 as SearchDomain>::from_u64(2147483647), Some(2147483647i32));
    assert_eq!(<i32 as SearchDomain>::from_u64(2147483648), None);
    assert_eq!(<i64 as SearchDomain>::from_u64(2), Some(2i64));
    assert_eq!(
        <i64 as SearchDomain>::from_u64(9223372036854775807),
        Some(i64::MAX)
    );
    assert_eq!(<i64 as SearchDomain>::from_u64(9223372036854775808), None);
    assert_eq!(<i128 as SearchDomain>::from_u64(2), Some(2i128));
    assert_eq!(
        <i128 as SearchDomain>::from_u64(u64::MAX),
        Some(18446744073709551615i128)
    );
    assert_eq!(<isize as SearchDomain>::from_u64(2), Some(2isize));
    assert_eq!(<isize as SearchDomain>::from_u64(u64::MAX), None);
}

#[test]
fn signed_arithmetic_is_the_integers() {
    assert_eq!((-7i64).plus(5), -2);
    assert_eq!((-7i64).minus(5), -12);
    assert_eq!(7i64.divided_by(2), 3);
    assert!((-7i64).less_than(-5));
    assert!(!(-5i64).less_than(-7));
    assert_eq!((-7i8).plus(5), -2);
    assert_eq!(100i16.minus(-100), 200);
    assert_eq!(9i32.divided_by(2), 4);
    assert_eq!(9i128.divided_by(4), 2);
    assert!((-1isize).less_than(0));
}

#[test]
fn range_search_over_a_range_that_starts_below_zero() {
    assert_eq!(binary_search_range(-5i64, 5i64, |x| x < 0), Some(-1));
    assert_eq!(binary_search_range(-5i64, 5i64, |x| x < -5), None);
    assert_eq!(binary_search_range(-5i64, 5i64, |x| x <= -5), Some(-5));
    assert_eq!(binary_search_range(-5i64, 5i64, |_| true), Some(4));
    assert_eq!(binary_search_range(-100i8, 27i8, |x| x < -3), Some(-4));
    assert_eq!(binary_search_range(-9i32, -2i32, |x| x * x >= 25), Some(-5));
    assert_eq!(binary_search_range(-3isize, 3isize, |x| x < 2), Some(1));
    assert_eq!(binary_search_range(-8i16, 8i16, |x| x < 8), Some(7));
    assert_eq!(
        binary_search_range(-1000i128, 1000i128, |x| x * 3 < 100),
        Some(33)
    );
}

#[test]
fn range_search_over_the_small_unsigned_types() {
    assert_eq!(binary_search_range(0u8, 255u8, |x| x < 200), Some(199));
    assert_eq!(binary_search_range(0u8, 255u8, |_| true), Some(254));
    assert_eq!(binary_search_range(10u16, 60000u16, |x| x < 12345), Some(12344));
    assert_eq!(binary_search_range(0u32, u32::MAX, |x| x <= 7), Some(7));
    assert_eq!(
        binary_search_range(0u128, u128::MAX, |x| x < (1u128 << 100)),
        Some((1u128 << 100) - 1)
    );
}
