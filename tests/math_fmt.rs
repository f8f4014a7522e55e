use mario::fmt::{to_dec_u16, to_dec_u32};
use mario::math::{div10_u16, div10_u32, divisible_by_num, mod_mask_u32, Powers};

#[test]
fn div10_matches_division() {
    for n in (0..2_000_000u32).step_by(7) {
        assert_eq!(div10_u32(n), (n / 10, n % 10));
    }
    assert_eq!(div10_u32(u32::MAX), (429_496_729, 5));
    for n in 0..=u16::MAX {
        assert_eq!(div10_u16(n), (n / 10, n % 10));
    }
}

#[test]
fn powers_and_masks() {
    assert_eq!(Powers::_2.as_u16(), 1);
    assert_eq!(Powers::_1024.as_u16(), 10);
    assert_eq!(mod_mask_u32(37, Powers::_32), 5);
    assert_eq!(mod_mask_u32(255, Powers::_256), 255);
    assert_eq!(mod_mask_u32(7, Powers::_2), 1);
    assert!(divisible_by_num(48, Powers::_16));
    assert!(!divisible_by_num(40, Powers::_16));
    assert!(divisible_by_num(0, Powers::_1024));
    assert!(divisible_by_num(1024, Powers::_1024));
}

#[test]
fn decimal_digits_padded_and_truncated() {
    assert_eq!(to_dec_u32::<6>(1234), *b"001234");
    assert_eq!(to_dec_u32::<6>(0), *b"000000");
    assert_eq!(to_dec_u32::<3>(98765), *b"765");
    assert_eq!(to_dec_u32::<10>(u32::MAX), *b"4294967295");
    assert_eq!(to_dec_u16::<3>(400).as_bytes(), *b"400");
    assert_eq!(to_dec_u16::<5>(7).as_bytes(), *b"00007");
    assert_eq!(to_dec_u16::<2>(65535).as_bytes(), *b"35");
}
