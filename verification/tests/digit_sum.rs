use m61_modulus::definition::MODULUS;
use m61_modulus::digit_sum::fold;
use m61_modulus::digit_sum::MAX_SHIFT;
use m61_modulus::digits::Digit;

#[test]
fn a_step_adds_the_digit_sum_and_the_rotated_accumulator() {
    assert_eq!(MAX_SHIFT, 512 % 61);
    assert_eq!(fold(0, 0, 3), 0);
    assert_eq!(fold(0, 5, 3), 5);
    // 2^61 counts as 1
    assert_eq!(fold(0, 1 << 61, 3), 1);
    assert_eq!(fold(0, u64::MAX, 3), MODULUS + 7);
    // the accumulator weighs 2^3, 2^6, 2^12 or 2^24
    assert_eq!(fold(1, 0, 3), 8);
    assert_eq!(fold(1, 0, 6), 64);
    assert_eq!(fold(1, 0, 12), 4096);
    assert_eq!(fold(1, 0, 24), 1 << 24);
    // bit 58 of the accumulator moves to bit 61, which counts as bit 0
    assert_eq!(fold(1 << 58, 5, 3), 6);
    assert_eq!(fold(1 << 55, 0, 6), 1);
    assert_eq!(fold(1 << 49, 0, 12), 1);
    assert_eq!(fold(1 << 37, 0, 24), 1);
    assert_eq!(fold((1 << 58) | 3, 1, 3), 1 + 24 + 1);
    assert_eq!(
        fold(u64::MAX, u64::MAX, 3),
        (MODULUS + 7) + ((MODULUS >> 3) << 3) + 63
    );
}

#[test]
fn a_step_is_congruent_to_the_method_of_horner() {
    let m = MODULUS as u128;
    let samples = [0u64, 1, 7, 1 << 58, (1 << 61) - 1, 1 << 61, 0xdead_beef_0bad_cafe, u64::MAX];
    for (r, w) in [(3u32, 64u32), (6, 128), (12, 256), (24, 512)] {
        assert_eq!(w % 61, r);
        for hi in samples {
            for lo in samples {
                let expected = ((lo as u128 % m) + ((1u128 << r) * (hi as u128 % m)) % m) % m;
                assert_eq!(fold(hi, lo, r) as u128 % m, expected);
                assert!(fold(hi, lo, r) < 3 * MODULUS);
            }
        }
    }
}

#[test]
fn digits_know_their_width() {
    assert_eq!(<u8 as Digit>::width(), 8);
    assert_eq!(<u16 as Digit>::width(), 16);
    assert_eq!(<u32 as Digit>::width(), 32);
    assert_eq!(<u64 as Digit>::width(), 64);
    assert_eq!(<usize as Digit>::width(), usize::BITS);
    assert_eq!(200u8.widen(), 200);
    assert_eq!(u16::MAX.widen(), 65535);
    assert_eq!(u32::MAX.widen(), 4294967295);
    assert_eq!(u64::MAX.widen(), u64::MAX);
    assert_eq!(77usize.widen(), 77);
}
