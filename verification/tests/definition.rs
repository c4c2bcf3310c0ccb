use m61_modulus::definition::final_reduction;
use m61_modulus::definition::ArithmeticError;
use m61_modulus::definition::MODULUS;
use m61_modulus::M61;

/// `n` modulo `2^61 - 1`, by the remainder of the widest integer type.
fn reference(n: i128) -> u64 {
    n.rem_euclid(MODULUS as i128) as u64
}

#[test]
fn modulus_is_the_61st_mersenne_number() {
    assert_eq!(MODULUS, (1 << 61) - 1);
}

#[test]
fn get_returns_the_canonical_value() {
    assert_eq!(M61::from(5u8).get(), 5);
    assert_eq!(M61::default().get(), 0);
    for n in [0u64, 1, MODULUS - 1, MODULUS, MODULUS + 1, u64::MAX] {
        assert!(M61::from(n).get() < MODULUS);
    }
}

#[test]
fn final_reduction_subtracts_at_most_twice() {
    assert_eq!(final_reduction(0).get(), 0);
    assert_eq!(final_reduction(MODULUS - 1).get(), MODULUS - 1);
    assert_eq!(final_reduction(MODULUS).get(), 0);
    assert_eq!(final_reduction(2 * MODULUS - 1).get(), MODULUS - 1);
    assert_eq!(final_reduction(2 * MODULUS).get(), 0);
    assert_eq!(final_reduction(2 * MODULUS + 5).get(), 5);
    assert_eq!(final_reduction(3 * MODULUS - 1).get(), MODULUS - 1);
}

#[test]
fn two_to_61_is_one() {
    let x = M61::from(1u64 << 61);
    let y = M61::from(1u64);
    assert_eq!(x, y);
}

#[test]
fn addition() {
    assert_eq!((M61::from(5u8) + M61::from(7u8)).get(), 12);
    assert_eq!((M61::from(MODULUS - 1) + M61::from(1u8)).get(), 0);
    assert_eq!((M61::from(MODULUS - 1) + M61::from(MODULUS - 1)).get(), MODULUS - 2);
    assert_eq!((M61::from(5u8) + &M61::from(7u8)).get(), 12);
    let mut x = M61::from(MODULUS - 3);
    x += M61::from(5u8);
    assert_eq!(x.get(), 2);
    x += &M61::from(1u8);
    assert_eq!(x.get(), 3);
}

#[test]
fn subtraction() {
    assert_eq!((M61::from(7u8) - M61::from(5u8)).get(), 2);
    assert_eq!((M61::from(5u8) - M61::from(5u8)).get(), 0);
    assert_eq!((M61::from(0u8) - M61::from(1u8)).get(), MODULUS - 1);
    assert_eq!((M61::from(5u8) - M61::from(7u8)).get(), MODULUS - 2);
    assert_eq!((M61::from(MODULUS - 1) - M61::from(0u8)).get(), MODULUS - 1);
    assert_eq!((M61::from(7u8) - &M61::from(5u8)).get(), 2);
    let mut x = M61::from(1u8);
    x -= M61::from(2u8);
    assert_eq!(x.get(), MODULUS - 1);
    x -= &M61::from(MODULUS - 1);
    assert_eq!(x.get(), 0);
}

#[test]
fn multiplication() {
    assert_eq!((M61::from(6u8) * M61::from(7u8)).get(), 42);
    assert_eq!((M61::from(MODULUS - 1) * M61::from(MODULUS - 1)).get(), 1);
    assert_eq!((M61::from(1u64 << 60) * M61::from(2u8)).get(), 1);
    assert_eq!((M61::from(1u64 << 60) * M61::from(1u64 << 60)).get(), 1 << 59);
    assert_eq!((M61::from(0u8) * M61::from(MODULUS - 1)).get(), 0);
    assert_eq!((M61::from(6u8) * &M61::from(7u8)).get(), 42);
    let a = 0x1234_5678_9abc_def0u64 % MODULUS;
    let b = 0x0fed_cba9_8765_4321u64 % MODULUS;
    let expected = ((a as u128 * b as u128) % MODULUS as u128) as u64;
    assert_eq!((M61::from(a) * M61::from(b)).get(), expected);
    let mut x = M61::from(3u8);
    x *= M61::from(5u8);
    assert_eq!(x.get(), 15);
    x *= &M61::from(2u8);
    assert_eq!(x.get(), 30);
}

#[test]
fn division() {
    assert_eq!((M61::from(10u8) / M61::from(5u8)).get(), 2);
    assert_eq!((M61::from(1u8) / M61::from(2u8)).get(), 1 << 60);
    assert_eq!((M61::from(1u8) / M61::from(1u8)).get(), 1);
    assert_eq!((M61::from(0u8) / M61::from(7u8)).get(), 0);
    assert_eq!((M61::from(1u8) / M61::from(MODULUS - 1)).get(), MODULUS - 1);
    assert_eq!((M61::from(10u8) / &M61::from(5u8)).get(), 2);
    let mut x = M61::from(42u8);
    x /= M61::from(6u8);
    assert_eq!(x.get(), 7);
    x /= &M61::from(7u8);
    assert_eq!(x.get(), 1);
}

#[test]
fn division_by_zero_is_an_error() {
    assert_eq!(
        M61::from(5u8).checked_div(M61::from(0u8)),
        Err(ArithmeticError::DivisionByZero)
    );
    assert_eq!(
        M61::from(0u8).checked_div(M61::from(MODULUS)),
        Err(ArithmeticError::DivisionByZero)
    );
    assert_eq!(M61::from(10u8).checked_div(M61::from(5u8)), Ok(M61::from(2u8)));
}

#[test]
fn field_laws_on_samples() {
    let samples = [
        0u64,
        1,
        2,
        3,
        61,
        1 << 30,
        (1 << 60) + 12345,
        MODULUS - 2,
        MODULUS - 1,
        0x0123_4567_89ab_cdef,
    ];
    let zero = M61::from(0u8);
    let one = M61::from(1u8);
    for x in samples {
        let a = M61::from(x);
        assert_eq!(a + zero, a);
        assert_eq!(a * one, a);
        for y in samples {
            let b = M61::from(y);
            assert_eq!(a + b, b + a);
            assert_eq!(a * b, b * a);
            assert_eq!((a - b) + b, a);
            if b != zero {
                assert_eq!((a / b) * b, a);
                assert_eq!((a * b) / b, a);
            }
            for z in samples {
                let c = M61::from(z);
                assert_eq!((a + b) + c, a + (b + c));
                assert_eq!((a * b) * c, a * (b * c));
                assert_eq!(a * (b + c), a * b + a * c);
            }
        }
    }
}

#[test]
fn conversion_of_unsigned_integers() {
    assert_eq!(M61::from(u8::MAX).get(), 255);
    assert_eq!(M61::from(u16::MAX).get(), 65535);
    assert_eq!(M61::from(u32::MAX).get(), 4294967295);
    assert_eq!(M61::from(MODULUS).get(), 0);
    assert_eq!(M61::from(MODULUS + 1).get(), 1);
    assert_eq!(M61::from(2 * MODULUS).get(), 0);
    // 2^64 is 8 modulo 2^61 - 1
    assert_eq!(M61::from(u64::MAX).get(), 7);
    assert_eq!(M61::from(usize::MAX).get(), reference(usize::MAX as i128));
    assert_eq!(M61::from(12345usize).get(), 12345);
    // 2^128 is 64 modulo 2^61 - 1
    assert_eq!(M61::from(u128::MAX).get(), 63);
    assert_eq!(M61::from(1u128 << 61).get(), 1);
    assert_eq!(M61::from(1u128 << 122).get(), 1);
    assert_eq!(M61::from(1u128 << 127).get(), 32);
    assert_eq!(M61::from((MODULUS as u128) * (MODULUS as u128)).get(), 0);
    for n in [0u128, 1, 1 << 61, (1 << 61) - 1, (1 << 100) + 17, i128::MAX as u128] {
        assert_eq!(M61::from(n).get(), reference(n as i128));
    }
}

#[test]
fn conversion_of_signed_integers() {
    assert_eq!(M61::from(-1i64), M61::from(MODULUS - 1));
    assert_eq!(M61::from(-1i8).get(), MODULUS - 1);
    assert_eq!(M61::from(i8::MIN).get(), MODULUS - 128);
    assert_eq!(M61::from(i8::MAX).get(), 127);
    assert_eq!(M61::from(-1i16).get(), MODULUS - 1);
    assert_eq!(M61::from(i16::MIN).get(), MODULUS - 32768);
    assert_eq!(M61::from(-1i32).get(), MODULUS - 1);
    assert_eq!(M61::from(i32::MIN).get(), MODULUS - 2147483648);
    assert_eq!(M61::from(i32::MAX).get(), 2147483647);
    assert_eq!(M61::from(0i64).get(), 0);
    // 2^63 is 4 modulo 2^61 - 1
    assert_eq!(M61::from(i64::MIN).get(), MODULUS - 4);
    assert_eq!(M61::from(i64::MAX).get(), 3);
    assert_eq!(M61::from(-(MODULUS as i64)).get(), 0);
    assert_eq!(M61::from(-(MODULUS as i64) - 1).get(), MODULUS - 1);
    assert_eq!(M61::from(-1isize).get(), MODULUS - 1);
    assert_eq!(M61::from(isize::MIN).get(), reference(isize::MIN as i128));
    assert_eq!(M61::from(-1i128).get(), MODULUS - 1);
    // 2^127 is 32 modulo 2^61 - 1
    assert_eq!(M61::from(i128::MIN).get(), MODULUS - 32);
    assert_eq!(M61::from(i128::MAX).get(), 31);
    for n in [
        i128::MIN,
        i128::MIN + 1,
        -(1i128 << 126) - 5,
        -(1i128 << 126) + 16,
        -(1i128 << 100),
        -(MODULUS as i128),
        -1,
        0,
        1,
        1 << 90,
        i128::MAX,
    ] {
        assert_eq!(M61::from(n).get(), reference(n));
    }
    for n in [i64::MIN, i64::MIN + 1, -4 * (MODULUS as i64), -4 * (MODULUS as i64) - 1, -7, 7] {
        assert_eq!(M61::from(n).get(), reference(n as i128));
    }
}

#[test]
fn sums_and_products() {
    let items = [M61::from(1u8), M61::from(2u8), M61::from(3u8), M61::from(4u8)];
    assert_eq!(M61::sum(&items).get(), 10);
    assert_eq!(M61::product(&items).get(), 24);
    assert_eq!(M61::sum(&[]).get(), 0);
    assert_eq!(M61::product(&[]).get(), 1);
    let wrap = [M61::from(MODULUS - 1), M61::from(MODULUS - 1), M61::from(5u8)];
    assert_eq!(M61::sum(&wrap).get(), 3);
    assert_eq!(M61::product(&wrap).get(), 5);
}

#[test]
fn elements_compare_by_value() {
    assert!(M61::from(1u8) < M61::from(2u8));
    assert!(M61::from(MODULUS - 1) > M61::from(0u8));
    assert_eq!(M61::from(3u8).max(M61::from(9u8)).get(), 9);
    assert_ne!(M61::from(3u8), M61::from(4u8));
    let a = M61::from(77u8);
    let b = a;
    assert_eq!(a, b.clone());
}
