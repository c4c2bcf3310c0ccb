use m61_modulus::definition::MODULUS;
use m61_modulus::fallback;
use m61_modulus::M61Reduction;
use m61_modulus::Reducible;
use m61_modulus::M61;

/// The residue of a number given by digits of `bits` bits, by the method
/// of Horner in the widest integer type.
fn reference(digits: &[u64], bits: u32) -> u64 {
    let m = MODULUS as u128;
    let base = (1u128 << bits) % m;
    let mut acc = 0u128;
    for d in digits.iter().rev() {
        acc = (acc * base + (*d as u128) % m) % m;
    }
    acc as u64
}

/// A sequence of pseudo-random numbers, the same in every run.
fn noise(seed: u64, len: usize) -> Vec<u64> {
    let mut state = seed;
    let mut out = Vec::with_capacity(len);
    for _ in 0..len {
        state = state
            .wrapping_mul(6364136223846793005)
            .wrapping_add(1442695040888963407);
        out.push(state ^ (state >> 31));
    }
    out
}

#[test]
fn reduce_empty_is_zero() {
    let empty: [u64; 0] = [];
    assert_eq!(empty.reduce_m61(), M61::from(0u64));
    assert_eq!(fallback::reduce_u8(&[]).get(), 0);
    assert_eq!(fallback::reduce_u16(&[]).get(), 0);
    assert_eq!(fallback::reduce_u32(&[]).get(), 0);
    assert_eq!(fallback::reduce_u64(&[]).get(), 0);
    assert_eq!(fallback::reduce_usize(&[]).get(), 0);
    let none: [u8; 0] = [];
    assert_eq!(none.reduce_m61_parallelized(4).get(), 0);
}

#[test]
fn reduce_two_to_61_is_one() {
    assert_eq!([1u64 << 61].reduce_m61(), [1u64].reduce_m61());
    assert_eq!([1u64 << 61].reduce_m61().get(), 1);
}

#[test]
fn reduce_u16_max_equals_the_same_bytes() {
    let words = [u16::MAX; 1000];
    let bytes = [u8::MAX; 2000];
    assert_eq!(words.reduce_m61(), bytes.reduce_m61());
}

#[test]
fn reduce_digits_as_positional_notation() {
    let x = [1u16, 734u16, 24u16].reduce_m61();
    let y = M61::from(1u8) + M61::from(734u64 << 16) + M61::from(24u64 << 32);
    assert_eq!(x, y);
    assert_eq!(x.get(), 1 + (734 << 16) + (24 << 32));
}

#[test]
fn reduce_single_digits() {
    assert_eq!([7u8].reduce_m61().get(), 7);
    assert_eq!([u8::MAX].reduce_m61().get(), 255);
    assert_eq!([u64::MAX].reduce_m61().get(), 7);
    assert_eq!([MODULUS].reduce_m61().get(), 0);
    assert_eq!([0u64, 1].reduce_m61().get(), 8);
    assert_eq!([0u32, 0, 1].reduce_m61().get(), 8);
    assert_eq!([0u8, 0, 0, 0, 0, 0, 0, 0, 1].reduce_m61().get(), 8);
    assert_eq!([5u64, 3].reduce_m61().get(), 5 + 3 * 8);
}

#[test]
fn scalar_engine_agrees_with_long_arithmetic_on_bytes() {
    for len in 0..200 {
        let wide = noise(len as u64, len);
        let digits: Vec<u8> = wide.iter().map(|x| *x as u8).collect();
        let plain: Vec<u64> = digits.iter().map(|x| *x as u64).collect();
        assert_eq!(fallback::reduce_u8(&digits).get(), reference(&plain, 8));
    }
}

#[test]
fn scalar_engine_agrees_with_long_arithmetic_on_u16() {
    for len in 0..200 {
        let wide = noise(3 + len as u64, len);
        let digits: Vec<u16> = wide.iter().map(|x| *x as u16).collect();
        let plain: Vec<u64> = digits.iter().map(|x| *x as u64).collect();
        assert_eq!(fallback::reduce_u16(&digits).get(), reference(&plain, 16));
    }
}

#[test]
fn scalar_engine_agrees_with_long_arithmetic_on_u32() {
    for len in 0..200 {
        let wide = noise(5 + len as u64, len);
        let digits: Vec<u32> = wide.iter().map(|x| *x as u32).collect();
        let plain: Vec<u64> = digits.iter().map(|x| *x as u64).collect();
        assert_eq!(fallback::reduce_u32(&digits).get(), reference(&plain, 32));
    }
}

#[test]
fn scalar_engine_agrees_with_long_arithmetic_on_u64() {
    for len in 0..200 {
        let digits = noise(9 + len as u64, len);
        assert_eq!(fallback::reduce_u64(&digits).get(), reference(&digits, 64));
    }
}

#[test]
fn scalar_engine_agrees_with_long_arithmetic_on_usize() {
    for len in 0..200 {
        let wide = noise(21 + len as u64, len);
        let digits: Vec<usize> = wide.iter().map(|x| *x as usize).collect();
        let plain: Vec<u64> = digits.iter().map(|x| *x as u64).collect();
        assert_eq!(
            fallback::reduce_usize(&digits).get(),
            reference(&plain, usize::BITS)
        );
        assert_eq!(digits.reduce_m61().get(), reference(&plain, usize::BITS));
    }
}

#[test]
fn the_trait_works_on_vectors_arrays_and_slices() {
    let v = vec![9u32, 8, 7, 6, 5];
    let a = [9u32, 8, 7, 6, 5];
    assert_eq!(v.reduce_m61(), a.reduce_m61());
    assert_eq!(v[..].reduce_m61(), a.reduce_m61());
    assert_eq!(v.reduce_m61_parallelized(3), a.reduce_m61());
    assert_eq!(<u32 as Reducible>::reduce(&v), a.reduce_m61());
    assert_eq!(v[1..3].reduce_m61().get(), 8 + (7 << 32));
}
