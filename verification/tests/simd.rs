use m61_modulus::fallback;
use m61_modulus::simd;
use m61_modulus::simd::SuperDigit;
use m61_modulus::simd::Width;

/// The width of the registers that an instruction set extension brings.
fn width_of(feature: &str) -> Width {
    match feature {
        "avx512f" => Width::W512,
        "avx2" => Width::W256,
        _ => Width::W128,
    }
}

/// A sequence of pseudo-random numbers, the same in every run.
fn noise(seed: u64, len: usize) -> Vec<u64> {
    let mut state = seed;
    let mut out = Vec::with_capacity(len);
    for _ in 0..len {
        state = state
            .wrapping_mul(6364136223846793005)
            .wrapping_add(1442695040888963407);
        out.push(state ^ (state >> 29));
    }
    out
}

#[test]
fn avx2_reduce_u8_max() {
    for len in 0..1000 {
        let vec = vec![u8::MAX; len];

        let expected = fallback::reduce_u8(&vec).get();
        let actual = simd::reduce_u8(&vec, width_of("avx2")).get();
        assert_eq!(
            expected, actual,
            "expected: {expected:x}, actual: {actual:x}"
        );
    }
}

#[test]
fn avx2_reduce_u16_max() {
    for len in 0..1000 {
        let vec = vec![u16::MAX; len];

        let expected = fallback::reduce_u16(&vec).get();
        let actual = simd::reduce_u16(&vec, width_of("avx2")).get();
        assert_eq!(
            expected, actual,
            "expected: {expected:x}, actual: {actual:x}"
        );
    }
}

#[test]
fn avx2_reduce_u32_max() {
    for len in 0..1000 {
        let vec = vec![u32::MAX; len];

        let expected = fallback::reduce_u32(&vec).get();
        let actual = simd::reduce_u32(&vec, width_of("avx2")).get();
        assert_eq!(
            expected, actual,
            "expected: {expected:x}, actual: {actual:x}"
        );
    }
}

#[test]
fn avx2_reduce_u64_max() {
    for len in 0..1000 {
        let vec = vec![u64::MAX; len];

        let expected = fallback::reduce_u64(&vec).get();
        let actual = simd::reduce_u64(&vec, width_of("avx2")).get();
        assert_eq!(
            expected, actual,
            "expected: {expected:x}, actual: {actual:x}"
        );
    }
}

#[test]
fn avx512_reduce_u8_max() {
    for len in 0..1000 {
        let vec = vec![u8::MAX; len];

        let expected = fallback::reduce_u8(&vec).get();
        let actual = simd::reduce_u8(&vec, width_of("avx512f")).get();
        assert_eq!(
            expected, actual,
            "expected: {expected:x}, actual: {actual:x}"
        );
    }
}

#[test]
fn avx512_reduce_u16_max() {
    for len in 0..1000 {
        let vec = vec![u16::MAX; len];

        let expected = fallback::reduce_u16(&vec).get();
        let actual = simd::reduce_u16(&vec, width_of("avx512f")).get();
        assert_eq!(
            expected, actual,
            "expected: {expected:x}, actual: {actual:x}"
        );
    }
}

#[test]
fn avx512_reduce_u32_max() {
    for len in 0..1000 {
        let vec = vec![u32::MAX; len];

        let expected = fallback::reduce_u32(&vec).get();
        let actual = simd::reduce_u32(&vec, width_of("avx512f")).get();
        assert_eq!(
            expected, actual,
            "expected: {expected:x}, actual: {actual:x}"
        );
    }
}

#[test]
fn avx512_reduce_u64_max() {
    for len in 0..1000 {
        let vec = vec![u64::MAX; len];

        let expected = fallback::reduce_u64(&vec).get();
        let actual = simd::reduce_u64(&vec, width_of("avx512f")).get();
        assert_eq!(
            expected, actual,
            "expected: {expected:x}, actual: {actual:x}"
        );
    }
}

#[test]
fn neon_reduce_u8_max() {
    for len in 0..1000 {
        let vec = vec![u8::MAX; len];

        let expected = fallback::reduce_u8(&vec).get();
        let actual = simd::reduce_u8(&vec, width_of("neon")).get();
        assert_eq!(
            expected, actual,
            "expected: {expected:x}, actual: {actual:x}"
        );
    }
}

#[test]
fn neon_reduce_u16_max() {
    for len in 0..1000 {
        let vec = vec![u16::MAX; len];

        let expected = fallback::reduce_u16(&vec).get();
        let actual = simd::reduce_u16(&vec, width_of("neon")).get();
        assert_eq!(
            expected, actual,
            "expected: {expected:x}, actual: {actual:x}"
        );
    }
}

#[test]
fn neon_reduce_u32_max() {
    for len in 0..1000 {
        let vec = vec![u32::MAX; len];

        let expected = fallback::reduce_u32(&vec).get();
        let actual = simd::reduce_u32(&vec, width_of("neon")).get();
        assert_eq!(
            expected, actual,
            "expected: {expected:x}, actual: {actual:x}"
        );
    }
}

#[test]
fn neon_reduce_u64_max() {
    for len in 0..1000 {
        let vec = vec![u64::MAX; len];

        let expected = fallback::reduce_u64(&vec).get();
        let actual = simd::reduce_u64(&vec, width_of("neon")).get();
        assert_eq!(
            expected, actual,
            "expected: {expected:x}, actual: {actual:x}"
        );
    }
}

#[test]
fn sse2_reduce_u8_max() {
    for len in 0..1000 {
        let vec = vec![u8::MAX; len];

        let expected = fallback::reduce_u8(&vec).get();
        let actual = simd::reduce_u8(&vec, width_of("sse2")).get();
        assert_eq!(
            expected, actual,
            "expected: {expected:x}, actual: {actual:x}"
        );
    }
}

#[test]
fn sse2_reduce_u16_max() {
    for len in 0..1000 {
        let vec = vec![u16::MAX; len];

        let expected = fallback::reduce_u16(&vec).get();
        let actual = simd::reduce_u16(&vec, width_of("sse2")).get();
        assert_eq!(
            expected, actual,
            "expected: {expected:x}, actual: {actual:x}"
        );
    }
}

#[test]
fn sse2_reduce_u32_max() {
    for len in 0..1000 {
        let vec = vec![u32::MAX; len];

        let expected = fallback::reduce_u32(&vec).get();
        let actual = simd::reduce_u32(&vec, width_of("sse2")).get();
        assert_eq!(
            expected, actual,
            "expected: {expected:x}, actual: {actual:x}"
        );
    }
}

#[test]
fn sse2_reduce_u64_max() {
    for len in 0..1000 {
        let vec = vec![u64::MAX; len];

        let expected = fallback::reduce_u64(&vec).get();
        let actual = simd::reduce_u64(&vec, width_of("sse2")).get();
        assert_eq!(
            expected, actual,
            "expected: {expected:x}, actual: {actual:x}"
        );
    }
}

#[test]
fn wasm_simd128_reduce_u8_max() {
    for len in 0..1000 {
        let vec = vec![u8::MAX; len];

        let expected = fallback::reduce_u8(&vec).get();
        let actual = simd::reduce_u8(&vec, width_of("simd128")).get();
        assert_eq!(
            expected, actual,
            "expected: {expected:x}, actual: {actual:x}"
        );
    }
}

#[test]
fn wasm_simd128_reduce_u16_max() {
    for len in 0..1000 {
        let vec = vec![u16::MAX; len];

        let expected = fallback::reduce_u16(&vec).get();
        let actual = simd::reduce_u16(&vec, width_of("simd128")).get();
        assert_eq!(
            expected, actual,
            "expected: {expected:x}, actual: {actual:x}"
        );
    }
}

#[test]
fn wasm_simd128_reduce_u32_max() {
    for len in 0..1000 {
        let vec = vec![u32::MAX; len];

        let expected = fallback::reduce_u32(&vec).get();
        let actual = simd::reduce_u32(&vec, width_of("simd128")).get();
        assert_eq!(
            expected, actual,
            "expected: {expected:x}, actual: {actual:x}"
        );
    }
}

#[test]
fn wasm_simd128_reduce_u64_max() {
    for len in 0..1000 {
        let vec = vec![u64::MAX; len];

        let expected = fallback::reduce_u64(&vec).get();
        let actual = simd::reduce_u64(&vec, width_of("simd128")).get();
        assert_eq!(
            expected, actual,
            "expected: {expected:x}, actual: {actual:x}"
        );
    }
}

#[test]
fn every_width_agrees_with_the_scalar_engine_on_bytes() {
    for len in 0..300 {
        let bytes: Vec<u8> = noise(len as u64, len).iter().map(|x| *x as u8).collect();
        let expected = fallback::reduce_u8(&bytes);
        for width in [Width::W64, Width::W128, Width::W256, Width::W512] {
            assert_eq!(simd::reduce_u8(&bytes, width), expected);
        }
    }
}

#[test]
fn every_width_agrees_with_the_scalar_engine_on_u16() {
    for len in 0..300 {
        let digits: Vec<u16> = noise(7 + len as u64, len).iter().map(|x| *x as u16).collect();
        let expected = fallback::reduce_u16(&digits);
        for width in [Width::W64, Width::W128, Width::W256, Width::W512] {
            assert_eq!(simd::reduce_u16(&digits, width), expected);
        }
    }
}

#[test]
fn every_width_agrees_with_the_scalar_engine_on_u32() {
    for len in 0..300 {
        let digits: Vec<u32> = noise(11 + len as u64, len).iter().map(|x| *x as u32).collect();
        let expected = fallback::reduce_u32(&digits);
        for width in [Width::W64, Width::W128, Width::W256, Width::W512] {
            assert_eq!(simd::reduce_u32(&digits, width), expected);
        }
    }
}

#[test]
fn every_width_agrees_with_the_scalar_engine_on_u64() {
    for len in 0..300 {
        let digits = noise(13 + len as u64, len);
        let expected = fallback::reduce_u64(&digits);
        for width in [Width::W64, Width::W128, Width::W256, Width::W512] {
            assert_eq!(simd::reduce_u64(&digits, width), expected);
        }
    }
}

#[test]
fn generic_reduction_takes_pointer_sized_digits() {
    for len in 0..100 {
        let digits: Vec<usize> = noise(17 + len as u64, len).iter().map(|x| *x as usize).collect();
        let expected = fallback::reduce_usize(&digits);
        for width in [Width::W64, Width::W128, Width::W256, Width::W512] {
            assert_eq!(simd::reduce(&digits, width), expected);
        }
    }
}

#[test]
fn width_constants() {
    assert_eq!(Width::W64.lanes(), 1);
    assert_eq!(Width::W128.lanes(), 2);
    assert_eq!(Width::W256.lanes(), 4);
    assert_eq!(Width::W512.lanes(), 8);
    assert_eq!(Width::W64.shift(), 64 % 61);
    assert_eq!(Width::W128.shift(), 128 % 61);
    assert_eq!(Width::W256.shift(), 256 % 61);
    assert_eq!(Width::W512.shift(), 512 % 61);
    assert_eq!(Width::W512.half(), Width::W256);
    assert_eq!(Width::W256.half(), Width::W128);
    assert_eq!(Width::W128.half(), Width::W64);
    assert_eq!(Width::W64.half(), Width::W64);
    assert_eq!(simd::lane_digits::<u8>(), 8);
    assert_eq!(simd::lane_digits::<u16>(), 4);
    assert_eq!(simd::lane_digits::<u32>(), 2);
    assert_eq!(simd::lane_digits::<u64>(), 1);
    assert_eq!(simd::block_digits::<u8>(Width::W512), 64);
    assert_eq!(simd::block_digits::<u64>(Width::W128), 2);
}

#[test]
fn lanes_are_packed_little_endian() {
    let bytes = [0x01u8, 0x02, 0x03, 0x04, 0x05, 0x06, 0x07, 0x08, 0x09, 0x0a];
    assert_eq!(simd::load_lane(&bytes, 0), 0x0807_0605_0403_0201);
    assert_eq!(simd::load_lane(&bytes, 8), 0x0a09);
    assert_eq!(simd::load_lane(&bytes, 9), 0x0a);
    assert_eq!(simd::load_lane(&bytes, 10), 0);
    let words = [0x1234u16, 0xabcd, 0x0001];
    assert_eq!(simd::load_lane(&words, 0), 0x0001_abcd_1234);
    assert_eq!(simd::load_lane(&words, 1), 0x0001_abcd);
    let wide = [u64::MAX, 5];
    assert_eq!(simd::load_lane(&wide, 0), u64::MAX);
    assert_eq!(simd::load_lane(&wide, 1), 5);
}

#[test]
fn super_digit_steps_keep_the_residue() {
    // 2^64 is 8 modulo 2^61 - 1, so the two lanes (3, 5) stand for 43.
    let block = SuperDigit::load(&[3u64, 5], 0, Width::W128);
    assert_eq!(block.finish().get(), 43);
    assert_eq!(block.settle().finish().get(), 43);
    assert_eq!(block.halve().finish().get(), 43);
    // folding (1, 0) in below an accumulator (3, 5): 1 + 2^128 * (3 + 2^64 * 5)
    let lo = SuperDigit::load(&[1u64, 0], 0, Width::W128);
    assert_eq!(block.settle().fold(&lo).finish().get(), 1 + 64 * 43);
    // a ragged tail is padded with zeros
    let tail = SuperDigit::load(&[7u8, 1], 0, Width::W512);
    assert_eq!(tail.finish().get(), 7 + 256);
    let none = SuperDigit::load(&[7u8, 1], 2, Width::W256);
    assert_eq!(none.finish().get(), 0);
}

#[test]
fn reduction_core_takes_the_upper_digits_as_first_accumulator() {
    let digits: Vec<u32> = (1..=11).collect();
    let size = simd::block_digits::<u32>(Width::W128);
    assert_eq!(size, 4);
    let hi = SuperDigit::load(&digits, 8, Width::W128);
    assert_eq!(
        simd::reduction_core(&digits, 2, hi),
        fallback::reduce_u32(&digits)
    );
}

#[test]
fn reduction_core_stacks_any_accumulator_on_the_full_super_digits() {
    // one super-digit of 128 bits, (3, 4), below an accumulator that holds 5:
    // 3 + 2^64 * 4 + 2^128 * 5, and 2^64 is 8 modulo 2^61 - 1
    let digits = [3u64, 4, 1000, 2000];
    let hi = SuperDigit::load(&[5u64], 0, Width::W128);
    assert_eq!(simd::reduction_core(&digits, 1, hi).get(), 3 + 8 * 4 + 64 * 5);
    // no super-digit at all: the accumulator alone
    assert_eq!(simd::reduction_core(&digits, 0, hi).get(), 5);
    let wide = SuperDigit::load(&[u64::MAX, u64::MAX], 0, Width::W128);
    assert_eq!(simd::reduction_core(&digits, 0, wide).get(), 7 + 8 * 7);
    assert_eq!(wide.finish().get(), 63);
}
