//! The recurrence that every reduction engine runs.
//!
//! A number `x` is congruent, modulo `m = 2^61 - 1`, to the sum of its
//! digits in base `2^61`. Evaluating the digit sequence by the method of
//! Horner, most significant digit first, therefore needs no multiplication:
//! a step takes the accumulator `hi` and the next lower super-digit `lo` to
//! a value congruent to `lo + 2^w * hi`, where `w` is the width of a
//! super-digit. Since `2^w` is congruent to `2^r` for `r = w mod 61`, the
//! product is a rotation of `hi` by `r` within 61 bits.

use vstd::prelude::*;
use vstd::arithmetic::div_mod::lemma_mod_multiples_vanish;
use vstd::arithmetic::mul::lemma_mul_is_commutative;
use vstd::arithmetic::power2::pow2;
use vstd::bits::lemma_u64_shl_is_mul;
use crate::definition::MODULUS;
use crate::digits::lemma_weighted_congruence;

verus! {

/// The largest shift that a step is used with: `512 mod 61`.
pub const MAX_SHIFT: u32 = 24;

/// One step of the recurrence: the digit sum of `lo`, plus `hi` rotated by
/// `r`.
pub open spec fn fold_step(hi: u64, lo: u64, r: u32) -> int {
    (lo & MODULUS) + (lo >> 61) + ((hi & (MODULUS >> r)) << r) + (hi >> ((61 - r) as u32))
}

/// The digit sum of a value of 64 bits in base `2^61`.
pub open spec fn digit_sum(x: u64) -> int {
    (x & MODULUS) + (x >> 61)
}

/// The digit sum of a value is congruent to the value and not far above
/// the modulus.
pub proof fn lemma_digit_sum(x: u64)
    ensures
        0 <= digit_sum(x) <= MODULUS + 7,
        digit_sum(x) % (MODULUS as int) == x % MODULUS,
{
    lemma_digit_sum_bits(x);
    lemma_mod_multiples_vanish((x >> 61) as int, digit_sum(x), MODULUS as int);
}

/// `x` splits into its lowest 61 bits and the three bits above them.
proof fn lemma_digit_sum_bits(x: u64)
    by (bit_vector)
    ensures
        x == (x & 0x1FFF_FFFF_FFFF_FFFF) + (x >> 61) * 0x2000_0000_0000_0000,
        (x & 0x1FFF_FFFF_FFFF_FFFF) <= 0x1FFF_FFFF_FFFF_FFFF,
        (x >> 61) <= 7,
{
}

/// The lowest `61 - r` bits of `h`, moved up by `r`, and the bits above
/// them, moved down to the bottom, add up to `h * 2^r` once `2^61` counts
/// as 1.
proof fn lemma_rotate_bits(h: u64, r: u32)
    by (bit_vector)
    requires
        0 < r <= 24,
    ensures
        h * (1u64 << r) == ((h & (0x1FFF_FFFF_FFFF_FFFFu64 >> r)) << r) + (h >> ((61 - r) as u32))
            * 0x2000_0000_0000_0000,
        ((h & (0x1FFF_FFFF_FFFF_FFFFu64 >> r)) << r) <= 0x1FFF_FFFF_FFFF_FFFFu64,
        (h >> ((61 - r) as u32)) < 0x800_0000,
        (1u64 << r) <= 0x100_0000,
{
}

/// A step yields a value congruent to `lo + 2^r * hi`, and one that two
/// subtractions of the modulus bring into the canonical range.
pub proof fn lemma_fold_step(hi: u64, lo: u64, r: u32)
    requires
        0 < r <= MAX_SHIFT,
    ensures
        0 <= fold_step(hi, lo, r) < 3 * MODULUS,
        (lo & MODULUS) + (lo >> 61) <= MODULUS + 7,
        ((hi & (MODULUS >> r)) << r) <= MODULUS,
        fold_step(hi, lo, r) % (MODULUS as int) == (lo + pow2(r as nat) * hi) % (MODULUS as int),
{
    lemma_digit_sum_bits(lo);
    lemma_rotate_bits(hi, r);
    vstd::arithmetic::power2::lemma2_to64();
    assert(1u64 << r == pow2(r as nat)) by {
        assert(pow2(r as nat) <= 0x100_0000) by {
            if r < 24 {
                vstd::arithmetic::power2::lemma_pow2_strictly_increases(r as nat, 24);
            }
        }
        lemma_u64_shl_is_mul(1, r as u64);
        assert(1u64 << r == 1u64 << (r as u64)) by (bit_vector);
    }
    let high = hi >> ((61 - r) as u32);
    let carry = lo >> 61;
    lemma_mul_is_commutative(hi as int, pow2(r as nat) as int);
    assert(lo + pow2(r as nat) * hi == MODULUS * (carry + high) + fold_step(hi, lo, r));
    lemma_mod_multiples_vanish((carry + high) as int, fold_step(hi, lo, r), MODULUS as int);
}

/// Performs one step of the recurrence.
pub fn fold(hi: u64, lo: u64, r: u32) -> (next: u64)
    requires
        0 < r <= MAX_SHIFT,
    ensures
        next == fold_step(hi, lo, r),
        next < 3 * MODULUS,
{
    proof {
        lemma_fold_step(hi, lo, r);
    }
    (lo & MODULUS) + (lo >> 61) + ((hi & (MODULUS >> r)) << r) + (hi >> (61 - r))
}

/// A step of the method of Horner: where the accumulator is congruent to
/// `upper` and a super-digit is `w` bits wide, with `w` congruent to `r`
/// modulo 61, the step yields a value congruent to `lo + 2^w * upper`.
pub proof fn lemma_horner_step(hi: u64, lo: u64, r: u32, w: nat, upper: nat)
    requires
        0 < r <= MAX_SHIFT,
        w % 61 == r,
        hi % MODULUS == upper % (MODULUS as nat),
    ensures
        0 <= fold_step(hi, lo, r) < 3 * MODULUS,
        fold_step(hi, lo, r) % (MODULUS as int) == (lo + pow2(w) * upper) % (MODULUS as int),
{
    lemma_fold_step(hi, lo, r);
    crate::digits::lemma_pow2_mod(w);
    crate::digits::lemma_pow2_mod(r as nat);
    lemma_weighted_congruence(lo as int, pow2(r as nat) as int, pow2(w) as int, hi as int);
    lemma_weighted_congruence(lo as int, hi as int, upper as int, pow2(w) as int);
    lemma_mul_is_commutative(hi as int, pow2(w) as int);
    lemma_mul_is_commutative(upper as int, pow2(w) as int);
}

} // verus!
