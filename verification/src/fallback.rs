//! The scalar reduction engine.
//!
//! The digits are bundled into super-digits of 64 bits, and these are
//! folded into the accumulator from the most significant one down, as
//! [`crate::digit_sum`] describes. Digits at the upper end that do not fill
//! a super-digit make up the first value of the accumulator.

use vstd::prelude::*;
use vstd::arithmetic::power2::pow2;
use crate::definition::final_reduction;
use crate::definition::M61;
use crate::definition::MODULUS;
use crate::digit_sum::lemma_horner_step;
use crate::digits::digits_value;
use crate::digits::lemma_digits_value_split;
use crate::digits::residue;
use crate::digits::Digit;

verus! {

/// Folding the super-digit that starts at `at` into an accumulator that is
/// congruent to the digits above it gives one that is congruent to the
/// digits from `at` on.
proof fn lemma_prepend_word<D: Digit>(s: Seq<D>, at: int, per: int, hi: u64, lo: u64)
    requires
        0 <= at,
        0 < per,
        at + per <= s.len(),
        per * D::bits() == 64,
        lo == digits_value(s.subrange(at, at + per)),
        hi % MODULUS == residue(s.skip(at + per)),
    ensures
        0 <= crate::digit_sum::fold_step(hi, lo, 3) < 3 * MODULUS,
        crate::digit_sum::fold_step(hi, lo, 3) % (MODULUS as int) == residue(s.skip(at)),
{
    let t = s.skip(at);
    lemma_digits_value_split(t, per);
    assert(t.take(per) == s.subrange(at, at + per));
    assert(t.skip(per) == s.skip(at + per));
    assert(D::bits() * (per as nat) == 64) by (nonlinear_arith)
        requires
            per * D::bits() == 64,
            per >= 0,
    ;
    lemma_horner_step(hi, lo, 3, 64, digits_value(s.skip(at + per)));
}

/// Putting a digit below a run of digits shifts the run up by one place.
proof fn lemma_prepend_digit<D: Digit>(s: Seq<D>, at: int, end: int)
    requires
        0 <= at < end <= s.len(),
    ensures
        digits_value(s.subrange(at, end)) == s[at].as_nat() + pow2(D::bits()) * digits_value(
            s.subrange(at + 1, end),
        ),
{
    assert(s.subrange(at, end).skip(1) == s.subrange(at + 1, end));
}

/// A run of fewer digits than fill a super-digit is below `2^56`.
proof fn lemma_partial_word_bound<D: Digit>(s: Seq<D>)
    requires
        D::bits() * s.len() < 64,
    ensures
        digits_value(s) < 0x100_0000_0000_0000,
{
    crate::digits::lemma_digits_value_bound(s);
    vstd::arithmetic::power2::lemma2_to64();
    vstd::arithmetic::power2::lemma2_to64_rest();
    let b = D::bits();
    let n = s.len();
    D::lemma_bits();
    assert(b * n <= 56) by (nonlinear_arith)
        requires
            b == 8 || b == 16 || b == 32 || b == 64,
            b * n < 64,
    ;
    if b * n < 56 {
        vstd::arithmetic::power2::lemma_pow2_strictly_increases(b * n, 56);
    }
}

/// Four digits of 16 bits side by side make up a super-digit.
proof fn lemma_pack_u16(d0: u16, d1: u16, d2: u16, d3: u16)
    by (bit_vector)
    ensures
        (d0 as u64) | ((d1 as u64) << 16) | ((d2 as u64) << 32) | ((d3 as u64) << 48) == d0
            + 0x1_0000 * (d1 + 0x1_0000 * (d2 + 0x1_0000 * d3)),
{
}

/// Two digits of 32 bits side by side make up a super-digit.
proof fn lemma_pack_u32(d0: u32, d1: u32)
    by (bit_vector)
    ensures
        (d0 as u64) | ((d1 as u64) << 32) == d0 + 0x1_0000_0000 * d1,
{
}

/// Eight bytes side by side make up a super-digit.
proof fn lemma_pack_u8(d0: u8, d1: u8, d2: u8, d3: u8, d4: u8, d5: u8, d6: u8, d7: u8)
    by (bit_vector)
    ensures
        (d0 as u64) | ((d1 as u64) << 8) | ((d2 as u64) << 16) | ((d3 as u64) << 24) | ((d4 as u64)
            << 32) | ((d5 as u64) << 40) | ((d6 as u64) << 48) | ((d7 as u64) << 56) == d0 + 0x100
            * (d1 + 0x100 * (d2 + 0x100 * (d3 + 0x100 * (d4 + 0x100 * (d5 + 0x100 * (d6 + 0x100
            * d7)))))),
{
}

/// A byte put below a value of fewer than 56 bits.
proof fn lemma_shift_in_u8(hi: u64, x: u8)
    by (bit_vector)
    requires
        hi < 0x100_0000_0000_0000,
    ensures
        (hi << 8) | (x as u64) == x + 0x100 * hi,
{
}

/// A digit of 16 bits put below a value of fewer than 48 bits.
proof fn lemma_shift_in_u16(hi: u64, x: u16)
    by (bit_vector)
    requires
        hi < 0x1_0000_0000_0000,
    ensures
        (hi << 16) | (x as u64) == x + 0x1_0000 * hi,
{
}

/// Reduces a number given by its digits of 8 bits.
pub fn reduce_u8(s: &[u8]) -> (r: M61)
    ensures
        r@ == residue(s@),
{
    let n = s.len();
    let full = n / 8;
    let mut hi: u64 = 0;
    let mut j: usize = n;
    proof {
        assert(s@.subrange(j as int, n as int).len() == 0);
    }
    while j > full * 8
        invariant
            n == s.len(),
            full == n / 8,
            full * 8 <= j <= n,
            hi == digits_value(s@.subrange(j as int, n as int)),
        decreases j,
    {
        proof {
            lemma_partial_word_bound(s@.subrange(j as int, n as int));
            lemma_prepend_digit(s@, j - 1, n as int);
            lemma_shift_in_u8(hi, s[j - 1]);
            vstd::arithmetic::power2::lemma2_to64();
        }
        j -= 1;
        hi = (hi << 8) | s[j] as u64;
    }
    proof {
        lemma_partial_word_bound(s@.subrange(j as int, n as int));
        assert(s@.subrange(j as int, n as int) == s@.skip(j as int));
    }
    let mut k: usize = full;
    while k > 0
        invariant
            n == s.len(),
            k <= full,
            full == n / 8,
            hi < 3 * MODULUS,
            hi % MODULUS == residue(s@.skip(8 * k)),
        decreases k,
    {
        k -= 1;
        let at = 8 * k;
        let lo = (s[at] as u64) | ((s[at + 1] as u64) << 8) | ((s[at + 2] as u64) << 16) | ((s[at
            + 3] as u64) << 24) | ((s[at + 4] as u64) << 32) | ((s[at + 5] as u64) << 40) | ((s[at
            + 6] as u64) << 48) | ((s[at + 7] as u64) << 56);
        proof {
            let c = s@.subrange(at as int, at + 8);
            lemma_pack_u8(c[0], c[1], c[2], c[3], c[4], c[5], c[6], c[7]);
            lemma_digits_of_eight(c);
            vstd::arithmetic::power2::lemma2_to64();
            lemma_prepend_word(s@, at as int, 8, hi, lo);
            crate::digit_sum::lemma_fold_step(hi, lo, 3);
        }
        hi = (lo & MODULUS) + (lo >> 61) + ((hi & (MODULUS >> 3)) << 3) + (hi >> 58);
    }
    proof {
        assert(s@.skip(0) == s@);
    }
    final_reduction(hi)
}

/// Reduces a number given by its digits of 16 bits.
pub fn reduce_u16(s: &[u16]) -> (r: M61)
    ensures
        r@ == residue(s@),
{
    let n = s.len();
    let full = n / 4;
    let mut hi: u64 = 0;
    let mut j: usize = n;
    proof {
        assert(s@.subrange(j as int, n as int).len() == 0);
    }
    while j > full * 4
        invariant
            n == s.len(),
            full == n / 4,
            full * 4 <= j <= n,
            hi == digits_value(s@.subrange(j as int, n as int)),
        decreases j,
    {
        proof {
            crate::digits::lemma_digits_value_bound(s@.subrange(j as int, n as int));
            vstd::arithmetic::power2::lemma2_to64();
            vstd::arithmetic::power2::lemma2_to64_rest();
            lemma_prepend_digit(s@, j - 1, n as int);
            lemma_shift_in_u16(hi, s[j - 1]);
        }
        j -= 1;
        hi = (hi << 16) | s[j] as u64;
    }
    proof {
        lemma_partial_word_bound(s@.subrange(j as int, n as int));
        assert(s@.subrange(j as int, n as int) == s@.skip(j as int));
    }
    let mut k: usize = full;
    while k > 0
        invariant
            n == s.len(),
            k <= full,
            full == n / 4,
            hi < 3 * MODULUS,
            hi % MODULUS == residue(s@.skip(4 * k)),
        decreases k,
    {
        k -= 1;
        let at = 4 * k;
        let lo = (s[at] as u64) | ((s[at + 1] as u64) << 16) | ((s[at + 2] as u64) << 32) | ((s[at
            + 3] as u64) << 48);
        proof {
            let c = s@.subrange(at as int, at + 4);
            lemma_pack_u16(c[0], c[1], c[2], c[3]);
            lemma_prepend_digit(c, 0, 4);
            lemma_prepend_digit(c, 1, 4);
            lemma_prepend_digit(c, 2, 4);
            lemma_prepend_digit(c, 3, 4);
            assert(c.subrange(0, 4) == c);
            assert(digits_value(c.subrange(4, 4)) == 0);
            vstd::arithmetic::power2::lemma2_to64();
            lemma_prepend_word(s@, at as int, 4, hi, lo);
            crate::digit_sum::lemma_fold_step(hi, lo, 3);
        }
        hi = (lo & MODULUS) + (lo >> 61) + ((hi & (MODULUS >> 3)) << 3) + (hi >> 58);
    }
    proof {
        assert(s@.skip(0) == s@);
    }
    final_reduction(hi)
}

/// Reduces a number given by its digits of 32 bits.
pub fn reduce_u32(s: &[u32]) -> (r: M61)
    ensures
        r@ == residue(s@),
{
    let n = s.len();
    let full = n / 2;
    let mut hi: u64 = if n % 2 == 1 {
        s[n - 1] as u64
    } else {
        0
    };
    proof {
        let rest = s@.skip(2 * full);
        if n % 2 == 1 {
            assert(rest.len() == 1);
            assert(rest[0] == s[n - 1]);
            assert(rest.skip(1).len() == 0);
            assert(digits_value(rest.skip(1)) == 0);
            assert(digits_value(rest) == rest[0].as_nat() + pow2(32) * 0);
        } else {
            assert(rest.len() == 0);
        }
        assert(hi == digits_value(rest));
    }
    let mut k: usize = full;
    while k > 0
        invariant
            n == s.len(),
            k <= full,
            full == n / 2,
            hi < 3 * MODULUS,
            hi % MODULUS == residue(s@.skip(2 * k)),
        decreases k,
    {
        k -= 1;
        let at = 2 * k;
        let lo = (s[at] as u64) | ((s[at + 1] as u64) << 32);
        proof {
            let c = s@.subrange(at as int, at + 2);
            lemma_pack_u32(c[0], c[1]);
            lemma_prepend_digit(c, 0, 2);
            lemma_prepend_digit(c, 1, 2);
            assert(c.subrange(0, 2) == c);
            assert(digits_value(c.subrange(2, 2)) == 0);
            vstd::arithmetic::power2::lemma2_to64();
            lemma_prepend_word(s@, at as int, 2, hi, lo);
            crate::digit_sum::lemma_fold_step(hi, lo, 3);
        }
        hi = (lo & MODULUS) + (lo >> 61) + ((hi & (MODULUS >> 3)) << 3) + (hi >> 58);
    }
    proof {
        assert(s@.skip(0) == s@);
    }
    final_reduction(hi)
}

/// Two values below `2^32` side by side make up a super-digit.
proof fn lemma_pack_halves(d0: u64, d1: u64)
    by (bit_vector)
    requires
        d0 <= 0xFFFF_FFFF,
        d1 <= 0xFFFF_FFFF,
    ensures
        d0 | (d1 << 32) == d0 + 0x1_0000_0000 * d1,
{
}

/// Reduces a number given by its digits of the width of an address. The
/// width is looked at once, and the digits are then read as digits of 64 or
/// of 32 bits.
pub fn reduce_usize(s: &[usize]) -> (r: M61)
    ensures
        r@ == residue(s@),
{
    let n = s.len();
    if usize::BITS == 64 {
        let mut hi: u64 = 0;
        let mut i: usize = n;
        proof {
            assert(s@.skip(i as int).len() == 0);
        }
        while i > 0
            invariant
                usize::BITS == 64,
                i <= s.len(),
                hi < 3 * MODULUS,
                hi % MODULUS == residue(s@.skip(i as int)),
            decreases i,
        {
            i -= 1;
            let lo = s[i] as u64;
            proof {
                let c = s@.subrange(i as int, i + 1);
                assert(c.skip(1).len() == 0);
                assert(digits_value(c.skip(1)) == 0);
                assert(digits_value(c) == c[0].as_nat() + pow2(64) * 0);
                lemma_prepend_word(s@, i as int, 1, hi, lo);
                crate::digit_sum::lemma_fold_step(hi, lo, 3);
            }
            hi = (lo & MODULUS) + (lo >> 61) + ((hi & (MODULUS >> 3)) << 3) + (hi >> 58);
        }
        proof {
            assert(s@.skip(0) == s@);
        }
        final_reduction(hi)
    } else {
        let full = n / 2;
        let mut hi: u64 = if n % 2 == 1 {
            s[n - 1] as u64
        } else {
            0
        };
        proof {
            let rest = s@.skip(2 * full);
            if n % 2 == 1 {
                assert(rest.len() == 1);
                assert(rest[0] == s[n - 1]);
                assert(rest.skip(1).len() == 0);
                assert(digits_value(rest.skip(1)) == 0);
                assert(digits_value(rest) == rest[0].as_nat() + pow2(32) * 0);
            } else {
                assert(rest.len() == 0);
            }
            assert(hi == digits_value(rest));
        }
        let mut k: usize = full;
        while k > 0
            invariant
                usize::BITS == 32,
                n == s.len(),
                k <= full,
                full == n / 2,
                hi < 3 * MODULUS,
                hi % MODULUS == residue(s@.skip(2 * k)),
            decreases k,
        {
            k -= 1;
            let at = 2 * k;
            let lo = (s[at] as u64) | ((s[at + 1] as u64) << 32);
            proof {
                let c = s@.subrange(at as int, at + 2);
                lemma_pack_halves(c[0] as u64, c[1] as u64);
                lemma_prepend_digit(c, 0, 2);
                lemma_prepend_digit(c, 1, 2);
                assert(c.subrange(0, 2) == c);
                assert(digits_value(c.subrange(2, 2)) == 0);
                vstd::arithmetic::power2::lemma2_to64();
                assert(pow2(usize::BITS as nat) == 0x1_0000_0000);
                assert(digits_value(c.subrange(1, 2)) == c[1].as_nat() + 0x1_0000_0000 * 0);
                assert(digits_value(c) == c[0] + 0x1_0000_0000 * c[1]);
                assert(lo == digits_value(c));
                lemma_prepend_word(s@, at as int, 2, hi, lo);
                crate::digit_sum::lemma_fold_step(hi, lo, 3);
            }
            hi = (lo & MODULUS) + (lo >> 61) + ((hi & (MODULUS >> 3)) << 3) + (hi >> 58);
        }
        proof {
            assert(s@.skip(0) == s@);
        }
        final_reduction(hi)
    }
}

/// The value of eight digits, written out.
proof fn lemma_digits_of_eight<D: Digit>(c: Seq<D>)
    requires
        c.len() == 8,
    ensures
        digits_value(c) == c[0].as_nat() + pow2(D::bits()) * (c[1].as_nat() + pow2(D::bits()) * (
        c[2].as_nat() + pow2(D::bits()) * (c[3].as_nat() + pow2(D::bits()) * (c[4].as_nat() + pow2(
            D::bits(),
        ) * (c[5].as_nat() + pow2(D::bits()) * (c[6].as_nat() + pow2(D::bits())
            * c[7].as_nat())))))),
{
    lemma_prepend_digit(c, 0, 8);
    lemma_prepend_digit(c, 1, 8);
    lemma_prepend_digit(c, 2, 8);
    lemma_prepend_digit(c, 3, 8);
    lemma_prepend_digit(c, 4, 8);
    lemma_prepend_digit(c, 5, 8);
    lemma_prepend_digit(c, 6, 8);
    lemma_prepend_digit(c, 7, 8);
    assert(c.subrange(0, 8) == c);
    assert(digits_value(c.subrange(8, 8)) == 0);
    assert(pow2(D::bits()) * 0 == 0);
}

/// Reduces a number given by its digits of 64 bits.
pub fn reduce_u64(s: &[u64]) -> (r: M61)
    ensures
        r@ == residue(s@),
{
    let mut hi: u64 = 0;
    let mut i: usize = s.len();
    proof {
        assert(s@.skip(i as int).len() == 0);
    }
    while i > 0
        invariant
            i <= s.len(),
            hi < 3 * MODULUS,
            hi % MODULUS == residue(s@.skip(i as int)),
        decreases i,
    {
        i -= 1;
        let lo = s[i];
        proof {
            let c = s@.subrange(i as int, i + 1);
            assert(c.skip(1).len() == 0);
            assert(digits_value(c.skip(1)) == 0);
            assert(digits_value(c) == c[0].as_nat() + pow2(64) * 0);
            lemma_prepend_word(s@, i as int, 1, hi, lo);
            crate::digit_sum::lemma_fold_step(hi, lo, 3);
        }
        hi = (lo & MODULUS) + (lo >> 61) + ((hi & (MODULUS >> 3)) << 3) + (hi >> 58);
    }
    proof {
        assert(s@.skip(0) == s@);
    }
    final_reduction(hi)
}

} // verus!
