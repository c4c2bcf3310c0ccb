//! The number that a sequence of digits stands for.
//!
//! A digit sequence is read in little-endian order: the digit at index 0 is
//! the least significant one, and a digit of `bits()` bits at index `i`
//! weighs `2^(bits() * i)`. Every reduction in this crate is specified as
//! [`digits_value`] modulo `2^61 - 1`, which is [`residue`].

use vstd::prelude::*;
use vstd::arithmetic::div_mod::lemma_mod_multiples_vanish;
use vstd::arithmetic::div_mod::lemma_mul_mod_noop_general;
use vstd::arithmetic::div_mod::lemma_add_mod_noop;
use vstd::arithmetic::power2::lemma2_to64;
use vstd::arithmetic::power2::lemma2_to64_rest;
use vstd::arithmetic::power2::lemma_pow2_adds;
use vstd::arithmetic::power2::lemma_pow2_pos;
use vstd::arithmetic::power2::pow2;
use crate::definition::MODULUS;

verus! {

/// An unsigned integer type that serves as a digit.
pub trait Digit: Copy + Sized {
    /// The width of the digit in bits: 8, 16, 32 or 64.
    spec fn bits() -> nat;

    /// The digit as a number.
    spec fn as_nat(self) -> nat;

    /// The width is one of those that divide 64.
    proof fn lemma_bits()
        ensures
            Self::bits() == 8 || Self::bits() == 16 || Self::bits() == 32 || Self::bits() == 64,
    ;

    /// A digit is below `2^bits()`.
    proof fn lemma_digit(d: Self)
        ensures
            d.as_nat() < pow2(Self::bits()),
    ;

    /// The width of the digit in bits.
    fn width() -> (w: u32)
        ensures
            w == Self::bits(),
    ;

    /// The digit, widened to 64 bits.
    fn widen(self) -> (v: u64)
        ensures
            v == self.as_nat(),
    ;
}

impl Digit for u8 {
    open spec fn bits() -> nat {
        8
    }

    open spec fn as_nat(self) -> nat {
        self as nat
    }

    proof fn lemma_bits() {
    }

    proof fn lemma_digit(d: Self) {
        lemma2_to64();
    }

    fn width() -> (w: u32) {
        8
    }

    fn widen(self) -> (v: u64) {
        self as u64
    }
}

impl Digit for u16 {
    open spec fn bits() -> nat {
        16
    }

    open spec fn as_nat(self) -> nat {
        self as nat
    }

    proof fn lemma_bits() {
    }

    proof fn lemma_digit(d: Self) {
        lemma2_to64();
    }

    fn width() -> (w: u32) {
        16
    }

    fn widen(self) -> (v: u64) {
        self as u64
    }
}

impl Digit for u32 {
    open spec fn bits() -> nat {
        32
    }

    open spec fn as_nat(self) -> nat {
        self as nat
    }

    proof fn lemma_bits() {
    }

    proof fn lemma_digit(d: Self) {
        lemma2_to64();
    }

    fn width() -> (w: u32) {
        32
    }

    fn widen(self) -> (v: u64) {
        self as u64
    }
}

impl Digit for u64 {
    open spec fn bits() -> nat {
        64
    }

    open spec fn as_nat(self) -> nat {
        self as nat
    }

    proof fn lemma_bits() {
    }

    proof fn lemma_digit(d: Self) {
        lemma2_to64();
        lemma2_to64_rest();
    }

    fn width() -> (w: u32) {
        64
    }

    fn widen(self) -> (v: u64) {
        self
    }
}

impl Digit for usize {
    open spec fn bits() -> nat {
        usize::BITS as nat
    }

    open spec fn as_nat(self) -> nat {
        self as nat
    }

    proof fn lemma_bits() {
    }

    proof fn lemma_digit(d: Self) {
        lemma2_to64();
        lemma2_to64_rest();
    }

    fn width() -> (w: u32) {
        usize::BITS
    }

    fn widen(self) -> (v: u64) {
        self as u64
    }
}

/// The number with the little-endian digits `s`.
pub open spec fn digits_value<D: Digit>(s: Seq<D>) -> nat
    decreases s.len(),
{
    if s.len() == 0 {
        0
    } else {
        s[0].as_nat() + pow2(D::bits()) * digits_value(s.skip(1))
    }
}

/// The number with the little-endian digits `s`, modulo `2^61 - 1`.
pub open spec fn residue<D: Digit>(s: Seq<D>) -> nat {
    digits_value(s) % (MODULUS as nat)
}

/// A number of `n` digits is below `2^(bits * n)`.
pub proof fn lemma_digits_value_bound<D: Digit>(s: Seq<D>)
    ensures
        digits_value(s) < pow2(D::bits() * s.len()),
    decreases s.len(),
{
    if s.len() == 0 {
        lemma2_to64();
    } else {
        let rest = s.skip(1);
        lemma_digits_value_bound(rest);
        D::lemma_digit(s[0]);
        lemma_pow2_adds(D::bits(), D::bits() * rest.len());
        assert(D::bits() + D::bits() * rest.len() == D::bits() * s.len()) by (nonlinear_arith)
            requires
                rest.len() + 1 == s.len(),
        ;
        let b = pow2(D::bits());
        let p = pow2(D::bits() * rest.len());
        let v = digits_value(rest);
        assert(s[0].as_nat() + b * v < b * p) by (nonlinear_arith)
            requires
                s[0].as_nat() < b,
                v < p,
        ;
    }
}

/// Cutting a digit sequence at `k` splits its value: the upper part weighs
/// `2^(bits * k)`.
pub proof fn lemma_digits_value_split<D: Digit>(s: Seq<D>, k: int)
    requires
        0 <= k <= s.len(),
    ensures
        digits_value(s) == digits_value(s.take(k)) + pow2(D::bits() * (k as nat)) * digits_value(
            s.skip(k),
        ),
    decreases k,
{
    if k == 0 {
        lemma2_to64();
        assert(s.skip(0) == s);
        assert(s.take(0).len() == 0);
        assert(D::bits() * 0 == 0) by (nonlinear_arith);
    } else {
        let rest = s.skip(1);
        lemma_digits_value_split(rest, k - 1);
        assert(s.take(k).skip(1) == rest.take(k - 1));
        assert(rest.skip(k - 1) == s.skip(k));
        assert(s.take(k)[0] == s[0]);
        let b = pow2(D::bits());
        let p = pow2(D::bits() * ((k - 1) as nat));
        lemma_pow2_adds(D::bits(), D::bits() * ((k - 1) as nat));
        assert(D::bits() + D::bits() * ((k - 1) as nat) == D::bits() * (k as nat))
            by (nonlinear_arith)
            requires
                k >= 1,
        ;
        let x = digits_value(rest.take(k - 1));
        let y = digits_value(s.skip(k));
        assert(b * (x + p * y) == b * x + (b * p) * y) by (nonlinear_arith);
    }
}

/// `2^61` is one more than the modulus.
pub proof fn lemma_pow2_61()
    ensures
        pow2(61) == MODULUS + 1,
{
    lemma2_to64();
    lemma2_to64_rest();
}

/// Modulo `2^61 - 1`, the exponent of a power of two counts modulo 61.
pub proof fn lemma_pow2_mod(u: nat)
    ensures
        pow2(u) % (MODULUS as nat) == pow2(u % 61) % (MODULUS as nat),
    decreases u,
{
    if u >= 61 {
        let v = (u - 61) as nat;
        lemma_pow2_mod(v);
        lemma_pow2_adds(v, 61);
        lemma_pow2_61();
        assert(pow2(v) * (MODULUS + 1) == MODULUS * pow2(v) + pow2(v)) by (nonlinear_arith);
        lemma_mod_multiples_vanish(pow2(v) as int, pow2(v) as int, MODULUS as int);
        assert(u % 61 == v % 61);
    }
}

/// Congruent factors give congruent weighted sums.
pub proof fn lemma_weighted_congruence(a: int, j: int, k: int, b: int)
    requires
        j % (MODULUS as int) == k % (MODULUS as int),
    ensures
        (a + j * b) % (MODULUS as int) == (a + k * b) % (MODULUS as int),
{
    let m = MODULUS as int;
    lemma_mul_mod_noop_general(j, b, m);
    lemma_mul_mod_noop_general(k, b, m);
    lemma_add_mod_noop(a, j * b, m);
    lemma_add_mod_noop(a, k * b, m);
}

} // verus!
