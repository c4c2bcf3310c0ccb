//! The residue type [`M61`] and the operations on it.
//!
//! Every value of the type is the least non-negative representative of its
//! class, so two values are equal exactly when they stand for congruent
//! numbers. The contracts below are stated over [`M61::view`], the number
//! that a value holds, and over the plain modular operations [`add_mod`],
//! [`sub_mod`], [`mul_mod`] and [`div_mod`].

use vstd::prelude::*;
use vstd::arithmetic::div_mod::lemma_fundamental_div_mod;
use vstd::arithmetic::div_mod::lemma_mod_multiples_vanish;
use vstd::arithmetic::div_mod::lemma_small_mod;

verus! {

/// The modulus `2^61 - 1`. It doubles as the bit mask that cuts a value
/// down to its lowest 61 bits.
pub const MODULUS: u64 = 0x1FFF_FFFF_FFFF_FFFF;

/// The sum of two residues.
pub open spec fn add_mod(a: nat, b: nat) -> nat {
    (a + b) % (MODULUS as nat)
}

/// The difference of two residues.
pub open spec fn sub_mod(a: nat, b: nat) -> nat {
    ((a as int - b as int) % (MODULUS as int)) as nat
}

/// The product of two residues.
pub open spec fn mul_mod(a: nat, b: nat) -> nat {
    (a * b) % (MODULUS as nat)
}

/// An integer modulo `2^61 - 1`, always held as its least non-negative
/// representative.
#[derive(Clone, Copy, PartialEq, Eq, PartialOrd, Ord, Hash, Debug, Structural)]
pub struct M61(pub(crate) u64);

impl View for M61 {
    type V = nat;

    /// The number that the value holds.
    closed spec fn view(&self) -> nat {
        self.0 as nat
    }
}

impl M61 {
    #[verifier::type_invariant]
    spec fn canonical(self) -> bool {
        self.0 < MODULUS
    }

    /// The element that stands for the class of `n`.
    pub closed spec fn residue(n: int) -> M61 {
        M61((n % (MODULUS as int)) as u64)
    }

    /// The element that stands for `n` holds `n mod (2^61 - 1)`.
    pub broadcast proof fn lemma_residue(n: int)
        ensures
            #[trigger] M61::residue(n)@ == n % (MODULUS as int),
    {
    }

    /// Elements that hold the same number are the same element.
    pub proof fn lemma_view_injective(a: M61, b: M61)
        requires
            a@ == b@,
        ensures
            a == b,
    {
    }

    /// Returns the contained value.
    pub fn get(self) -> (value: u64)
        ensures
            value == self@,
            value < MODULUS,
    {
        proof {
            use_type_invariant(&self);
        }
        self.0
    }
}

impl Default for M61 {
    /// The element zero.
    fn default() -> (r: M61)
        ensures
            r@ == 0,
    {
        M61(0)
    }
}

/// Brings a partially reduced digit sum into the canonical range by at
/// most two subtractions of the modulus.
pub fn final_reduction(x: u64) -> (r: M61)
    requires
        x < 3 * MODULUS,
    ensures
        r@ == x as nat % MODULUS as nat,
{
    let mut x = x;
    if x >= MODULUS {
        x -= MODULUS;
    }
    if x >= MODULUS {
        M61(x - MODULUS)
    } else {
        M61(x)
    }
}

/// `x` splits into its lowest 61 bits and the bits above them.
proof fn lemma_split_u128(x: u128)
    by (bit_vector)
    ensures
        x == (x & 0x1FFF_FFFF_FFFF_FFFF) + (x >> 61) * 0x2000_0000_0000_0000,
        (x & 0x1FFF_FFFF_FFFF_FFFF) <= 0x1FFF_FFFF_FFFF_FFFF,
{
}

/// Adds two elements: one comparison brings the sum back into range.
fn add_impl(a: M61, b: M61) -> (r: M61)
    ensures
        r@ == add_mod(a@, b@),
        r == M61::residue((a@ + b@) as int),
{
    proof {
        use_type_invariant(&a);
        use_type_invariant(&b);
    }
    let x = a.0 + b.0;
    if x >= MODULUS {
        M61(x - MODULUS)
    } else {
        M61(x)
    }
}

/// Subtracts two elements: the modulus is added first, so that the
/// difference does not fall below zero.
fn sub_impl(a: M61, b: M61) -> (r: M61)
    ensures
        r@ == sub_mod(a@, b@),
        r == M61::residue(a@ - b@),
{
    proof {
        use_type_invariant(&a);
        use_type_invariant(&b);
    }
    let x = a.0 + MODULUS - b.0;
    if x >= MODULUS {
        M61(x - MODULUS)
    } else {
        M61(x)
    }
}

/// Multiplies two elements: the product of 122 bits is folded at bit 61,
/// where `2^61` counts as 1, and one comparison brings it back into range.
fn mul_impl(a: M61, b: M61) -> (r: M61)
    ensures
        r@ == mul_mod(a@, b@),
        r == M61::residue((a@ * b@) as int),
{
    proof {
        use_type_invariant(&a);
        use_type_invariant(&b);
    }
    assert(a.0 * b.0 <= (MODULUS - 1) * (MODULUS - 1)) by (nonlinear_arith)
        requires
            a.0 < MODULUS,
            b.0 < MODULUS,
    ;
    let x = a.0 as u128 * b.0 as u128;
    let hi = (x >> 61) as u64;
    let lo = (x & (MODULUS as u128)) as u64;
    proof {
        lemma_split_u128(x);
        lemma_mod_multiples_vanish(hi as int, (lo + hi) as int, MODULUS as int);
    }
    let sum = lo + hi;
    if sum < MODULUS {
        M61(sum)
    } else {
        M61(sum - MODULUS)
    }
}

impl core::ops::Add for M61 {
    type Output = M61;

    /// The sum modulo `2^61 - 1`.
    fn add(self, rhs: M61) -> (r: M61)
        ensures
            r@ == add_mod(self@, rhs@),
    {
        add_impl(self, rhs)
    }
}

impl vstd::std_specs::ops::AddSpecImpl for M61 {
    open spec fn obeys_add_spec() -> bool {
        true
    }

    open spec fn add_req(self, rhs: M61) -> bool {
        true
    }

    open spec fn add_spec(self, rhs: M61) -> M61 {
        M61::residue((self@ + rhs@) as int)
    }
}

impl<'a> core::ops::Add<&'a M61> for M61 {
    type Output = M61;

    /// The sum modulo `2^61 - 1`.
    fn add(self, rhs: &'a M61) -> (r: M61)
        ensures
            r@ == add_mod(self@, rhs@),
    {
        add_impl(self, *rhs)
    }
}

impl<'a> vstd::std_specs::ops::AddSpecImpl<&'a M61> for M61 {
    open spec fn obeys_add_spec() -> bool {
        true
    }

    open spec fn add_req(self, rhs: &'a M61) -> bool {
        true
    }

    open spec fn add_spec(self, rhs: &'a M61) -> M61 {
        M61::residue((self@ + rhs@) as int)
    }
}

impl core::ops::AddAssign for M61 {
    /// Replaces `self` by the sum modulo `2^61 - 1`.
    fn add_assign(&mut self, rhs: M61)
        ensures
            final(self)@ == add_mod(old(self)@, rhs@),
    {
        *self = add_impl(*self, rhs);
    }
}

impl<'a> core::ops::AddAssign<&'a M61> for M61 {
    /// Replaces `self` by the sum modulo `2^61 - 1`.
    fn add_assign(&mut self, rhs: &'a M61)
        ensures
            final(self)@ == add_mod(old(self)@, rhs@),
    {
        *self = add_impl(*self, *rhs);
    }
}

impl core::ops::Sub for M61 {
    type Output = M61;

    /// The difference modulo `2^61 - 1`.
    fn sub(self, rhs: M61) -> (r: M61)
        ensures
            r@ == sub_mod(self@, rhs@),
    {
        sub_impl(self, rhs)
    }
}

impl vstd::std_specs::ops::SubSpecImpl for M61 {
    open spec fn obeys_sub_spec() -> bool {
        true
    }

    open spec fn sub_req(self, rhs: M61) -> bool {
        true
    }

    open spec fn sub_spec(self, rhs: M61) -> M61 {
        M61::residue(self@ - rhs@)
    }
}

impl<'a> core::ops::Sub<&'a M61> for M61 {
    type Output = M61;

    /// The difference modulo `2^61 - 1`.
    fn sub(self, rhs: &'a M61) -> (r: M61)
        ensures
            r@ == sub_mod(self@, rhs@),
    {
        sub_impl(self, *rhs)
    }
}

impl<'a> vstd::std_specs::ops::SubSpecImpl<&'a M61> for M61 {
    open spec fn obeys_sub_spec() -> bool {
        true
    }

    open spec fn sub_req(self, rhs: &'a M61) -> bool {
        true
    }

    open spec fn sub_spec(self, rhs: &'a M61) -> M61 {
        M61::residue(self@ - rhs@)
    }
}

impl core::ops::SubAssign for M61 {
    /// Replaces `self` by the difference modulo `2^61 - 1`.
    fn sub_assign(&mut self, rhs: M61)
        ensures
            final(self)@ == sub_mod(old(self)@, rhs@),
    {
        *self = sub_impl(*self, rhs);
    }
}

impl<'a> core::ops::SubAssign<&'a M61> for M61 {
    /// Replaces `self` by the difference modulo `2^61 - 1`.
    fn sub_assign(&mut self, rhs: &'a M61)
        ensures
            final(self)@ == sub_mod(old(self)@, rhs@),
    {
        *self = sub_impl(*self, *rhs);
    }
}

impl core::ops::Mul for M61 {
    type Output = M61;

    /// The product modulo `2^61 - 1`.
    fn mul(self, rhs: M61) -> (r: M61)
        ensures
            r@ == mul_mod(self@, rhs@),
    {
        mul_impl(self, rhs)
    }
}

impl vstd::std_specs::ops::MulSpecImpl for M61 {
    open spec fn obeys_mul_spec() -> bool {
        true
    }

    open spec fn mul_req(self, rhs: M61) -> bool {
        true
    }

    open spec fn mul_spec(self, rhs: M61) -> M61 {
        M61::residue((self@ * rhs@) as int)
    }
}

impl<'a> core::ops::Mul<&'a M61> for M61 {
    type Output = M61;

    /// The product modulo `2^61 - 1`.
    fn mul(self, rhs: &'a M61) -> (r: M61)
        ensures
            r@ == mul_mod(self@, rhs@),
    {
        mul_impl(self, *rhs)
    }
}

impl<'a> vstd::std_specs::ops::MulSpecImpl<&'a M61> for M61 {
    open spec fn obeys_mul_spec() -> bool {
        true
    }

    open spec fn mul_req(self, rhs: &'a M61) -> bool {
        true
    }

    open spec fn mul_spec(self, rhs: &'a M61) -> M61 {
        M61::residue((self@ * rhs@) as int)
    }
}

impl core::ops::MulAssign for M61 {
    /// Replaces `self` by the product modulo `2^61 - 1`.
    fn mul_assign(&mut self, rhs: M61)
        ensures
            final(self)@ == mul_mod(old(self)@, rhs@),
    {
        *self = mul_impl(*self, rhs);
    }
}

impl<'a> core::ops::MulAssign<&'a M61> for M61 {
    /// Replaces `self` by the product modulo `2^61 - 1`.
    fn mul_assign(&mut self, rhs: &'a M61)
        ensures
            final(self)@ == mul_mod(old(self)@, rhs@),
    {
        *self = mul_impl(*self, *rhs);
    }
}

/// The sum of the elements, folded from zero.
pub open spec fn sum_mod(items: Seq<M61>) -> nat
    decreases items.len(),
{
    if items.len() == 0 {
        0
    } else {
        add_mod(sum_mod(items.drop_last()), items.last()@)
    }
}

/// The product of the elements, folded from one.
pub open spec fn product_mod(items: Seq<M61>) -> nat
    decreases items.len(),
{
    if items.len() == 0 {
        1
    } else {
        mul_mod(product_mod(items.drop_last()), items.last()@)
    }
}

impl M61 {
    /// Adds up the elements of a slice.
    pub fn sum(items: &[M61]) -> (r: M61)
        ensures
            r@ == sum_mod(items@),
    {
        let mut acc = M61(0);
        let mut i: usize = 0;
        while i < items.len()
            invariant
                i <= items.len(),
                acc@ == sum_mod(items@.take(i as int)),
            decreases items.len() - i,
        {
            proof {
                assert(items@.take(i + 1).drop_last() == items@.take(i as int));
            }
            acc = add_impl(acc, items[i]);
            i += 1;
        }
        proof {
            assert(items@.take(i as int) == items@);
        }
        acc
    }

    /// Multiplies the elements of a slice.
    pub fn product(items: &[M61]) -> (r: M61)
        ensures
            r@ == product_mod(items@),
    {
        let mut acc = M61(1);
        let mut i: usize = 0;
        while i < items.len()
            invariant
                i <= items.len(),
                acc@ == product_mod(items@.take(i as int)),
            decreases items.len() - i,
        {
            proof {
                assert(items@.take(i + 1).drop_last() == items@.take(i as int));
            }
            acc = mul_impl(acc, items[i]);
            i += 1;
        }
        proof {
            assert(items@.take(i as int) == items@);
        }
        acc
    }
}

/// `x` splits into its lowest 61 bits and the three bits above them.
proof fn lemma_split_u64(x: u64)
    by (bit_vector)
    ensures
        x == (x & 0x1FFF_FFFF_FFFF_FFFF) + (x >> 61) * 0x2000_0000_0000_0000,
        (x & 0x1FFF_FFFF_FFFF_FFFF) <= 0x1FFF_FFFF_FFFF_FFFF,
        (x >> 61) <= 7,
{
}

/// `x` splits into two segments of 61 bits and the six bits above them.
proof fn lemma_segments_u128(x: u128)
    by (bit_vector)
    ensures
        x == (x & 0x1FFF_FFFF_FFFF_FFFF) + ((x >> 61) & 0x1FFF_FFFF_FFFF_FFFF)
            * 0x2000_0000_0000_0000 + (x >> 122) * 0x400_0000_0000_0000_0000_0000_0000_0000,
        (x & 0x1FFF_FFFF_FFFF_FFFF) <= 0x1FFF_FFFF_FFFF_FFFF,
        ((x >> 61) & 0x1FFF_FFFF_FFFF_FFFF) <= 0x1FFF_FFFF_FFFF_FFFF,
        (x >> 122) <= 63,
{
}

impl From<u8> for M61 {
    /// The residue of `value`: the least non-negative number congruent to
    /// it.
    fn from(value: u8) -> (r: M61)
        ensures
            r@ == value as int % (MODULUS as int),
    {
        M61(value as u64)
    }
}

impl vstd::std_specs::convert::FromSpecImpl<u8> for M61 {
    open spec fn obeys_from_spec() -> bool {
        true
    }

    open spec fn from_spec(v: u8) -> M61 {
        M61::residue(v as int)
    }
}

impl From<u16> for M61 {
    /// The residue of `value`: the least non-negative number congruent to
    /// it.
    fn from(value: u16) -> (r: M61)
        ensures
            r@ == value as int % (MODULUS as int),
    {
        M61(value as u64)
    }
}

impl vstd::std_specs::convert::FromSpecImpl<u16> for M61 {
    open spec fn obeys_from_spec() -> bool {
        true
    }

    open spec fn from_spec(v: u16) -> M61 {
        M61::residue(v as int)
    }
}

impl From<u32> for M61 {
    /// The residue of `value`: the least non-negative number congruent to
    /// it.
    fn from(value: u32) -> (r: M61)
        ensures
            r@ == value as int % (MODULUS as int),
    {
        M61(value as u64)
    }
}

impl vstd::std_specs::convert::FromSpecImpl<u32> for M61 {
    open spec fn obeys_from_spec() -> bool {
        true
    }

    open spec fn from_spec(v: u32) -> M61 {
        M61::residue(v as int)
    }
}

impl From<u64> for M61 {
    /// The residue of `value`: the least non-negative number congruent to
    /// it.
    fn from(value: u64) -> (r: M61)
        ensures
            r@ == value as int % (MODULUS as int),
    {
        proof {
            lemma_split_u64(value);
        }
        let tmp = (value & MODULUS) + (value >> 61);
        proof {
            lemma_mod_multiples_vanish((value >> 61) as int, tmp as int, MODULUS as int);
        }
        if tmp >= MODULUS {
            M61(tmp - MODULUS)
        } else {
            M61(tmp)
        }
    }
}

impl vstd::std_specs::convert::FromSpecImpl<u64> for M61 {
    open spec fn obeys_from_spec() -> bool {
        true
    }

    open spec fn from_spec(v: u64) -> M61 {
        M61::residue(v as int)
    }
}

impl From<usize> for M61 {
    /// The residue of `value`: the least non-negative number congruent to
    /// it.
    fn from(value: usize) -> (r: M61)
        ensures
            r@ == value as int % (MODULUS as int),
    {
        M61::from(value as u64)
    }
}

impl vstd::std_specs::convert::FromSpecImpl<usize> for M61 {
    open spec fn obeys_from_spec() -> bool {
        true
    }

    open spec fn from_spec(v: usize) -> M61 {
        M61::residue(v as int)
    }
}

impl From<u128> for M61 {
    /// The residue of `value`: the least non-negative number congruent to
    /// it.
    fn from(value: u128) -> (r: M61)
        ensures
            r@ == value as int % (MODULUS as int),
    {
        proof {
            lemma_segments_u128(value);
        }
        let lo = (value & (MODULUS as u128)) as u64;
        let mid = ((value >> 61) & (MODULUS as u128)) as u64;
        let top = (value >> 122) as u64;
        let r = M61::from(lo + mid + top);
        proof {
            // 2^61 == m + 1 and 2^122 == m * (m + 2) + 1
            let k = mid + top * (MODULUS + 2);
            assert(value == MODULUS * k + (lo + mid + top)) by (nonlinear_arith)
                requires
                    value == lo + mid * 0x2000_0000_0000_0000 + top
                        * 0x400_0000_0000_0000_0000_0000_0000_0000,
                    k == mid + top * (MODULUS + 2),
                    MODULUS == 0x1FFF_FFFF_FFFF_FFFF,
            ;
            lemma_mod_multiples_vanish(k, (lo + mid + top) as int, MODULUS as int);
            assert(r@ == value as int % (MODULUS as int));
        }
        r
    }
}

impl vstd::std_specs::convert::FromSpecImpl<u128> for M61 {
    open spec fn obeys_from_spec() -> bool {
        true
    }

    open spec fn from_spec(v: u128) -> M61 {
        M61::residue(v as int)
    }
}

impl From<i8> for M61 {
    /// The residue of `value`: the least non-negative number congruent to
    /// it.
    fn from(value: i8) -> (r: M61)
        ensures
            r@ == value as int % (MODULUS as int),
    {
        if value < 0 {
            M61((value as i64 + MODULUS as i64) as u64)
        } else {
            M61(value as u64)
        }
    }
}

impl vstd::std_specs::convert::FromSpecImpl<i8> for M61 {
    open spec fn obeys_from_spec() -> bool {
        true
    }

    open spec fn from_spec(v: i8) -> M61 {
        M61::residue(v as int)
    }
}

impl From<i16> for M61 {
    /// The residue of `value`: the least non-negative number congruent to
    /// it.
    fn from(value: i16) -> (r: M61)
        ensures
            r@ == value as int % (MODULUS as int),
    {
        if value < 0 {
            M61((value as i64 + MODULUS as i64) as u64)
        } else {
            M61(value as u64)
        }
    }
}

impl vstd::std_specs::convert::FromSpecImpl<i16> for M61 {
    open spec fn obeys_from_spec() -> bool {
        true
    }

    open spec fn from_spec(v: i16) -> M61 {
        M61::residue(v as int)
    }
}

impl From<i32> for M61 {
    /// The residue of `value`: the least non-negative number congruent to
    /// it.
    fn from(value: i32) -> (r: M61)
        ensures
            r@ == value as int % (MODULUS as int),
    {
        if value < 0 {
            M61((value as i64 + MODULUS as i64) as u64)
        } else {
            M61(value as u64)
        }
    }
}

impl vstd::std_specs::convert::FromSpecImpl<i32> for M61 {
    open spec fn obeys_from_spec() -> bool {
        true
    }

    open spec fn from_spec(v: i32) -> M61 {
        M61::residue(v as int)
    }
}

impl From<i64> for M61 {
    /// The residue of `value`: the least non-negative number congruent to
    /// it.
    fn from(value: i64) -> (r: M61)
        ensures
            r@ == value as int % (MODULUS as int),
    {
        let mut shifted = value;
        if shifted < 0 {
            shifted = shifted + 4 * (MODULUS as i64);
        }
        if shifted < 0 {
            shifted = shifted + MODULUS as i64;
        }
        proof {
            let k: int = if value >= 0 {
                0
            } else if value + 4 * MODULUS >= 0 {
                4
            } else {
                5
            };
            assert(shifted == MODULUS * k + value);
            lemma_mod_multiples_vanish(k, value as int, MODULUS as int);
        }
        M61::from(shifted as u64)
    }
}

impl vstd::std_specs::convert::FromSpecImpl<i64> for M61 {
    open spec fn obeys_from_spec() -> bool {
        true
    }

    open spec fn from_spec(v: i64) -> M61 {
        M61::residue(v as int)
    }
}

impl From<isize> for M61 {
    /// The residue of `value`: the least non-negative number congruent to
    /// it.
    fn from(value: isize) -> (r: M61)
        ensures
            r@ == value as int % (MODULUS as int),
    {
        M61::from(value as i64)
    }
}

impl vstd::std_specs::convert::FromSpecImpl<isize> for M61 {
    open spec fn obeys_from_spec() -> bool {
        true
    }

    open spec fn from_spec(v: isize) -> M61 {
        M61::residue(v as int)
    }
}

/// `16 * (2^122 - 1)`, a multiple of the modulus just below `2^126`.
const SHIFT_I128: i128 = 0x3FFF_FFFF_FFFF_FFFF_FFFF_FFFF_FFFF_FFF0;

impl From<i128> for M61 {
    /// The residue of `value`: the least non-negative number congruent to
    /// it.
    fn from(value: i128) -> (r: M61)
        ensures
            r@ == value as int % (MODULUS as int),
    {
        let mut shifted = value;
        let ghost mut k: int = 0;
        while shifted < 0
            invariant
                k >= 0,
                shifted == value + k * SHIFT_I128,
            decreases (if shifted < 0 { -shifted } else { 0 }),
        {
            proof {
                assert((k + 1) * SHIFT_I128 == k * SHIFT_I128 + SHIFT_I128) by (nonlinear_arith);
                k = k + 1;
            }
            shifted = shifted + SHIFT_I128;
        }
        proof {
            // SHIFT_I128 == m * 16 * (2^61 + 1)
            let c = k * (16 * 0x2000_0000_0000_0001);
            assert(MODULUS * c == k * SHIFT_I128) by (nonlinear_arith)
                requires
                    c == k * (16 * 0x2000_0000_0000_0001),
                    SHIFT_I128 == MODULUS * (16 * 0x2000_0000_0000_0001),
            ;
            lemma_mod_multiples_vanish(c, value as int, MODULUS as int);
        }
        M61::from(shifted as u128)
    }
}

impl vstd::std_specs::convert::FromSpecImpl<i128> for M61 {
    open spec fn obeys_from_spec() -> bool {
        true
    }

    open spec fn from_spec(v: i128) -> M61 {
        M61::residue(v as int)
    }
}

/// `w` is the multiplicative inverse of `b`.
pub open spec fn is_inverse(b: nat, w: nat) -> bool {
    w < MODULUS && mul_mod(b, w) == 1
}

/// `b` has a multiplicative inverse.
pub open spec fn is_unit(b: nat) -> bool {
    exists|w: nat| is_inverse(b, w)
}

/// The multiplicative inverse of `b`, where it has one.
pub open spec fn inv_mod(b: nat) -> nat {
    choose|w: nat| is_inverse(b, w)
}

/// The quotient of two residues: the dividend times the inverse of the
/// divisor.
pub open spec fn div_mod(a: nat, b: nat) -> nat {
    mul_mod(a, inv_mod(b))
}

/// A residue has at most one inverse.
pub proof fn lemma_inverse_unique(b: nat, v: nat, w: nat)
    requires
        is_inverse(b, v),
        is_inverse(b, w),
    ensures
        v == w,
{
    let m = MODULUS as int;
    // v == v * (b * w) == (v * b) * w == w, all modulo m
    assert(((v * (b * w)) as int) % m == v) by {
        vstd::arithmetic::div_mod::lemma_mul_mod_noop_right(v as int, (b * w) as int, m);
        lemma_small_mod(v, MODULUS as nat);
    }
    assert((((b * v) * w) as int) % m == w) by {
        vstd::arithmetic::div_mod::lemma_mul_mod_noop_left((b * v) as int, w as int, m);
        lemma_small_mod(w, MODULUS as nat);
    }
    assert(v * (b * w) == (b * v) * w) by (nonlinear_arith);
}

/// The extended Euclidean algorithm on the modulus and `b`: returns the
/// coefficient `t` of the identity of Bezout, `m * s + b * t == 1`.
fn bezout(b: u64) -> (t: i64)
    requires
        0 < b < MODULUS,
    ensures
        (b * t) % (MODULUS as int) == 1,
{
    let mut r0: u64 = MODULUS;
    let mut r1: u64 = b;
    let mut t0: i64 = 0;
    let mut t1: i64 = 1;
    // The other coefficient and the magnitudes of both exist for the proof
    // only: `sign` alternates, `t0 == -sign * mt0`, `t1 == sign * mt1`,
    // `s0 == sign * ms0` and `s1 == -sign * ms1`.
    let ghost mut s0: int = 1;
    let ghost mut s1: int = 0;
    let ghost mut sign: int = 1;
    let ghost mut mt0: int = 0;
    let ghost mut mt1: int = 1;
    let ghost mut ms0: int = 1;
    let ghost mut ms1: int = 0;

    while r1 != 0
        invariant
            0 < r0 <= MODULUS,
            r1 < r0,
            sign == 1 || sign == -1,
            mt0 >= 0,
            mt1 >= 0,
            ms0 >= 0,
            ms1 >= 0,
            t0 == -sign * mt0,
            t1 == sign * mt1,
            s0 == sign * ms0,
            s1 == -sign * ms1,
            r0 * mt1 + r1 * mt0 == MODULUS,
            r0 * ms1 + r1 * ms0 == b,
            r0 == MODULUS * s0 + b * t0,
            r1 == MODULUS * s1 + b * t1,
        decreases r1,
    {
        let q = r0 / r1;
        let rn = r0 % r1;
        proof {
            lemma_fundamental_div_mod(r0 as int, r1 as int);
        }
        let ghost mtn = mt0 + q * mt1;
        let ghost msn = ms0 + q * ms1;
        proof {
            assert(r1 * mtn + rn * mt1 == MODULUS && q * mt1 >= 0 && mtn <= MODULUS && q * mt1
                <= MODULUS) by (nonlinear_arith)
                requires
                    r0 == r1 * q + rn,
                    r0 * mt1 + r1 * mt0 == MODULUS,
                    mtn == mt0 + q * mt1,
                    r1 >= 1,
                    rn >= 0,
                    q >= 0,
                    mt0 >= 0,
                    mt1 >= 0,
            ;
            assert(r1 * msn + rn * ms1 == b && msn >= 0) by (nonlinear_arith)
                requires
                    r0 == r1 * q + rn,
                    r0 * ms1 + r1 * ms0 == b,
                    msn == ms0 + q * ms1,
                    q >= 0,
                    ms0 >= 0,
                    ms1 >= 0,
            ;
            assert(mt0 <= MODULUS) by (nonlinear_arith)
                requires
                    r0 * mt1 + r1 * mt0 == MODULUS,
                    r1 >= 1,
                    r0 >= 1,
                    mt0 >= 0,
                    mt1 >= 0,
            ;
            assert(-MODULUS <= q * t1 <= MODULUS && -MODULUS <= t0 <= MODULUS && -MODULUS <= t0 - q
                * t1 <= MODULUS) by (nonlinear_arith)
                requires
                    sign == 1 || sign == -1,
                    t1 == sign * mt1,
                    t0 == -sign * mt0,
                    0 <= q * mt1 <= MODULUS,
                    0 <= mt0 <= MODULUS,
                    mtn == mt0 + q * mt1,
                    mtn <= MODULUS,
            ;
        }
        let tn = t0 - q as i64 * t1;
        proof {
            let sn = s0 - q * s1;
            assert(sn == sign * msn) by (nonlinear_arith)
                requires
                    sn == s0 - q * s1,
                    s0 == sign * ms0,
                    s1 == -sign * ms1,
                    msn == ms0 + q * ms1,
            ;
            assert(tn == -sign * mtn) by (nonlinear_arith)
                requires
                    tn == t0 - q * t1,
                    t0 == -sign * mt0,
                    t1 == sign * mt1,
                    mtn == mt0 + q * mt1,
            ;
            assert(rn == MODULUS * sn + b * tn) by (nonlinear_arith)
                requires
                    r0 == r1 * q + rn,
                    r0 == MODULUS * s0 + b * t0,
                    r1 == MODULUS * s1 + b * t1,
                    sn == s0 - q * s1,
                    tn == t0 - q * t1,
            ;
            s0 = s1;
            s1 = sn;
            ms0 = ms1;
            ms1 = msn;
            mt0 = mt1;
            mt1 = mtn;
            sign = -sign;
        }
        r0 = r1;
        r1 = rn;
        t0 = t1;
        t1 = tn;
    }
    proof {
        crate::primality::lemma_nonzero_is_unit(b as nat);
        // A residue other than zero has an inverse `w`, since the modulus is
        // prime.
        let w = choose|w: nat| is_inverse(b as nat, w);
        let m = MODULUS as int;
        lemma_fundamental_div_mod(b * w, m);
        let k = (b * w) / m;
        // The last remainder divides both the modulus and `b`, so it
        // divides `b * w - k * m == 1`.
        assert(r0 == 1) by (nonlinear_arith)
            requires
                r0 * mt1 == m,
                r0 * ms1 == b,
                b * w == m * k + 1,
                r0 >= 1,
        {
            assert(r0 * (ms1 * w - mt1 * k) == 1);
        }
        // The identity of Bezout: m * s0 + b * t0 == 1.
        assert(MODULUS * s0 + b * t0 == 1);
        assert(b * t0 == m * (-s0) + 1) by (nonlinear_arith)
            requires
                m * s0 + b * t0 == 1,
        ;
        lemma_mod_multiples_vanish(-s0, 1, m);
    }
    t0
}

/// What goes wrong in the arithmetic of residues.
#[derive(Clone, Copy, PartialEq, Eq, Debug, Structural)]
pub enum ArithmeticError {
    /// The divisor is zero.
    DivisionByZero,
}

/// Every residue but zero is a unit, and its inverse is [`inv_mod`].
pub proof fn lemma_inv_mod_nonzero(b: nat)
    requires
        0 < b < MODULUS,
    ensures
        is_inverse(b, inv_mod(b)),
{
    crate::primality::lemma_nonzero_is_unit(b);
}

/// The quotient times the divisor is the dividend.
pub proof fn lemma_div_mod(a: nat, b: nat)
    requires
        a < MODULUS,
        0 < b < MODULUS,
    ensures
        div_mod(a, b) < MODULUS,
        mul_mod(div_mod(a, b), b) == a,
{
    let m = MODULUS as int;
    let w = inv_mod(b);
    lemma_inv_mod_nonzero(b);
    // ((a * w) % m * b) % m == (a * ((b * w) % m)) % m == a
    vstd::arithmetic::div_mod::lemma_mul_mod_noop_left((a * w) as int, b as int, m);
    vstd::arithmetic::div_mod::lemma_mul_mod_noop_right(a as int, (b * w) as int, m);
    assert((a * w) * b == a * (b * w)) by (nonlinear_arith);
    assert(a * 1 == a);
    lemma_small_mod(a, MODULUS as nat);
}

/// Divides two elements: multiplies the dividend by the inverse of the
/// divisor.
fn div_impl(a: M61, b: M61) -> (r: M61)
    requires
        b@ != 0,
    ensures
        r@ == div_mod(a@, b@),
        mul_mod(r@, b@) == a@,
        r == M61::residue(div_mod(a@, b@) as int),
{
    proof {
        use_type_invariant(&a);
        use_type_invariant(&b);
    }
    let t = bezout(b.0);
    let inverse = M61::from(t);
    proof {
        let m = MODULUS as int;
        vstd::arithmetic::div_mod::lemma_mul_mod_noop_right(b.0 as int, t as int, m);
        assert(is_inverse(b@, inverse@));
        lemma_inv_mod_nonzero(b@);
        lemma_inverse_unique(b@, inverse@, inv_mod(b@));
        lemma_div_mod(a@, b@);
    }
    mul_impl(a, inverse)
}

impl M61 {
    /// The quotient modulo `2^61 - 1`, or the error that the divisor is
    /// zero.
    pub fn checked_div(self, rhs: M61) -> (r: Result<M61, ArithmeticError>)
        ensures
            rhs@ == 0 <==> r == Err::<M61, ArithmeticError>(ArithmeticError::DivisionByZero),
            rhs@ != 0 ==> r.is_ok() && r.unwrap()@ == div_mod(self@, rhs@) && mul_mod(
                r.unwrap()@,
                rhs@,
            ) == self@,
    {
        if rhs.0 == 0 {
            Err(ArithmeticError::DivisionByZero)
        } else {
            Ok(div_impl(self, rhs))
        }
    }
}

impl core::ops::Div for M61 {
    type Output = M61;

    /// The quotient modulo `2^61 - 1`. The divisor is not zero.
    fn div(self, rhs: M61) -> (r: M61)
        ensures
            r@ == div_mod(self@, rhs@),
            mul_mod(r@, rhs@) == self@,
    {
        div_impl(self, rhs)
    }
}

impl vstd::std_specs::ops::DivSpecImpl for M61 {
    open spec fn obeys_div_spec() -> bool {
        true
    }

    open spec fn div_req(self, rhs: M61) -> bool {
        rhs@ != 0
    }

    open spec fn div_spec(self, rhs: M61) -> M61 {
        M61::residue(div_mod(self@, rhs@) as int)
    }
}

impl<'a> core::ops::Div<&'a M61> for M61 {
    type Output = M61;

    /// The quotient modulo `2^61 - 1`. The divisor is not zero.
    fn div(self, rhs: &'a M61) -> (r: M61)
        ensures
            r@ == div_mod(self@, rhs@),
            mul_mod(r@, rhs@) == self@,
    {
        div_impl(self, *rhs)
    }
}

impl<'a> vstd::std_specs::ops::DivSpecImpl<&'a M61> for M61 {
    open spec fn obeys_div_spec() -> bool {
        true
    }

    open spec fn div_req(self, rhs: &'a M61) -> bool {
        rhs@ != 0
    }

    open spec fn div_spec(self, rhs: &'a M61) -> M61 {
        M61::residue(div_mod(self@, rhs@) as int)
    }
}

impl core::ops::DivAssign for M61 {
    /// Replaces `self` by the quotient modulo `2^61 - 1`. The divisor is not
    /// zero.
    fn div_assign(&mut self, rhs: M61)
        requires
            rhs@ != 0,
        ensures
            final(self)@ == div_mod(old(self)@, rhs@),
            mul_mod(final(self)@, rhs@) == old(self)@,
    {
        *self = div_impl(*self, rhs);
    }
}

impl<'a> core::ops::DivAssign<&'a M61> for M61 {
    /// Replaces `self` by the quotient modulo `2^61 - 1`. The divisor is not
    /// zero.
    fn div_assign(&mut self, rhs: &'a M61)
        requires
            rhs@ != 0,
        ensures
            final(self)@ == div_mod(old(self)@, rhs@),
            mul_mod(final(self)@, rhs@) == old(self)@,
    {
        *self = div_impl(*self, *rhs);
    }
}

/// Addition is commutative.
pub proof fn lemma_add_commutative(a: M61, b: M61)
    ensures
        add_mod(a@, b@) == add_mod(b@, a@),
{
}

/// Addition is associative.
pub proof fn lemma_add_associative(a: M61, b: M61, c: M61)
    ensures
        add_mod(add_mod(a@, b@), c@) == add_mod(a@, add_mod(b@, c@)),
{
    let m = MODULUS as int;
    vstd::arithmetic::div_mod::lemma_add_mod_noop_right(c@ as int, (a@ + b@) as int, m);
    vstd::arithmetic::div_mod::lemma_add_mod_noop_right(a@ as int, (b@ + c@) as int, m);
}

/// Zero is the neutral element of addition.
pub proof fn lemma_add_zero(a: M61)
    requires
        a@ < MODULUS,
    ensures
        add_mod(a@, 0) == a@,
{
}

/// One is the neutral element of multiplication.
pub proof fn lemma_mul_one(a: M61)
    requires
        a@ < MODULUS,
    ensures
        mul_mod(a@, 1) == a@,
{
    assert(a@ * 1 == a@);
}

/// Division undoes multiplication: for a divisor other than zero, the
/// quotient times the divisor is the dividend.
pub proof fn lemma_div_mul(a: M61, b: M61)
    requires
        a@ < MODULUS,
        0 < b@ < MODULUS,
    ensures
        mul_mod(div_mod(a@, b@), b@) == a@,
{
    lemma_div_mod(a@, b@);
}

} // verus!
