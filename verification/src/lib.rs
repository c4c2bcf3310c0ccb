//! Arithmetic modulo the Mersenne prime `2^61 - 1`, and the reduction of
//! numbers of any length modulo it.
//!
//! [`M61`] is an integer in which all arithmetic is done modulo `2^61 - 1`.
//! [`M61Reduction`] reduces a slice of unsigned integers, read as the
//! little-endian digits of one number, to an [`M61`].

use vstd::prelude::*;

mod certificate;
pub mod definition;
pub mod digit_sum;
pub mod digits;
pub mod fallback;
pub mod lookup;
pub mod parallelized;
pub mod primality;
pub mod simd;

pub use crate::definition::M61;

verus! {

/// A digit type whose slices the crate reduces.
pub trait Reducible: crate::digits::Digit {
    /// Reduces the number with the digits `s` on the scalar engine.
    fn reduce(s: &[Self]) -> (r: M61)
        ensures
            r@ == crate::digits::residue(s@),
    ;
}

impl Reducible for u8 {
    fn reduce(s: &[u8]) -> (r: M61) {
        crate::fallback::reduce_u8(s)
    }
}

impl Reducible for u16 {
    fn reduce(s: &[u16]) -> (r: M61) {
        crate::fallback::reduce_u16(s)
    }
}

impl Reducible for u32 {
    fn reduce(s: &[u32]) -> (r: M61) {
        crate::fallback::reduce_u32(s)
    }
}

impl Reducible for u64 {
    fn reduce(s: &[u64]) -> (r: M61) {
        crate::fallback::reduce_u64(s)
    }
}

impl Reducible for usize {
    fn reduce(s: &[usize]) -> (r: M61) {
        crate::fallback::reduce_usize(s)
    }
}

/// Makes the reductions available with the dot operator.
pub trait M61Reduction {
    /// The number that `self` stands for, read as little-endian digits.
    spec fn value(&self) -> nat;

    /// Calculates `self mod (2^61 - 1)`, taking `self` for a number whose
    /// digits are stored in little-endian order.
    fn reduce_m61(&self) -> (r: M61)
        ensures
            r@ == self.value() % (crate::definition::MODULUS as nat),
    ;

    /// Calculates `self mod (2^61 - 1)` as [`M61Reduction::reduce_m61`]
    /// does, in chunks that suit at most `max_thread_count` workers.
    fn reduce_m61_parallelized(&self, max_thread_count: usize) -> (r: M61)
        ensures
            r@ == self.value() % (crate::definition::MODULUS as nat),
    ;
}

impl<D: Reducible> M61Reduction for [D] {
    open spec fn value(&self) -> nat {
        crate::digits::digits_value(self@)
    }

    fn reduce_m61(&self) -> (r: M61) {
        D::reduce(self)
    }

    fn reduce_m61_parallelized(&self, max_thread_count: usize) -> (r: M61) {
        crate::parallelized::reduce_chunked(self, max_thread_count, crate::parallelized::THRESHOLD)
    }
}

/// Every reduction of the same digits gives the same element, whichever
/// engine ran it, on super-digits of whatever width, in one piece or in
/// chunks: an element is fixed by the residue that it holds, and each of
/// [`fallback`], [`simd`], [`lookup::Backend`] and [`parallelized`]
/// ensures that its result holds the residue of the digits.
pub proof fn lemma_reductions_agree<D: crate::digits::Digit>(digits: Seq<D>, one: M61, other: M61)
    requires
        one@ == crate::digits::residue(digits),
        other@ == crate::digits::residue(digits),
    ensures
        one == other,
{
    M61::lemma_view_injective(one, other);
}

} // verus!
