//! The reduction of a long digit sequence in chunks.
//!
//! A number with the digits `a_i` in base `b` splits into
//! ```text
//!        a_0 + b a_1 + ... + b^(k - 1) a_(k - 1)
//! + b^k (a_k + b a_(k + 1) + ... + b^(k - 1) a_(2 k - 1))
//! + ...
//! ```
//! so the chunks of `k` digits can be reduced independently of each other,
//! and the results add up once each is multiplied by the weight of its
//! place. Since `b` is a power of two and `2^61` is congruent to 1, the
//! weight of a place is a power of two whose exponent is below 61.
//!
//! The chunk at index 0 holds the least significant digits. All chunks
//! have the same length but the last one, which takes the digits that are
//! left and so is at least as long. This module plans the chunks, reduces
//! them one after the other, and combines the results. A program that
//! wants the chunks reduced at the same time takes a [`ChunkPlan`], hands
//! each range of it to a worker, and passes what the workers return to
//! [`combine`]; [`lemma_chunks_recombine`] says that the outcome is the
//! residue of the whole sequence.

use vstd::prelude::*;
use vstd::arithmetic::div_mod::lemma_add_mod_noop;
use vstd::arithmetic::div_mod::lemma_mul_mod_noop_general;
use vstd::arithmetic::div_mod::lemma_small_mod;
use vstd::arithmetic::power::pow;
use vstd::arithmetic::power2::lemma_pow2_adds;
use vstd::arithmetic::power2::pow2;
use vstd::slice::slice_subrange;
use crate::definition::M61;
use crate::definition::MODULUS;
use crate::digits::digits_value;
use crate::digits::lemma_digits_value_split;
use crate::digits::lemma_pow2_mod;
use crate::digits::residue;
use crate::digits::Digit;
use crate::Reducible;

verus! {

/// The length from which on a digit sequence is reduced in chunks, and the
/// least length of a chunk.
pub const THRESHOLD: usize = 16384;

/// The number of workers to use: the number that the system offers, or one
/// where it does not say, but no more than the caller allows and no fewer
/// than one.
pub fn clamp_thread_count(available: Option<usize>, max_thread_count: usize) -> (count: usize)
    ensures
        count >= 1,
        count == (if available.unwrap_or(1) <= max_thread_count {
            if available.unwrap_or(1) >= 1 {
                available.unwrap_or(1)
            } else {
                1
            }
        } else if max_thread_count >= 1 {
            max_thread_count
        } else {
            1
        }),
{
    let offered = match available {
        Some(n) => n,
        None => 1,
    };
    let count = if offered < max_thread_count {
        offered
    } else {
        max_thread_count
    };
    if count < 1 {
        1
    } else {
        count
    }
}

/// The length of a chunk for a sequence of `len` digits and `workers`
/// workers: an equal share of the digits, but at least `threshold` digits
/// and at least one.
pub open spec fn chunk_step(len: nat, workers: nat, threshold: nat) -> nat {
    let share = if workers == 0 {
        len
    } else {
        len / workers
    };
    if share >= threshold && share >= 1 {
        share
    } else if threshold >= 1 {
        threshold
    } else {
        1
    }
}

/// The number of chunks for a sequence of `len` digits and `workers`
/// workers: as many chunks of full length as the digits make, but no more
/// than there are workers and no fewer than one.
pub open spec fn chunk_count(len: nat, workers: nat, threshold: nat) -> nat {
    let fit = len / chunk_step(len, workers, threshold);
    if fit < 1 {
        1
    } else if fit > workers {
        if workers >= 1 {
            workers
        } else {
            1
        }
    } else {
        fit
    }
}

/// `count` chunks of `step` digits, the last of which takes what is left,
/// partition `len` digits.
pub open spec fn is_partition(len: nat, step: nat, count: nat) -> bool {
    step >= 1 && count >= 1 && (count - 1) * step <= len
}

/// The index of the first digit of chunk `i`.
pub open spec fn chunk_start(step: nat, i: nat) -> nat {
    i * step
}

/// The index behind the last digit of chunk `i`: every chunk but the last
/// has `step` digits, and the last one ends where the digits end.
pub open spec fn chunk_end(len: nat, step: nat, count: nat, i: nat) -> nat {
    if i + 1 == count {
        len
    } else {
        (i + 1) * step
    }
}

/// The digits of chunk `i`.
pub open spec fn chunk<D: Digit>(s: Seq<D>, step: nat, count: nat, i: nat) -> Seq<D> {
    s.subrange(chunk_start(step, i) as int, chunk_end(s.len(), step, count, i) as int)
}

/// The weight by which the place of a chunk differs from that of the chunk
/// before it.
pub open spec fn chunk_scale<D: Digit>(step: nat) -> nat {
    pow2(D::bits() * step) % (MODULUS as nat)
}

/// The sum of the chunk results, each times the weight of its place: the
/// result at index `i` weighs `scale^i`.
pub open spec fn weighted_sum(partials: Seq<M61>, scale: nat) -> nat
    decreases partials.len(),
{
    if partials.len() == 0 {
        0
    } else {
        ((weighted_sum(partials.drop_last(), scale) + partials.last()@ * pow(
            scale as int,
            (partials.len() - 1) as nat,
        )) % (MODULUS as int)) as nat
    }
}

/// A partition of a digit sequence into chunks: all of one length but the
/// last, which is at least as long where the digits suffice.
#[derive(Clone, Copy, Debug)]
pub struct ChunkPlan {
    len: usize,
    step: usize,
    count: usize,
}

impl ChunkPlan {
    #[verifier::type_invariant]
    spec fn well_formed(self) -> bool {
        is_partition(self.len as nat, self.step as nat, self.count as nat)
    }

    /// The number of digits that the plan is for.
    pub closed spec fn len(self) -> nat {
        self.len as nat
    }

    /// The length of every chunk but the last.
    pub closed spec fn step(self) -> nat {
        self.step as nat
    }

    /// The number of chunks.
    pub closed spec fn chunks(self) -> nat {
        self.count as nat
    }

    /// Plans the chunks for a sequence of `len` digits.
    pub fn new(len: usize, workers: usize, threshold: usize) -> (plan: ChunkPlan)
        ensures
            plan.len() == len,
            plan.step() == chunk_step(len as nat, workers as nat, threshold as nat),
            plan.chunks() == chunk_count(len as nat, workers as nat, threshold as nat),
            is_partition(plan.len(), plan.step(), plan.chunks()),
    {
        let mut step = if workers == 0 {
            len
        } else {
            len / workers
        };
        if step < threshold {
            step = threshold;
        }
        if step < 1 {
            step = 1;
        }
        let mut count = len / step;
        if count > workers {
            count = workers;
        }
        if count < 1 {
            count = 1;
        }
        proof {
            let fit = len / step;
            vstd::arithmetic::div_mod::lemma_fundamental_div_mod(len as int, step as int);
            assert((count - 1) * step <= len) by (nonlinear_arith)
                requires
                    count == 1 || count <= fit,
                    step * fit <= len,
                    step >= 1,
                    count >= 1,
            ;
        }
        ChunkPlan { len, step, count }
    }

    /// The number of chunks.
    pub fn count(&self) -> (count: usize)
        ensures
            count == self.chunks(),
            count >= 1,
    {
        proof {
            use_type_invariant(self);
        }
        self.count
    }

    /// The range of digits that chunk `i` holds: the index of its first
    /// digit, and the index behind its last.
    pub fn range(&self, i: usize) -> (range: (usize, usize))
        requires
            i < self.chunks(),
        ensures
            range.0 == chunk_start(self.step(), i as nat),
            range.1 == chunk_end(self.len(), self.step(), self.chunks(), i as nat),
            range.0 <= range.1 <= self.len(),
    {
        proof {
            use_type_invariant(self);
            lemma_chunk_bounds(self.len as nat, self.step as nat, self.count as nat, i as nat);
            assert((i + 1) * self.step == i * self.step + self.step) by (nonlinear_arith);
        }
        let start = i * self.step;
        let end = if i + 1 == self.count {
            self.len
        } else {
            start + self.step
        };
        (start, end)
    }

    /// The weight by which the place of a chunk differs from that of the
    /// chunk before it, for digits of the type `D`.
    pub fn scale<D: Digit>(&self) -> (scale: M61)
        ensures
            scale@ == chunk_scale::<D>(self.step()),
    {
        let bits = D::width() as usize;
        let turns = self.step % 61;
        proof {
            D::lemma_bits();
            assert(turns * bits <= 60 * 64) by (nonlinear_arith)
                requires
                    turns <= 60,
                    bits <= 64,
            ;
        }
        let exponent = (turns * bits) % 61;
        proof {
            let total = D::bits() * self.step();
            vstd::arithmetic::div_mod::lemma_mul_mod_noop_left(
                self.step as int,
                bits as int,
                61,
            );
            assert(self.step * bits == total) by (nonlinear_arith)
                requires
                    bits == D::bits(),
                    total == D::bits() * self.step(),
                    self.step == self.step(),
            ;
            assert(exponent == total % 61);
            lemma_pow2_mod(total);
            vstd::arithmetic::power2::lemma2_to64();
            vstd::arithmetic::power2::lemma2_to64_rest();
            if exponent < 60 {
                vstd::arithmetic::power2::lemma_pow2_strictly_increases(exponent as nat, 60);
            }
            vstd::bits::lemma_u64_shl_is_mul(1, exponent as u64);
            lemma_small_mod(pow2(exponent as nat), MODULUS as nat);
        }
        M61::from(1u64 << (exponent as u64))
    }
}

/// The chunks of a partition lie side by side in the sequence: each starts
/// where the one before it ends, and the last one ends where the digits
/// end.
pub proof fn lemma_chunk_bounds(len: nat, step: nat, count: nat, i: nat)
    requires
        is_partition(len, step, count),
        i < count,
    ensures
        chunk_start(step, i) <= chunk_end(len, step, count, i) <= len,
        i + 1 < count ==> chunk_end(len, step, count, i) == chunk_start(step, i + 1),
        i + 1 == count ==> chunk_end(len, step, count, i) == len,
{
    assert(i * step <= (count - 1) * step) by (nonlinear_arith)
        requires
            i <= count - 1,
            step >= 1,
    ;
    assert((i + 1) * step == i * step + step) by (nonlinear_arith);
    if i + 1 < count {
        assert((i + 1) * step <= (count - 1) * step) by (nonlinear_arith)
            requires
                i + 1 <= count - 1,
                step >= 1,
        ;
    }
}

/// The powers of the scale are the weights of the places: `scale^i` is
/// congruent to `2^(bits * step * i)`.
pub proof fn lemma_scale_power<D: Digit>(step: nat, i: nat)
    ensures
        pow(chunk_scale::<D>(step) as int, i) % (MODULUS as int) == pow2(D::bits() * (i * step))
            % (MODULUS as nat),
    decreases i,
{
    let m = MODULUS as int;
    let a = D::bits() * step;
    let x = chunk_scale::<D>(step) as int;
    vstd::arithmetic::power::lemma_pow0(x);
    vstd::arithmetic::power2::lemma2_to64();
    if i == 0 {
        assert(0 * step == 0);
        assert(D::bits() * 0 == 0);
    } else {
        let j = (i - 1) as nat;
        lemma_scale_power::<D>(step, j);
        assert(pow(x, i) == x * pow(x, j)) by {
            reveal(pow);
        }
        lemma_mul_mod_noop_general(x, pow(x, j), m);
        lemma_mul_mod_noop_general(pow2(a) as int, pow2(D::bits() * (j * step)) as int, m);
        vstd::arithmetic::div_mod::lemma_mod_twice(pow2(a) as int, m);
        lemma_pow2_adds(a, D::bits() * (j * step));
        assert(a + D::bits() * (j * step) == D::bits() * (i * step)) by (nonlinear_arith)
            requires
                a == D::bits() * step,
                i == j + 1,
        ;
    }
}

/// Recombining the residues of the chunks gives the residue of the whole
/// sequence: where `partials` holds, for every chunk of a partition of
/// `s`, the residue of that chunk, their weighted sum is the residue of
/// `s`.
pub proof fn lemma_chunks_recombine<D: Digit>(
    s: Seq<D>,
    step: nat,
    count: nat,
    partials: Seq<M61>,
)
    requires
        is_partition(s.len(), step, count),
        partials.len() == count,
        forall|i: nat|
            i < count ==> (#[trigger] partials[i as int])@ == residue(chunk(s, step, count, i)),
    ensures
        weighted_sum(partials, chunk_scale::<D>(step)) == residue(s),
{
    lemma_chunks_prefix::<D>(s, step, count, partials, count);
    assert(partials.take(count as int) == partials);
    assert(s.take(s.len() as int) == s);
}

/// The weighted sum of the first `k` chunk residues is the residue of the
/// digits of the first `k` chunks.
proof fn lemma_chunks_prefix<D: Digit>(
    s: Seq<D>,
    step: nat,
    count: nat,
    partials: Seq<M61>,
    k: nat,
)
    requires
        is_partition(s.len(), step, count),
        partials.len() == count,
        forall|i: nat|
            i < count ==> (#[trigger] partials[i as int])@ == residue(chunk(s, step, count, i)),
        k <= count,
    ensures
        weighted_sum(partials.take(k as int), chunk_scale::<D>(step)) == (if k == 0 {
            0
        } else {
            residue(s.take(chunk_end(s.len(), step, count, (k - 1) as nat) as int))
        }),
    decreases k,
{
    let m = MODULUS as int;
    let scale = chunk_scale::<D>(step);
    if k == 0 {
        assert(partials.take(0).len() == 0);
    } else {
        let i = (k - 1) as nat;
        lemma_chunks_prefix::<D>(s, step, count, partials, i);
        lemma_chunk_bounds(s.len(), step, count, i);
        let first = partials.take(k as int);
        assert(first.drop_last() == partials.take(i as int));
        assert(first.last() == partials[i as int]);
        let from = chunk_start(step, i);
        let to = chunk_end(s.len(), step, count, i);
        // the digits below chunk i are those of the chunks before it
        if i > 0 {
            lemma_chunk_bounds(s.len(), step, count, (i - 1) as nat);
            assert(chunk_end(s.len(), step, count, (i - 1) as nat) == from);
        } else {
            assert(0 * step == 0);
            assert(s.take(0).len() == 0);
        }
        let below = digits_value(s.take(from as int));
        let this = digits_value(chunk(s, step, count, i));
        let prefix = s.take(to as int);
        lemma_digits_value_split(prefix, from as int);
        assert(prefix.take(from as int) == s.take(from as int));
        assert(prefix.skip(from as int) == chunk(s, step, count, i));
        let weight = pow2(D::bits() * (i * step)) as int;
        assert(digits_value(prefix) == below + weight * this);
        // weighted_sum(first) == (below % m + (this % m) * scale^i) % m
        let w = weighted_sum(partials.take(i as int), scale) as int;
        assert(w == below % (MODULUS as nat));
        let p = pow(scale as int, i);
        lemma_scale_power::<D>(step, i);
        assert(first.len() - 1 == i);
        assert(weighted_sum(first, scale) == (w + partials[i as int]@ * p) % m);
        lemma_mul_mod_noop_general(this as int, p, m);
        lemma_mul_mod_noop_general(this as int, weight, m);
        lemma_add_mod_noop(below as int, (this % (MODULUS as nat)) * p, m);
        lemma_add_mod_noop(below as int, this * weight, m);
        vstd::arithmetic::mul::lemma_mul_is_commutative(this as int, weight);
        vstd::arithmetic::div_mod::lemma_mod_twice(below as int, m);
    }
}

/// Adds up the results of the chunks, each times the weight of its place.
pub fn combine(partials: &[M61], scale: M61) -> (r: M61)
    ensures
        r@ == weighted_sum(partials@, scale@),
{
    let mut result = M61::from(0u64);
    let mut factor = M61::from(1u64);
    let mut i: usize = 0;
    proof {
        vstd::arithmetic::power::lemma_pow0(scale@ as int);
        assert(partials@.take(0).len() == 0);
    }
    while i < partials.len()
        invariant
            i <= partials.len(),
            result@ == weighted_sum(partials@.take(i as int), scale@),
            factor@ == pow(scale@ as int, i as nat) % (MODULUS as int),
        decreases partials.len() - i,
    {
        let term = partials[i] * factor;
        let ghost before = result@;
        result = result + term;
        let ghost power = pow(scale@ as int, i as nat);
        proof {
            let m = MODULUS as int;
            let first = partials@.take(i + 1);
            assert(first.drop_last() == partials@.take(i as int));
            assert(first.last() == partials[i as int]);
            assert(first.len() - 1 == i);
            lemma_mul_mod_noop_general(partials[i as int]@ as int, power, m);
            lemma_add_mod_noop(before as int, partials[i as int]@ * (power % m), m);
            lemma_add_mod_noop(before as int, partials[i as int]@ * power, m);
            assert(pow(scale@ as int, (i + 1) as nat) == scale@ * power) by {
                reveal(pow);
            }
            lemma_mul_mod_noop_general(power, scale@ as int, m);
            vstd::arithmetic::mul::lemma_mul_is_commutative(power, scale@ as int);
        }
        factor = factor * scale;
        i += 1;
    }
    proof {
        assert(partials@.take(i as int) == partials@);
    }
    result
}

/// Reduces a number given by its digits in chunks of at least `threshold`
/// digits, for at most `workers` workers, one chunk after the other. A
/// sequence of fewer than `threshold` digits, or one that makes fewer than
/// two chunks, is reduced in one piece.
pub fn reduce_chunked<D: Reducible>(s: &[D], workers: usize, threshold: usize) -> (r: M61)
    ensures
        r@ == residue(s@),
{
    if s.len() < threshold {
        return D::reduce(s);
    }
    let plan = ChunkPlan::new(s.len(), workers, threshold);
    let count = plan.count();
    if count < 2 {
        return D::reduce(s);
    }
    let mut partials: Vec<M61> = Vec::new();
    let mut i: usize = 0;
    while i < count
        invariant
            i <= count,
            count == plan.chunks(),
            plan.len() == s@.len(),
            partials.len() == i,
            forall|j: nat|
                j < i ==> (#[trigger] partials@[j as int])@ == residue(
                    chunk(s@, plan.step(), plan.chunks(), j),
                ),
        decreases count - i,
    {
        let (from, to) = plan.range(i);
        let part = slice_subrange(s, from, to);
        let partial = D::reduce(part);
        partials.push(partial);
        i += 1;
    }
    proof {
        lemma_chunks_recombine(s@, plan.step(), plan.chunks(), partials@);
    }
    combine(partials.as_slice(), plan.scale::<D>())
}

/// Reduces a number given by its digits of 8 bits, in chunks where it is
/// long enough.
pub fn reduce_u8(s: &[u8], max_thread_count: usize) -> (r: M61)
    ensures
        r@ == residue(s@),
{
    reduce_chunked(s, max_thread_count, THRESHOLD)
}

/// Reduces a number given by its digits of 16 bits, in chunks where it is
/// long enough.
pub fn reduce_u16(s: &[u16], max_thread_count: usize) -> (r: M61)
    ensures
        r@ == residue(s@),
{
    reduce_chunked(s, max_thread_count, THRESHOLD)
}

/// Reduces a number given by its digits of 32 bits, in chunks where it is
/// long enough.
pub fn reduce_u32(s: &[u32], max_thread_count: usize) -> (r: M61)
    ensures
        r@ == residue(s@),
{
    reduce_chunked(s, max_thread_count, THRESHOLD)
}

/// Reduces a number given by its digits of 64 bits, in chunks where it is
/// long enough.
pub fn reduce_u64(s: &[u64], max_thread_count: usize) -> (r: M61)
    ensures
        r@ == residue(s@),
{
    reduce_chunked(s, max_thread_count, THRESHOLD)
}

} // verus!
