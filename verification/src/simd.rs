//! The vector reduction engine.
//!
//! The engine runs the recurrence of [`crate::digit_sum`] on super-digits
//! of 128, 256 or 512 bits. A super-digit is held as lanes of 64 bits, the
//! lane at index 0 being the least significant one, and a step of the
//! recurrence works on each lane by itself: lane `j` of the accumulator
//! only ever meets lane `j` of a super-digit. The lanes of one super-digit
//! are adjacent in the digit sequence. (An evaluation by interleaved
//! polynomials, one per lane, would stride through the digits instead; the
//! engine does not do that.)
//!
//! After the last step the accumulator is itself a number of several
//! lanes. It is folded in halves, the upper half into the lower one, until
//! a single lane is left, and that lane is brought into the canonical
//! range.

use vstd::prelude::*;
use vstd::arithmetic::div_mod::lemma_add_mod_noop;
use vstd::arithmetic::power2::pow2;
use crate::definition::final_reduction;
use crate::definition::M61;
use crate::definition::MODULUS;
use crate::digit_sum::fold;
use crate::digit_sum::fold_step;
use crate::digits::digits_value;
use crate::digits::lemma_digits_value_split;
use crate::digits::lemma_weighted_congruence;
use crate::digits::residue;
use crate::digits::Digit;

verus! {

/// The number of digits that fill a lane.
pub open spec fn digits_per_lane<D: Digit>() -> int {
    64int / (D::bits() as int)
}

/// The lane that starts at the digit `at`: the digits from there on, as far
/// as they fill 64 bits and as far as there are any.
pub open spec fn lane_at<D: Digit>(s: Seq<D>, at: int) -> nat {
    let from = if at <= s.len() {
        at
    } else {
        s.len() as int
    };
    let to = if at + digits_per_lane::<D>() <= s.len() {
        at + digits_per_lane::<D>()
    } else {
        s.len() as int
    };
    digits_value(s.subrange(from, to))
}

/// The digits from `at` on that `lanes` lanes hold.
pub open spec fn block_at<D: Digit>(s: Seq<D>, at: int, lanes: int) -> Seq<D> {
    let from = if at <= s.len() {
        at
    } else {
        s.len() as int
    };
    let to = if at + lanes * digits_per_lane::<D>() <= s.len() {
        at + lanes * digits_per_lane::<D>()
    } else {
        s.len() as int
    };
    s.subrange(from, to)
}

/// A lane takes 8, 4, 2 or 1 digits.
pub proof fn lemma_digits_per_lane<D: Digit>()
    ensures
        D::bits() == 8 || D::bits() == 16 || D::bits() == 32 || D::bits() == 64,
        D::bits() == 8 ==> digits_per_lane::<D>() == 8,
        D::bits() == 16 ==> digits_per_lane::<D>() == 4,
        D::bits() == 32 ==> digits_per_lane::<D>() == 2,
        D::bits() == 64 ==> digits_per_lane::<D>() == 1,
        digits_per_lane::<D>() * D::bits() == 64,
        D::bits() * (digits_per_lane::<D>() as nat) == 64,
        1 <= digits_per_lane::<D>() <= 8,
{
    D::lemma_bits();
    let b = D::bits() as int;
    if b == 8 {
        assert(64int / 8 == 8);
    } else if b == 16 {
        assert(64int / 16 == 4);
    } else if b == 32 {
        assert(64int / 32 == 2);
    } else {
        assert(64int / 64 == 1);
    }
}

/// Lanes that are filled from adjacent digits hold, as a number of digits
/// of 64 bits, what those digits hold.
pub proof fn lemma_lanes_hold_block<D: Digit>(s: Seq<D>, at: int, lanes: Seq<u64>)
    requires
        0 <= at,
        forall|j: int|
            0 <= j < lanes.len() ==> lanes[j] == #[trigger] lane_at(
                s,
                at + j * digits_per_lane::<D>(),
            ),
    ensures
        digits_value(lanes) == digits_value(block_at(s, at, lanes.len() as int)),
    decreases lanes.len(),
{
    lemma_digits_per_lane::<D>();
    let per = digits_per_lane::<D>();
    let n = lanes.len() as int;
    if n == 0 {
        assert(0 * per == 0);
        assert(block_at(s, at, 0).len() == 0);
    } else {
        let rest = lanes.skip(1);
        assert forall|j: int| 0 <= j < rest.len() implies rest[j] == #[trigger] lane_at(
            s,
            at + per + j * per,
        ) by {
            assert((j + 1) * per == per + j * per) by (nonlinear_arith);
            assert(lanes[j + 1] == lane_at(s, at + (j + 1) * per));
        }
        lemma_lanes_hold_block(s, at + per, rest);
        assert(n * per == per + (n - 1) * per) by (nonlinear_arith);
        assert((n - 1) * per >= 0) by (nonlinear_arith)
            requires
                n >= 1,
                per >= 1,
        ;
        assert(lanes[0] == lane_at(s, at + 0 * per));
        let block = block_at(s, at, n);
        let cut = if per <= block.len() {
            per
        } else {
            block.len() as int
        };
        lemma_digits_value_split(block, cut);
        assert(1 * per == per);
        assert(block.take(cut) == block_at(s, at, 1));
        assert(block.skip(cut) == block_at(s, at + per, n - 1));
        assert(digits_value(block.take(cut)) == lanes[0]);
        assert(digits_value(block.skip(cut)) == digits_value(rest));
        let weight = pow2(D::bits() * (cut as nat));
        assert(weight * digits_value(rest) == pow2(64) * digits_value(rest)) by {
            if cut != per {
                assert(block.skip(cut).len() == 0);
                assert(digits_value(rest) == 0);
                assert(weight * 0 == 0 && pow2(64) * 0 == 0) by (nonlinear_arith);
            }
        }
        assert(digits_value(lanes) == lanes[0] + pow2(64) * digits_value(rest));
    }
}

/// Numbers whose lanes are congruent one by one, up to a common factor on
/// a second number's lanes, are congruent in the same way.
pub proof fn lemma_lanes_congruence(c: Seq<u64>, a: Seq<u64>, b: Seq<u64>, f: int)
    requires
        a.len() == c.len(),
        b.len() == c.len(),
        forall|j: int|
            0 <= j < c.len() ==> (#[trigger] c[j]) % MODULUS == (a[j] + f * b[j]) % (
            MODULUS as int),
    ensures
        digits_value(c) % (MODULUS as nat) == (digits_value(a) + f * digits_value(b)) % (
        MODULUS as int),
    decreases c.len(),
{
    let m = MODULUS as int;
    if c.len() == 0 {
        assert(f * 0 == 0);
    } else {
        let w = pow2(64) as int;
        let (c1, a1, b1) = (c.skip(1), a.skip(1), b.skip(1));
        assert forall|j: int| 0 <= j < c1.len() implies (#[trigger] c1[j]) % MODULUS == (a1[j] + f
            * b1[j]) % m by {
            assert(c[j + 1] % MODULUS == (a[j + 1] + f * b[j + 1]) % m);
        }
        lemma_lanes_congruence(c1, a1, b1, f);
        let x = digits_value(c1) as int;
        let y = digits_value(a1) + f * digits_value(b1);
        // c == c[0] + w * x, with x congruent to y and c[0] to a[0] + f * b[0]
        lemma_weighted_congruence(c[0] as int, x, y, w);
        vstd::arithmetic::mul::lemma_mul_is_commutative(x, w);
        vstd::arithmetic::mul::lemma_mul_is_commutative(y, w);
        assert(c[0] % MODULUS == (a[0] + f * b[0]) % m);
        lemma_add_mod_noop(c[0] as int, w * y, m);
        lemma_add_mod_noop(a[0] + f * b[0], w * y, m);
        assert((a[0] + f * b[0]) + w * (digits_value(a1) + f * digits_value(b1)) == (a[0] + w
            * digits_value(a1)) + f * (b[0] + w * digits_value(b1))) by (nonlinear_arith);
    }
}

/// The width of a super-digit.
#[derive(Clone, Copy, PartialEq, Eq, Debug, Structural)]
pub enum Width {
    /// One lane: the width that the folding ends at.
    W64,
    /// Two lanes.
    W128,
    /// Four lanes.
    W256,
    /// Eight lanes.
    W512,
}

impl Width {
    /// The number of lanes of 64 bits.
    pub open spec fn lanes_spec(self) -> usize {
        match self {
            Width::W64 => 1,
            Width::W128 => 2,
            Width::W256 => 4,
            Width::W512 => 8,
        }
    }

    /// The number of lanes of 64 bits.
    #[verifier::when_used_as_spec(lanes_spec)]
    pub fn lanes(self) -> (n: usize)
        ensures
            n == self.lanes_spec(),
    {
        match self {
            Width::W64 => 1,
            Width::W128 => 2,
            Width::W256 => 4,
            Width::W512 => 8,
        }
    }

    /// The width in bits modulo 61: the rotation that stands for a shift
    /// by a whole super-digit.
    pub open spec fn shift_spec(self) -> u32 {
        match self {
            Width::W64 => 3,
            Width::W128 => 6,
            Width::W256 => 12,
            Width::W512 => 24,
        }
    }

    /// The width in bits modulo 61.
    #[verifier::when_used_as_spec(shift_spec)]
    pub fn shift(self) -> (r: u32)
        ensures
            r == self.shift_spec(),
            r == (64 * self.lanes()) % 61,
    {
        match self {
            Width::W64 => 3,
            Width::W128 => 6,
            Width::W256 => 12,
            Width::W512 => 24,
        }
    }

    /// Half the width; the narrowest width is its own half.
    pub open spec fn half_spec(self) -> Width {
        match self {
            Width::W64 => Width::W64,
            Width::W128 => Width::W64,
            Width::W256 => Width::W128,
            Width::W512 => Width::W256,
        }
    }

    /// Half the width; the narrowest width is its own half.
    #[verifier::when_used_as_spec(half_spec)]
    pub fn half(self) -> (h: Width)
        ensures
            h == self.half_spec(),
    {
        match self {
            Width::W64 => Width::W64,
            Width::W128 => Width::W64,
            Width::W256 => Width::W128,
            Width::W512 => Width::W256,
        }
    }
}

/// A digit put below a value that leaves room for it.
proof fn lemma_shift_in(w: u64, d: u64, bits: u32)
    by (bit_vector)
    requires
        bits == 8 || bits == 16 || bits == 32,
        w < (1u64 << ((64 - bits) as u32)),
        d < (1u64 << bits),
    ensures
        (w << bits) | d == d + (1u64 << bits) * w,
{
}

/// The number of digits that fill a lane.
pub fn lane_digits<D: Digit>() -> (per: usize)
    ensures
        per == digits_per_lane::<D>(),
        1 <= per <= 8,
        per * D::bits() == 64,
{
    proof {
        lemma_digits_per_lane::<D>();
    }
    let bits = D::width();
    if bits == 8 {
        8
    } else if bits == 16 {
        4
    } else if bits == 32 {
        2
    } else {
        1
    }
}

/// Packs the digits from `at` on into a lane, the first one lowest, as far
/// as they fill 64 bits and as far as there are any.
pub fn load_lane<D: Digit>(s: &[D], at: usize) -> (lane: u64)
    requires
        at <= s.len(),
    ensures
        lane == lane_at(s@, at as int),
{
    let bits = D::width();
    let per = lane_digits::<D>();
    proof {
        lemma_digits_per_lane::<D>();
    }
    let left = s.len() - at;
    let count = if left < per {
        left
    } else {
        per
    };
    let mut lane: u64 = 0;
    let mut j: usize = count;
    proof {
        assert(s@.subrange(at + j, at + count).len() == 0);
    }
    while j > 0
        invariant
            j <= count,
            at + count <= s.len(),
            count <= per,
            per * bits == 64,
            bits == D::bits(),
            bits == 8 || bits == 16 || bits == 32 || bits == 64,
            lane == digits_value(s@.subrange(at + j, at + count)),
        decreases j,
    {
        j -= 1;
        let d = s[at + j].widen();
        proof {
            let upper = s@.subrange(at + j + 1, at + count);
            assert(s@.subrange(at + j, at + count).skip(1) == upper);
            crate::digits::lemma_digits_value_bound(upper);
            D::lemma_digit(s[at + j]);
            vstd::arithmetic::power2::lemma2_to64();
            vstd::arithmetic::power2::lemma2_to64_rest();
            assert(bits * upper.len() <= 64 - bits) by (nonlinear_arith)
                requires
                    upper.len() + 1 <= per,
                    per * bits == 64,
            ;
            if bits < 64 {
                if bits * upper.len() < 64 - bits {
                    vstd::arithmetic::power2::lemma_pow2_strictly_increases(
                        bits as nat * upper.len(),
                        (64 - bits) as nat,
                    );
                }
                assert(1u64 << 8u32 == 0x100 && 1u64 << 16u32 == 0x1_0000 && 1u64 << 32u32
                    == 0x1_0000_0000 && 1u64 << 56u32 == 0x100_0000_0000_0000 && 1u64 << 48u32
                    == 0x1_0000_0000_0000) by (bit_vector);
                assert(d < (1u64 << bits));
                assert(lane < (1u64 << ((64 - bits) as u32)));
                lemma_shift_in(lane, d, bits);
                assert((1u64 << bits) == pow2(bits as nat));
                assert(digits_value(s@.subrange(at + j, at + count)) == d + pow2(bits as nat)
                    * lane);
            } else {
                assert(upper.len() == 0) by (nonlinear_arith)
                    requires
                        bits * upper.len() <= 0,
                        bits == 64,
                ;
                assert(digits_value(s@.subrange(at + j, at + count)) == d + pow2(64) * 0);
            }
        }
        lane = if bits == 64 {
            d
        } else {
            (lane << bits) | d
        };
    }
    lane
}

/// A value as wide as a super-digit: a super-digit itself, or the
/// accumulator of the recurrence.
#[derive(Clone, Copy)]
pub struct SuperDigit {
    lanes: [u64; 8],
    width: Width,
}

impl SuperDigit {
    /// The width of the value.
    pub closed spec fn width(self) -> Width {
        self.width
    }

    /// The lanes of the value, the least significant one first.
    pub closed spec fn lanes(self) -> Seq<u64> {
        self.lanes@.take(self.width.lanes() as int)
    }

    /// The number that the lanes hold together.
    pub open spec fn value(self) -> nat {
        digits_value(self.lanes())
    }

    /// Every lane is within reach of the final reduction.
    pub open spec fn reduced(self) -> bool {
        forall|j: int| 0 <= j < self.lanes().len() ==> #[trigger] self.lanes()[j] < 3 * MODULUS
    }

    /// Loads the super-digit that starts at the digit `at`. Where the
    /// digits end before the super-digit is full, the rest of it is zero.
    pub fn load<D: Digit>(s: &[D], at: usize, width: Width) -> (block: SuperDigit)
        requires
            at <= s.len(),
        ensures
            block.width() == width,
            block.value() == digits_value(block_at(s@, at as int, width.lanes() as int)),
    {
        let ghost per = digits_per_lane::<D>();
        let step = lane_digits::<D>();
        let count = width.lanes();
        let mut lanes: [u64; 8] = [0u64; 8];
        let mut from: usize = at;
        let mut j: usize = 0;
        while j < count
            invariant
                j <= count <= 8,
                step == per,
                per == digits_per_lane::<D>(),
                1 <= per <= 8,
                at <= from <= s.len(),
                from == (if at + j * per <= s.len() {
                    at + j * per
                } else {
                    s.len() as int
                }),
                forall|i: int| 0 <= i < j ==> lanes[i] == #[trigger] lane_at(s@, at + i * per),
            decreases count - j,
        {
            let lane = load_lane(s, from);
            proof {
                assert(lane_at(s@, from as int) == lane_at(s@, at + j * per));
                assert((j + 1) * per == j * per + per) by (nonlinear_arith);
            }
            lanes[j] = lane;
            from = if s.len() - from < step {
                s.len()
            } else {
                from + step
            };
            j += 1;
        }
        let block = SuperDigit { lanes, width };
        proof {
            lemma_lanes_hold_block(s@, at as int, block.lanes());
        }
        block
    }
}

impl SuperDigit {
    /// Replaces every lane by its digit sum in base `2^61`.
    pub fn settle(self) -> (next: SuperDigit)
        ensures
            next.width() == self.width(),
            forall|j: int|
                0 <= j < next.lanes().len() ==> #[trigger] next.lanes()[j]
                    == crate::digit_sum::digit_sum(self.lanes()[j]),
            next.reduced(),
            next.value() % (MODULUS as nat) == self.value() % (MODULUS as nat),
    {
        let count = self.width.lanes();
        let mut lanes: [u64; 8] = self.lanes;
        let mut j: usize = 0;
        while j < count
            invariant
                j <= count <= 8,
                forall|i: int|
                    0 <= i < j ==> lanes[i] == crate::digit_sum::digit_sum(self.lanes[i]),
                forall|i: int| j <= i < 8 ==> lanes[i] == self.lanes[i],
            decreases count - j,
        {
            let h = lanes[j];
            proof {
                crate::digit_sum::lemma_digit_sum(h);
            }
            lanes[j] = (h & MODULUS) + (h >> 61);
            j += 1;
        }
        let next = SuperDigit { lanes, width: self.width };
        proof {
            assert forall|i: int| 0 <= i < next.lanes().len() implies (#[trigger] next.lanes()[i])
                % MODULUS == (self.lanes()[i] + 0 * self.lanes()[i]) % (MODULUS as int)
                && next.lanes()[i] < 3 * MODULUS by {
                crate::digit_sum::lemma_digit_sum(self.lanes[i]);
            }
            lemma_lanes_congruence(next.lanes(), self.lanes(), self.lanes(), 0);
        }
        next
    }

    /// Performs one step of the recurrence on every lane: folds the
    /// super-digit `lo` in below the accumulator.
    pub fn fold(self, lo: &SuperDigit) -> (next: SuperDigit)
        requires
            lo.width() == self.width(),
        ensures
            next.width() == self.width(),
            forall|j: int|
                0 <= j < next.lanes().len() ==> #[trigger] next.lanes()[j] == fold_step(
                    self.lanes()[j],
                    lo.lanes()[j],
                    self.width().shift(),
                ),
            next.reduced(),
            next.value() % (MODULUS as nat) == (lo.value() + pow2(
                64 * (self.width().lanes() as nat),
            ) * self.value()) % (MODULUS as nat),
    {
        let count = self.width.lanes();
        let r = self.width.shift();
        let mut lanes: [u64; 8] = self.lanes;
        let mut j: usize = 0;
        while j < count
            invariant
                j <= count <= 8,
                0 < r <= 24,
                forall|i: int| 0 <= i < j ==> lanes[i] == fold_step(self.lanes[i], lo.lanes[i], r),
                forall|i: int| j <= i < 8 ==> lanes[i] == self.lanes[i],
            decreases count - j,
        {
            lanes[j] = fold(lanes[j], lo.lanes[j], r);
            j += 1;
        }
        let next = SuperDigit { lanes, width: self.width };
        proof {
            let f = pow2(r as nat) as int;
            assert forall|i: int| 0 <= i < next.lanes().len() implies (#[trigger] next.lanes()[i])
                % MODULUS == (lo.lanes()[i] + f * self.lanes()[i]) % (MODULUS as int)
                && next.lanes()[i] < 3 * MODULUS by {
                crate::digit_sum::lemma_fold_step(self.lanes[i], lo.lanes[i], r);
            }
            lemma_lanes_congruence(next.lanes(), lo.lanes(), self.lanes(), f);
            let w = 64 * (count as nat);
            crate::digits::lemma_pow2_mod(w);
            crate::digits::lemma_pow2_mod(r as nat);
            lemma_weighted_congruence(lo.value() as int, f, pow2(w) as int, self.value() as int);
        }
        next
    }

    /// Folds the upper half of the lanes into the lower half.
    pub fn halve(self) -> (next: SuperDigit)
        requires
            self.width() != Width::W64,
        ensures
            next.width() == self.width().half(),
            forall|j: int|
                0 <= j < next.lanes().len() ==> #[trigger] next.lanes()[j] == fold_step(
                    self.lanes()[j + next.lanes().len()],
                    self.lanes()[j],
                    self.width().half().shift(),
                ),
            next.reduced(),
            next.value() % (MODULUS as nat) == self.value() % (MODULUS as nat),
    {
        let width = self.width.half();
        let count = width.lanes();
        let r = width.shift();
        let mut lanes: [u64; 8] = self.lanes;
        let mut j: usize = 0;
        while j < count
            invariant
                j <= count <= 4,
                0 < r <= 24,
                forall|i: int|
                    0 <= i < j ==> lanes[i] == fold_step(self.lanes[i + count], self.lanes[i], r),
                forall|i: int| j <= i < 8 ==> lanes[i] == self.lanes[i],
            decreases count - j,
        {
            lanes[j] = fold(lanes[j + count], lanes[j], r);
            j += 1;
        }
        let next = SuperDigit { lanes, width };
        proof {
            let f = pow2(r as nat) as int;
            let all = self.lanes();
            let lower = all.take(count as int);
            let upper = all.skip(count as int);
            assert forall|i: int| 0 <= i < next.lanes().len() implies (#[trigger] next.lanes()[i])
                % MODULUS == (lower[i] + f * upper[i]) % (MODULUS as int) && next.lanes()[i] < 3
                * MODULUS by {
                crate::digit_sum::lemma_fold_step(self.lanes[i + count], self.lanes[i], r);
            }
            lemma_lanes_congruence(next.lanes(), lower, upper, f);
            lemma_digits_value_split(all, count as int);
            let w = 64 * (count as nat);
            crate::digits::lemma_pow2_mod(w);
            crate::digits::lemma_pow2_mod(r as nat);
            lemma_weighted_congruence(
                digits_value(lower) as int,
                f,
                pow2(w) as int,
                digits_value(upper) as int,
            );
        }
        next
    }

    /// Folds the lanes down to one and brings it into the canonical range.
    pub fn finish(self) -> (r: M61)
        ensures
            r@ == self.value() % (MODULUS as nat),
    {
        let mut acc = self.settle();
        while acc.width.lanes() > 1
            invariant
                acc.reduced(),
                acc.value() % (MODULUS as nat) == self.value() % (MODULUS as nat),
            decreases acc.width.lanes(),
        {
            acc = acc.halve();
        }
        proof {
            let one = acc.lanes();
            assert(one.len() == 1);
            assert(one.skip(1).len() == 0);
            assert(digits_value(one.skip(1)) == 0);
            assert(digits_value(one) == one[0] + pow2(64) * 0);
            assert(one[0] < 3 * MODULUS);
        }
        final_reduction(acc.lanes[0])
    }
}

/// The number of digits that fill a super-digit.
pub open spec fn digits_per_block<D: Digit>(width: Width) -> int {
    width.lanes() * digits_per_lane::<D>()
}

/// The number of digits that fill a super-digit.
pub fn block_digits<D: Digit>(width: Width) -> (n: usize)
    ensures
        n == digits_per_block::<D>(width),
        1 <= n <= 64,
        D::bits() * (n as nat) == 64 * (width.lanes() as nat),
{
    let per = lane_digits::<D>();
    let lanes = width.lanes();
    proof {
        assert(1 <= lanes * per <= 64 && D::bits() * ((lanes * per) as nat) == 64 * (
        lanes as nat)) by (nonlinear_arith)
            requires
                1 <= lanes <= 8,
                1 <= per <= 8,
                per * D::bits() == 64,
        ;
    }
    lanes * per
}

/// Where fewer digits than fill a super-digit are left, the super-digit
/// loaded there holds them all.
proof fn lemma_last_block<D: Digit>(s: Seq<D>, at: int, width: Width)
    requires
        0 <= at <= s.len(),
        s.len() - at < digits_per_block::<D>(width),
    ensures
        block_at(s, at, width.lanes() as int) == s.skip(at),
{
}

/// A full super-digit in the digit sequence.
proof fn lemma_full_block<D: Digit>(s: Seq<D>, at: int, width: Width)
    requires
        0 <= at,
        at + digits_per_block::<D>(width) <= s.len(),
    ensures
        block_at(s, at, width.lanes() as int) == s.subrange(
            at,
            at + digits_per_block::<D>(width),
        ),
{
    lemma_digits_per_lane::<D>();
    assert(digits_per_block::<D>(width) >= 1) by (nonlinear_arith)
        requires
            digits_per_block::<D>(width) == width.lanes() * digits_per_lane::<D>(),
            width.lanes() >= 1,
            digits_per_lane::<D>() >= 1,
    ;
}

/// The number whose lowest digits are `lower` and which goes on, above
/// them, with the number `upper`.
pub open spec fn stacked<D: Digit>(lower: Seq<D>, upper: nat) -> nat {
    digits_value(lower) + pow2(D::bits() * lower.len()) * upper
}

/// A stacked number, cut above its lowest `n` digits.
proof fn lemma_stacked_split<D: Digit>(lower: Seq<D>, upper: nat, n: int)
    requires
        0 <= n <= lower.len(),
    ensures
        stacked(lower, upper) == digits_value(lower.take(n)) + pow2(D::bits() * (n as nat))
            * stacked(lower.skip(n), upper),
{
    let rest = lower.skip(n);
    lemma_digits_value_split(lower, n);
    vstd::arithmetic::power2::lemma_pow2_adds(D::bits() * (n as nat), D::bits() * rest.len());
    assert(D::bits() * (n as nat) + D::bits() * rest.len() == D::bits() * lower.len())
        by (nonlinear_arith)
        requires
            n + rest.len() == lower.len(),
            n >= 0,
    ;
    let w = pow2(D::bits() * (n as nat));
    let p = pow2(D::bits() * rest.len());
    let v = digits_value(rest);
    assert(w * (v + p * upper) == w * v + (w * p) * upper) by (nonlinear_arith);
}

/// Runs the recurrence over the first `blocks` super-digits of `s`, from
/// the most significant one down, on an accumulator that starts as `hi`,
/// and reduces what comes out: the number that those super-digits make
/// with `hi` above them.
pub fn reduction_core<D: Digit>(s: &[D], blocks: usize, hi: SuperDigit) -> (r: M61)
    requires
        blocks * digits_per_block::<D>(hi.width()) <= s.len(),
    ensures
        r@ == stacked(s@.take(blocks * digits_per_block::<D>(hi.width())), hi.value()) % (
        MODULUS as nat),
{
    let width = hi.width;
    let size = block_digits::<D>(width);
    let mut acc = hi.settle();
    let mut k: usize = blocks;
    proof {
        let none = s@.subrange(k * size, blocks * size);
        assert(none.len() == 0);
        assert(D::bits() * none.len() == 0);
        vstd::arithmetic::power2::lemma2_to64();
        assert(stacked(none, hi.value()) == hi.value());
    }
    while k > 0
        invariant
            k <= blocks,
            blocks * size <= s.len(),
            size == digits_per_block::<D>(width),
            1 <= size <= 64,
            D::bits() * (size as nat) == 64 * (width.lanes() as nat),
            acc.width() == width,
            acc.reduced(),
            acc.value() % (MODULUS as nat) == stacked(
                s@.subrange(k * size, blocks * size),
                hi.value(),
            ) % (MODULUS as nat),
        decreases k,
    {
        k -= 1;
        proof {
            assert(0 <= k * size && k * size + size <= blocks * size) by (nonlinear_arith)
                requires
                    0 <= k < blocks,
                    size >= 1,
            ;
            assert((k + 1) * size == k * size + size) by (nonlinear_arith);
        }
        let lo = SuperDigit::load(s, k * size, width);
        let ghost before = acc.value();
        acc = acc.fold(&lo);
        proof {
            let at = (k * size) as int;
            let end = (blocks * size) as int;
            let rest = s@.subrange(at, end);
            let above = stacked(s@.subrange(at + size, end), hi.value());
            lemma_full_block(s@, at, width);
            lemma_stacked_split(rest, hi.value(), size as int);
            assert(rest.take(size as int) == s@.subrange(at, at + size));
            assert(rest.skip(size as int) == s@.subrange(at + size, end));
            let w = pow2(64 * (width.lanes() as nat)) as int;
            assert(stacked(rest, hi.value()) == lo.value() + w * above);
            lemma_weighted_congruence(lo.value() as int, before as int, above as int, w);
            vstd::arithmetic::mul::lemma_mul_is_commutative(before as int, w);
            vstd::arithmetic::mul::lemma_mul_is_commutative(above as int, w);
        }
    }
    proof {
        assert(0 * size == 0);
        assert(s@.subrange(0, blocks * size) == s@.take(blocks * size));
    }
    acc.finish()
}

/// Reduces a number given by its digits, on super-digits of the given
/// width: loads the digits above the last full super-digit as the first
/// value of the accumulator and runs [`reduction_core`].
pub fn reduce<D: Digit>(s: &[D], width: Width) -> (r: M61)
    ensures
        r@ == residue(s@),
{
    let size = block_digits::<D>(width);
    let blocks = s.len() / size;
    proof {
        vstd::arithmetic::div_mod::lemma_fundamental_div_mod(s.len() as int, size as int);
        vstd::arithmetic::mul::lemma_mul_is_commutative(blocks as int, size as int);
        lemma_last_block(s@, blocks * size, width);
        lemma_digits_value_split(s@, blocks * size);
    }
    let hi = SuperDigit::load(s, blocks * size, width);
    reduction_core(s, blocks, hi)
}

/// Reduces a number given by its digits of 8 bits, on super-digits of the
/// given width.
pub fn reduce_u8(s: &[u8], width: Width) -> (r: M61)
    ensures
        r@ == residue(s@),
{
    reduce(s, width)
}

/// Reduces a number given by its digits of 16 bits, on super-digits of the
/// given width.
pub fn reduce_u16(s: &[u16], width: Width) -> (r: M61)
    ensures
        r@ == residue(s@),
{
    reduce(s, width)
}

/// Reduces a number given by its digits of 32 bits, on super-digits of the
/// given width.
pub fn reduce_u32(s: &[u32], width: Width) -> (r: M61)
    ensures
        r@ == residue(s@),
{
    reduce(s, width)
}

/// Reduces a number given by its digits of 64 bits, on super-digits of the
/// given width.
pub fn reduce_u64(s: &[u64], width: Width) -> (r: M61)
    ensures
        r@ == residue(s@),
{
    reduce(s, width)
}

} // verus!
