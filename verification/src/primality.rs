//! Every residue but zero has an inverse.
//!
//! The modulus `m = 2^61 - 1` is prime, and this module proves what the
//! division of [`crate::definition`] needs of that: every residue but zero
//! is a unit. The proof rests on a number whose powers run through all
//! `m - 1` non-zero residues.
//!
//! * The generator `37` satisfies `37^(m - 1) = 1`, and `37^((m - 1) / q)`
//!   differs from 1 for each of the twelve primes `q` that divide `m - 1`.
//!   These are facts about given numbers, checked step by step in
//!   [`crate::certificate`].
//! * Hence no exponent `k` with `0 < k < m - 1` gives `37^k = 1`: the
//!   remainder of `m - 1` by such a `k` would be a smaller one, and a `k`
//!   that divides `m - 1` would leave a quotient that one of the twelve
//!   primes divides.
//! * Hence the powers `37^0, ..., 37^(m - 2)` are pairwise different. None
//!   of them is zero, so they are `m - 1` different residues among the
//!   `m - 1` non-zero ones: all of them.
//! * A power of the generator has an inverse, the complementary power.

use vstd::prelude::*;
use vstd::arithmetic::div_mod::lemma_fundamental_div_mod;
use vstd::arithmetic::div_mod::lemma_mod_multiples_basic;
use vstd::arithmetic::div_mod::lemma_mul_mod_noop_general;
use vstd::arithmetic::div_mod::lemma_small_mod;
use vstd::arithmetic::mul::lemma_mul_is_associative;
use vstd::relations::injective_on;
use vstd::set_lib::lemma_int_range;
use vstd::set_lib::lemma_map_size;
use vstd::set_lib::lemma_subset_equality;
use vstd::set_lib::set_int_range;
use crate::definition::is_inverse;
use crate::definition::is_unit;
use crate::definition::MODULUS;

verus! {

/// A number whose powers run through all non-zero residues.
pub open spec fn generator() -> int {
    37
}

/// `g^e` modulo `2^61 - 1`.
#[verifier::opaque]
pub open spec fn pow_mod(g: int, e: nat) -> int
    decreases e,
{
    if e == 0 {
        1
    } else {
        (pow_mod(g, (e - 1) as nat) * g) % (MODULUS as int)
    }
}

/// A power is a residue.
pub proof fn lemma_pow_mod_range(g: int, e: nat)
    ensures
        0 <= pow_mod(g, e) < MODULUS,
{
    reveal(pow_mod);
}

/// The power of a sum of exponents is the product of the powers.
pub proof fn lemma_pow_mod_add(g: int, a: nat, b: nat)
    ensures
        pow_mod(g, a + b) == (pow_mod(g, a) * pow_mod(g, b)) % (MODULUS as int),
    decreases b,
{
    reveal(pow_mod);
    let m = MODULUS as int;
    let x = pow_mod(g, a);
    lemma_pow_mod_range(g, a);
    if b == 0 {
        lemma_small_mod(x as nat, MODULUS as nat);
    } else {
        let c = (b - 1) as nat;
        let y = pow_mod(g, c);
        lemma_pow_mod_add(g, a, c);
        assert(pow_mod(g, a + b) == (pow_mod(g, a + c) * g) % m);
        // ((x * y) % m * g) % m == (x * ((y * g) % m)) % m
        lemma_mul_mod_noop_general(x * y, g, m);
        lemma_mul_mod_noop_general(x, y * g, m);
        lemma_mul_is_associative(x, y, g);
    }
}

/// The first power of the generator is the generator.
pub(crate) proof fn lemma_first_power()
    ensures
        pow_mod(generator(), 1) == 37,
{
    reveal_with_fuel(pow_mod, 2);
    assert(pow_mod(generator(), 0) == 1);
}

/// One squaring: from the power with the exponent `e` to the one with the
/// exponent `2 * e`.
pub(crate) proof fn lemma_double(e: nat, a: int, b: int)
    requires
        pow_mod(generator(), e) == a,
        (a * a) % (MODULUS as int) == b,
    ensures
        pow_mod(generator(), 2 * e) == b,
{
    lemma_pow_mod_add(generator(), e, e);
}

/// One multiplication: from the powers with the exponents `e1` and `e2` to
/// the one with the exponent `e1 + e2`.
pub(crate) proof fn lemma_join(e1: nat, a1: int, e2: nat, a2: int, b: int)
    requires
        pow_mod(generator(), e1) == a1,
        pow_mod(generator(), e2) == a2,
        (a1 * a2) % (MODULUS as int) == b,
    ensures
        pow_mod(generator(), e1 + e2) == b,
{
    lemma_pow_mod_add(generator(), e1, e2);
}

/// The number of residues other than zero.
pub open spec fn unit_count() -> nat {
    (MODULUS - 1) as nat
}

/// Every power of 1 is 1.
pub proof fn lemma_pow_mod_one(e: nat)
    ensures
        pow_mod(1, e) == 1,
    decreases e,
{
    reveal(pow_mod);
    if e > 0 {
        lemma_pow_mod_one((e - 1) as nat);
    }
}

/// The power of a product of exponents is the power of a power.
pub proof fn lemma_pow_mod_mul(g: int, a: nat, b: nat)
    ensures
        pow_mod(g, a * b) == pow_mod(pow_mod(g, a), b),
    decreases b,
{
    reveal(pow_mod);
    if b == 0 {
        assert(a * 0 == 0);
    } else {
        let c = (b - 1) as nat;
        lemma_pow_mod_mul(g, a, c);
        assert(a * b == a * c + a) by (nonlinear_arith)
            requires
                b == c + 1,
        ;
        lemma_pow_mod_add(g, a * c, a);
    }
}

/// `q` has no divisor between 1 and itself.
pub open spec fn is_prime(q: int) -> bool {
    q >= 2 && forall|d: int| 2 <= d < q ==> #[trigger] (q % d) != 0
}

/// None of the numbers from `d` to `s` divides `q`.
pub open spec fn no_divisor_within(q: int, d: int, s: int) -> bool
    decreases s - d + 1,
{
    if d > s {
        true
    } else {
        q % d != 0 && no_divisor_within(q, d + 1, s)
    }
}

/// What [`no_divisor_within`] says of one number in the range.
proof fn lemma_no_divisor_within(q: int, d: int, s: int, x: int)
    requires
        no_divisor_within(q, d, s),
        0 < d <= x <= s,
    ensures
        q % x != 0,
    decreases s - d + 1,
{
    if d < x {
        lemma_no_divisor_within(q, d + 1, s, x);
    }
}

/// A number without a divisor from 2 up to its square root is prime.
proof fn lemma_prime_by_trial(q: int, s: int)
    requires
        q >= 2,
        s >= 1,
        (s + 1) * (s + 1) > q,
        no_divisor_within(q, 2, s),
    ensures
        is_prime(q),
{
    assert forall|d: int| 2 <= d < q implies #[trigger] (q % d) != 0 by {
        if q % d == 0 {
            let c = q / d;
            lemma_fundamental_div_mod(q, d);
            assert(q == c * d) by (nonlinear_arith)
                requires
                    q == d * c,
            ;
            assert(c >= 2) by (nonlinear_arith)
                requires
                    q == d * c,
                    2 <= d < q,
            ;
            if d <= s {
                lemma_no_divisor_within(q, 2, s, d);
            } else {
                assert(c <= s) by (nonlinear_arith)
                    requires
                        q == d * c,
                        d >= s + 1,
                        (s + 1) * (s + 1) > q,
                        c >= 2,
                        s >= 1,
                ;
                lemma_no_divisor_within(q, 2, s, c);
                lemma_mod_multiples_basic(d, c);
            }
        }
    }
}

/// One more number that does not divide `q`.
proof fn lemma_trial_one(q: int, d: int, s: int)
    requires
        q % d != 0,
        no_divisor_within(q, d + 1, s),
    ensures
        no_divisor_within(q, d, s),
{
}

/// Four more numbers that do not divide `q`.
proof fn lemma_trial_four(q: int, d: int, s: int)
    requires
        q % d != 0,
        q % (d + 1) != 0,
        q % (d + 2) != 0,
        q % (d + 3) != 0,
        no_divisor_within(q, d + 4, s),
    ensures
        no_divisor_within(q, d, s),
{
    lemma_trial_one(q, d + 3, s);
    lemma_trial_one(q, d + 2, s);
    lemma_trial_one(q, d + 1, s);
}

/// The primes that divide `m - 1`.
proof fn lemma_prime_divisors()
    ensures
        is_prime(2),
        is_prime(3),
        is_prime(5),
        is_prime(7),
        is_prime(11),
        is_prime(13),
        is_prime(31),
        is_prime(41),
        is_prime(61),
        is_prime(151),
        is_prime(331),
        is_prime(1321),
{
    assert(no_divisor_within(2, 2, 1));
    lemma_prime_by_trial(2, 1);
    assert(no_divisor_within(3, 2, 1));
    lemma_prime_by_trial(3, 1);
    assert(no_divisor_within(5, 3, 2));
    lemma_trial_one(5, 2, 2);
    lemma_prime_by_trial(5, 2);
    assert(no_divisor_within(7, 3, 2));
    lemma_trial_one(7, 2, 2);
    lemma_prime_by_trial(7, 2);
    assert(no_divisor_within(11, 4, 3));
    lemma_trial_one(11, 3, 3);
    lemma_trial_one(11, 2, 3);
    lemma_prime_by_trial(11, 3);
    assert(no_divisor_within(13, 4, 3));
    lemma_trial_one(13, 3, 3);
    lemma_trial_one(13, 2, 3);
    lemma_prime_by_trial(13, 3);
    assert(no_divisor_within(31, 6, 5));
    lemma_trial_four(31, 2, 5);
    lemma_prime_by_trial(31, 5);
    assert(no_divisor_within(41, 7, 6));
    lemma_trial_four(41, 3, 6);
    lemma_trial_one(41, 2, 6);
    lemma_prime_by_trial(41, 6);
    assert(no_divisor_within(61, 8, 7));
    lemma_trial_four(61, 4, 7);
    lemma_trial_one(61, 3, 7);
    lemma_trial_one(61, 2, 7);
    lemma_prime_by_trial(61, 7);
    assert(no_divisor_within(151, 13, 12));
    lemma_trial_four(151, 9, 12);
    lemma_trial_four(151, 5, 12);
    lemma_trial_one(151, 4, 12);
    lemma_trial_one(151, 3, 12);
    lemma_trial_one(151, 2, 12);
    lemma_prime_by_trial(151, 12);
    assert(no_divisor_within(331, 19, 18));
    lemma_trial_four(331, 15, 18);
    lemma_trial_four(331, 11, 18);
    lemma_trial_four(331, 7, 18);
    lemma_trial_four(331, 3, 18);
    lemma_trial_one(331, 2, 18);
    lemma_prime_by_trial(331, 18);
    assert(no_divisor_within(1321, 37, 36));
    lemma_trial_four(1321, 33, 36);
    lemma_trial_four(1321, 29, 36);
    lemma_trial_four(1321, 25, 36);
    lemma_trial_four(1321, 21, 36);
    lemma_trial_four(1321, 17, 36);
    lemma_trial_four(1321, 13, 36);
    lemma_trial_four(1321, 9, 36);
    lemma_trial_four(1321, 5, 36);
    lemma_trial_one(1321, 4, 36);
    lemma_trial_one(1321, 3, 36);
    lemma_trial_one(1321, 2, 36);
    lemma_prime_by_trial(1321, 36);
}

/// The algorithm of Euclid, run as a proof: a common divisor `g` of `a`
/// and `b` that is a combination of them. The result is `(g, u, v, ka, kb)`
/// with `g == u * a + v * b`, `a == g * ka` and `b == g * kb`.
proof fn lemma_bezout(a: nat, b: nat) -> (r: (int, int, int, int, int))
    requires
        a > 0 || b > 0,
    ensures
        r.0 >= 1,
        r.0 == r.1 * a + r.2 * b,
        a == r.0 * r.3,
        b == r.0 * r.4,
    decreases b,
{
    if b == 0 {
        (a as int, 1, 0, 1, 0)
    } else {
        let q = (a / b) as int;
        let rest = a % b;
        lemma_fundamental_div_mod(a as int, b as int);
        let (g, u, v, kb, kr) = lemma_bezout(b, rest);
        assert(g == v * a + (u - v * q) * b) by (nonlinear_arith)
            requires
                g == u * b + v * rest,
                a == b * q + rest,
        ;
        assert(a == g * (kb * q + kr)) by (nonlinear_arith)
            requires
                a == b * q + rest,
                b == g * kb,
                rest == g * kr,
        ;
        (g, v, u - v * q, kb * q + kr, kb)
    }
}

/// The lemma of Euclid: a number that divides `q * r` and is not divisible
/// by the prime `q` divides `r`.
proof fn lemma_cancel_prime(q: nat, e: nat, r: nat)
    requires
        is_prime(q as int),
        e >= 1,
        (q * r) % e == 0,
        e % q != 0,
    ensures
        r % e == 0,
{
    let (g, u, v, ke, kq) = lemma_bezout(e, q);
    assert(kq >= 1 && g <= q) by (nonlinear_arith)
        requires
            q == g * kq,
            g >= 1,
            q >= 2,
    ;
    if 1 < g < q {
        lemma_mod_multiples_basic(kq, g);
        assert(g * kq == kq * g) by (nonlinear_arith);
        assert((q as int) % g == 0);
    }
    if g == q {
        lemma_mod_multiples_basic(ke, q as int);
        assert(g * ke == ke * q) by (nonlinear_arith)
            requires
                g == q,
        ;
    }
    assert(g == 1);
    lemma_fundamental_div_mod((q * r) as int, e as int);
    let t = ((q * r) as int) / (e as int);
    assert(r == (r * u + v * t) * e) by (nonlinear_arith)
        requires
            1 == u * e + v * q,
            q * r == e * t,
    ;
    lemma_mod_multiples_basic(r * u + v * t, e as int);
}

/// A divisor of `m - 1` that none of the twelve primes divides is 1.
proof fn lemma_divisor_without_primes(e: nat)
    requires
        e >= 1,
        unit_count() % e == 0,
        e % 2 != 0,
        e % 3 != 0,
        e % 5 != 0,
        e % 7 != 0,
        e % 11 != 0,
        e % 13 != 0,
        e % 31 != 0,
        e % 41 != 0,
        e % 61 != 0,
        e % 151 != 0,
        e % 331 != 0,
        e % 1321 != 0,
    ensures
        e == 1,
{
    lemma_prime_divisors();
    lemma_cancel_prime(2, e, 1152921504606846975);
    lemma_cancel_prime(3, e, 384307168202282325);
    lemma_cancel_prime(3, e, 128102389400760775);
    lemma_cancel_prime(5, e, 25620477880152155);
    lemma_cancel_prime(5, e, 5124095576030431);
    lemma_cancel_prime(7, e, 732013653718633);
    lemma_cancel_prime(11, e, 66546695792603);
    lemma_cancel_prime(13, e, 5118976599431);
    lemma_cancel_prime(31, e, 165128277401);
    lemma_cancel_prime(41, e, 4027518961);
    lemma_cancel_prime(61, e, 66024901);
    lemma_cancel_prime(151, e, 437251);
    lemma_cancel_prime(331, e, 1321);
    lemma_cancel_prime(1321, e, 1);
    if e >= 2 {
        lemma_small_mod(1, e);
    }
}

/// Where `37^k = 1` and `k` divides `m - 1` with a quotient that the prime
/// `q` divides, `37^((m - 1) / q) = 1` as well.
proof fn lemma_period_divides(k: nat, e: nat, q: nat, part: nat)
    requires
        pow_mod(generator(), k) == 1,
        unit_count() == e * k,
        q > 0,
        e % q == 0,
        unit_count() == q * part,
    ensures
        pow_mod(generator(), part) == 1,
{
    let f = e / q;
    lemma_fundamental_div_mod(e as int, q as int);
    assert(part == k * f) by (nonlinear_arith)
        requires
            e == q * f,
            q * part == e * k,
            q > 0,
    ;
    lemma_pow_mod_mul(generator(), k, f);
    lemma_pow_mod_one(f);
}

/// What the powers of [`crate::certificate`] add up to: the order of the
/// generator divides `m - 1` and none of its proper divisors.
proof fn lemma_certificate()
    ensures
        pow_mod(generator(), unit_count()) == 1,
        pow_mod(generator(), 1152921504606846975) != 1,
        pow_mod(generator(), 768614336404564650) != 1,
        pow_mod(generator(), 461168601842738790) != 1,
        pow_mod(generator(), 329406144173384850) != 1,
        pow_mod(generator(), 209622091746699450) != 1,
        pow_mod(generator(), 177372539170284150) != 1,
        pow_mod(generator(), 74382032555280450) != 1,
        pow_mod(generator(), 56240073395455950) != 1,
        pow_mod(generator(), 37800705069076950) != 1,
        pow_mod(generator(), 15270483504726450) != 1,
        pow_mod(generator(), 6966293079195450) != 1,
        pow_mod(generator(), 1745528394559950) != 1,
{
    crate::certificate::lemma_power_2();
    crate::certificate::lemma_power_3();
    crate::certificate::lemma_power_5();
    crate::certificate::lemma_power_7();
    crate::certificate::lemma_power_11();
    crate::certificate::lemma_power_13();
    crate::certificate::lemma_power_31();
    crate::certificate::lemma_power_41();
    crate::certificate::lemma_power_61();
    crate::certificate::lemma_power_151();
    crate::certificate::lemma_power_331();
    crate::certificate::lemma_power_1321();
    lemma_double(1152921504606846975, 2305843009213693950, 1);
}

/// No power of the generator with an exponent between 0 and `m - 1` is 1.
proof fn lemma_no_period_below(k: nat)
    requires
        0 < k < unit_count(),
    ensures
        pow_mod(generator(), k) != 1,
    decreases k,
{
    if pow_mod(generator(), k) == 1 {
        lemma_certificate();
        let n = unit_count();
        let t = n / k;
        let r = n % k;
        lemma_fundamental_div_mod(n as int, k as int);
        lemma_pow_mod_mul(generator(), k, t);
        lemma_pow_mod_one(t);
        lemma_pow_mod_add(generator(), k * t, r);
        lemma_pow_mod_range(generator(), r);
        lemma_small_mod(pow_mod(generator(), r) as nat, MODULUS as nat);
        assert(pow_mod(generator(), r) == 1);
        if r > 0 {
            lemma_no_period_below(r);
        } else {
            assert(n == t * k && t >= 2) by (nonlinear_arith)
                requires
                    n == k * t,
                    0 < k < n,
            ;
            if t % 2 == 0 {
                lemma_period_divides(k, t, 2, 1152921504606846975);
            } else if t % 3 == 0 {
                lemma_period_divides(k, t, 3, 768614336404564650);
            } else if t % 5 == 0 {
                lemma_period_divides(k, t, 5, 461168601842738790);
            } else if t % 7 == 0 {
                lemma_period_divides(k, t, 7, 329406144173384850);
            } else if t % 11 == 0 {
                lemma_period_divides(k, t, 11, 209622091746699450);
            } else if t % 13 == 0 {
                lemma_period_divides(k, t, 13, 177372539170284150);
            } else if t % 31 == 0 {
                lemma_period_divides(k, t, 31, 74382032555280450);
            } else if t % 41 == 0 {
                lemma_period_divides(k, t, 41, 56240073395455950);
            } else if t % 61 == 0 {
                lemma_period_divides(k, t, 61, 37800705069076950);
            } else if t % 151 == 0 {
                lemma_period_divides(k, t, 151, 15270483504726450);
            } else if t % 331 == 0 {
                lemma_period_divides(k, t, 331, 6966293079195450);
            } else if t % 1321 == 0 {
                lemma_period_divides(k, t, 1321, 1745528394559950);
            } else {
                lemma_mod_multiples_basic(k as int, t as int);
                lemma_divisor_without_primes(t);
            }
        }
    }
}

/// The complementary power is the inverse of a power of the generator.
proof fn lemma_complement(k: nat)
    requires
        k <= unit_count(),
    ensures
        (pow_mod(generator(), k) * pow_mod(generator(), (unit_count() - k) as nat)) % (
        MODULUS as int) == 1,
        0 < pow_mod(generator(), k) < MODULUS,
{
    lemma_certificate();
    lemma_pow_mod_add(generator(), k, (unit_count() - k) as nat);
    lemma_pow_mod_range(generator(), k);
    if pow_mod(generator(), k) == 0 {
        assert(0 * pow_mod(generator(), (unit_count() - k) as nat) == 0);
    }
}

/// Different exponents below `m - 1` give different powers of the
/// generator.
proof fn lemma_powers_differ(i: nat, j: nat)
    requires
        i < j < unit_count(),
    ensures
        pow_mod(generator(), i) != pow_mod(generator(), j),
{
    if pow_mod(generator(), i) == pow_mod(generator(), j) {
        let c = (unit_count() - i) as nat;
        let d = (j - i) as nat;
        lemma_certificate();
        lemma_complement(i);
        lemma_pow_mod_add(generator(), j, c);
        lemma_pow_mod_add(generator(), unit_count(), d);
        assert(j + c == unit_count() + d);
        lemma_pow_mod_range(generator(), d);
        lemma_small_mod(pow_mod(generator(), d) as nat, MODULUS as nat);
        assert(1 * pow_mod(generator(), d) == pow_mod(generator(), d));
        lemma_no_period_below(d);
    }
}

/// Every residue but zero is a power of the generator.
proof fn lemma_generated(b: nat) -> (k: nat)
    requires
        0 < b < MODULUS,
    ensures
        k < unit_count(),
        pow_mod(generator(), k) == b,
{
    let f = |k: int| pow_mod(generator(), k as nat);
    let exponents = set_int_range(0, unit_count() as int);
    let units = set_int_range(1, MODULUS as int);
    let powers = exponents.map(f);
    lemma_int_range(0, unit_count() as int);
    lemma_int_range(1, MODULUS as int);
    assert(injective_on(f, exponents)) by {
        assert forall|x1: int, x2: int|
            exponents.contains(x1) && exponents.contains(x2) && #[trigger] f(x1) == #[trigger] f(
                x2,
            ) implies x1 == x2 by {
            if x1 < x2 {
                lemma_powers_differ(x1 as nat, x2 as nat);
            } else if x2 < x1 {
                lemma_powers_differ(x2 as nat, x1 as nat);
            }
        }
    }
    lemma_map_size(exponents, powers, f);
    assert(powers.subset_of(units)) by {
        assert forall|y: int| powers.contains(y) implies units.contains(y) by {
            let x = choose|x: int| exponents.contains(x) && f(x) == y;
            lemma_complement(x as nat);
        }
    }
    lemma_subset_equality(powers, units);
    assert(units.contains(b as int));
    assert(powers.contains(b as int));
    let x = choose|x: int| exponents.contains(x) && f(x) == b as int;
    x as nat
}

/// Every residue but zero has an inverse: the modulus is prime.
pub proof fn lemma_nonzero_is_unit(b: nat)
    requires
        0 < b < MODULUS,
    ensures
        is_unit(b),
{
    let k = lemma_generated(b);
    lemma_complement(k);
    let w = pow_mod(generator(), (unit_count() - k) as nat);
    lemma_pow_mod_range(generator(), (unit_count() - k) as nat);
    assert(is_inverse(b, w as nat));
}

} // verus!
