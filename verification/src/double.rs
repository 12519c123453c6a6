//! Double-precision arithmetic on natural numbers, carried out in integers.
//!
//! A double holds 53 significant bits, and every operation rounds its exact
//! result to the nearest double, a tie to the one whose last bit is zero.
//! None of the values here leaves the range of normal doubles.

use vstd::arithmetic::power2::{
    lemma2_to64, lemma_pow2_adds, lemma_pow2_pos, lemma_pow2_unfold, pow2,
};
use vstd::prelude::*;

verus! {

/// Two to the power of 53: below it every natural number is a double.
pub const PRECISION: u128 = 0x20_0000_0000_0000;

/// Half of [`PRECISION`], the least number of 53 bits.
pub const HALF_PRECISION: u128 = 0x10_0000_0000_0000;

/// The natural number nearest to `n / d`, a tie going to the even one.
pub open spec fn nearest(n: nat, d: nat) -> nat
    recommends
        d > 0,
{
    let q = n / d;
    let r = n % d;
    if 2 * r > d || (2 * r == d && q % 2 == 1) {
        q + 1
    } else {
        q
    }
}

/// The distance between neighbouring doubles at `n`.
pub open spec fn spacing(n: nat) -> nat
    decreases n,
{
    if n < PRECISION {
        1
    } else {
        2 * spacing(n / 2)
    }
}

/// The double nearest to `n`.
pub open spec fn to_double(n: nat) -> nat {
    nearest(n, spacing(n)) * spacing(n)
}

/// The power of two by which `x / y`, a quotient below one, is scaled up so
/// that 53 bits stand before its point.
pub open spec fn scaling(x: nat, y: nat) -> nat
    decreases
            (if x < y * HALF_PRECISION {
                y * HALF_PRECISION - x
            } else {
                0
            }),
{
    if x == 0 || x >= y * HALF_PRECISION {
        1
    } else {
        2 * scaling(2 * x, y)
    }
}

/// Division by one leaves nothing to round.
pub proof fn nearest_of_one(n: nat)
    ensures
        nearest(n, 1) == n,
{
    assert(n / 1 == n && n % 1 == 0) by (nonlinear_arith);
}

/// A natural number of at most 53 bits is a double already.
pub proof fn small_is_double(n: nat)
    requires
        n < PRECISION,
    ensures
        to_double(n) == n,
{
    nearest_of_one(n);
    let (s, q) = (spacing(n), nearest(n, spacing(n)));
    assert(q * s == q) by (nonlinear_arith)
        requires
            s == 1,
    ;
}

/// The spacing is one, or the number holds at least half of [`PRECISION`] steps of
/// it; either way it holds less than [`PRECISION`] of them.
pub proof fn spacing_bounds(n: nat)
    ensures
        1 <= spacing(n),
        spacing(n) == 1 || spacing(n) * HALF_PRECISION <= n,
        n < spacing(n) * PRECISION,
    decreases n,
{
    if n >= PRECISION {
        spacing_bounds(n / 2);
    }
}

/// Only zero is rounded to zero.
pub proof fn positive_double(n: nat)
    requires
        n > 0,
    ensures
        to_double(n) > 0,
{
    spacing_bounds(n);
    let (s, q) = (spacing(n), nearest(n, spacing(n)));
    assert(n / s > 0 && (q >= n / s ==> q * s > 0)) by (nonlinear_arith)
        requires
            0 < s <= n,
    ;
}

/// Quotient and remainder make up the dividend, and the remainder is below the
/// divisor.
proof fn division_with_remainder(n: nat, d: nat)
    requires
        d > 0,
    ensures
        n == (n / d) * d + n % d,
        n % d < d,
{
    assert(n == (n / d) * d + n % d && n % d < d) by (nonlinear_arith)
        requires
            d > 0,
    ;
}

/// What is at least `k` times the divisor is not rounded below `k`, and what is
/// at most `k` times the divisor is not rounded above it.
pub proof fn nearest_bounds(n: nat, d: nat, k: nat)
    requires
        d > 0,
    ensures
        k * d <= n ==> k <= nearest(n, d),
        n <= k * d ==> nearest(n, d) <= k,
{
    let (q, r) = (n / d, n % d);
    division_with_remainder(n, d);
    assert(k * d <= n ==> k <= q) by (nonlinear_arith)
        requires
            n == q * d + r,
            r < d,
    ;
    assert(n <= k * d ==> q <= k && (q == k ==> r == 0)) by (nonlinear_arith)
        requires
            n == q * d + r,
            0 <= r < d,
    ;
}

/// A rounded quotient is off by half at most.
pub proof fn nearest_error(n: nat, d: nat)
    requires
        d > 0,
    ensures
        2 * n <= 2 * (nearest(n, d) * d) + d,
        2 * (nearest(n, d) * d) <= 2 * n + d,
{
    let (q, r) = (n / d, n % d);
    division_with_remainder(n, d);
    assert((q + 1) * d == q * d + d) by (nonlinear_arith);
}

/// A rounded quotient is the one natural number that is off by half at most, and an
/// even one where two are.
pub proof fn nearest_is_the_only_one(n: nat, d: nat, q: nat)
    requires
        d > 0,
    ensures
        q == nearest(n, d) <==> {
            &&& 2 * n <= 2 * (q * d) + d
            &&& 2 * (q * d) <= 2 * n + d
            &&& 2 * n == 2 * (q * d) + d || 2 * (q * d) == 2 * n + d ==> q % 2 == 0
        },
{
    let (p, r) = (n / d, n % d);
    division_with_remainder(n, d);
    nearest_error(n, d);
    assert((p + 1) * d == p * d + d) by (nonlinear_arith);
    if 2 * n <= 2 * (q * d) + d && 2 * (q * d) <= 2 * n + d {
        assert(q == p || q == p + 1) by (nonlinear_arith)
            requires
                2 * n <= 2 * (q * d) + d,
                2 * (q * d) <= 2 * n + d,
                n == p * d + r,
                0 <= r < d,
                q >= 0,
        ;
    }
}

/// The spacing by the bits of the number: a number of `53 + k` bits has `2^k`.
pub proof fn spacing_by_bits(n: nat, k: nat)
    requires
        k == 0 && n < 0x20_0000_0000_0000 || 0x10_0000_0000_0000 * pow2(k) <= n
            < 0x20_0000_0000_0000 * pow2(k),
    ensures
        spacing(n) == pow2(k),
    decreases k,
{
    lemma2_to64();
    if k > 0 {
        lemma_pow2_unfold(k);
        lemma_pow2_pos((k - 1) as nat);
        spacing_by_bits(n / 2, (k - 1) as nat);
    }
}

/// The double of a number of `53 + k` bits is the multiple of `2^k` nearest to it,
/// an even multiple where two are.
pub proof fn double_is_nearest_multiple(n: nat, k: nat, m: nat)
    requires
        k == 0 && n < 0x20_0000_0000_0000 || 0x10_0000_0000_0000 * pow2(k) <= n
            < 0x20_0000_0000_0000 * pow2(k),
        2 * n <= 2 * (m * pow2(k)) + pow2(k),
        2 * (m * pow2(k)) <= 2 * n + pow2(k),
        2 * n == 2 * (m * pow2(k)) + pow2(k) || 2 * (m * pow2(k)) == 2 * n + pow2(k) ==> m % 2 == 0,
    ensures
        to_double(n) == m * pow2(k),
{
    spacing_by_bits(n, k);
    lemma_pow2_pos(k);
    nearest_is_the_only_one(n, pow2(k), m);
}

/// The scaling is the power of two that gives the quotient 53 bits.
pub proof fn scaling_by_bits(x: nat, y: nat, k: nat)
    requires
        y * 0x10_0000_0000_0000 <= x * pow2(k) < y * 0x20_0000_0000_0000,
    ensures
        scaling(x, y) == pow2(k),
    decreases k,
{
    lemma2_to64();
    assert(x > 0) by (nonlinear_arith)
        requires
            y * 0x10_0000_0000_0000 <= x * pow2(k) < y * 0x20_0000_0000_0000,
            x >= 0,
    ;
    if k == 0 {
        assert(x * pow2(k) == x) by (nonlinear_arith)
            requires
                pow2(k) == 1,
        ;
    } else {
        let h = pow2((k - 1) as nat);
        lemma_pow2_unfold(k);
        lemma_pow2_pos((k - 1) as nat);
        assert((2 * x) * h == x * pow2(k)) by (nonlinear_arith)
            requires
                pow2(k) == 2 * h,
        ;
        assert(x < y * 0x10_0000_0000_0000) by (nonlinear_arith)
            requires
                (2 * x) * h < y * 0x20_0000_0000_0000,
                h >= 1,
        ;
        scaling_by_bits(2 * x, y, (k - 1) as nat);
    }
}

/// Rounding keeps the order of quotients, here of `a / d` and `b / e`.
pub proof fn nearest_order(a: nat, d: nat, b: nat, e: nat)
    requires
        d > 0,
        e > 0,
        a * e <= b * d,
    ensures
        nearest(a, d) <= nearest(b, e),
{
    let (p, r) = (a / d, a % d);
    let (q, t) = (b / e, b % e);
    division_with_remainder(a, d);
    division_with_remainder(b, e);
    assert(p <= q) by (nonlinear_arith)
        requires
            a == p * d + r,
            b == q * e + t,
            a * e <= b * d,
            0 <= r,
            t < e,
            d > 0,
            e > 0,
    ;
    if p == q {
        assert(r * e <= t * d) by (nonlinear_arith)
            requires
                a == p * d + r,
                b == p * e + t,
                a * e <= b * d,
        ;
        assert((2 * r > d ==> 2 * t > e) && (2 * r == d ==> 2 * t >= e)) by (nonlinear_arith)
            requires
                r * e <= t * d,
                d > 0,
                e > 0,
        ;
    }
}

/// Rounding a quotient keeps the order of the dividends.
pub proof fn nearest_monotone(a: nat, b: nat, d: nat)
    requires
        d > 0,
        a <= b,
    ensures
        nearest(a, d) <= nearest(b, d),
{
    assert(a * d <= b * d) by (nonlinear_arith)
        requires
            a <= b,
    ;
    nearest_order(a, d, b, d);
}

/// Doubling dividend and divisor changes no quotient.
pub proof fn nearest_twice(n: nat, d: nat)
    requires
        d > 0,
    ensures
        nearest(2 * n, 2 * d) == nearest(n, d),
{
    let (q, r) = (n / d, n % d);
    division_with_remainder(n, d);
    assert(2 * n == q * (2 * d) + 2 * r) by (nonlinear_arith)
        requires
            n == q * d + r,
    ;
    vstd::arithmetic::div_mod::lemma_fundamental_div_mod_converse(
        2 * n as int,
        2 * d as int,
        q as int,
        2 * r as int,
    );
}

/// The spacing grows with the number, and by a factor of two at least.
pub proof fn spacing_monotone(a: nat, b: nat)
    requires
        a <= b,
    ensures
        spacing(a) == spacing(b) || 2 * spacing(a) <= spacing(b),
    decreases b,
{
    if a >= PRECISION {
        spacing_monotone(a / 2, b / 2);
    } else {
        spacing_bounds(b / 2);
    }
}

/// Rounding to doubles keeps the order.
pub proof fn to_double_monotone(a: nat, b: nat)
    requires
        a <= b,
    ensures
        to_double(a) <= to_double(b),
{
    spacing_bounds(a);
    spacing_bounds(b);
    spacing_monotone(a, b);
    let (s, t) = (spacing(a), spacing(b));
    let (p, q) = (nearest(a, s), nearest(b, t));
    if s == t {
        nearest_monotone(a, b, s);
        assert(p * s <= q * s) by (nonlinear_arith)
            requires
                p <= q,
        ;
    } else {
        nearest_bounds(a, s, PRECISION as nat);
        nearest_bounds(b, t, HALF_PRECISION as nat);
        assert(p * s <= q * t) by (nonlinear_arith)
            requires
                p <= PRECISION,
                q >= HALF_PRECISION,
                2 * s <= t,
        ;
    }
}

/// Rounding to doubles commutes with doubling.
pub proof fn to_double_twice(n: nat)
    ensures
        to_double(2 * n) == 2 * to_double(n),
{
    spacing_bounds(n);
    let (s, q) = (spacing(n), nearest(n, spacing(n)));
    if 2 * n < PRECISION {
        small_is_double(n);
        small_is_double(2 * n);
    } else {
        assert((2 * n) / 2 == n);
        nearest_twice(n, s);
        assert(q * (2 * s) == 2 * (q * s)) by (nonlinear_arith);
    }
}

/// Rounding to doubles commutes with multiplication by a power of two.
pub proof fn to_double_shift(n: nat, k: nat)
    ensures
        to_double(n * pow2(k)) == to_double(n) * pow2(k),
    decreases k,
{
    let d = to_double(n);
    if k == 0 {
        lemma2_to64();
        assert(n * 1 == n && d * 1 == d);
    } else {
        let h = pow2((k - 1) as nat);
        lemma_pow2_unfold(k);
        to_double_shift(n, (k - 1) as nat);
        to_double_twice(n * h);
        assert(n * (2 * h) == 2 * (n * h) && d * (2 * h) == 2 * (d * h)) by (nonlinear_arith);
    }
}

/// The scaling is a power of two that puts the quotient between half of
/// [`PRECISION`] and [`PRECISION`].
pub proof fn scaling_bounds(x: nat, y: nat)
    requires
        0 < x < y * PRECISION,
    ensures
        scaling(x, y) > 0,
        exists|k: nat| scaling(x, y) == pow2(k),
        y * HALF_PRECISION <= x * scaling(x, y) < y * PRECISION,
    decreases y * PRECISION - x,
{
    let s = scaling(x, y);
    if x >= y * HALF_PRECISION {
        lemma2_to64();
        assert(s == pow2(0));
        assert(x * 1 == x);
    } else {
        scaling_bounds(2 * x, y);
        let t = scaling(2 * x, y);
        let k = choose|k: nat| t == pow2(k);
        lemma_pow2_unfold(k + 1);
        assert(s == pow2(k + 1));
        assert(x * (2 * t) == (2 * x) * t) by (nonlinear_arith);
    }
}

/// Of two quotients `a / y` and `b / z` the smaller is scaled by the larger factor,
/// and the two factors differ by a power of two.
pub proof fn scaling_order(a: nat, y: nat, b: nat, z: nat) -> (k: nat)
    requires
        0 < a < y * PRECISION,
        0 < b < z * PRECISION,
        a * z <= b * y,
    ensures
        scaling(a, y) == scaling(b, z) * pow2(k),
{
    scaling_bounds(a, y);
    scaling_bounds(b, z);
    let (s, t) = (scaling(a, y), scaling(b, z));
    let i = choose|i: nat| s == pow2(i);
    let j = choose|j: nat| t == pow2(j);
    if i < j {
        let m = pow2((j - i) as nat);
        lemma_pow2_adds(i, (j - i) as nat);
        lemma_pow2_unfold((j - i) as nat);
        lemma_pow2_pos((j - i - 1) as nat);
        assert((a * s) * z <= (b * s) * y && (y * HALF_PRECISION) * z <= (a * s) * z)
            by (nonlinear_arith)
            requires
                a * z <= b * y,
                y * HALF_PRECISION <= a * s,
        ;
        assert(z * HALF_PRECISION <= b * s) by (nonlinear_arith)
            requires
                (y * HALF_PRECISION) * z <= (b * s) * y,
                y > 0,
        ;
        assert(b * t >= z * PRECISION) by (nonlinear_arith)
            requires
                t == s * m,
                m >= 2,
                z * HALF_PRECISION <= b * s,
                PRECISION == 2 * HALF_PRECISION,
        ;
        0
    } else {
        lemma_pow2_adds(j, (i - j) as nat);
        (i - j) as nat
    }
}

/// `n / d` rounded to the nearest natural number, ties to even.
pub fn round_quotient(n: u128, d: u128) -> (q: u128)
    requires
        d > 0,
    ensures
        q == nearest(n as nat, d as nat),
        2 * n <= 2 * (q * d) + d,
        2 * (q * d) <= 2 * n + d,
        2 * n == 2 * (q * d) + d || 2 * (q * d) == 2 * n + d ==> q % 2 == 0,
{
    proof {
        nearest_is_the_only_one(n as nat, d as nat, nearest(n as nat, d as nat));
    }
    let q: u128 = n / d;
    let r: u128 = n % d;
    if r > d - r || (r == d - r && q % 2 == 1) {
        proof {
            assert(d >= 2 ==> q <= n / 2) by (nonlinear_arith)
                requires
                    d > 0,
                    q == n / d,
            ;
        }
        q + 1
    } else {
        q
    }
}

/// The distance between neighbouring doubles at `n`.
pub fn double_spacing(n: u128) -> (s: u128)
    ensures
        s == spacing(n as nat),
        0 < s,
        s <= n || s == 1,
{
    let mut m: u128 = n;
    let mut s: u128 = 1;
    while m >= PRECISION
        invariant
            spacing(n as nat) == s * spacing(m as nat),
            0 < s,
            s * m <= n,
            s == 1 || s < n,
        decreases m,
    {
        proof {
            let (a, b) = (s as int, m as int);
            assert((2 * a) * (b / 2) <= a * b) by (nonlinear_arith)
                requires
                    a > 0,
                    b >= 0,
            ;
            assert(2 * a < a * b) by (nonlinear_arith)
                requires
                    a > 0,
                    b >= PRECISION,
            ;
            let t = spacing((m / 2) as nat) as int;
            assert(a * (2 * t) == (2 * a) * t) by (nonlinear_arith);
        }
        m = m / 2;
        s = s * 2;
    }
    proof {
        assert(s * 1 == s);
    }
    s
}

/// The double nearest to `n`.
pub fn round_to_double(n: u128) -> (r: u128)
    requires
        n < 0x1_0000_0000_0000_0000_0000_0000_0000,
    ensures
        r == to_double(n as nat),
        r <= 2 * n,
{
    let s: u128 = double_spacing(n);
    let q: u128 = round_quotient(n, s);
    proof {
        let (a, b, c) = (n as int, s as int, q as int);
        assert(c <= a / b + 1);
        nearest_of_one(n as nat);
        assert(c * 1 == c) by (nonlinear_arith);
        assert(c * b <= a + b) by (nonlinear_arith)
            requires
                c <= a / b + 1,
                b > 0,
                a >= 0,
        ;
    }
    q * s
}

/// The scaling of `x / y` to 53 bits.
pub fn quotient_scaling(x: u128, y: u128) -> (s: u128)
    requires
        0 < x < y,
        y <= 0x4_0000_0000_0000_0000,
    ensures
        s == scaling(x as nat, y as nat),
        0 < s,
        x * s < y * PRECISION,
{
    let bound: u128 = y * HALF_PRECISION;
    let mut scaled: u128 = x;
    let mut s: u128 = 1;
    while scaled < bound
        invariant
            0 < x < y,
            y <= 0x4_0000_0000_0000_0000,
            bound == y * HALF_PRECISION,
            scaled == x * s,
            0 < s <= scaled,
            scaled < 2 * bound,
            scaling(x as nat, y as nat) == s * scaling(scaled as nat, y as nat),
        decreases 2 * bound - scaled,
    {
        proof {
            let (a, b) = (x as int, s as int);
            let t = scaling((2 * scaled) as nat, y as nat) as int;
            assert(b * (2 * t) == (2 * b) * t) by (nonlinear_arith);
            assert(a * (2 * b) == 2 * (a * b)) by (nonlinear_arith);
        }
        scaled = scaled * 2;
        s = s * 2;
    }
    proof {
        assert(s * 1 == s);
    }
    s
}

} // verus!
