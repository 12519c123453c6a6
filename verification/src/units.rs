//! Percentages, sizes and durations as the dashboard shows them.

use vstd::arithmetic::div_mod::lemma_fundamental_div_mod_converse;
use vstd::arithmetic::power2::{lemma2_to64, lemma_pow2_pos, lemma_pow2_unfold, pow2};
use vstd::prelude::*;

use crate::double::{
    nearest, nearest_bounds, nearest_error, nearest_is_the_only_one, nearest_monotone, nearest_order,
    positive_double, quotient_scaling, round_quotient, round_to_double, scaling, scaling_bounds,
    scaling_by_bits, scaling_order,
    small_is_double, spacing, spacing_bounds, to_double, to_double_monotone, to_double_shift,
    HALF_PRECISION, PRECISION,
};
use crate::text::{decimal, decimal_denotes, is_digit, number};

verus! {

/// The quotient `x / y` of two doubles, below one, in whole per cent: it is taken
/// and multiplied by a hundred in double precision, then rounded, a half going up.
pub open spec fn quotient_percent(x: nat, y: nat) -> nat {
    let s = scaling(x, y);
    let p = to_double(nearest(x * s, y) * 100);
    (2 * p + s) / (2 * s)
}

/// The share of `used` in `total` in whole per cent: the quotient is taken and
/// multiplied by a hundred in double precision, then rounded, a half going up,
/// and clamped to a hundred. Of nothing the share is zero.
pub open spec fn percent(used: nat, total: nat) -> nat {
    let x = to_double(used);
    let y = to_double(total);
    if total == 0 {
        0
    } else if x >= y {
        100
    } else {
        let rounded = quotient_percent(x, y);
        if rounded > 100 {
            100
        } else {
            rounded
        }
    }
}

/// Where nothing is used, the share is zero.
pub proof fn unused_is_no_share(total: nat)
    ensures
        percent(0, total) == 0,
{
    if total > 0 {
        positive_double(total);
        small_is_double(0);
        let y = to_double(total);
        let s = scaling(0, y);
        assert(nearest(0 * s, y) == 0) by (nonlinear_arith)
            requires
                y > 0,
        ;
        assert((2 * 0nat + s) / (2 * s) == 0) by (nonlinear_arith)
            requires
                s == 1,
        ;
    }
}

/// Where all of it is used, or more, the share is a hundred.
pub proof fn full_is_whole_share(used: nat, total: nat)
    requires
        0 < total <= used,
    ensures
        percent(used, total) == 100,
{
    to_double_monotone(total, used);
}

/// Of nothing the share is zero, and what cannot be told in double precision from all
/// of it, or is more, has a share of a hundred.
pub proof fn share_at_the_ends(used: nat, total: nat)
    ensures
        percent(used, 0) == 0,
        0 < total && to_double(total) <= to_double(used) ==> percent(used, total) == 100,
        percent(used, total) <= 100,
{
}

/// The percentages of two quotients `x / y` and `z / w` are in their order.
proof fn lemma_quotient_percent_order(x: nat, y: nat, z: nat, w: nat)
    requires
        0 < x < y,
        0 < z < w,
        x * w <= z * y,
    ensures
        quotient_percent(x, y) <= quotient_percent(z, w),
{
    scaling_bounds(x, y);
    scaling_bounds(z, w);
    let k = scaling_order(x, y, z, w);
    let m = pow2(k);
    let (s, t) = (scaling(x, y), scaling(z, w));
    let (q, r) = (nearest(x * s, y), nearest(z * t, w));
    assert(q <= r * m) by {
        if k == 0 {
            lemma2_to64();
            assert(t * 1 == t && r * 1 == r);
            assert((x * t) * w <= (z * t) * y) by (nonlinear_arith)
                requires
                    x * w <= z * y,
            ;
            nearest_order(x * t, y, z * t, w);
        } else {
            lemma_pow2_unfold(k);
            lemma_pow2_pos((k - 1) as nat);
            assert(PRECISION * y == y * PRECISION && HALF_PRECISION * w == w * HALF_PRECISION)
                by (nonlinear_arith);
            nearest_bounds(x * s, y, PRECISION as nat);
            nearest_bounds(z * t, w, HALF_PRECISION as nat);
            assert(r * m >= PRECISION) by (nonlinear_arith)
                requires
                    r >= HALF_PRECISION,
                    m >= 2,
                    PRECISION == 2 * HALF_PRECISION,
            ;
        }
    }
    assert(q * 100 <= (r * 100) * m) by (nonlinear_arith)
        requires
            q <= r * m,
    ;
    to_double_monotone(q * 100, (r * 100) * m);
    to_double_shift(r * 100, k);
    lemma_pow2_pos(k);
    let (p, o) = (to_double(q * 100), to_double(r * 100));
    assert(m * (2 * o + t) == 2 * (o * m) + s && m * (2 * t) == 2 * s) by (nonlinear_arith)
        requires
            s == t * m,
    ;
    vstd::arithmetic::div_mod::lemma_div_multiples_vanish_quotient(
        m as int,
        (2 * o + t) as int,
        (2 * t) as int,
    );
    vstd::arithmetic::div_mod::lemma_div_is_ordered(
        (2 * p + s) as int,
        (2 * (o * m) + s) as int,
        (2 * s) as int,
    );
}

/// The share never falls when more is used.
pub proof fn share_grows_with_use(less: nat, more: nat, total: nat)
    requires
        less <= more,
    ensures
        percent(less, total) <= percent(more, total),
{
    let (x, z, y) = (to_double(less), to_double(more), to_double(total));
    to_double_monotone(less, more);
    if less == 0 {
        unused_is_no_share(total);
    } else if total > 0 && z < y {
        positive_double(less);
        assert(x * y <= z * y) by (nonlinear_arith)
            requires
                x <= z,
        ;
        lemma_quotient_percent_order(x, y, z, y);
    }
}

/// The share never grows when there is more in total.
pub proof fn share_falls_with_total(used: nat, less: nat, more: nat)
    requires
        0 < less <= more,
    ensures
        percent(used, more) <= percent(used, less),
{
    let (x, w, y) = (to_double(used), to_double(less), to_double(more));
    to_double_monotone(less, more);
    if used == 0 {
        unused_is_no_share(more);
    } else if x < w {
        positive_double(used);
        assert(x * w <= x * y) by (nonlinear_arith)
            requires
                w <= y,
        ;
        lemma_quotient_percent_order(x, y, x, w);
    }
}

/// The share is the true one to the nearest per cent: up to a total of 2^43 it is
/// off by half a per cent at most, and up to 2^53 the rounding errors add no more
/// than 300 to the difference between `percent * total` and `100 * used`.
pub proof fn share_is_true(used: nat, total: nat)
    requires
        used <= total < PRECISION,
    ensures
        2 * (percent(used, total) * total) <= 200 * used + total + 600,
        200 * used <= 2 * (percent(used, total) * total) + total + 600,
        total <= 0x800_0000_0000 ==> 2 * (percent(used, total) * total) <= 200 * used + total,
        total <= 0x800_0000_0000 ==> 200 * used <= 2 * (percent(used, total) * total) + total,
{
    if total == 0 {
        assert(0nat * total == 0) by (nonlinear_arith);
    } else if used == 0 {
        unused_is_no_share(total);
        assert(0nat * total == 0) by (nonlinear_arith);
    } else if used == total {
        full_is_whole_share(used, total);
    } else {
        small_is_double(used);
        small_is_double(total);
        let (x, y) = (used as int, total as int);
        scaling_bounds(used, total);
        let s = scaling(used, total) as int;
        let q = nearest(used * s as nat, total) as int;
        nearest_error(used * s as nat, total);
        nearest_bounds(used * s as nat, total, PRECISION as nat);
        assert(PRECISION * y == y * PRECISION) by (nonlinear_arith);
        let n = (q * 100) as nat;
        let p = to_double(n) as int;
        spacing_bounds(n);
        nearest_error(n, spacing(n));
        assert(spacing(n) <= 200);
        let r = (2 * p + s) / (2 * s);
        assert(2 * p - s <= r * (2 * s) <= 2 * p + s) by (nonlinear_arith)
            requires
                r == (2 * p + s) / (2 * s),
                s > 0,
        ;
        assert(s >= HALF_PRECISION) by (nonlinear_arith)
            requires
                y * HALF_PRECISION <= x * s,
                0 < x < y,
                s > 0,
        ;
        let d = 2 * (r * y) - 200 * x;
        assert(s * d == (r * (2 * s)) * y - 200 * (x * s)) by (nonlinear_arith)
            requires
                d == 2 * (r * y) - 200 * x,
        ;
        assert((2 * p - s) * y <= (r * (2 * s)) * y <= (2 * p + s) * y) by (nonlinear_arith)
            requires
                2 * p - s <= r * (2 * s) <= 2 * p + s,
                y > 0,
        ;
        assert((200 * q - 200) * y <= (2 * p) * y <= (200 * q + 200) * y) by (nonlinear_arith)
            requires
                200 * q - 200 <= 2 * p <= 200 * q + 200,
                y > 0,
        ;
        assert((2 * p - s) * y == (2 * p) * y - s * y && (2 * p + s) * y == (2 * p) * y + s * y
            && (200 * q - 200) * y == 200 * (q * y) - 200 * y && (200 * q + 200) * y == 200 * (q
            * y) + 200 * y) by (nonlinear_arith);
        assert(-(s * y + 300 * y) <= s * d <= s * y + 300 * y);
        assert(-(y + 600) <= d <= y + 600) by (nonlinear_arith)
            requires
                -(s * y + 300 * y) <= s * d <= s * y + 300 * y,
                s >= HALF_PRECISION,
                0 < y < 2 * HALF_PRECISION,
        ;
        if y <= 0x800_0000_0000 {
            assert(-y <= d <= y) by (nonlinear_arith)
                requires
                    -(s * y + 300 * y) <= s * d <= s * y + 300 * y,
                    s >= HALF_PRECISION,
                    0 < y <= 0x800_0000_0000,
            ;
        }
        if r > 100 {
            assert(100 * y <= r * y) by (nonlinear_arith)
                requires
                    100 < r,
                    y > 0,
            ;
        }
    }
}

/// How the share comes about in double precision: `q` is the quotient of the doubles
/// `x` and `y`, scaled to 53 bits by `2^k`, `p` the double of a hundred times `q`, and
/// the share is the whole number nearest to `p / 2^k`, the larger one where two are,
/// and a hundred at most.
pub proof fn share_by_rounding(used: nat, total: nat, k: nat, q: nat, r: nat)
    requires
        0 < total,
        to_double(used) < to_double(total),
        ({
            let (x, y, s) = (to_double(used), to_double(total), pow2(k));
            let p = to_double(q * 100);
            &&& y * 0x10_0000_0000_0000 <= x * s < y * 0x20_0000_0000_0000
            &&& 2 * (x * s) <= 2 * (q * y) + y
            &&& 2 * (q * y) <= 2 * (x * s) + y
            &&& 2 * (x * s) == 2 * (q * y) + y || 2 * (q * y) == 2 * (x * s) + y ==> q % 2 == 0
            &&& 2 * (r * s) <= 2 * p + s
            &&& 2 * p < 2 * (r * s) + s
        }),
    ensures
        percent(used, total) == if r > 100 {
            100
        } else {
            r
        },
{
    let (x, y, s) = (to_double(used), to_double(total), pow2(k));
    let p = to_double(q * 100);
    lemma_pow2_pos(k);
    scaling_by_bits(x, y, k);
    positive_double(total);
    nearest_is_the_only_one(x * s, y, q);
    assert((2 * p + s) / (2 * s) == r) by (nonlinear_arith)
        requires
            2 * (r * s) <= 2 * p + s,
            2 * p < 2 * (r * s) + s,
            s > 0,
    ;
}

/// The share of `used` in `total` in whole per cent.
pub fn pct(used: u64, total: u64) -> (r: u8)
    ensures
        r == percent(used as nat, total as nat),
        r <= 100,
        total == 0 || used == 0 ==> r == 0,
        0 < total <= used ==> r == 100,
        used <= total <= 0x800_0000_0000 ==> 2 * (r * total) <= 200 * used + total && 200 * used
            <= 2 * (r * total) + total,
{
    proof {
        unused_is_no_share(total as nat);
        if 0 < total <= used {
            full_is_whole_share(used as nat, total as nat);
        }
        if used <= total <= 0x800_0000_0000 {
            share_is_true(used as nat, total as nat);
        }
    }
    if total == 0 || used == 0 {
        return 0;
    }
    proof {
        positive_double(used as nat);
    }
    let x: u128 = round_to_double(used as u128);
    let y: u128 = round_to_double(total as u128);
    if x >= y {
        return 100;
    }
    let s: u128 = quotient_scaling(x, y);
    proof {
        let (a, b, c) = (x as int, y as int, s as int);
        assert(c <= a * c && 0 <= (a * c) / b < PRECISION) by (nonlinear_arith)
            requires
                a > 0,
                b > 0,
                c > 0,
                a * c < b * PRECISION,
        ;
    }
    let q: u128 = round_quotient(x * s, y);
    let p: u128 = round_to_double(q * 100);
    let rounded: u128 = (2 * p + s) / (2 * s);
    if rounded > 100 {
        100
    } else {
        rounded as u8
    }
}

/// The bytes of one gibibyte.
pub const GIB: u128 = 0x4000_0000;

/// A number of bytes in tenths of a gibibyte: the bytes as a double, divided and
/// rounded to the nearest tenth, a tie going to the even one.
pub open spec fn gib_tenths(bytes: nat) -> nat {
    nearest(to_double(bytes) * 10, GIB as nat)
}

/// A number of bytes in gibibytes with one digit after the point.
pub open spec fn gib_text(bytes: nat) -> Seq<char> {
    decimal(gib_tenths(bytes) / 10) + "."@ + decimal(gib_tenths(bytes) % 10)
}

/// What is shown of a size below 2^53 bytes is off by half a tenth of a gibibyte
/// at most.
pub proof fn gib_error(bytes: nat)
    requires
        bytes < PRECISION,
    ensures
        2 * (bytes * 10) <= 2 * (gib_tenths(bytes) * GIB) + GIB,
        2 * (gib_tenths(bytes) * GIB) <= 2 * (bytes * 10) + GIB,
{
    small_is_double(bytes);
    nearest_error(bytes * 10, GIB as nat);
}

/// A size is read back from its text: the number before the point and the digit
/// behind it are the tenths of a gibibyte nearest to the bytes, as a double, and even
/// where two are as near.
pub proof fn gib_reads_back(bytes: nat, whole: nat, tenth: nat)
    ensures
        gib_text(bytes) == decimal(whole) + "."@ + decimal(tenth) <==> {
            let (shown, exact) = (
                2 * ((whole * 10 + tenth) * 0x4000_0000),
                20 * to_double(bytes),
            );
            &&& tenth < 10
            &&& exact <= shown + 0x4000_0000
            &&& shown <= exact + 0x4000_0000
            &&& exact == shown + 0x4000_0000 || shown == exact + 0x4000_0000 ==> tenth % 2 == 0
        },
        bytes < 0x20_0000_0000_0000 ==> to_double(bytes) == bytes,
{
    let n = gib_tenths(bytes);
    let (a, b) = ("."@ + decimal(n % 10), "."@ + decimal(tenth));
    reveal_strlit(".");
    nearest_is_the_only_one(to_double(bytes) * 10, GIB as nat, whole * 10 + tenth);
    assert(gib_text(bytes) == decimal(n / 10) + a);
    assert(decimal(whole) + "."@ + decimal(tenth) == decimal(whole) + b);
    if gib_text(bytes) == decimal(whole) + "."@ + decimal(tenth) {
        lemma_number_before_unit(n / 10, a, whole, b);
        assert(a.skip(1) == decimal(n % 10) && b.skip(1) == decimal(tenth));
        decimal_denotes(n % 10);
        decimal_denotes(tenth);
    }
    if bytes < 0x20_0000_0000_0000 {
        small_is_double(bytes);
    }
}

/// A larger size is never shown as a smaller one.
pub proof fn gib_grows_with_bytes(less: nat, more: nat)
    requires
        less <= more,
    ensures
        gib_tenths(less) <= gib_tenths(more),
{
    to_double_monotone(less, more);
    nearest_monotone(to_double(less) * 10, to_double(more) * 10, GIB as nat);
}

/// A number of bytes in gibibytes with one digit after the point.
pub fn fmt_gib(bytes: u64) -> (r: String)
    ensures
        r@ == gib_text(bytes as nat),
{
    let tenths: u128 = round_quotient(round_to_double(bytes as u128) * 10, GIB);
    let mut r = number((tenths / 10) as u64);
    r.append(".");
    r.append(number((tenths % 10) as u64).as_str());
    r
}

/// Whole days in a number of seconds.
pub open spec fn uptime_days(secs: nat) -> nat {
    secs / 86_400
}

/// Whole hours of the day that has begun.
pub open spec fn uptime_hours(secs: nat) -> nat {
    (secs % 86_400) / 3_600
}

/// Whole minutes of the hour that has begun.
pub open spec fn uptime_minutes(secs: nat) -> nat {
    (secs % 3_600) / 60
}

/// Seconds of the minute that has begun.
pub open spec fn uptime_seconds(secs: nat) -> nat {
    secs % 60
}

/// A duration in its three largest units from days down, with minutes and
/// seconds only where it is under an hour.
pub open spec fn uptime_text(secs: nat) -> Seq<char> {
    let (days, hours, minutes) = (uptime_days(secs), uptime_hours(secs), uptime_minutes(secs));
    if days > 0 {
        decimal(days) + "d "@ + decimal(hours) + "h "@ + decimal(minutes) + "m"@
    } else if hours > 0 {
        decimal(hours) + "h "@ + decimal(minutes) + "m"@
    } else {
        decimal(minutes) + "m "@ + decimal(uptime_seconds(secs)) + "s"@
    }
}

/// The units of a duration add up to it, and none but the days reaches the
/// next larger one.
pub proof fn uptime_units_add_up(secs: nat)
    ensures
        secs == uptime_days(secs) * 86_400 + uptime_hours(secs) * 3_600 + uptime_minutes(secs) * 60
            + uptime_seconds(secs),
        uptime_hours(secs) < 24,
        uptime_minutes(secs) < 60,
        uptime_seconds(secs) < 60,
{
    lemma_units_of_minutes(secs);
}

/// A number and what follows it can be told from the two written together, where
/// what follows begins with a unit, that is, with no digit.
proof fn lemma_number_before_unit(a: nat, x: Seq<char>, b: nat, y: Seq<char>)
    requires
        decimal(a) + x == decimal(b) + y,
        x.len() > 0 && !is_digit(x[0]),
        y.len() > 0 && !is_digit(y[0]),
    ensures
        a == b,
        x == y,
{
    let (s, t) = (decimal(a), decimal(b));
    decimal_denotes(a);
    decimal_denotes(b);
    assert(s.len() == t.len()) by {
        if s.len() < t.len() {
            assert((s + x)[s.len() as int] == x[0] && (t + y)[s.len() as int] == t[s.len() as int]);
        } else if t.len() < s.len() {
            assert((s + x)[t.len() as int] == s[t.len() as int] && (t + y)[t.len() as int] == y[0]);
        }
    }
    assert(s == (s + x).take(s.len() as int) && t == (t + y).take(t.len() as int));
    assert(x == (s + x).skip(s.len() as int) && y == (t + y).skip(t.len() as int));
}

/// What follows the number of the largest unit in [`uptime_text`].
spec fn uptime_rest(secs: nat) -> Seq<char> {
    if secs >= 86_400 {
        "d "@ + (decimal(uptime_hours(secs)) + ("h "@ + (decimal(uptime_minutes(secs)) + "m"@)))
    } else if secs >= 3_600 {
        "h "@ + (decimal(uptime_minutes(secs)) + "m"@)
    } else {
        "m "@ + (decimal(uptime_seconds(secs)) + "s"@)
    }
}

/// The number of the largest unit in [`uptime_text`].
spec fn uptime_largest(secs: nat) -> nat {
    if secs >= 86_400 {
        uptime_days(secs)
    } else if secs >= 3_600 {
        uptime_hours(secs)
    } else {
        uptime_minutes(secs)
    }
}

proof fn lemma_uptime_text(secs: nat)
    ensures
        uptime_text(secs) == decimal(uptime_largest(secs)) + uptime_rest(secs),
        uptime_rest(secs).len() > 2,
        uptime_rest(secs)[0] == if secs >= 86_400 {
            'd'
        } else if secs >= 3_600 {
            'h'
        } else {
            'm'
        },
{
    reveal_strlit("d ");
    reveal_strlit("h ");
    reveal_strlit("m ");
    reveal_strlit("m");
    reveal_strlit("s");
    assert(uptime_text(secs) == decimal(uptime_largest(secs)) + uptime_rest(secs));
}

/// [`lemma_number_before_unit`] behind a text that both share.
proof fn lemma_number_after(prefix: Seq<char>, a: nat, x: Seq<char>, b: nat, y: Seq<char>)
    requires
        prefix + (decimal(a) + x) == prefix + (decimal(b) + y),
        x.len() > 0 && !is_digit(x[0]),
        y.len() > 0 && !is_digit(y[0]),
    ensures
        a == b,
        x == y,
{
    let n = prefix.len() as int;
    assert((prefix + (decimal(a) + x)).skip(n) == decimal(a) + x);
    assert((prefix + (decimal(b) + y)).skip(n) == decimal(b) + y);
    lemma_number_before_unit(a, x, b, y);
}

/// Durations with one text have the same units in it.
proof fn lemma_units_of_text(a: nat, b: nat)
    requires
        uptime_text(a) == uptime_text(b),
    ensures
        a < 3_600 <==> b < 3_600,
        a < 86_400 <==> b < 86_400,
        uptime_largest(a) == uptime_largest(b),
        a >= 86_400 ==> uptime_hours(a) == uptime_hours(b),
        a >= 3_600 ==> uptime_minutes(a) == uptime_minutes(b),
        a < 3_600 ==> uptime_seconds(a) == uptime_seconds(b),
{
    lemma_uptime_text(a);
    lemma_uptime_text(b);
    lemma_number_before_unit(uptime_largest(a), uptime_rest(a), uptime_largest(b), uptime_rest(b));
    reveal_strlit("h ");
    reveal_strlit("m");
    reveal_strlit("s");
    let (u, v) = (
        "h "@ + (decimal(uptime_minutes(a)) + "m"@),
        "h "@ + (decimal(uptime_minutes(b)) + "m"@),
    );
    if a < 3_600 {
        lemma_number_after("m "@, uptime_seconds(a), "s"@, uptime_seconds(b), "s"@);
    } else {
        if a >= 86_400 {
            lemma_number_after("d "@, uptime_hours(a), u, uptime_hours(b), v);
        }
        lemma_number_after("h "@, uptime_minutes(a), "m"@, uptime_minutes(b), "m"@);
    }
}

/// The units of a duration whose text is in days.
proof fn lemma_text_in_days(secs: nat, days: nat, hours: nat, minutes: nat)
    ensures
        uptime_text(secs) == decimal(days) + "d "@ + decimal(hours) + "h "@ + decimal(minutes)
            + "m"@ <==> secs >= 86_400 && days == uptime_days(secs) && hours == uptime_hours(secs)
            && minutes == uptime_minutes(secs),
{
    lemma_uptime_text(secs);
    let own = "h "@ + (decimal(uptime_minutes(secs)) + "m"@);
    let tail = "h "@ + (decimal(minutes) + "m"@);
    let rest = "d "@ + (decimal(hours) + tail);
    assert(rest[0] == 'd' && rest.len() > 0 && own[0] == 'h' && tail[0] == 'h' && "m"@.len() == 1
        && "m"@[0] == 'm') by {
        reveal_strlit("d ");
        reveal_strlit("h ");
        reveal_strlit("m");
    }
    assert(decimal(days) + "d "@ + decimal(hours) + "h "@ + decimal(minutes) + "m"@ == decimal(days)
        + rest);
    if uptime_text(secs) == decimal(days) + rest {
        lemma_number_before_unit(uptime_largest(secs), uptime_rest(secs), days, rest);
        lemma_number_after("d "@, uptime_hours(secs), own, hours, tail);
        lemma_number_after("h "@, uptime_minutes(secs), "m"@, minutes, "m"@);
    }
}

/// The units of a duration whose text is in hours.
proof fn lemma_text_in_hours(secs: nat, hours: nat, minutes: nat)
    ensures
        uptime_text(secs) == decimal(hours) + "h "@ + decimal(minutes) + "m"@ <==> 3_600 <= secs
            < 86_400 && hours == uptime_hours(secs) && minutes == uptime_minutes(secs),
{
    lemma_uptime_text(secs);
    let rest = "h "@ + (decimal(minutes) + "m"@);
    assert(rest[0] == 'h' && rest.len() > 0 && "m"@.len() == 1 && "m"@[0] == 'm') by {
        reveal_strlit("h ");
        reveal_strlit("m");
    }
    assert(decimal(hours) + "h "@ + decimal(minutes) + "m"@ == decimal(hours) + rest);
    if uptime_text(secs) == decimal(hours) + rest {
        lemma_number_before_unit(uptime_largest(secs), uptime_rest(secs), hours, rest);
        lemma_number_after("h "@, uptime_minutes(secs), "m"@, minutes, "m"@);
    }
}

/// The units of a duration whose text is in minutes.
proof fn lemma_text_in_minutes(secs: nat, minutes: nat, seconds: nat)
    ensures
        uptime_text(secs) == decimal(minutes) + "m "@ + decimal(seconds) + "s"@ <==> secs < 3_600
            && minutes == uptime_minutes(secs) && seconds == uptime_seconds(secs),
{
    lemma_uptime_text(secs);
    let rest = "m "@ + (decimal(seconds) + "s"@);
    assert(rest[0] == 'm' && rest.len() > 0 && "s"@.len() == 1 && "s"@[0] == 's') by {
        reveal_strlit("m ");
        reveal_strlit("s");
    }
    assert(decimal(minutes) + "m "@ + decimal(seconds) + "s"@ == decimal(minutes) + rest);
    if uptime_text(secs) == decimal(minutes) + rest {
        lemma_number_before_unit(uptime_largest(secs), uptime_rest(secs), minutes, rest);
        lemma_number_after("m "@, uptime_seconds(secs), "s"@, seconds, "s"@);
    }
}

/// The units down to the minutes are those of the whole minutes.
proof fn lemma_units_of_minutes(secs: nat)
    ensures
        uptime_days(secs) == (secs / 60) / 1_440,
        uptime_hours(secs) == ((secs / 60) % 1_440) / 60,
        uptime_minutes(secs) == (secs / 60) % 60,
        secs / 60 == uptime_days(secs) * 1_440 + uptime_hours(secs) * 60 + uptime_minutes(secs),
        uptime_hours(secs) < 24,
        uptime_minutes(secs) < 60,
{
    let n = secs as int;
    let (m, s) = (n / 60, n % 60);
    let (d, r) = (m / 1_440, m % 1_440);
    let (h, k) = (r / 60, r % 60);
    lemma_fundamental_div_mod_converse(n, 86_400, d, r * 60 + s);
    lemma_fundamental_div_mod_converse(r * 60 + s, 3_600, h, k * 60 + s);
    lemma_fundamental_div_mod_converse(n, 3_600, d * 24 + h, k * 60 + s);
    lemma_fundamental_div_mod_converse(k * 60 + s, 60, k, s);
    lemma_fundamental_div_mod_converse(m, 60, d * 24 + h, k);
}

/// Days, hours and minutes that make up a duration down to the minute are its units.
proof fn lemma_units_from_parts(secs: nat, days: nat, hours: nat, minutes: nat)
    requires
        hours < 24,
        minutes < 60,
    ensures
        ({
            let whole = days * 86_400 + hours * 3_600 + minutes * 60;
            whole <= secs < whole + 60 ==> {
                &&& uptime_days(secs) == days
                &&& uptime_hours(secs) == hours
                &&& uptime_minutes(secs) == minutes
            }
        }),
{
    let whole = days * 86_400 + hours * 3_600 + minutes * 60;
    if whole <= secs < whole + 60 {
        let m = (days * 1_440 + hours * 60 + minutes) as int;
        lemma_units_of_minutes(secs);
        lemma_fundamental_div_mod_converse(secs as int, 60, m, secs - whole);
        lemma_fundamental_div_mod_converse(m, 1_440, days as int, (hours * 60 + minutes) as int);
        lemma_fundamental_div_mod_converse(
            (hours * 60 + minutes) as int,
            60,
            hours as int,
            minutes as int,
        );
        lemma_fundamental_div_mod_converse(m, 60, (days * 24 + hours) as int, minutes as int);
    }
}

/// A duration is read back from its text: days, hours and minutes make up the
/// duration down to the minute where it is a day or more, hours and minutes where it
/// is an hour or more, minutes and seconds all of it where it is less.
pub proof fn uptime_reads_back(secs: nat, days: nat, hours: nat, minutes: nat, seconds: nat)
    ensures
        uptime_text(secs) == decimal(days) + "d "@ + decimal(hours) + "h "@ + decimal(minutes)
            + "m"@ <==> {
            let whole = days * 86_400 + hours * 3_600 + minutes * 60;
            days > 0 && hours < 24 && minutes < 60 && whole <= secs < whole + 60
        },
        uptime_text(secs) == decimal(hours) + "h "@ + decimal(minutes) + "m"@ <==> {
            let whole = hours * 3_600 + minutes * 60;
            0 < hours < 24 && minutes < 60 && whole <= secs < whole + 60
        },
        uptime_text(secs) == decimal(minutes) + "m "@ + decimal(seconds) + "s"@ <==> minutes < 60
            && seconds < 60 && secs == minutes * 60 + seconds,
{
    lemma_text_in_days(secs, days, hours, minutes);
    lemma_text_in_hours(secs, hours, minutes);
    lemma_text_in_minutes(secs, minutes, seconds);
    lemma_units_of_minutes(secs);
    uptime_units_add_up(secs);
    if hours < 24 && minutes < 60 {
        lemma_units_from_parts(secs, days, hours, minutes);
        lemma_units_from_parts(secs, 0, hours, minutes);
    }
}

/// Which durations are shown alike: below an hour no two, from an hour on those of
/// the same minute.
pub proof fn uptime_told_to_the_minute(a: nat, b: nat)
    ensures
        uptime_text(a) == uptime_text(b) <==> if a < 3_600 || b < 3_600 {
            a == b
        } else {
            a / 60 == b / 60
        },
{
    lemma_units_of_minutes(a);
    lemma_units_of_minutes(b);
    if uptime_text(a) == uptime_text(b) {
        lemma_units_of_text(a, b);
        uptime_units_add_up(a);
        uptime_units_add_up(b);
    }
}

/// A duration as the dashboard shows it.
pub fn fmt_uptime(secs: u64) -> (r: String)
    ensures
        r@ == uptime_text(secs as nat),
{
    let days: u64 = secs / 86_400;
    let hours: u64 = (secs % 86_400) / 3_600;
    let mins: u64 = (secs % 3_600) / 60;
    if days > 0 {
        let mut r = number(days);
        r.append("d ");
        r.append(number(hours).as_str());
        r.append("h ");
        r.append(number(mins).as_str());
        r.append("m");
        r
    } else if hours > 0 {
        let mut r = number(hours);
        r.append("h ");
        r.append(number(mins).as_str());
        r.append("m");
        r
    } else {
        let mut r = number(mins);
        r.append("m ");
        r.append(number(secs % 60).as_str());
        r.append("s");
        r
    }
}

} // verus!
