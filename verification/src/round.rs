//! Numbers shown with a fixed number of decimals.
//!
//! Sizes and times are shown the way double-precision arithmetic shows them:
//! the value is first the double nearest to the exact one (53 significant
//! bits), and that double is then rounded to the decimals shown. Both roundings
//! take the even neighbour at a tie. All of it is done in integers.

use crate::text::{decimal, push_decimal};
use vstd::prelude::*;
use vstd::string::*;

verus! {

/// `n / d` rounded to the nearest integer, to the even one at a tie.
pub open spec fn half_even(n: nat, d: nat) -> nat {
    let q = n / d;
    let r = n % d;
    if 2 * r < d || (2 * r == d && q % 2 == 0) {
        q
    } else {
        q + 1
    }
}

/// The significand of a double has 53 bits.
pub const SIGNIFICAND: u128 = 0x20_0000_0000_0000;

/// `n / step * unit`, rounded to 53 significant bits: the grain is doubled
/// until so many bits are enough.
pub open spec fn grained(n: nat, step: nat, unit: nat) -> nat
    decreases n - step,
    when step > 0
{
    if n < SIGNIFICAND * step {
        half_even(n, step) * unit
    } else {
        grained(n, 2 * step, 2 * unit)
    }
}

/// The double nearest to the integer `n`.
pub open spec fn double_of(n: nat) -> nat {
    grained(n, 1, 1)
}

/// Two to the power 62, the scale at which quotients are held.
pub const SCALE: u128 = 0x4000_0000_0000_0000;

/// The double nearest to a thousandth of the double `v`, in units of
/// `1 / SCALE`.
pub open spec fn thousandth_of(v: nat) -> nat {
    grained(v * SCALE as nat, 1000, 1)
}

/// How many hundredths of a microsecond are shown for a time in nanoseconds.
pub open spec fn micros_shown(ns: nat) -> nat {
    half_even(thousandth_of(double_of(ns)) * 100, SCALE as nat)
}

/// A number of hundredths with its decimal point.
pub open spec fn hundredths(h: nat) -> Seq<char> {
    decimal(h / 100) + "."@ + decimal((h / 10) % 10) + decimal(h % 10)
}

/// A number of tenths with its decimal point.
pub open spec fn tenths(t: nat) -> Seq<char> {
    decimal(t / 10) + "."@ + decimal(t % 10)
}

/// A time in nanoseconds, shown in microseconds with two decimals.
pub open spec fn micros(ns: nat) -> Seq<char> {
    hundredths(micros_shown(ns))
}

/// Divides and rounds to the nearest integer, to the even one at a tie.
pub fn div_half_even(n: u128, d: u128) -> (q: u128)
    requires
        0 < d <= u128::MAX / 4,
        n <= u128::MAX / 2,
    ensures
        q == half_even(n as nat, d as nat),
        q <= n / d + 1,
{
    let q: u128 = n / d;
    let r: u128 = n % d;
    assert(r < d && q <= n) by (nonlinear_arith)
        requires
            d > 0,
            r == n % d,
            q == n / d,
    ;
    if 2 * r < d || (2 * r == d && q % 2 == 0) {
        q
    } else {
        q + 1
    }
}

/// Rounds `n / d` to 53 significant bits.
pub fn round_to_double(n: u128, d: u128) -> (v: u128)
    requires
        0 < d <= 1000,
        n <= u128::MAX / 2,
    ensures
        v == grained(n as nat, d as nat, 1),
        v * d <= n + 1000 + n / 0x10_0000_0000_0000,
{
    let mut step: u128 = d;
    let mut unit: u128 = 1;
    while n / SIGNIFICAND >= step
        invariant
            n <= u128::MAX / 2,
            0 < d <= 1000,
            0 < step,
            1 <= unit,
            step == unit * d,
            step <= 1000 || step <= n / 0x10_0000_0000_0000,
            grained(n as nat, d as nat, 1) == grained(n as nat, step as nat, unit as nat),
        decreases n - step,
    {
        assert((2 * unit) * d == 2 * (unit * d) && unit <= unit * d) by (nonlinear_arith)
            requires
                d >= 1,
                unit >= 1,
        ;
        step = 2 * step;
        unit = 2 * unit;
    }
    let q: u128 = div_half_even(n, step);
    assert(q * unit * d <= n + step && q * unit <= q * unit * d) by (nonlinear_arith)
        requires
            q <= n / step + 1,
            step == unit * d,
            step > 0,
            unit >= 1,
            d >= 1,
            n >= 0,
            q >= 0,
    {
        assert(q * unit * d == q * (unit * d));
        assert(q * step <= (n / step + 1) * step);
        assert((n / step + 1) * step == (n / step) * step + step);
        assert((n / step) * step <= n);
    }
    q * unit
}

/// A time in nanoseconds as the double of its microseconds, in units of
/// `1 / SCALE`.
pub fn micros_double(ns: u64) -> (v: u128)
    ensures
        v == thousandth_of(double_of(ns as nat)),
        v <= u128::MAX / 200,
{
    let v: u128 = round_to_double(ns as u128, 1);
    round_to_double(v * SCALE, 1000)
}

/// How many hundredths of a microsecond to show for a time in nanoseconds.
pub fn micros_of(ns: u64) -> (h: u128)
    ensures
        h == micros_shown(ns as nat),
{
    div_half_even(micros_double(ns) * 100, SCALE)
}

/// Appends a time in nanoseconds, shown in microseconds with two decimals.
pub fn push_micros(out: &mut String, ns: u64)
    ensures
        final(out)@ == old(out)@ + micros(ns as nat),
{
    let ghost before = out@;
    let h: u128 = micros_of(ns);
    push_decimal(out, h / 100);
    out.append(".");
    push_decimal(out, (h / 10) % 10);
    push_decimal(out, h % 10);
    assert(out@ =~= before + micros(ns as nat));
}

/// Appends a number of tenths with its decimal point.
pub fn push_tenths(out: &mut String, t: u128)
    ensures
        final(out)@ == old(out)@ + tenths(t as nat),
{
    let ghost before = out@;
    push_decimal(out, t / 10);
    out.append(".");
    push_decimal(out, t % 10);
    assert(out@ =~= before + tenths(t as nat));
}

/// Rounding never moves a value by more than half a unit.
pub proof fn half_even_is_nearest(n: nat, d: nat)
    requires
        d > 0,
    ensures
        2 * n <= 2 * d * half_even(n, d) + d,
        2 * d * half_even(n, d) <= 2 * n + d,
{
    let q = n / d;
    let r = n % d;
    vstd::arithmetic::div_mod::lemma_fundamental_div_mod(n as int, d as int);
    assert(d * (q + 1) == d * q + d) by (nonlinear_arith);
    assert(2 * d * q == 2 * (d * q)) by (nonlinear_arith);
    assert(2 * d * (q + 1) == 2 * (d * (q + 1))) by (nonlinear_arith);
}

proof fn lemma_half_even_grows(n: nat, m: nat, d: nat)
    requires
        n <= m,
        d > 0,
    ensures
        half_even(n, d) <= half_even(m, d),
{
    assert(n / d < m / d || (n / d == m / d && n % d <= m % d)) by (nonlinear_arith)
        requires
            n <= m,
            d > 0,
    {
        assert(n == d * (n / d) + n % d && m == d * (m / d) + m % d);
        assert(0 <= n % d < d && 0 <= m % d < d);
        if n / d > m / d {
            assert(d * (n / d) >= d * (m / d) + d);
        }
    }
}

proof fn lemma_half_even_of_multiple(k: nat, d: nat)
    requires
        d > 0,
    ensures
        half_even(k * d, d) == k,
{
    assert((k * d) / d == k && (k * d) % d == 0) by (nonlinear_arith)
        requires
            d > 0,
            k >= 0,
    ;
}

proof fn lemma_grained_at_least(n: nat, step: nat, unit: nat)
    requires
        step > 0,
        n >= 0x10_0000_0000_0000 * step,
    ensures
        grained(n, step, unit) >= 0x10_0000_0000_0000 * unit,
    decreases n - step,
{
    let half: nat = 0x10_0000_0000_0000;
    if n < SIGNIFICAND * step {
        lemma_half_even_of_multiple(half, step);
        lemma_half_even_grows(half * step, n, step);
        assert(half_even(n, step) * unit >= half * unit) by (nonlinear_arith)
            requires
                half_even(n, step) >= half,
                unit >= 0,
        ;
    } else {
        lemma_grained_at_least(n, 2 * step, 2 * unit);
    }
}

proof fn lemma_grained_grows(n: nat, m: nat, step: nat, unit: nat)
    requires
        n <= m,
        step > 0,
    ensures
        grained(n, step, unit) <= grained(m, step, unit),
    decreases m - step,
{
    let full = SIGNIFICAND as nat;
    if m < full * step {
        lemma_half_even_grows(n, m, step);
        assert(half_even(n, step) * unit <= half_even(m, step) * unit) by (nonlinear_arith)
            requires
                half_even(n, step) <= half_even(m, step),
                unit >= 0,
        ;
    } else if n < full * step {
        lemma_half_even_of_multiple(full, step);
        lemma_half_even_grows(n, full * step, step);
        assert(half_even(n, step) * unit <= full * unit) by (nonlinear_arith)
            requires
                half_even(n, step) <= full,
                unit >= 0,
        ;
        lemma_grained_at_least(m, 2 * step, 2 * unit);
    } else {
        lemma_grained_grows(n, m, 2 * step, 2 * unit);
    }
}

proof fn lemma_grained_at_most(n: nat, d: nat, step: nat, unit: nat)
    requires
        d > 0,
        unit > 0,
        step == unit * d,
    ensures
        grained(n, step, unit) * d <= n + step || grained(n, step, unit) * d <= 2 * n,
    decreases n - step,
{
    assert(step > 0) by (nonlinear_arith)
        requires
            step == unit * d,
            d > 0,
            unit > 0,
    ;
    if n < SIGNIFICAND * step {
        let q = half_even(n, step);
        assert(q * unit * d <= n + step) by (nonlinear_arith)
            requires
                q <= n / step + 1,
                step == unit * d,
                step > 0,
        {
            assert(q * unit * d == q * (unit * d));
            assert(q * step <= (n / step + 1) * step);
            assert((n / step + 1) * step == (n / step) * step + step);
            assert((n / step) * step <= n);
        }
    } else {
        assert((2 * unit) * d == 2 * (unit * d)) by (nonlinear_arith);
        lemma_grained_at_most(n, d, 2 * step, 2 * unit);
    }
}

/// A longer time never counts as the shorter one.
pub proof fn longer_times_weigh_more(a: nat, b: nat)
    requires
        a <= b,
    ensures
        thousandth_of(double_of(a)) <= thousandth_of(double_of(b)),
{
    lemma_grained_grows(a, b, 1, 1);
    assert(double_of(a) * SCALE <= double_of(b) * SCALE) by (nonlinear_arith)
        requires
            double_of(a) <= double_of(b),
    ;
    lemma_grained_grows(double_of(a) * SCALE as nat, double_of(b) * SCALE as nat, 1000, 1);
}

/// A longer time is never shown as less than a shorter one.
pub proof fn longer_times_are_not_shown_as_less(a: nat, b: nat)
    requires
        a <= b,
    ensures
        micros_shown(a) <= micros_shown(b),
{
    longer_times_weigh_more(a, b);
    lemma_half_even_grows(
        thousandth_of(double_of(a)) * 100,
        thousandth_of(double_of(b)) * 100,
        SCALE as nat,
    );
}

/// Every time of 64 bits has a weight of 128 bits.
pub proof fn weights_fit(ns: u64)
    ensures
        thousandth_of(double_of(ns as nat)) <= u128::MAX,
{
    lemma_grained_at_most(ns as nat, 1, 1, 1);
    lemma_grained_at_most(double_of(ns as nat) * SCALE as nat, 1000, 1000, 1);
}

/// A value halfway between two integers is rounded to the even one.
pub proof fn ties_go_to_even(k: nat, d: nat)
    requires
        d > 0,
    ensures
        half_even(2 * k * d + d, 2 * d) == (if k % 2 == 0 {
            k
        } else {
            k + 1
        }),
{
    assert((2 * k * d + d) / (2 * d) == k && (2 * k * d + d) % (2 * d) == d) by (nonlinear_arith)
        requires
            d > 0,
            k >= 0,
    {
        assert(2 * k * d + d == k * (2 * d) + d);
        vstd::arithmetic::div_mod::lemma_fundamental_div_mod_converse(
            (2 * k * d + d) as int,
            (2 * d) as int,
            k as int,
            d as int,
        );
    }
}

proof fn lemma_grained_error(n: nat, d: nat, step: nat, unit: nat)
    requires
        d > 0,
        unit > 0,
        step == unit * d,
    ensures
        ({
            let v = grained(n, step, unit) * d;
            ||| 2 * v <= 2 * n + step && 2 * n <= 2 * v + step
            ||| 0x10_0000_0000_0000 * (2 * v) <= 0x10_0000_0000_0000 * (2 * n) + n
                && 0x10_0000_0000_0000 * (2 * n) <= 0x10_0000_0000_0000 * (2 * v) + n
        }),
    decreases n - step,
{
    assert(step > 0) by (nonlinear_arith)
        requires
            step == unit * d,
            d > 0,
            unit > 0,
    ;
    if n < SIGNIFICAND * step {
        let q = half_even(n, step);
        half_even_is_nearest(n, step);
        assert(q * unit * d == q * step) by (nonlinear_arith)
            requires
                step == unit * d,
        ;
        assert(2 * step * q == 2 * (q * step)) by (nonlinear_arith);
    } else {
        assert((2 * unit) * d == 2 * (unit * d)) by (nonlinear_arith);
        lemma_grained_error(n, d, 2 * step, 2 * unit);
    }
}

/// The double nearest to an integer differs from it by less than one part in
/// two to the power 52, and not at all where 53 bits hold it.
pub proof fn doubles_are_near(n: nat)
    ensures
        n <= 0x20_0000_0000_0000 ==> double_of(n) == n,
        0x20_0000_0000_0000 * double_of(n) <= 0x20_0000_0000_0000 * n + n,
        0x20_0000_0000_0000 * n <= 0x20_0000_0000_0000 * double_of(n) + n,
{
    lemma_grained_error(n, 1, 1, 1);
    if n == 0x20_0000_0000_0000 {
        assert(grained(n, 2, 2) == half_even(n, 2) * 2);
    }
}

/// A time of up to a hundred days is shown to the nearest hundredth of a
/// microsecond: ten nanoseconds for each hundredth, and at most five off; with
/// a point in front of the last two digits.
pub proof fn shown_times_are_nearest(ns: nat)
    requires
        ns < 0x20_0000_0000_0000,
    ensures
        ns <= 10 * micros_shown(ns) + 5,
        10 * micros_shown(ns) <= ns + 5,
        micros(ns) == decimal(micros_shown(ns) / 100) + "."@ + decimal(
            (micros_shown(ns) / 10) % 10,
        ) + decimal(micros_shown(ns) % 10),
{
    doubles_are_near(ns);
    let t = thousandth_of(ns);
    let h = micros_shown(ns);
    lemma_grained_error(ns * SCALE as nat, 1000, 1000, 1);
    half_even_is_nearest(t * 100, SCALE as nat);
    assert(SCALE == 0x4000_0000_0000_0000);
    assert(2 * SCALE as nat * h == 0x8000_0000_0000_0000 * h);
}

} // verus!
