//! Figures in single and double precision, as integers.
//!
//! A binary floating-point figure is a whole number of units, where a unit is a
//! negative power of two that no figure at hand is finer than. So drivers and
//! displays that reckon in floating point are met digit by digit.

use crate::text::{law_round_half_even, round_half_even};
use vstd::arithmetic::power2::{
    lemma2_to64, lemma2_to64_rest, lemma_pow2_pos, lemma_pow2_strictly_increases, lemma_pow2_unfold, pow2,
};
use vstd::prelude::*;

verus! {

/// One more than the largest significand in single precision.
pub const SINGLE: u128 = 0x100_0000;

/// One more than the largest significand in double precision.
pub const DOUBLE: u128 = 0x20_0000_0000_0000;

/// Units to a whole, for figures that come in millionths.
pub const MILLIONTHS_UNIT: u128 = 0x800_0000_0000;

/// Units to a whole, for figures that come in thousandths.
pub const THOUSANDTHS_UNIT: u128 = 0x2_0000_0000;

/// Units to a whole, for a double-precision quotient by a billion. What is below
/// a thousandth would be finer still, which two decimal places do not show.
pub const BILLIONTHS_UNIT: u128 = 0x4000_0000_0000_0000;

/// More than single-precision figures can add up to, in units of thousandths.
pub const SUM_CAP: u128 = 0x4_0000_0000_0000_0000_0000;

/// More than a single figure in units of thousandths.
pub const TERM_CAP: u128 = 0x200_0000_0000_0000;

/// `n / d` rounded to significands below `limit`: to the nearest multiple of the
/// least power of two, from `scale` on, that brings it below `limit`. Ties go to
/// the even significand.
pub open spec fn rounded(n: nat, d: nat, limit: nat, scale: nat) -> nat
    decreases n + 1 - scale,
{
    if d == 0 || scale == 0 || limit < 2 || n < (d * scale) * limit {
        round_half_even(n, d * scale) * scale
    } else {
        proof {
            assert(n >= 2 * scale) by (nonlinear_arith)
                requires
                    d >= 1,
                    limit >= 2,
                    n >= (d * scale) * limit,
            ;
        }
        rounded(n, d, limit, 2 * scale)
    }
}

/// A number of millionths in single precision, in `MILLIONTHS_UNIT`.
pub open spec fn single_of_millionths(x: nat) -> nat {
    rounded(x * MILLIONTHS_UNIT as nat, 1_000_000, SINGLE as nat, 1)
}

/// A number of thousandths in single precision, in `THOUSANDTHS_UNIT`.
pub open spec fn single_of_thousandths(x: nat) -> nat {
    rounded(x * THOUSANDTHS_UNIT as nat, 1_000, SINGLE as nat, 1)
}

/// A single-precision figure times a hundred, in single precision.
pub open spec fn single_hundredfold(x: nat) -> nat {
    rounded(100 * x, 1, SINGLE as nat, 1)
}

/// The sum of two single-precision figures, in single precision.
pub open spec fn single_sum(x: nat, y: nat) -> nat {
    rounded(x + y, 1, SINGLE as nat, 1)
}

/// A whole number in double precision.
pub open spec fn double_of_whole(x: nat) -> nat {
    rounded(x, 1, DOUBLE as nat, 1)
}

/// The quotient of a whole number by a billion, both in double precision, in
/// `BILLIONTHS_UNIT`. A billion is 1953125 times two to the ninth.
pub open spec fn double_billionths(x: nat) -> nat {
    rounded(double_of_whole(x) * DOUBLE as nat, 1_953_125, DOUBLE as nat, 1)
}

/// Divides and rounds to the nearest, ties to even.
pub fn wide_half_even(n: u128, d: u128) -> (r: u128)
    requires
        n < 0x2000_0000_0000_0000_0000_0000_0000_0000,
        1 <= d < 0x2000_0000_0000_0000_0000_0000_0000_0000,
    ensures
        r == round_half_even(n as nat, d as nat),
        r * d <= n + d,
        r <= n + 1,
{
    let q: u128 = n / d;
    let rest: u128 = n % d;
    assert(q * d + rest == n && q <= n) by (nonlinear_arith)
        requires
            q == n / d,
            rest == n % d,
            d >= 1,
    ;
    assert((q + 1) * d == q * d + d) by (nonlinear_arith);
    if 2 * rest > d || (2 * rest == d && q % 2 == 1) {
        q + 1
    } else {
        q
    }
}

/// Rounds `n / d` to significands below `limit`.
pub fn round_figure(n: u128, d: u128, limit: u128) -> (r: u128)
    requires
        n < 0x1000_0000_0000_0000_0000_0000_0000_0000,
        1 <= d < 0x1000_0000_0000_0000_0000_0000_0000_0000,
        limit >= 2,
    ensures
        r == rounded(n as nat, d as nat, limit as nat, 1),
        r * d <= 2 * n + d,
{
    let mut unit: u128 = d;
    let mut scale: u128 = 1;
    assert(d * 1 == d) by (nonlinear_arith);
    while n / unit >= limit
        invariant
            n < 0x1000_0000_0000_0000_0000_0000_0000_0000,
            1 <= d < 0x1000_0000_0000_0000_0000_0000_0000_0000,
            limit >= 2,
            1 <= unit < 0x1000_0000_0000_0000_0000_0000_0000_0000,
            1 <= scale <= unit,
            unit == d * scale,
            unit == d || unit <= n,
            rounded(n as nat, d as nat, limit as nat, 1) == rounded(
                n as nat,
                d as nat,
                limit as nat,
                scale as nat,
            ),
        decreases n + 1 - unit,
    {
        assert(n >= unit * limit && n >= 2 * unit) by (nonlinear_arith)
            requires
                n / unit >= limit,
                unit >= 1,
                limit >= 2,
        ;
        assert(2 * unit == d * (2 * scale)) by (nonlinear_arith)
            requires
                unit == d * scale,
        ;
        unit = 2 * unit;
        scale = 2 * scale;
    }
    assert(n < unit * limit) by (nonlinear_arith)
        requires
            n / unit < limit,
            unit >= 1,
    ;
    let q: u128 = wide_half_even(n, unit);
    assert(q * scale <= q * unit) by (nonlinear_arith)
        requires
            scale <= unit,
    ;
    assert((q * scale) * d == q * unit) by (nonlinear_arith)
        requires
            unit == d * scale,
    ;
    q * scale
}

/// A sum that is within the cap stays within it: a term is too small to carry it
/// beyond.
proof fn lemma_sum_capped(n: nat, e: nat)
    requires
        n <= SUM_CAP + TERM_CAP,
        e <= 59,
    ensures
        rounded(n, 1, SINGLE as nat, pow2(e)) <= SUM_CAP,
    decreases 59 - e,
{
    lemma_pow2_pos(e);
    let s = pow2(e);
    assert(pow2(59) == 0x800_0000_0000_0000) by {
        lemma2_to64_rest();
    }
    if e < 59 {
        lemma_pow2_strictly_increases(e, 59);
        lemma_pow2_unfold(e + 1);
        if n < (1 * s) * SINGLE {
            let q = round_half_even(n, 1 * s);
            assert(2 * s <= 0x800_0000_0000_0000) by {
                if e + 1 < 59 {
                    lemma_pow2_strictly_increases(e + 1, 59);
                }
            }
            assert(q <= SINGLE) by (nonlinear_arith)
                requires
                    q <= n / s + 1,
                    n < s * SINGLE,
                    s >= 1,
            ;
            assert(q * s <= SUM_CAP) by (nonlinear_arith)
                requires
                    q <= SINGLE,
                    2 * s <= 0x800_0000_0000_0000,
            ;
            assert(rounded(n, 1, SINGLE as nat, s) == q * s);
        } else {
            assert(rounded(n, 1, SINGLE as nat, s) == rounded(n, 1, SINGLE as nat, 2 * s));
            lemma_sum_capped(n, e + 1);
        }
    } else {
        let q = round_half_even(n, 1 * s);
        let top: nat = 0x800_0000_0000_0000;
        assert(1 * s == top);
        assert(n / top <= 0x80_0000 && n == top * (n / top) + n % top);
        assert(q == round_half_even(n, top));
        assert(q <= 0x80_0000);
        assert(q * s <= SUM_CAP) by (nonlinear_arith)
            requires
                q <= 0x80_0000,
                s == 0x800_0000_0000_0000,
        ;
        assert(rounded(n, 1, SINGLE as nat, s) == q * s);
    }
}

/// A number of millionths in single precision.
pub fn millionths_in_single(x: u32) -> (r: u128)
    ensures
        r == single_of_millionths(x as nat),
        r <= 0x200_0000_0000_0000,
{
    round_figure(x as u128 * MILLIONTHS_UNIT, 1_000_000, SINGLE)
}

/// A number of thousandths in single precision.
pub fn thousandths_in_single(x: u32) -> (r: u128)
    ensures
        r == single_of_thousandths(x as nat),
        r <= TERM_CAP,
{
    round_figure(x as u128 * THOUSANDTHS_UNIT, 1_000, SINGLE)
}

/// Adds a term to a sum in single precision.
pub fn add_single(x: u128, y: u128) -> (r: u128)
    requires
        x <= SUM_CAP,
        y <= TERM_CAP,
    ensures
        r == single_sum(x as nat, y as nat),
        r <= SUM_CAP,
{
    proof {
        lemma2_to64();
        lemma_sum_capped((x + y) as nat, 0);
    }
    round_figure(x + y, 1, SINGLE)
}

/// A figure in single precision, given in millionths, in whole hundredths.
pub open spec fn hundredths_of_millionths(x: nat) -> nat {
    round_half_even(100 * single_of_millionths(x), MILLIONTHS_UNIT as nat)
}

/// Rounds a figure in single precision, given in millionths, to hundredths.
pub fn round_millionths(x: u32) -> (r: u64)
    ensures
        r == hundredths_of_millionths(x as nat),
{
    let figure: u128 = millionths_in_single(x);
    wide_half_even(100 * figure, MILLIONTHS_UNIT) as u64
}

/// A hundredfold figure in single precision, given in millionths, in whole
/// hundredths.
pub open spec fn hundredths_of_hundredfold(x: nat) -> nat {
    round_half_even(100 * single_hundredfold(single_of_millionths(x)), MILLIONTHS_UNIT as nat)
}

/// Rounds a hundredfold figure in single precision to hundredths.
pub fn round_hundredfold(x: u32) -> (r: u64)
    ensures
        r == hundredths_of_hundredfold(x as nat),
{
    let figure: u128 = round_figure(100 * millionths_in_single(x), 1, SINGLE);
    wide_half_even(100 * figure, MILLIONTHS_UNIT) as u64
}

/// A sum of figures in thousandths, in whole tenths.
pub open spec fn tenths_of_sum(x: nat) -> nat {
    round_half_even(10 * x, THOUSANDTHS_UNIT as nat)
}

/// Rounds a sum of figures in thousandths to tenths.
pub fn round_sum(x: u128) -> (r: u64)
    requires
        x <= SUM_CAP,
    ensures
        r == tenths_of_sum(x as nat),
{
    wide_half_even(10 * x, THOUSANDTHS_UNIT) as u64
}

/// A number of billionths in double precision, in whole hundredths.
pub open spec fn hundredths_of_billionths(x: nat) -> nat {
    round_half_even(100 * double_billionths(x), BILLIONTHS_UNIT as nat)
}

/// Rounds a number of billionths in double precision to hundredths.
pub fn round_billionths(x: u64) -> (r: u64)
    ensures
        r == hundredths_of_billionths(x as nat),
{
    let whole: u128 = round_figure(x as u128, 1, DOUBLE);
    let figure: u128 = round_figure(whole * DOUBLE, 1_953_125, DOUBLE);
    wide_half_even(100 * figure, BILLIONTHS_UNIT) as u64
}

/// A figure is rounded in steps of `scale` times some power of two, to the
/// nearest step and of two as near the even one, with no more steps than the
/// precision has; and the steps are no coarser than that takes.
pub proof fn law_rounded(n: nat, d: nat, limit: nat, scale: nat)
    requires
        d > 0,
        limit >= 2,
        scale > 0,
    ensures
        exists|step: nat, k: nat|
            #![trigger rounds_by(n, d, limit, scale, step, k)]
            rounds_by(n, d, limit, scale, step, k),
    decreases n + 1 - scale,
{
    if n < (d * scale) * limit {
        let k = round_half_even(n, d * scale);
        assert(d * scale > 0) by (nonlinear_arith)
            requires
                d > 0,
                scale > 0,
        ;
        law_round_half_even(n, d * scale);
        assert(k <= limit) by (nonlinear_arith)
            requires
                2 * (k * (d * scale)) <= 2 * n + d * scale,
                n < (d * scale) * limit,
                d * scale > 0,
        ;
        assert((k * scale) * d == k * (d * scale)) by (nonlinear_arith);
        assert(rounds_by(n, d, limit, scale, scale, k));
    } else {
        assert(n >= 2 * scale) by (nonlinear_arith)
            requires
                d >= 1,
                limit >= 2,
                n >= (d * scale) * limit,
        ;
        law_rounded(n, d, limit, 2 * scale);
        let (step, k) = choose|step: nat, k: nat|
            #![trigger rounds_by(n, d, limit, 2 * scale, step, k)]
            rounds_by(n, d, limit, 2 * scale, step, k);
        assert(step > scale ==> step % 2 == 0 && n >= (d * (step / 2)) * limit) by {
            if step == 2 * scale {
                assert(step / 2 == scale);
            }
        }
        assert(rounds_by(n, d, limit, scale, step, k));
    }
}

/// Whether a figure is rounded to `k` steps of size `step`: the nearest number of
/// them, the even one of two, no more than the limit, and more than the limit if
/// the steps were half as large.
pub open spec fn rounds_by(n: nat, d: nat, limit: nat, scale: nat, step: nat, k: nat) -> bool {
    let r = rounded(n, d, limit, scale);
    &&& step >= scale
    &&& r == k * step
    &&& k <= limit
    &&& 2 * (k * (d * step)) <= 2 * n + d * step
    &&& 2 * n <= 2 * (k * (d * step)) + d * step
    &&& 2 * (k * (d * step)) == 2 * n + d * step || 2 * n == 2 * (k * (d * step)) + d * step
        ==> k % 2 == 0
    &&& step > scale ==> step % 2 == 0 && n >= (d * (step / 2)) * limit
}

/// How far apart two numbers are.
pub open spec fn apart(a: nat, b: nat) -> int {
    if a >= b {
        a - b
    } else {
        b - a
    }
}

/// A rounded figure is at most half a unit off, or less than one part in what the
/// precision holds.
pub proof fn law_rounding_error(n: nat, d: nat, limit: nat)
    requires
        d > 0,
        limit >= 2,
    ensures
        ({
            let off = apart(rounded(n, d, limit, 1) * d, n);
            2 * off <= d || limit * off <= n
        }),
{
    law_rounded(n, d, limit, 1);
    let (step, k) = choose|step: nat, k: nat|
        #![trigger rounds_by(n, d, limit, 1, step, k)]
        rounds_by(n, d, limit, 1, step, k);
    let r = rounded(n, d, limit, 1);
    assert(k * (d * step) == r * d) by (nonlinear_arith)
        requires
            r == k * step,
    ;
    let off = apart(r * d, n);
    if step > 1 {
        let half = step / 2;
        assert(step == 2 * half);
        assert(d * step == 2 * (d * half)) by (nonlinear_arith)
            requires
                step == 2 * half,
        ;
        let quantum = d * half;
        assert(off <= quantum);
        assert(limit * off <= quantum * limit) by (nonlinear_arith)
            requires
                off <= quantum,
                limit >= 2,
        ;
    } else {
        assert(d * step == d) by (nonlinear_arith)
            requires
                step == 1,
        ;
    }
}

/// Millionths are shown to the nearest hundredth, but for what single precision
/// loses: one part in sixteen million.
pub proof fn law_shown_millionths(x: u32)
    ensures
        apart(10_000 * hundredths_of_millionths(x as nat), x as nat) <= 5_300,
{
    let n = (x * MILLIONTHS_UNIT) as nat;
    let r = single_of_millionths(x as nat);
    law_rounding_error(n, 1_000_000, SINGLE as nat);
    law_round_half_even(100 * r, MILLIONTHS_UNIT as nat);
}

/// A hundredfold of millionths is shown to the nearest hundredth in the same way,
/// rounded once more.
pub proof fn law_shown_hundredfold(x: u32)
    ensures
        apart(100 * hundredths_of_hundredfold(x as nat), x as nat) <= 600,
{
    let n = (x * MILLIONTHS_UNIT) as nat;
    let r = single_of_millionths(x as nat);
    let f = single_hundredfold(r);
    law_rounding_error(n, 1_000_000, SINGLE as nat);
    law_rounding_error(100 * r, 1, SINGLE as nat);
    law_round_half_even(100 * f, MILLIONTHS_UNIT as nat);
}

/// A sum of powers is shown to the nearest tenth.
pub proof fn law_shown_sum(x: nat)
    ensures
        2 * apart(0x2_0000_0000 * tenths_of_sum(x), 10 * x) <= 0x2_0000_0000,
{
    law_round_half_even(10 * x, THOUSANDTHS_UNIT as nat);
}

/// Billionths are shown to the nearest hundredth, but for what double precision
/// loses.
pub proof fn law_shown_billionths(x: u64)
    ensures
        apart(10_000_000 * hundredths_of_billionths(x as nat), x as nat) <= 5_010_000,
{
    let w = double_of_whole(x as nat);
    let n = (w * DOUBLE as nat) as nat;
    let v = double_billionths(x as nat);
    law_rounding_error(x as nat, 1, DOUBLE as nat);
    law_rounding_error(n, 1_953_125, DOUBLE as nat);
    law_round_half_even(100 * v, BILLIONTHS_UNIT as nat);
}

} // verus!
