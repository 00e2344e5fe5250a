//! Saturating fixed-point arithmetic on `i64` counts of millionths.
//!
//! A quantity `x` is stored as the integer `x * SCALE`. Sums and differences
//! are exact unless they leave the range of `i64`, where they stop at the
//! nearest bound. Products and quotients are rounded toward zero.

use vstd::prelude::*;

verus! {

/// Raw units in one whole unit.
pub const SCALE: i64 = 1_000_000;

/// The nearest value to `x` that an `i64` can hold.
pub open spec fn saturate(x: int) -> i64 {
    if x < i64::MIN as int {
        i64::MIN
    } else if x > i64::MAX as int {
        i64::MAX
    } else {
        x as i64
    }
}

/// The quotient of `a` by `b`, rounded toward zero.
pub open spec fn trunc_div(a: int, b: int) -> int
    recommends
        b != 0,
{
    if b > 0 {
        if a >= 0 {
            a / b
        } else {
            -((-a) / b)
        }
    } else {
        if a >= 0 {
            -(a / (-b))
        } else {
            (-a) / (-b)
        }
    }
}

/// Saturating sum.
pub open spec fn sat_add(a: i64, b: i64) -> i64 {
    saturate(a + b)
}

/// Saturating difference.
pub open spec fn sat_sub(a: i64, b: i64) -> i64 {
    saturate(a - b)
}

/// Saturating negation.
pub open spec fn sat_neg(a: i64) -> i64 {
    saturate(-a)
}

/// Saturating magnitude.
pub open spec fn sat_abs(a: i64) -> i64 {
    if a < 0 {
        saturate(-a)
    } else {
        a
    }
}

/// Saturating fixed-point product, rounded toward zero.
pub open spec fn sat_mul(a: i64, b: i64) -> i64 {
    saturate(trunc_div(a * b, SCALE as int))
}

/// Saturating fixed-point quotient, rounded toward zero. A division by zero
/// saturates in the direction of the dividend's sign, and `0 / 0` is `0`.
pub open spec fn sat_div(a: i64, b: i64) -> i64 {
    if b == 0 {
        if a > 0 {
            i64::MAX
        } else if a < 0 {
            i64::MIN
        } else {
            0
        }
    } else {
        saturate(trunc_div(a * SCALE, b as int))
    }
}

/// `x` limited to the interval from `lo` to `hi`. The lower bound is tested
/// first, so the result is `lo` when `x < lo` even if `lo > hi`.
pub open spec fn clamp(x: i64, lo: i64, hi: i64) -> i64 {
    if x < lo {
        lo
    } else if x > hi {
        hi
    } else {
        x
    }
}

/// The fixed-point number that stands for the whole number `n`.
pub open spec fn whole(n: int) -> i64 {
    saturate(n * SCALE)
}

fn saturating(x: i128) -> (r: i64)
    ensures
        r == saturate(x as int),
{
    if x < i64::MIN as i128 {
        i64::MIN
    } else if x > i64::MAX as i128 {
        i64::MAX
    } else {
        x as i64
    }
}

/// Adds two fixed-point numbers.
pub fn fixed_add(a: i64, b: i64) -> (r: i64)
    ensures
        r == sat_add(a, b),
{
    saturating(a as i128 + b as i128)
}

/// Subtracts `b` from `a`.
pub fn fixed_sub(a: i64, b: i64) -> (r: i64)
    ensures
        r == sat_sub(a, b),
{
    saturating(a as i128 - b as i128)
}

/// Negates a fixed-point number.
pub fn fixed_neg(a: i64) -> (r: i64)
    ensures
        r == sat_neg(a),
{
    saturating(-(a as i128))
}

/// The magnitude of a fixed-point number.
pub fn fixed_abs(a: i64) -> (r: i64)
    ensures
        r == sat_abs(a),
        r >= 0,
{
    if a < 0 {
        saturating(-(a as i128))
    } else {
        a
    }
}

proof fn lemma_product_bounds(a: int, b: int, m: int)
    requires
        -m <= a <= m,
        -m <= b <= m,
    ensures
        -(m * m) <= a * b <= m * m,
{
    assert(-(m * m) <= a * b <= m * m) by (nonlinear_arith)
        requires
            -m <= a <= m,
            -m <= b <= m,
    ;
}

/// Multiplies two fixed-point numbers.
pub fn fixed_mul(a: i64, b: i64) -> (r: i64)
    ensures
        r == sat_mul(a, b),
{
    proof {
        lemma_product_bounds(a as int, b as int, 0x8000_0000_0000_0000);
    }
    let p: i128 = (a as i128) * (b as i128);
    saturating(p / (SCALE as i128))
}

/// Divides `a` by `b`.
pub fn fixed_div(a: i64, b: i64) -> (r: i64)
    ensures
        r == sat_div(a, b),
{
    if b == 0 {
        if a > 0 {
            i64::MAX
        } else if a < 0 {
            i64::MIN
        } else {
            0
        }
    } else {
        proof {
            lemma_product_bounds(a as int, SCALE as int, 0x8000_0000_0000_0000);
        }
        let p: i128 = (a as i128) * (SCALE as i128);
        if b > 0 {
            saturating(p / (b as i128))
        } else {
            saturating(-(p / (-(b as i128))))
        }
    }
}

/// Limits `x` to the interval from `lo` to `hi`.
pub fn fixed_clamp(x: i64, lo: i64, hi: i64) -> (r: i64)
    ensures
        r == clamp(x, lo, hi),
{
    if x < lo {
        lo
    } else if x > hi {
        hi
    } else {
        x
    }
}

/// The fixed-point number that stands for the whole number `n`.
pub fn from_whole(n: i32) -> (r: i64)
    ensures
        r == whole(n as int),
        r == n * SCALE,
{
    (n as i64) * SCALE
}

/// The fixed-point number that stands for the count `n`.
pub fn from_count(n: usize) -> (r: i64)
    ensures
        r == whole(n as int),
{
    proof {
        lemma_product_bounds(n as int, SCALE as int, 0x1_0000_0000_0000_0000);
    }
    saturating((n as i128) * (SCALE as i128))
}

/// A product with a factor between zero and one lies between zero and the
/// other factor.
pub proof fn lemma_mul_by_fraction(d: i64, f: i64)
    requires
        0 <= f <= SCALE,
    ensures
        d >= 0 ==> 0 <= sat_mul(d, f) <= d,
        d <= 0 ==> d <= sat_mul(d, f) <= 0,
{
    let m: int = if d >= 0 { d as int } else { -(d as int) };
    let p: int = m * f;
    assert(0 <= p <= m * 1_000_000) by (nonlinear_arith)
        requires
            p == m * f,
            0 <= m,
            0 <= f <= 1_000_000,
    ;
    assert(0 <= p / 1_000_000 <= m) by (nonlinear_arith)
        requires
            0 <= p <= m * 1_000_000,
    ;
    if d >= 0 {
        assert(d * f == p);
    } else {
        assert(-(d * f) == p) by (nonlinear_arith)
            requires
                p == m * f,
                m == -d,
        ;
        if p == 0 {
            assert(d * f == 0);
        }
    }
}

/// A product of a number other than zero with a factor from zero to below
/// one lies strictly nearer to zero than the number, on its side of zero.
pub proof fn lemma_mul_by_proper_fraction(d: i64, f: i64)
    requires
        0 <= f < SCALE,
    ensures
        d > 0 ==> 0 <= sat_mul(d, f) < d,
        d < 0 ==> d < sat_mul(d, f) <= 0,
        d == 0 ==> sat_mul(d, f) == 0,
{
    let m: int = if d >= 0 { d as int } else { -(d as int) };
    let p: int = m * f;
    assert(0 <= p) by (nonlinear_arith)
        requires
            p == m * f,
            0 <= m,
            0 <= f,
    ;
    if m > 0 {
        assert(p < m * 1_000_000) by (nonlinear_arith)
            requires
                p == m * f,
                0 < m,
                0 <= f < 1_000_000,
        ;
        assert(0 <= p / 1_000_000 < m) by (nonlinear_arith)
            requires
                0 <= p < m * 1_000_000,
        ;
    } else {
        assert(p == 0) by (nonlinear_arith)
            requires
                p == m * f,
                m == 0,
        ;
    }
    if d >= 0 {
        assert(d * f == p);
    } else {
        assert(-(d * f) == p) by (nonlinear_arith)
            requires
                p == m * f,
                m == -d,
        ;
        if p == 0 {
            assert(d * f == 0);
        }
    }
}

/// A quotient by a positive divisor grows with the dividend.
pub proof fn lemma_div_monotone(a: i64, b: i64, d: i64)
    requires
        a <= b,
        d > 0,
    ensures
        sat_div(a, d) <= sat_div(b, d),
{
    let x: int = a * SCALE;
    let y: int = b * SCALE;
    let dd: int = d as int;
    assert(x <= y) by (nonlinear_arith)
        requires
            x == a * 1_000_000,
            y == b * 1_000_000,
            a <= b,
    ;
    lemma_trunc_div_monotone(x, y, dd);
}

/// Division that rounds toward zero grows with the dividend, for a positive
/// divisor.
pub proof fn lemma_trunc_div_monotone(x: int, y: int, d: int)
    requires
        x <= y,
        d > 0,
    ensures
        trunc_div(x, d) <= trunc_div(y, d),
{
    if x >= 0 {
        assert(x / d <= y / d) by (nonlinear_arith)
            requires
                0 <= x <= y,
                d > 0,
        ;
    } else if y >= 0 {
        assert((-x) / d >= 0) by (nonlinear_arith)
            requires
                -x >= 0,
                d > 0,
        ;
        assert(y / d >= 0) by (nonlinear_arith)
            requires
                y >= 0,
                d > 0,
        ;
    } else {
        assert((-y) / d <= (-x) / d) by (nonlinear_arith)
            requires
                0 <= -y <= -x,
                d > 0,
        ;
    }
}

/// How a quotient by a positive divisor compares with one: the quotient of
/// the divisor by itself is one, a smaller dividend gives less than one, a
/// larger one at least one, and a dividend at or below the negated divisor
/// gives at most minus one.
pub proof fn lemma_div_against_divisor(a: i64, d: i64)
    requires
        d > 0,
    ensures
        a == d ==> sat_div(a, d) == SCALE,
        a < d ==> sat_div(a, d) < SCALE,
        a >= d ==> sat_div(a, d) >= SCALE,
        a <= -d ==> sat_div(a, d) <= -SCALE,
{
    let x: int = a * SCALE;
    let dd: int = d as int;
    if a >= 0 {
        assert(x >= 0) by (nonlinear_arith)
            requires
                x == a * 1_000_000,
                a >= 0,
        ;
        if a == d {
            assert(x / dd == 1_000_000) by (nonlinear_arith)
                requires
                    x == dd * 1_000_000,
                    dd > 0,
            ;
        } else if a < d {
            assert(x / dd < 1_000_000) by (nonlinear_arith)
                requires
                    x == a * 1_000_000,
                    0 <= a < dd,
            ;
            assert(x / dd >= 0) by (nonlinear_arith)
                requires
                    x >= 0,
                    dd > 0,
            ;
        } else {
            assert(x / dd >= 1_000_000) by (nonlinear_arith)
                requires
                    x == a * 1_000_000,
                    a >= dd,
                    dd > 0,
            ;
        }
    } else {
        let y: int = -x;
        assert(y == (-a) * 1_000_000) by (nonlinear_arith)
            requires
                y == -x,
                x == a * 1_000_000,
        ;
        assert(y > 0) by (nonlinear_arith)
            requires
                y == (-a) * 1_000_000,
                a < 0,
        ;
        assert(y / dd >= 0) by (nonlinear_arith)
            requires
                y > 0,
                dd > 0,
        ;
        if a <= -d {
            assert(y / dd >= 1_000_000) by (nonlinear_arith)
                requires
                    y == (-a) * 1_000_000,
                    -a >= dd,
                    dd > 0,
            ;
        }
    }
}

/// Multiplying by one changes nothing.
pub proof fn lemma_mul_by_one(a: i64)
    ensures
        sat_mul(a, SCALE) == a,
{
    assert((a * 1_000_000) / 1_000_000 == a) by (nonlinear_arith);
    assert(((-a) * 1_000_000) / 1_000_000 == -a) by (nonlinear_arith);
    assert(-(a * 1_000_000) == (-a) * 1_000_000) by (nonlinear_arith);
}

} // verus!
