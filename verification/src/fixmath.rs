//! Fixed-point scalar arithmetic.
//!
//! All scalar quantities of the library are integers scaled by [`SCALE`]:
//! a value `v` stands for the real number `v / SCALE`. Angles are measured in
//! radians under the same scaling, so [`PI_FIX`] microradians stand for the
//! half turn. The constants are chosen so that halving and doubling are exact:
//! `TWO_PI_FIX == 2 * PI_FIX` and `PI_FIX == 2 * HALF_PI_FIX`.

use vstd::prelude::*;

verus! {

/// One unit, as a fixed-point integer: six decimal digits of fraction.
pub const SCALE: i64 = 1_000_000;

/// A quarter turn (pi / 2) in fixed-point radians.
pub const HALF_PI_FIX: i64 = 1_570_796;

/// A half turn (pi) in fixed-point radians.
pub const PI_FIX: i64 = 3_141_592;

/// A full turn (2 * pi) in fixed-point radians.
pub const TWO_PI_FIX: i64 = 6_283_184;

/// An eighth turn (pi / 4) in fixed-point radians.
pub const QUARTER_PI_FIX: i64 = 785_398;

/// The corrective weight of the first-octant arctangent approximation.
pub const ATAN_K_FIX: i64 = 273_000;

/// A value clamped into `[lo, hi]`.
pub open spec fn clamp_spec(v: int, lo: int, hi: int) -> int {
    if v < lo {
        lo
    } else if v > hi {
        hi
    } else {
        v
    }
}

/// Truncating division, the rounding of Rust's `/` operator: the quotient of
/// `a` and `b` rounded toward zero.
pub open spec fn tdiv(a: int, b: int) -> int {
    if a >= 0 {
        a / b
    } else {
        -((-a) / b)
    }
}

/// Division rounding half away from zero, the rounding used when a real-valued
/// quantity is brought to the pixel or fixed-point grid.
pub open spec fn round_div_spec(a: int, b: int) -> int {
    if a >= 0 {
        (2 * a + b) / (2 * b)
    } else {
        -((2 * (-a) + b) / (2 * b))
    }
}

/// The product of two fixed-point scalars, widened so that it cannot overflow.
pub fn mul_wide(a: i64, b: i64) -> (r: i128)
    ensures
        r == a as int * b as int,
{
    proof {
        assert((a as int) * (b as int) <= i128::MAX && (a as int) * (b as int) >= i128::MIN)
            by (nonlinear_arith)
            requires
                i64::MIN <= a <= i64::MAX,
                i64::MIN <= b <= i64::MAX,
        ;
    }
    (a as i128) * (b as i128)
}

/// Floor division of `a` by a positive `b`: the mathematical quotient, which
/// for negative `a` lies below the truncated one.
pub fn div_floor(a: i64, b: i64) -> (r: i64)
    requires
        b > 0,
    ensures
        r == a as int / b as int,
{
    if a >= 0 {
        a / b
    } else {
        let m: i64 = -(a + 1);
        let q: i64 = m / b;
        proof {
            lemma_floor_of_negative(a as int, b as int);
        }
        -q - 1
    }
}

/// For `a < 0 < b`, the floor quotient is `-((-a - 1) / b) - 1`.
proof fn lemma_floor_of_negative(a: int, b: int)
    requires
        a < 0,
        b > 0,
    ensures
        a / b == -((-a - 1) / b) - 1,
{
    let m = -a - 1;
    let q = m / b;
    let r = m % b;
    vstd::arithmetic::div_mod::lemma_fundamental_div_mod(m, b);
    vstd::arithmetic::div_mod::lemma_mod_bound(m, b);
    assert(a == b * (-q - 1) + (b - 1 - r)) by (nonlinear_arith)
        requires
            a == -m - 1,
            m == b * q + r,
    ;
    assert(0 <= b - 1 - r < b);
    vstd::arithmetic::div_mod::lemma_fundamental_div_mod_converse(a, b, -q - 1, b - 1 - r);
}

/// Ceiling division of `a` by a positive `b`, written as the negated floor
/// quotient of the negated dividend.
pub fn div_ceil(a: i64, b: i64) -> (r: i64)
    requires
        b > 0,
        a > i64::MIN,
    ensures
        r == -((-a) / b as int),
{
    if a > 0 {
        let q: i64 = (a - 1) / b;
        proof {
            lemma_floor_of_negative(-a as int, b as int);
            vstd::arithmetic::div_mod::lemma_div_nonincreasing(a - 1 as int, b as int);
        }
        q + 1
    } else {
        let q: i64 = (-a) / b;
        proof {
            vstd::arithmetic::div_mod::lemma_div_nonincreasing(-a as int, b as int);
            vstd::arithmetic::div_mod::lemma_div_pos_is_pos(-a as int, b as int);
        }
        -q
    }
}

/// The Euclidean remainder of `a` modulo a positive `m`: the unique value in
/// `[0, m)` congruent to `a`, also for negative `a`.
pub fn emod(a: i64, m: i64) -> (r: i64)
    requires
        m > 0,
        a > i64::MIN,
    ensures
        r == (a as int) % (m as int),
{
    if a >= 0 {
        a % m
    } else {
        let s: i64 = (-a) % m;
        proof {
            let k = (-a as int) / (m as int);
            vstd::arithmetic::div_mod::lemma_fundamental_div_mod(-a as int, m as int);
            vstd::arithmetic::div_mod::lemma_mod_bound(-a as int, m as int);
            if s == 0 {
                assert(a as int == (m as int) * (-k) + 0) by (nonlinear_arith)
                    requires
                        -a as int == (m as int) * k + 0,
                ;
                vstd::arithmetic::div_mod::lemma_fundamental_div_mod_converse(
                    a as int,
                    m as int,
                    -k,
                    0,
                );
            } else {
                assert(a as int == (m as int) * (-k - 1) + (m - s)) by (nonlinear_arith)
                    requires
                        -a as int == (m as int) * k + s,
                ;
                vstd::arithmetic::div_mod::lemma_fundamental_div_mod_converse(
                    a as int,
                    m as int,
                    -k - 1,
                    m as int - s,
                );
            }
        }
        if s == 0 {
            0
        } else {
            m - s
        }
    }
}

/// The integer square root: the largest `r` with `r * r <= n`.
pub fn isqrt(n: u128) -> (r: u64)
    ensures
        (r as int) * (r as int) <= n as int,
        (r as int + 1) * (r as int + 1) > n as int,
        r == sqrt_floor(n as int),
{
    let mut lo: u64 = 0;
    let mut hi: u64 = u64::MAX;
    proof {
        assert((u64::MAX as int + 1) * (u64::MAX as int + 1) > u128::MAX as int)
            by (nonlinear_arith);
    }
    while lo < hi
        invariant
            lo <= hi,
            (lo as int) * (lo as int) <= n as int,
            (hi as int + 1) * (hi as int + 1) > n as int,
        decreases hi - lo,
    {
        let mid: u64 = lo + (hi - lo) / 2 + 1;
        proof {
            assert((mid as int) * (mid as int) <= u128::MAX as int) by (nonlinear_arith)
                requires
                    mid <= u64::MAX,
            ;
        }
        let sq: u128 = (mid as u128) * (mid as u128);
        if sq <= n {
            lo = mid;
        } else {
            hi = mid - 1;
        }
    }
    proof {
        lemma_sqrt_floor_unique(n as int, lo as int);
    }
    lo
}

/// Truncating division of widened values by a positive divisor.
pub fn tdiv128(a: i128, b: i128) -> (r: i128)
    requires
        b > 0,
        a > i128::MIN,
    ensures
        r == tdiv(a as int, b as int),
{
    if a >= 0 {
        a / b
    } else {
        let m: i128 = -a;
        proof {
            vstd::arithmetic::div_mod::lemma_div_nonincreasing(m as int, b as int);
            vstd::arithmetic::div_mod::lemma_div_pos_is_pos(m as int, b as int);
        }
        -(m / b)
    }
}

/// The Euclidean remainder for widened values: the unique value in `[0, m)`
/// congruent to `a` modulo a positive `m`.
pub fn emod128(a: i128, m: i128) -> (r: i128)
    requires
        m > 0,
        a > i128::MIN,
    ensures
        r == (a as int) % (m as int),
{
    if a >= 0 {
        a % m
    } else {
        let s: i128 = (-a) % m;
        proof {
            let k = (-a as int) / (m as int);
            vstd::arithmetic::div_mod::lemma_fundamental_div_mod(-a as int, m as int);
            vstd::arithmetic::div_mod::lemma_mod_bound(-a as int, m as int);
            if s == 0 {
                assert(a as int == (m as int) * (-k) + 0) by (nonlinear_arith)
                    requires
                        -a as int == (m as int) * k + 0,
                ;
                vstd::arithmetic::div_mod::lemma_fundamental_div_mod_converse(
                    a as int,
                    m as int,
                    -k,
                    0,
                );
            } else {
                assert(a as int == (m as int) * (-k - 1) + (m - s)) by (nonlinear_arith)
                    requires
                        -a as int == (m as int) * k + s,
                ;
                vstd::arithmetic::div_mod::lemma_fundamental_div_mod_converse(
                    a as int,
                    m as int,
                    -k - 1,
                    m as int - s,
                );
            }
        }
        if s == 0 {
            0
        } else {
            m - s
        }
    }
}

/// Whether `r` is the floor of the square root of `n`.
pub open spec fn is_sqrt_floor(n: int, r: int) -> bool {
    0 <= r && r * r <= n && (r + 1) * (r + 1) > n
}

/// The floor of the square root of a nonnegative `n`.
pub open spec fn sqrt_floor(n: int) -> int {
    choose|r: int| is_sqrt_floor(n, r)
}

/// The floor of the square root is unique, so any witness is it.
pub proof fn lemma_sqrt_floor_unique(n: int, r: int)
    requires
        is_sqrt_floor(n, r),
    ensures
        sqrt_floor(n) == r,
{
    assert(exists|x: int| is_sqrt_floor(n, x));
    assert(is_sqrt_floor(n, sqrt_floor(n)));
    let s = sqrt_floor(n);
    assert(s == r) by (nonlinear_arith)
        requires
            0 <= r && r * r <= n && (r + 1) * (r + 1) > n,
            0 <= s && s * s <= n && (s + 1) * (s + 1) > n,
    ;
}

/// The fixed-point sine on `[0, PI_FIX]`, by the classical rational
/// approximation `sin x ~ 16 x (pi - x) / (5 pi^2 - 4 x (pi - x))`, carried
/// out exactly on the scaled integers. It is exact at `0`, `PI_FIX` and
/// `HALF_PI_FIX`, stays within `[0, SCALE]`, and is symmetric about the
/// quarter turn.
pub open spec fn sin_fix_spec(x: int) -> int {
    (16 * x * (PI_FIX - x) * SCALE) / (5 * PI_FIX * PI_FIX - 4 * x * (PI_FIX - x))
}

pub fn sin_fix(x: i64) -> (r: i64)
    requires
        0 <= x <= PI_FIX,
    ensures
        r == sin_fix_spec(x as int),
        0 <= r <= SCALE,
{
    proof {
        assert(0 <= (x as int) * (PI_FIX - x as int)
            && 4 * ((x as int) * (PI_FIX - x as int)) <= PI_FIX * PI_FIX
            && (x as int) * (PI_FIX - x as int) <= 2_500_000_000_000) by (nonlinear_arith)
            requires
                0 <= x as int <= PI_FIX,
                PI_FIX == 3_141_592,
        ;
    }
    let t: i64 = x * (PI_FIX - x);
    let num: i128 = 16 * (t as i128) * (SCALE as i128);
    let den: i128 = 5 * (PI_FIX as i128) * (PI_FIX as i128) - 4 * (t as i128);
    let q: i128 = num / den;
    proof {
        lemma_sin_fix_parts(x as int, t as int, num as int, den as int);
        lemma_sin_fix_range(x as int);
    }
    q as i64
}

/// The scaled numerator and denominator computed from the product
/// `t == x * (PI_FIX - x)` are the ones that `sin_fix_spec` divides.
proof fn lemma_sin_fix_parts(x: int, t: int, num: int, den: int)
    requires
        t == x * (PI_FIX - x),
        num == 16 * t * SCALE,
        den == 5 * (PI_FIX as int) * (PI_FIX as int) - 4 * t,
    ensures
        num == 16 * x * (PI_FIX - x) * SCALE,
        den == 5 * PI_FIX * PI_FIX - 4 * x * (PI_FIX - x),
{
    assert(16 * t * SCALE == 16 * x * (PI_FIX - x) * SCALE && 4 * t == 4 * x * (PI_FIX - x))
        by (nonlinear_arith)
        requires
            t == x * (PI_FIX - x),
    ;
}

/// The fixed-point sine lies in `[0, SCALE]` on its domain.
pub proof fn lemma_sin_fix_range(x: int)
    requires
        0 <= x <= PI_FIX,
    ensures
        0 <= sin_fix_spec(x) <= SCALE,
{
    let t = x * (PI_FIX - x);
    let num = 16 * x * (PI_FIX - x) * SCALE;
    let den = 5 * PI_FIX * PI_FIX - 4 * x * (PI_FIX - x);
    assert(0 <= t && num == 16 * t * SCALE && den == 5 * PI_FIX * PI_FIX - 4 * t && 4 * t <= PI_FIX
        * PI_FIX && num >= 0) by (nonlinear_arith)
        requires
            0 <= x <= PI_FIX,
            t == x * (PI_FIX - x),
            num == 16 * x * (PI_FIX - x) * SCALE,
            den == 5 * PI_FIX * PI_FIX - 4 * x * (PI_FIX - x),
    ;
    assert(den >= 4 * (PI_FIX * PI_FIX));
    vstd::arithmetic::div_mod::lemma_div_pos_is_pos(num, den);
    assert(num <= SCALE * den) by (nonlinear_arith)
        requires
            num == 16 * t * SCALE,
            den == 5 * PI_FIX * PI_FIX - 4 * t,
            4 * t <= PI_FIX * PI_FIX,
            t >= 0,
            SCALE == 1_000_000,
            PI_FIX == 3_141_592,
    ;
    vstd::arithmetic::div_mod::lemma_div_is_ordered(num, SCALE * den, den);
    vstd::arithmetic::div_mod::lemma_div_by_multiple(SCALE as int, den);
}

/// The fixed-point sine vanishes exactly at the ends of its domain.
pub proof fn lemma_sin_fix_ends()
    ensures
        sin_fix_spec(0) == 0,
        sin_fix_spec(PI_FIX as int) == 0,
{
    vstd::arithmetic::div_mod::lemma_small_div_converse(0, 5 * PI_FIX * PI_FIX);
}

/// The fixed-point sine is exactly one at the quarter turn.
pub proof fn lemma_sin_fix_half()
    ensures
        sin_fix_spec(HALF_PI_FIX as int) == SCALE,
{
    let t = (HALF_PI_FIX as int) * (PI_FIX - HALF_PI_FIX);
    assert(16 * HALF_PI_FIX * (PI_FIX - HALF_PI_FIX) * SCALE == SCALE * (16 * t) && 5 * PI_FIX
        * PI_FIX - 4 * HALF_PI_FIX * (PI_FIX - HALF_PI_FIX) == 16 * t && 16 * t > 0)
        by (nonlinear_arith)
        requires
            t == (HALF_PI_FIX as int) * (PI_FIX - HALF_PI_FIX),
            PI_FIX == 2 * HALF_PI_FIX,
            HALF_PI_FIX == 1_570_796,
    ;
    vstd::arithmetic::div_mod::lemma_div_by_multiple(SCALE as int, 16 * t);
}

/// Away from its zeroes the fixed-point sine keeps a fraction of its height:
/// a tenth of a radian in from either end it is at least nine hundredths.
pub proof fn lemma_sin_fix_lower(x: int)
    requires
        100_000 <= x <= PI_FIX - 100_000,
    ensures
        sin_fix_spec(x) >= 90_000,
{
    let t = x * (PI_FIX - x);
    let num = 16 * x * (PI_FIX - x) * SCALE;
    let den = 5 * PI_FIX * PI_FIX - 4 * x * (PI_FIX - x);
    assert(t >= 100_000 * (PI_FIX - 100_000) && num == 16 * t * SCALE && den == 5 * PI_FIX
        * PI_FIX - 4 * t && num >= 90_000 * den && den >= 1) by (nonlinear_arith)
        requires
            t == x * (PI_FIX - x),
            num == 16 * x * (PI_FIX - x) * SCALE,
            den == 5 * PI_FIX * PI_FIX - 4 * x * (PI_FIX - x),
            100_000 <= x <= PI_FIX - 100_000,
            PI_FIX == 3_141_592,
            SCALE == 1_000_000,
    ;
    vstd::arithmetic::div_mod::lemma_div_is_ordered(90_000 * den, num, den);
    vstd::arithmetic::div_mod::lemma_div_by_multiple(90_000, den);
}

/// The fixed-point cosine on `[0, PI_FIX]`, reduced to the sine by the
/// quarter-turn shift.
pub open spec fn cos_fix_spec(x: int) -> int {
    if x <= HALF_PI_FIX {
        sin_fix_spec(HALF_PI_FIX - x)
    } else {
        -sin_fix_spec(x - HALF_PI_FIX)
    }
}

pub fn cos_fix(x: i64) -> (r: i64)
    requires
        0 <= x <= PI_FIX,
    ensures
        r == cos_fix_spec(x as int),
        -SCALE <= r <= SCALE,
{
    if x <= HALF_PI_FIX {
        sin_fix(HALF_PI_FIX - x)
    } else {
        -sin_fix(x - HALF_PI_FIX)
    }
}

/// The fixed-point sine over a full turn `[0, TWO_PI_FIX)`, negated on the
/// second half turn.
pub open spec fn sin_full_spec(x: int) -> int {
    if x <= PI_FIX {
        sin_fix_spec(x)
    } else {
        -sin_fix_spec(x - PI_FIX)
    }
}

pub fn sin_full(x: i64) -> (r: i64)
    requires
        0 <= x < TWO_PI_FIX,
    ensures
        r == sin_full_spec(x as int),
        -SCALE <= r <= SCALE,
{
    if x <= PI_FIX {
        sin_fix(x)
    } else {
        -sin_fix(x - PI_FIX)
    }
}

/// The fixed-point cosine over a full turn `[0, TWO_PI_FIX)`, mirrored on the
/// second half turn.
pub open spec fn cos_full_spec(x: int) -> int {
    if x <= PI_FIX {
        cos_fix_spec(x)
    } else {
        cos_fix_spec(TWO_PI_FIX - x)
    }
}

pub fn cos_full(x: i64) -> (r: i64)
    requires
        0 <= x < TWO_PI_FIX,
    ensures
        r == cos_full_spec(x as int),
        -SCALE <= r <= SCALE,
{
    if x <= PI_FIX {
        cos_fix(x)
    } else {
        cos_fix(TWO_PI_FIX - x)
    }
}

/// The product of two bounded values is bounded by the product of the bounds.
pub proof fn lemma_product_bound(p: int, q: int, lim_p: int, lim_q: int)
    requires
        -lim_p <= p <= lim_p,
        -lim_q <= q <= lim_q,
        lim_p >= 0,
        lim_q >= 0,
    ensures
        -lim_p * lim_q <= p * q <= lim_p * lim_q,
{
    assert(-lim_p * lim_q <= p * q <= lim_p * lim_q) by (nonlinear_arith)
        requires
            -lim_p <= p <= lim_p,
            -lim_q <= q <= lim_q,
            lim_p >= 0,
            lim_q >= 0,
    ;
}

/// Truncating division by a positive `d` keeps a value within `bound` once
/// its magnitude is within `bound * d`.
pub proof fn lemma_tdiv_bound(v: int, bound: int, d: int)
    requires
        -bound * d <= v <= bound * d,
        d > 0,
        bound >= 0,
    ensures
        -bound <= tdiv(v, d) <= bound,
{
    assert((-bound) * d == -(bound * d)) by (nonlinear_arith);
    if v >= 0 {
        vstd::arithmetic::div_mod::lemma_div_is_ordered(v, bound * d, d);
        vstd::arithmetic::div_mod::lemma_div_by_multiple(bound, d);
        vstd::arithmetic::div_mod::lemma_div_pos_is_pos(v, d);
    } else {
        vstd::arithmetic::div_mod::lemma_div_is_ordered(-v, bound * d, d);
        vstd::arithmetic::div_mod::lemma_div_by_multiple(bound, d);
        vstd::arithmetic::div_mod::lemma_div_pos_is_pos(-v, d);
    }
}

/// When `a` is exactly `q * b`, truncating division recovers `q`.
pub proof fn lemma_tdiv_exact(a: int, b: int, q: int)
    requires
        b > 0,
        a == q * b,
    ensures
        tdiv(a, b) == q,
{
    vstd::arithmetic::div_mod::lemma_fundamental_div_mod_converse(a, b, q, 0);
    if a < 0 {
        assert(-a == (-q) * b) by (nonlinear_arith)
            requires
                a == q * b,
        ;
        vstd::arithmetic::div_mod::lemma_fundamental_div_mod_converse(-a, b, -q, 0);
    }
}

/// When `b` divides `a`, truncating division is exact.
pub proof fn lemma_tdiv_of_divisible(a: int, b: int)
    requires
        b > 0,
        a % b == 0,
    ensures
        tdiv(a, b) * b == a,
{
    vstd::arithmetic::div_mod::lemma_fundamental_div_mod(a, b);
    assert(a == (a / b) * b) by (nonlinear_arith)
        requires
            a == b * (a / b) + a % b,
            a % b == 0,
    ;
    lemma_tdiv_exact(a, b, a / b);
}

/// Scaling a nonnegative value by a fixed-point factor of magnitude at most
/// one never grows it.
pub proof fn lemma_scale_bound(v: int, f: int)
    requires
        0 <= v,
        -SCALE <= f <= SCALE,
    ensures
        -v <= tdiv(v * f, SCALE as int) <= v,
{
    if v * f >= 0 {
        assert(v * f <= v * SCALE) by (nonlinear_arith)
            requires
                f <= SCALE,
                v >= 0,
        ;
        vstd::arithmetic::div_mod::lemma_div_is_ordered(v * f, v * SCALE, SCALE as int);
        vstd::arithmetic::div_mod::lemma_div_by_multiple(v, SCALE as int);
        vstd::arithmetic::div_mod::lemma_div_pos_is_pos(v * f, SCALE as int);
    } else {
        let m = -(v * f);
        assert(m <= v * SCALE) by (nonlinear_arith)
            requires
                m == -(v * f),
                -SCALE <= f,
                v >= 0,
        ;
        vstd::arithmetic::div_mod::lemma_div_is_ordered(m, v * SCALE, SCALE as int);
        vstd::arithmetic::div_mod::lemma_div_by_multiple(v, SCALE as int);
        vstd::arithmetic::div_mod::lemma_div_pos_is_pos(m, SCALE as int);
    }
}

/// A nonnegative rounded quotient stays below any `c` whose product with the
/// divisor bounds the dividend.
pub proof fn lemma_round_div_le(a: int, b: int, c: int)
    requires
        0 <= a,
        a <= b * c,
        b > 0,
        c >= 0,
    ensures
        0 <= round_div_spec(a, b) <= c,
{
    assert(2 * a + b <= c * (2 * b) + b) by (nonlinear_arith)
        requires
            a <= b * c,
    ;
    vstd::arithmetic::div_mod::lemma_div_is_ordered(2 * a + b, c * (2 * b) + b, 2 * b);
    vstd::arithmetic::div_mod::lemma_fundamental_div_mod_converse(c * (2 * b) + b, 2 * b, c, b);
    vstd::arithmetic::div_mod::lemma_div_pos_is_pos(2 * a + b, 2 * b);
}

/// A rounded quotient is bounded in magnitude by any `c` whose product with
/// the divisor bounds the dividend's magnitude.
pub proof fn lemma_round_div_bound(a: int, b: int, c: int)
    requires
        -(b * c) <= a <= b * c,
        b > 0,
        c >= 0,
    ensures
        -c <= round_div_spec(a, b) <= c,
{
    if a >= 0 {
        lemma_round_div_le(a, b, c);
    } else {
        lemma_round_div_le(-a, b, c);
    }
}

/// The product of two fixed-point scalars, rescaled.
pub fn smul(a: i64, b: i64) -> (r: i64)
    requires
        -2_000_000_000 <= a <= 2_000_000_000,
        -2_000_000_000 <= b <= 2_000_000_000,
    ensures
        r == tdiv(a as int * b as int, SCALE as int),
        -4_000_000_000_000 <= r <= 4_000_000_000_000,
{
    proof {
        lemma_product_bound(a as int, b as int, 2_000_000_000, 2_000_000_000);
        lemma_tdiv_bound(a as int * b as int, 4_000_000_000_000, SCALE as int);
    }
    tdiv128(mul_wide(a, b), SCALE as i128) as i64
}

/// The first-octant arctangent of a ratio in `[0, SCALE]`, by the classical
/// weighted-linear approximation `atan z ~ z (pi/4 + k (1 - z))`, carried
/// out exactly on the scaled integers. It is exact at `0` and at `1` (an
/// eighth turn).
pub open spec fn atan_ratio_spec(z: int) -> int {
    tdiv(z * (QUARTER_PI_FIX + tdiv(ATAN_K_FIX * (SCALE - z), SCALE as int)), SCALE as int)
}

pub fn atan_ratio(z: i64) -> (r: i64)
    requires
        0 <= z <= SCALE,
    ensures
        r == atan_ratio_spec(z as int),
        0 <= r <= QUARTER_PI_FIX + ATAN_K_FIX,
{
    proof {
        lemma_product_bound(ATAN_K_FIX as int, SCALE - z as int, 273_000, 1_000_000);
        lemma_tdiv_bound(ATAN_K_FIX as int * (SCALE - z as int), 273_000, SCALE as int);
        vstd::arithmetic::div_mod::lemma_div_pos_is_pos(
            ATAN_K_FIX as int * (SCALE - z as int),
            SCALE as int,
        );
    }
    let inner: i64 = QUARTER_PI_FIX + tdiv128(mul_wide(ATAN_K_FIX, SCALE - z), SCALE as i128)
        as i64;
    proof {
        lemma_product_bound(z as int, inner as int, 1_000_000, 1_058_398);
        lemma_tdiv_bound(z as int * inner as int, 1_058_398, SCALE as int);
        assert(z as int * inner as int >= 0) by (nonlinear_arith)
            requires
                z >= 0,
                inner >= 0,
        ;
        vstd::arithmetic::div_mod::lemma_div_pos_is_pos(z as int * inner as int, SCALE as int);
    }
    tdiv128(mul_wide(z, inner), SCALE as i128) as i64
}

/// The upper-half-plane arctangent of `y` over `x`: the angle in `[0, pi]`
/// between the positive `x` direction and the point `(x, y)` with `y >= 0`,
/// assembled by octant from the first-octant approximation.
pub open spec fn atan2_fix_spec(y: int, x: int) -> int {
    if y == 0 {
        if x >= 0 {
            0
        } else {
            PI_FIX as int
        }
    } else if x > 0 {
        if y <= x {
            atan_ratio_spec(tdiv(y * SCALE, x))
        } else {
            HALF_PI_FIX - atan_ratio_spec(tdiv(x * SCALE, y))
        }
    } else if x == 0 {
        HALF_PI_FIX as int
    } else {
        if y <= -x {
            PI_FIX - atan_ratio_spec(tdiv(y * SCALE, -x))
        } else {
            HALF_PI_FIX + atan_ratio_spec(tdiv(-x * SCALE, y))
        }
    }
}

pub fn atan2_fix(y: i64, x: i64) -> (r: i64)
    requires
        0 <= y <= 4_000_000_000_000,
        -4_000_000_000_000 <= x <= 4_000_000_000_000,
    ensures
        r == atan2_fix_spec(y as int, x as int),
        0 <= r <= PI_FIX,
{
    if y == 0 {
        if x >= 0 {
            0
        } else {
            PI_FIX
        }
    } else if x > 0 {
        if y <= x {
            proof {
                lemma_ratio_in_unit(y as int, x as int);
            }
            atan_ratio(tdiv128(mul_wide(y, SCALE), x as i128) as i64)
        } else {
            proof {
                lemma_ratio_in_unit(x as int, y as int);
            }
            HALF_PI_FIX - atan_ratio(tdiv128(mul_wide(x, SCALE), y as i128) as i64)
        }
    } else if x == 0 {
        HALF_PI_FIX
    } else {
        if y <= -x {
            proof {
                lemma_ratio_in_unit(y as int, -x as int);
            }
            PI_FIX - atan_ratio(tdiv128(mul_wide(y, SCALE), (-x) as i128) as i64)
        } else {
            proof {
                lemma_ratio_in_unit(-x as int, y as int);
            }
            HALF_PI_FIX + atan_ratio(tdiv128(mul_wide(-x, SCALE), y as i128) as i64)
        }
    }
}

/// The scaled ratio of `0 <= p <= q` lies in `[0, SCALE]`.
proof fn lemma_ratio_in_unit(p: int, q: int)
    requires
        0 <= p <= q,
        q >= 1,
    ensures
        0 <= tdiv(p * SCALE, q) <= SCALE,
{
    assert(p * SCALE <= SCALE * q && p * SCALE >= 0) by (nonlinear_arith)
        requires
            0 <= p <= q,
            SCALE >= 0,
    ;
    lemma_tdiv_bound(p * SCALE, SCALE as int, q);
}

/// Division by a positive `b`, rounded half away from zero. The bounds on `a`
/// and `b` keep the doubled intermediate products inside `i64`.
pub fn round_div(a: i64, b: i64) -> (r: i64)
    requires
        0 < b <= 1_000_000_000_000_000,
        -1_000_000_000_000_000 <= a <= 1_000_000_000_000_000,
    ensures
        r == round_div_spec(a as int, b as int),
{
    if a >= 0 {
        (2 * a + b) / (2 * b)
    } else {
        let m: i64 = -a;
        -((2 * m + b) / (2 * b))
    }
}

} // verus!
