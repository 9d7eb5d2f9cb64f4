//! Decimal fixed-point scalars.
//!
//! A scalar is an `i64` counting millionths: the number it stands for is
//! `bits / 1_000_000`. Arithmetic rounds toward zero and saturates at the
//! `i64` bounds, so every operation is total and its exact result is stated
//! by the spec functions below.

use vstd::prelude::*;

verus! {

/// Fixed-point representation of 1.0: the number of units in one whole.
pub const ONE: i64 = 1_000_000;

/// Saturate an unbounded integer into the `i64` range.
pub open spec fn clip(x: int) -> int {
    if x < i64::MIN {
        i64::MIN as int
    } else if x > i64::MAX {
        i64::MAX as int
    } else {
        x
    }
}

/// Division rounding toward zero, as machine division does; `b != 0`.
pub open spec fn tdiv(a: int, b: int) -> int {
    if a >= 0 {
        a / b
    } else {
        -((-a) / b)
    }
}

/// Fixed-point sum.
pub open spec fn fadd(a: int, b: int) -> int {
    clip(a + b)
}

/// Fixed-point difference.
pub open spec fn fsub(a: int, b: int) -> int {
    clip(a - b)
}

/// Fixed-point product: (a/ONE)*(b/ONE) scaled back, rounded toward zero.
pub open spec fn fmul(a: int, b: int) -> int {
    clip(tdiv(a * b, ONE as int))
}

/// Fixed-point quotient: (a/ONE)/(b/ONE) scaled back, rounded toward zero.
pub open spec fn fdiv(a: int, b: int) -> int {
    clip(tdiv(a * (ONE as int), b))
}

/// `r` is the integer square root of `n` rounded down.
pub open spec fn is_sqrt(n: int, r: int) -> bool {
    0 <= r && r * r <= n && n < (r + 1) * (r + 1)
}

/// The integer square root of `n`, rounded down (for `n >= 0`).
pub open spec fn sqrt_floor(n: int) -> int {
    choose|r: int| is_sqrt(n, r)
}

/// Fixed-point square root of a non-negative scalar.
pub open spec fn fsqrt(x: int) -> int {
    sqrt_floor(x * (ONE as int))
}

/// The square root rounded down is unique, so any witness names it.
pub proof fn lemma_sqrt_floor_unique(n: int, r: int)
    requires
        is_sqrt(n, r),
    ensures
        sqrt_floor(n) == r,
{
    let c = sqrt_floor(n);
    assert(is_sqrt(n, c));
    assert(c == r) by (nonlinear_arith)
        requires
            0 <= c,
            c * c <= n,
            n < (c + 1) * (c + 1),
            0 <= r,
            r * r <= n,
            n < (r + 1) * (r + 1),
    ;
}

/// Products of `i64`-range factors stay inside the `i128` range.
pub proof fn lemma_i64_product_fits(a: int, b: int)
    by (nonlinear_arith)
    requires
        i64::MIN <= a <= i64::MAX,
        i64::MIN <= b <= i64::MAX,
    ensures
        -0x40000000000000000000000000000000 <= a * b
            <= 0x40000000000000000000000000000000,
{
}

/// A quotient is no larger in magnitude than its dividend.
pub proof fn lemma_div_magnitude(a: int, b: int)
    requires
        a >= 0,
        b != 0,
    ensures
        -a <= a / b <= a,
{
    vstd::arithmetic::div_mod::lemma_fundamental_div_mod(a, b);
    let q = a / b;
    let r = a % b;
    assert(a == b * q + r);
    assert(0 <= r < b || 0 <= r < -b);
    assert(-a <= q <= a) by (nonlinear_arith)
        requires
            a >= 0,
            b != 0,
            a == b * q + r,
            0 <= r < b || 0 <= r < -b,
    ;
}

/// Saturate an `i128` into the `i64` range.
pub fn clip_i128(x: i128) -> (r: i64)
    ensures
        r as int == clip(x as int),
{
    if x > i64::MAX as i128 {
        i64::MAX
    } else if x < i64::MIN as i128 {
        i64::MIN
    } else {
        x as i64
    }
}

/// Saturating fixed-point addition.
pub fn fx_add(a: i64, b: i64) -> (r: i64)
    ensures
        r as int == fadd(a as int, b as int),
{
    let s: i128 = (a as i128) + (b as i128);
    clip_i128(s)
}

/// Saturating fixed-point subtraction.
pub fn fx_sub(a: i64, b: i64) -> (r: i64)
    ensures
        r as int == fsub(a as int, b as int),
{
    let s: i128 = (a as i128) - (b as i128);
    clip_i128(s)
}

/// Saturating fixed-point multiplication.
pub fn fx_mul(a: i64, b: i64) -> (r: i64)
    ensures
        r as int == fmul(a as int, b as int),
{
    proof {
        lemma_i64_product_fits(a as int, b as int);
    }
    let p: i128 = (a as i128) * (b as i128);
    let q: i128 = p / (ONE as i128);
    clip_i128(q)
}

/// Saturating fixed-point division.
pub fn fx_div(a: i64, b: i64) -> (r: i64)
    requires
        b != 0,
    ensures
        r as int == fdiv(a as int, b as int),
{
    proof {
        lemma_i64_product_fits(a as int, ONE as int);
        if a >= 0 {
            lemma_div_magnitude(a as int * ONE as int, b as int);
        } else {
            lemma_div_magnitude(-(a as int * ONE as int), b as int);
        }
    }
    let p: i128 = (a as i128) * (ONE as i128);
    let q: i128 = p / (b as i128);
    clip_i128(q)
}

/// Integer square root by bisection; the bound keeps `mid * mid` inside
/// `u128` (the argument stays below 2^84, the initial bracket at 2^42).
pub fn isqrt_u128(n: u128) -> (r: u128)
    requires
        (n as int) < 19342813113834066795298816,
    ensures
        is_sqrt(n as int, r as int),
{
    let mut lo: u128 = 0;
    let mut hi: u128 = 4398046511104;
    while lo + 1 < hi
        invariant
            lo < hi <= 4398046511104,
            lo * lo <= n as int,
            (n as int) < hi * hi,
        decreases hi - lo,
    {
        let mid: u128 = lo + (hi - lo) / 2;
        proof {
            assert(mid * mid <= 19342813113834066795298816) by (nonlinear_arith)
                requires
                    mid <= 4398046511104,
            ;
        }
        if mid * mid <= n {
            lo = mid;
        } else {
            hi = mid;
        }
    }
    lo
}

/// Fixed-point square root of a non-negative scalar, rounded down.
pub fn fx_sqrt(x: i64) -> (r: i64)
    requires
        x >= 0,
    ensures
        r as int == fsqrt(x as int),
        is_sqrt(x as int * ONE as int, r as int),
{
    proof {
        assert((x as int) * (ONE as int) < 19342813113834066795298816)
            by (nonlinear_arith)
            requires
                0 <= x <= i64::MAX,
        ;
    }
    let n: u128 = (x as u128) * (ONE as u128);
    let s = isqrt_u128(n);
    proof {
        lemma_sqrt_floor_unique(n as int, s as int);
        assert(s <= 4398046511104) by (nonlinear_arith)
            requires
                s as int * s as int <= n as int,
                (n as int) < 19342813113834066795298816,
                s >= 0,
        ;
    }
    s as i64
}

/// The smaller of two scalars.
pub fn fx_min(a: i64, b: i64) -> (r: i64)
    ensures
        r == if a <= b { a } else { b },
{
    if a <= b {
        a
    } else {
        b
    }
}

/// The larger of two scalars.
pub fn fx_max(a: i64, b: i64) -> (r: i64)
    ensures
        r == if a >= b { a } else { b },
{
    if a >= b {
        a
    } else {
        b
    }
}

/// Multiplying by 1.0 changes nothing.
pub proof fn lemma_fmul_one(c: int)
    requires
        i64::MIN <= c <= i64::MAX,
    ensures
        fmul(ONE as int, c) == c,
{
    if c >= 0 {
        vstd::arithmetic::div_mod::lemma_div_multiples_vanish(c, ONE as int);
    } else {
        vstd::arithmetic::div_mod::lemma_div_multiples_vanish(-c, ONE as int);
        assert(-((ONE as int) * c) == (ONE as int) * (-c));
    }
}

/// Multiplying by -1.0 negates exactly (off the lower saturation edge).
pub proof fn lemma_fmul_neg_one(c: int)
    requires
        i64::MIN < c <= i64::MAX,
    ensures
        fmul(-(ONE as int), c) == -c,
{
    if c >= 0 {
        vstd::arithmetic::div_mod::lemma_div_multiples_vanish(c, ONE as int);
        assert(-((-(ONE as int)) * c) == (ONE as int) * c);
    } else {
        vstd::arithmetic::div_mod::lemma_div_multiples_vanish(-c, ONE as int);
        assert((-(ONE as int)) * c == (ONE as int) * (-c));
    }
}

/// A product of factors in [0, 1] stays in [0, 1] and under either factor.
pub proof fn lemma_fmul_unit_range(a: int, b: int)
    requires
        0 <= a <= ONE,
        0 <= b,
        b <= i64::MAX,
    ensures
        0 <= fmul(a, b),
        fmul(a, b) <= b,
{
    vstd::arithmetic::mul::lemma_mul_nonnegative(a, b);
    assert(a * b <= (ONE as int) * b) by (nonlinear_arith)
        requires
            0 <= a <= ONE as int,
            0 <= b,
    ;
    vstd::arithmetic::div_mod::lemma_div_is_ordered(a * b, (ONE as int) * b, ONE as int);
    vstd::arithmetic::div_mod::lemma_div_multiples_vanish(b, ONE as int);
    vstd::arithmetic::div_mod::lemma_div_pos_is_pos(a * b, ONE as int);
}

/// Every non-negative integer has a square root rounded down.
pub proof fn lemma_sqrt_exists(n: int)
    requires
        n >= 0,
    ensures
        is_sqrt(n, sqrt_floor(n)),
    decreases n,
{
    if n == 0 {
        assert(is_sqrt(0, 0));
    } else {
        lemma_sqrt_exists(n - 1);
        let r = sqrt_floor(n - 1);
        if n < (r + 1) * (r + 1) {
            assert(is_sqrt(n, r));
        } else {
            assert(n == (r + 1) * (r + 1));
            assert((r + 1) * (r + 1) < (r + 2) * (r + 2)) by (nonlinear_arith)
                requires
                    r >= 0,
            ;
            assert(is_sqrt(n, r + 1));
        }
    }
}

/// Truncated division brackets the magnitude of the dividend between
/// consecutive multiples of a positive divisor.
pub proof fn lemma_tdiv_bounds(x: int, d: int)
    requires
        d > 0,
    ensures
        0 <= vstd::math::abs(tdiv(x, d)),
        vstd::math::abs(tdiv(x, d)) * d <= vstd::math::abs(x),
        vstd::math::abs(x) < (vstd::math::abs(tdiv(x, d)) + 1) * d,
{
    let y = vstd::math::abs(x) as int;
    vstd::arithmetic::div_mod::lemma_fundamental_div_mod(y, d);
    vstd::arithmetic::div_mod::lemma_mod_bound(y, d);
    vstd::arithmetic::div_mod::lemma_div_pos_is_pos(y, d);
    let q = y / d;
    assert(y == d * q + y % d);
    vstd::arithmetic::mul::lemma_mul_is_commutative(d, q);
    vstd::arithmetic::mul::lemma_mul_is_distributive_add_other_way(d, q, 1);
    assert(q * d <= y < (q + 1) * d);
    if x >= 0 {
        assert(vstd::math::abs(tdiv(x, d)) == q);
    } else {
        assert(tdiv(x, d) == -((-x) / d));
        assert(vstd::math::abs(tdiv(x, d)) == q);
    }
}

/// Squaring preserves the bracketing of non-negative quantities.
pub proof fn lemma_square_order(q: int, x: int, d: int)
    by (nonlinear_arith)
    requires
        0 <= q,
        0 <= x,
        0 < d,
        q * d <= x,
        x < (q + 1) * d,
    ensures
        (q * q) * (d * d) <= x * x,
        x * x < ((q + 1) * (q + 1)) * (d * d),
{
}

/// A square root of an argument at most 1 is itself at most 1.
pub proof fn lemma_fsqrt_le_one(x: int, r: int)
    requires
        0 <= x <= ONE,
        is_sqrt(x * (ONE as int), r),
    ensures
        0 <= r <= ONE,
{
    assert(r <= ONE) by (nonlinear_arith)
        requires
            r * r <= x * (ONE as int),
            0 <= x <= ONE,
            r >= 0,
    ;
}

} // verus!
