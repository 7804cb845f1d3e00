//! Q16.16 fixed-point scalars: an `i32` whose value is the raw integer divided by `ONE`.
//!
//! Results are rounded toward zero unless a function says otherwise, and clamped to
//! `[-FX_MAX, FX_MAX]`, a range that is closed under negation.

use vstd::prelude::*;

verus! {

/// A fixed-point scalar.
pub type Scalar = i32;

/// The raw value of `1.0`.
pub const ONE: i32 = 65536;

/// The largest magnitude a scalar result takes.
pub const FX_MAX: i32 = 0x7fff_ffff;

/// The bound under which two wide values may be multiplied.
pub const WIDE_FACTOR: i128 = 0x4000_0000_0000_0000;

/// The bound under which a wide value may be multiplied by `ONE`.
pub const WIDE_UNSCALED: i128 = 0x1000_0000_0000_0000_0000_0000_0000;

/// The bound under which a wide value may be divided.
pub const WIDE_LIMIT: i128 = 0x1000_0000_0000_0000_0000_0000_0000_0000;

pub open spec fn abs(x: int) -> int {
    if x < 0 {
        -x
    } else {
        x
    }
}

pub open spec fn min(a: int, b: int) -> int {
    if a <= b {
        a
    } else {
        b
    }
}

pub open spec fn max(a: int, b: int) -> int {
    if a >= b {
        a
    } else {
        b
    }
}

/// `x` clamped to the range of scalar results.
pub open spec fn sat(x: int) -> int {
    if x > FX_MAX {
        FX_MAX as int
    } else if x < -FX_MAX {
        -FX_MAX
    } else {
        x
    }
}

/// The quotient of `a` by `b` rounded toward zero; zero where `b` is zero.
pub open spec fn tdiv(a: int, b: int) -> int {
    if b == 0 {
        0
    } else if (a < 0) != (b < 0) {
        -(abs(a) / abs(b))
    } else {
        abs(a) / abs(b)
    }
}

/// The quotient of `a` by `b` rounded away from zero; zero where `b` is zero.
pub open spec fn adiv(a: int, b: int) -> int {
    if b == 0 {
        0
    } else if (a < 0) != (b < 0) {
        -((abs(a) + abs(b) - 1) / abs(b))
    } else {
        (abs(a) + abs(b) - 1) / abs(b)
    }
}

/// Whether `r` is the integer square root of `n`, rounded down.
pub open spec fn is_floor_sqrt(n: int, r: int) -> bool {
    0 <= r && r * r <= n < (r + 1) * (r + 1)
}

/// The integer square root of `n`, rounded down; zero for a negative `n`.
pub open spec fn isqrt(n: int) -> int {
    if n < 0 {
        0
    } else {
        choose|r: int| is_floor_sqrt(n, r)
    }
}

/// The fixed-point product.
pub open spec fn fx_mul_spec(a: int, b: int) -> int {
    sat(tdiv(a * b, ONE as int))
}

/// The fixed-point quotient.
pub open spec fn fx_div_spec(a: int, b: int) -> int {
    sat(tdiv(a * ONE, b))
}

/// The fixed-point square root; zero for a negative argument.
pub open spec fn fx_sqrt_spec(a: int) -> int {
    sat(isqrt(a * ONE))
}

pub proof fn lemma_floor_sqrt_unique(n: int, r1: int, r2: int)
    requires
        is_floor_sqrt(n, r1),
        is_floor_sqrt(n, r2),
    ensures
        r1 == r2,
{
    if r1 < r2 {
        assert((r1 + 1) * (r1 + 1) <= r2 * r2) by (nonlinear_arith)
            requires
                0 <= r1,
                r1 + 1 <= r2,
        ;
    } else if r2 < r1 {
        assert((r2 + 1) * (r2 + 1) <= r1 * r1) by (nonlinear_arith)
            requires
                0 <= r2,
                r2 + 1 <= r1,
        ;
    }
}

/// A root found by any means is the root.
pub proof fn lemma_isqrt_is(n: int, r: int)
    requires
        is_floor_sqrt(n, r),
    ensures
        isqrt(n) == r,
{
    assert(r * r >= 0) by (nonlinear_arith);
    let c = choose|c: int| is_floor_sqrt(n, c);
    lemma_floor_sqrt_unique(n, r, c);
}

/// Every number that is not negative has a root.
pub proof fn lemma_isqrt_exists(n: int)
    requires
        n >= 0,
    ensures
        is_floor_sqrt(n, isqrt(n)),
    decreases n,
{
    if n == 0 {
        assert(is_floor_sqrt(0, 0));
    } else {
        lemma_isqrt_exists(n - 1);
        let r = isqrt(n - 1);
        if (r + 1) * (r + 1) <= n {
            assert(n < (r + 2) * (r + 2)) by (nonlinear_arith)
                requires
                    n - 1 < (r + 1) * (r + 1),
                    r >= 0,
            ;
            assert(is_floor_sqrt(n, r + 1));
        } else {
            assert(is_floor_sqrt(n, r));
        }
    }
}

pub proof fn lemma_mul_bound(a: int, b: int, ba: int, bb: int)
    by (nonlinear_arith)
    requires
        -ba <= a <= ba,
        -bb <= b <= bb,
    ensures
        -(ba * bb) <= a * b <= ba * bb,
{
}

/// A quotient is no larger in magnitude than its dividend.
pub proof fn lemma_tdiv_bound(a: int, b: int)
    ensures
        abs(tdiv(a, b)) <= abs(a),
        a >= 0 && b > 0 ==> tdiv(a, b) == a / b,
        tdiv(-a, b) == -tdiv(a, b),
        tdiv(a, -b) == -tdiv(a, b),
{
    if b != 0 {
        let x = abs(a);
        let y = abs(b);
        assert(0 <= x / y <= x) by (nonlinear_arith)
            requires
                x >= 0,
                y >= 1,
        ;
    }
}

/// A value within `bound * ONE` is within `bound` once it is scaled back.
pub proof fn lemma_tdiv_scale_bound(a: int, bound: int)
    requires
        -(bound * ONE) <= a <= bound * ONE,
        bound >= 0,
    ensures
        -bound <= tdiv(a, ONE as int) <= bound,
{
    let x = abs(a);
    assert(x / 65536 <= bound) by (nonlinear_arith)
        requires
            0 <= x <= bound * 65536,
    ;
}

/// A quotient rounded away from zero is no larger in magnitude than its dividend.
pub proof fn lemma_adiv_bound(a: int, b: int)
    ensures
        abs(adiv(a, b)) <= abs(a),
        adiv(-a, b) == -adiv(a, b),
        a == 0 ==> adiv(a, b) == 0,
{
    if b != 0 {
        let x = abs(a);
        let y = abs(b);
        assert(0 <= (x + y - 1) / y <= x && (x == 0 ==> (x + y - 1) / y == 0))
            by (nonlinear_arith)
            requires
                x >= 0,
                y >= 1,
        ;
    }
}

/// Clamps a wide value to the scalar range.
pub fn fx_clamp(x: i128) -> (r: i32)
    ensures
        r == sat(x as int),
{
    if x > FX_MAX as i128 {
        FX_MAX
    } else if x < -(FX_MAX as i128) {
        -FX_MAX
    } else {
        x as i32
    }
}

/// The product of two wide values.
pub fn wide_mul(a: i128, b: i128) -> (r: i128)
    requires
        -WIDE_FACTOR <= a <= WIDE_FACTOR,
        -WIDE_FACTOR <= b <= WIDE_FACTOR,
    ensures
        r == a * b,
        -WIDE_LIMIT <= r <= WIDE_LIMIT,
{
    proof {
        lemma_mul_bound(a as int, b as int, WIDE_FACTOR as int, WIDE_FACTOR as int);
    }
    a * b
}

/// A wide value times `ONE`.
pub fn wide_scale(a: i128) -> (r: i128)
    requires
        -WIDE_UNSCALED <= a <= WIDE_UNSCALED,
    ensures
        r == a * ONE,
        -WIDE_LIMIT <= r <= WIDE_LIMIT,
{
    a * 65536
}

/// The quotient of two wide values, rounded toward zero.
pub fn wide_div(a: i128, b: i128) -> (r: i128)
    requires
        b != 0,
        -WIDE_LIMIT <= a <= WIDE_LIMIT,
        -WIDE_LIMIT <= b <= WIDE_LIMIT,
    ensures
        r == tdiv(a as int, b as int),
        abs(r as int) <= abs(a as int),
{
    proof {
        lemma_tdiv_bound(a as int, b as int);
    }
    let x: i128 = if a < 0 { -a } else { a };
    let y: i128 = if b < 0 { -b } else { b };
    let q: i128 = x / y;
    if (a < 0) != (b < 0) {
        -q
    } else {
        q
    }
}

/// The quotient of two wide values, rounded away from zero.
pub fn wide_div_away(a: i128, b: i128) -> (r: i128)
    requires
        b != 0,
        -WIDE_LIMIT <= a <= WIDE_LIMIT,
        -WIDE_LIMIT <= b <= WIDE_LIMIT,
    ensures
        r == adiv(a as int, b as int),
        abs(r as int) <= abs(a as int),
{
    proof {
        lemma_adiv_bound(a as int, b as int);
    }
    let x: i128 = if a < 0 { -a } else { a };
    let y: i128 = if b < 0 { -b } else { b };
    let q: i128 = (x + y - 1) / y;
    if (a < 0) != (b < 0) {
        -q
    } else {
        q
    }
}

/// The integer square root, rounded down.
pub fn wide_sqrt(n: u128) -> (r: u128)
    ensures
        is_floor_sqrt(n as int, r as int),
        r == isqrt(n as int),
        r < 0x1_0000_0000_0000_0000,
{
    let mut lo: u128 = 0;
    let mut hi: u128 = 0x1_0000_0000_0000_0000;
    assert(0x1_0000_0000_0000_0000int * 0x1_0000_0000_0000_0000int > n) by (nonlinear_arith)
        requires
            n < 0x1_0000_0000_0000_0000_0000_0000_0000_0000,
    ;
    while hi - lo > 1
        invariant
            lo < hi <= 0x1_0000_0000_0000_0000,
            lo * lo <= n < hi * hi,
        decreases hi - lo,
    {
        let mid: u128 = lo + (hi - lo) / 2;
        assert(mid * mid < 0x1_0000_0000_0000_0000_0000_0000_0000_0000) by (nonlinear_arith)
            requires
                0 <= mid < 0x1_0000_0000_0000_0000,
        ;
        if mid * mid <= n {
            lo = mid;
        } else {
            hi = mid;
        }
    }
    proof {
        lemma_isqrt_is(n as int, lo as int);
    }
    lo
}

pub fn fx_add(a: Scalar, b: Scalar) -> (r: Scalar)
    ensures
        r == sat(a + b),
{
    fx_clamp(a as i128 + b as i128)
}

pub fn fx_sub(a: Scalar, b: Scalar) -> (r: Scalar)
    ensures
        r == sat(a - b),
{
    fx_clamp(a as i128 - b as i128)
}

pub fn fx_neg(a: Scalar) -> (r: Scalar)
    ensures
        r == sat(-a),
{
    fx_clamp(-(a as i128))
}

pub fn fx_abs(a: Scalar) -> (r: Scalar)
    ensures
        r == sat(abs(a as int)),
{
    if a < 0 {
        fx_clamp(-(a as i128))
    } else {
        a
    }
}

pub fn fx_mul(a: Scalar, b: Scalar) -> (r: Scalar)
    ensures
        r == fx_mul_spec(a as int, b as int),
{
    fx_clamp(wide_div(wide_mul(a as i128, b as i128), ONE as i128))
}

pub fn fx_div(a: Scalar, b: Scalar) -> (r: Scalar)
    requires
        b != 0,
    ensures
        r == fx_div_spec(a as int, b as int),
{
    fx_clamp(wide_div(wide_scale(a as i128), b as i128))
}

pub fn fx_sqrt(a: Scalar) -> (r: Scalar)
    ensures
        r == fx_sqrt_spec(a as int),
{
    if a <= 0 {
        proof {
            if a == 0 {
                lemma_isqrt_is(0, 0);
            }
        }
        0
    } else {
        fx_clamp(wide_sqrt(wide_scale(a as i128) as u128) as i128)
    }
}

} // verus!
