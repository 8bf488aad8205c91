//! Fixed-point scalar and 2-d vector arithmetic.
//!
//! Scalars are `i64` values holding `SCALE`-ths of a world unit.  Products
//! and quotients are computed in `i128` and truncated toward zero, exactly as
//! the spec functions `tdiv` and `fmul` describe; results are clamped back
//! into the representable range by `sat`.

use vstd::arithmetic::div_mod::{
    lemma_div_decreases, lemma_div_is_ordered, lemma_div_nonincreasing,
    lemma_div_pos_is_pos, lemma_fundamental_div_mod, lemma_remainder_lower,
    lemma_remainder_upper,
};
use vstd::prelude::*;

verus! {

/// Raw units per world unit.
pub const SCALE: i64 = 1_000_000;

/// Largest representable position magnitude, in raw units.
pub const POS_LIMIT: i64 = 281_474_976_710_656;

/// Largest representable velocity magnitude, in raw units per second.
pub const VEL_LIMIT: i64 = 1_099_511_627_776;

/// Truncating (round-toward-zero) division, the semantics of machine
/// division on signed integers.  Meaningful for `b > 0`.
pub open spec fn tdiv(a: int, b: int) -> int {
    if a >= 0 {
        a / b
    } else {
        -((-a) / b)
    }
}

/// Fixed-point product: `a` and `b` are in raw units, the result is too.
pub open spec fn fmul(a: int, b: int) -> int {
    tdiv(a * b, SCALE as int)
}

/// Clamp `x` into `[-m, m]`.
pub open spec fn sat(x: int, m: int) -> int {
    if x > m {
        m
    } else if x < -m {
        -m
    } else {
        x
    }
}

/// Floor of the square root: the unique `r >= 0` with `r * r <= n < (r + 1) * (r + 1)`.
pub open spec fn sqrt_f(n: int) -> int {
    choose|r: int| 0 <= r && r * r <= n && #[trigger] ((r + 1) * (r + 1)) > n
}

pub proof fn lemma_sqrt_exists(n: int)
    requires
        n >= 0,
    ensures
        exists|r: int| 0 <= r && r * r <= n && #[trigger] ((r + 1) * (r + 1)) > n,
    decreases n,
{
    if n == 0 {
        let z: int = 0;
        assert((z + 1) * (z + 1) > n) by (nonlinear_arith)
            requires n == 0 && z == 0;
        assert(0 <= z && z * z <= n && (z + 1) * (z + 1) > n);
    } else {
        lemma_sqrt_exists(n - 1);
        let r = choose|r: int| 0 <= r && r * r <= n - 1 && #[trigger] ((r + 1) * (r + 1)) > n - 1;
        if (r + 1) * (r + 1) > n {
            assert(0 <= r && r * r <= n && (r + 1) * (r + 1) > n);
        } else {
            // (r + 1) * (r + 1) == n
            let s = r + 1;
            assert(s * s <= n);
            assert((s + 1) * (s + 1) > n) by (nonlinear_arith)
                requires s * s >= n && s >= 0;
            assert(0 <= s && s * s <= n && (s + 1) * (s + 1) > n);
        }
    }
}

pub proof fn lemma_sqrt_props(n: int)
    requires
        n >= 0,
    ensures
        0 <= sqrt_f(n),
        sqrt_f(n) * sqrt_f(n) <= n,
        n < (sqrt_f(n) + 1) * (sqrt_f(n) + 1),
{
    lemma_sqrt_exists(n);
}

/// The floor square root is unique.
/// Truncating division stays within one divisor of the real quotient and
/// never grows the magnitude.
pub proof fn lemma_tdiv_range(a: int, b: int)
    requires
        b >= 1,
    ensures
        a >= 0 ==> 0 <= tdiv(a, b) <= a && b * tdiv(a, b) <= a < b * tdiv(a, b) + b,
        a <= 0 ==> a <= tdiv(a, b) <= 0 && b * tdiv(a, b) - b < a <= b * tdiv(a, b),
{
    if a >= 0 {
        lemma_div_pos_is_pos(a, b);
        lemma_div_nonincreasing(a, b);
        lemma_fundamental_div_mod(a, b);
        lemma_remainder_lower(a, b);
        lemma_remainder_upper(a, b);
    } else {
        let m = -a;
        let q = m / b;
        lemma_div_pos_is_pos(m, b);
        lemma_div_nonincreasing(m, b);
        lemma_fundamental_div_mod(m, b);
        lemma_remainder_lower(m, b);
        lemma_remainder_upper(m, b);
        assert(tdiv(a, b) == -q);
        assert(b * (-q) == -(b * q)) by (nonlinear_arith);
    }
}

/// Truncating division is monotone in the dividend.
pub proof fn lemma_tdiv_mono(a1: int, a2: int, b: int)
    requires
        b >= 1,
        a1 <= a2,
    ensures
        tdiv(a1, b) <= tdiv(a2, b),
{
    if a1 >= 0 {
        lemma_div_is_ordered(a1, a2, b);
    } else if a2 <= 0 {
        lemma_div_is_ordered(-a2, -a1, b);
    } else {
        lemma_tdiv_range(a1, b);
        lemma_tdiv_range(a2, b);
    }
}

/// Euclidean division recovers the factor of an exact nonnegative multiple.
proof fn lemma_div_exact_nonneg(c: int, b: int)
    requires
        b >= 1,
        c >= 0,
    ensures
        (c * b) / b == c,
{
    assert(c * b >= 0) by (nonlinear_arith)
        requires c >= 0 && b >= 1;
    lemma_fundamental_div_mod(c * b, b);
    lemma_remainder_lower(c * b, b);
    lemma_remainder_upper(c * b, b);
    let q = (c * b) / b;
    let r = (c * b) % b;
    assert((c - q) * b == r) by (nonlinear_arith)
        requires c * b == b * q + r;
    assert(c == q) by (nonlinear_arith)
        requires (c - q) * b == r && 0 <= r < b && b >= 1;
}

/// If the dividend is at most `c` divisors in magnitude, the quotient is at
/// most `c` in magnitude.
pub proof fn lemma_tdiv_factor(a: int, b: int, c: int)
    requires
        b >= 1,
        0 <= c,
        -(c * b) <= a <= c * b,
    ensures
        -c <= tdiv(a, b) <= c,
{
    lemma_tdiv_range(a, b);
    lemma_div_exact_nonneg(c, b);
    if a >= 0 {
        lemma_div_is_ordered(a, c * b, b);
    } else {
        lemma_div_is_ordered(-a, c * b, b);
    }
}

/// Dividing an exact multiple recovers the factor.
pub proof fn lemma_tdiv_exact(a: int, b: int)
    requires
        b >= 1,
    ensures
        tdiv(a * b, b) == a,
{
    if a >= 0 {
        lemma_div_exact_nonneg(a, b);
    } else {
        lemma_div_exact_nonneg(-a, b);
        assert(-(a * b) == (-a) * b) by (nonlinear_arith);
    }
}

pub proof fn lemma_sqrt_unique(n: int, r: int)
    requires
        n >= 0,
        0 <= r,
        r * r <= n,
        n < (r + 1) * (r + 1),
    ensures
        r == sqrt_f(n),
{
    lemma_sqrt_props(n);
    let s = sqrt_f(n);
    if r < s {
        assert((r + 1) * (r + 1) <= s * s) by (nonlinear_arith)
            requires 0 <= r && r < s;
        assert(false);
    }
    if s < r {
        assert((s + 1) * (s + 1) <= r * r) by (nonlinear_arith)
            requires 0 <= s && s < r;
        assert(false);
    }
}

/// Squares are never negative.
pub proof fn lemma_square_nonneg(a: int)
    ensures
        a * a >= 0,
{
    assert(a * a >= 0) by (nonlinear_arith);
}

/// A unit-scale factor times a nonnegative factor stays within `c * s`;
/// the bound `lemma_tdiv_factor` wants for normalized displacements.
pub proof fn lemma_unit_scaled(a: int, s: int, c: int)
    requires
        -s <= a <= s,
        0 <= c,
    ensures
        -(c * s) <= a * c <= c * s,
{
    assert(-(c * s) <= a * c <= c * s) by (nonlinear_arith)
        requires -s <= a <= s && 0 <= c;
}

/// A nonnegative value times a part is at most the value times the whole;
/// the bound `lemma_tdiv_factor` wants for mass-weighted shares.
pub proof fn lemma_weight_share(v: int, part: int, whole: int)
    requires
        0 <= v,
        0 <= part <= whole,
    ensures
        -(v * whole) <= v * part <= v * whole,
{
    assert(-(v * whole) <= v * part <= v * whole) by (nonlinear_arith)
        requires 0 <= v && 0 <= part <= whole;
}

/// A bounded value times a part of a whole stays within the bound times the
/// whole, whatever the value's sign.
pub proof fn lemma_scaled_share(v: int, c: int, part: int, whole: int)
    requires
        -c <= v <= c,
        0 <= part <= whole,
    ensures
        -(c * whole) <= v * part <= c * whole,
{
    assert(-(c * whole) <= v * part <= c * whole) by (nonlinear_arith)
        requires -c <= v <= c && 0 <= part <= whole;
}

/// Magnitude bounds on the factors bound the product.
pub proof fn lemma_mul_abs_bound(a: int, ma: int, b: int, mb: int)
    requires
        -ma <= a <= ma,
        -mb <= b <= mb,
    ensures
        -(ma * mb) <= a * b <= ma * mb,
{
    assert(-(ma * mb) <= a * b <= ma * mb) by (nonlinear_arith)
        requires -ma <= a <= ma && -mb <= b <= mb;
}

/// The square root of a perfect square.
pub proof fn lemma_sqrt_square(x: int)
    requires
        x >= 0,
    ensures
        sqrt_f(x * x) == x,
{
    assert(x * x >= 0 && x * x < (x + 1) * (x + 1)) by (nonlinear_arith)
        requires x >= 0;
    lemma_sqrt_unique(x * x, x);
}

/// The floor square root is monotone.
pub proof fn lemma_sqrt_mono(a: int, b: int)
    requires
        0 <= a <= b,
    ensures
        sqrt_f(a) <= sqrt_f(b),
{
    lemma_sqrt_props(a);
    lemma_sqrt_props(b);
    let sa = sqrt_f(a);
    let sb = sqrt_f(b);
    if sb < sa {
        assert((sb + 1) * (sb + 1) <= sa * sa) by (nonlinear_arith)
            requires 0 <= sb && sb < sa;
        assert(false);
    }
}

/// A strict upper bound on the radicand gives a strict bound on the root.
pub proof fn lemma_sqrt_lt(n: int, m: int)
    requires
        0 <= n,
        0 <= m,
        n < m * m,
    ensures
        sqrt_f(n) < m,
{
    lemma_sqrt_props(n);
    let s = sqrt_f(n);
    if s >= m {
        assert(m * m <= s * s) by (nonlinear_arith)
            requires 0 <= m && m <= s;
        assert(false);
    }
}

/// Each component of a vector is bounded by the length of the vector.
pub proof fn lemma_sqrt_component(x: int, n: int)
    requires
        x * x <= n,
    ensures
        -sqrt_f(n) <= x <= sqrt_f(n),
{
    assert(n >= 0) by (nonlinear_arith)
        requires x * x <= n;
    lemma_sqrt_props(n);
    let s = sqrt_f(n);
    if x > s || x < -s {
        assert((s + 1) * (s + 1) <= x * x) by (nonlinear_arith)
            requires 0 <= s && (x > s || x < -s);
        assert(false);
    }
}

/// Clamp `x` into `[-m, m]`; exactly the spec function `sat`.
pub fn sat_i(x: i128, m: i64) -> (r: i64)
    requires
        0 <= m,
    ensures
        r as int == sat(x as int, m as int),
{
    if x > m as i128 {
        m
    } else if x < -(m as i128) {
        -m
    } else {
        x as i64
    }
}

/// Truncating division on machine words; exactly the spec function `tdiv`.
pub fn tdiv_i(a: i128, b: i128) -> (q: i128)
    requires
        1 <= b,
        i128::MIN < a,
    ensures
        q == tdiv(a as int, b as int),
{
    if a >= 0 {
        let q = (a as u128) / (b as u128);
        proof {
            lemma_div_nonincreasing(a as int, b as int);
            lemma_div_pos_is_pos(a as int, b as int);
        }
        q as i128
    } else {
        let m = (-a) as u128;
        let q = m / (b as u128);
        proof {
            lemma_div_nonincreasing(m as int, b as int);
            lemma_div_pos_is_pos(m as int, b as int);
        }
        -(q as i128)
    }
}

/// Floor square root by bisection; exactly the spec function `sqrt_f`.
pub fn isqrt_i(n: i128) -> (r: i128)
    requires
        0 <= n,
    ensures
        r == sqrt_f(n as int),
        0 <= r,
{
    let nu = n as u128;
    let mut lo: u128 = 0;
    let mut hi: u128 = 0x1_0000_0000_0000_0000;
    proof {
        assert((hi as int) * (hi as int) > nu as int) by (nonlinear_arith)
            requires hi as int == 0x1_0000_0000_0000_0000 && (nu as int) < 0x8000_0000_0000_0000_0000_0000_0000_0000;
    }
    while lo + 1 < hi
        invariant
            lo < hi <= 0x1_0000_0000_0000_0000,
            (lo as int) * (lo as int) <= nu as int,
            (nu as int) < (hi as int) * (hi as int),
            nu as int == n as int,
        decreases hi - lo,
    {
        let mid = lo + (hi - lo) / 2;
        proof {
            lemma_div_pos_is_pos((hi - lo) as int, 2);
            lemma_div_decreases((hi - lo) as int, 2);
            assert((mid as int) * (mid as int) < 0x1_0000_0000_0000_0000_0000_0000_0000_0000) by (nonlinear_arith)
                requires 0 <= mid as int && (mid as int) < 0x1_0000_0000_0000_0000;
        }
        if mid * mid <= nu {
            lo = mid;
        } else {
            hi = mid;
        }
    }
    proof {
        lemma_sqrt_unique(nu as int, lo as int);
        assert(lo as int <= 0x1_0000_0000_0000_0000);
    }
    lo as i128
}

/// A two-dimensional fixed-point vector.
#[derive(Clone, Copy, Debug, PartialEq, Eq)]
pub struct Vec2 {
    pub x: i64,
    pub y: i64,
}

impl Vec2 {
    pub fn new(x: i64, y: i64) -> (v: Vec2)
        ensures
            v.x == x,
            v.y == y,
    {
        Vec2 { x, y }
    }
}

/// Squared Euclidean length of the vector `(x, y)`, in squared raw units.
pub open spec fn lsq(x: int, y: int) -> int {
    x * x + y * y
}

/// Is every component of `v` within `[-m, m]`?
pub open spec fn vec_ok(v: Vec2, m: int) -> bool {
    -m <= v.x <= m && -m <= v.y <= m
}

} // verus!
