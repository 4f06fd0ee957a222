//! Fixed-point arithmetic: the scale, the constants of the renderer and the
//! rounding operations that every other module builds on.
//!
//! A fixed-point number is an `i64` that counts ten-thousandths. Division
//! rounds toward negative infinity, so that the fractional part of a number
//! is never negative.

use vstd::prelude::*;
use vstd::arithmetic::div_mod::{
    lemma_div_is_ordered_by_denominator, lemma_fundamental_div_mod,
    lemma_fundamental_div_mod_converse,
};

verus! {

/// The fixed-point representation of the number one.
pub const ONE: i64 = 10_000;

/// Half a turn, in fixed-point radians.
pub const PI: i64 = 31_416;

/// A quarter turn: exactly half of [`PI`].
pub const HALF_PI: i64 = 15_708;

/// A full turn: exactly twice [`PI`].
pub const TWO_PI: i64 = 62_832;

/// The smallest distance that is ever reported or divided by (0.0005).
pub const EPSILON: i64 = 5;

/// The distance reported for a ray that strikes nothing (10 000 world units).
pub const MAX_DISTANCE: i64 = 100_000_000;

/// The distance from the eye to the projection plane (70.0). A tuning value
/// for the perceived depth of the scene; it is not derived from the field of
/// view.
pub const PROJECTION_DISTANCE: i64 = 700_000;

/// The largest magnitude of a world coordinate that the renderer accepts
/// (100 000 world units). The limit belongs to the fixed-point model: it
/// keeps every sum and product of coordinates within the range of the
/// machine integers.
pub const MAX_COORD: i64 = 1_000_000_000;

/// The largest width or height of a pixel surface or texture. The limit
/// keeps the number of pixels within the range of `usize` on every machine.
pub const MAX_DIMENSION: usize = 16_384;

/// `v` limited to the interval from `lo` to `hi`.
pub open spec fn clamp_spec(v: int, lo: int, hi: int) -> int {
    if v < lo {
        lo
    } else if v > hi {
        hi
    } else {
        v
    }
}

/// The fixed-point product of two fixed-point numbers, rounded down.
pub open spec fn mul_fixed_spec(a: int, b: int) -> int {
    (a * b) / (ONE as int)
}

/// The magnitude of `v`.
pub open spec fn abs_spec(v: int) -> int {
    if v < 0 {
        -v
    } else {
        v
    }
}

/// Whether `r` is the floor of the square root of `n`: `r` is not negative,
/// and `r * r <= n < (r + 1) * (r + 1)`.
pub open spec fn is_sqrt_of(r: int, n: int) -> bool {
    0 <= r && r * r <= n && n < (r + 1) * (r + 1)
}

/// The floor of the square root of `n`, for `n` not negative.
pub open spec fn sqrt_spec(n: int) -> int {
    choose|r: int| is_sqrt_of(r, n)
}

/// The floor of the square root is unique: whatever meets its definition is
/// [`sqrt_spec`].
pub proof fn lemma_sqrt_unique(r: int, n: int)
    requires
        is_sqrt_of(r, n),
    ensures
        sqrt_spec(n) == r,
{
    let s = sqrt_spec(n);
    assert(is_sqrt_of(s, n));
    assert(s < r + 1) by (nonlinear_arith)
        requires
            0 <= s,
            0 <= r,
            s * s <= n,
            n < (r + 1) * (r + 1),
    ;
    assert(r < s + 1) by (nonlinear_arith)
        requires
            0 <= s,
            0 <= r,
            r * r <= n,
            n < (s + 1) * (s + 1),
    ;
}

/// Limits `v` to the interval from `lo` to `hi`.
pub fn clamp(v: i64, lo: i64, hi: i64) -> (r: i64)
    requires
        lo <= hi,
    ensures
        r == clamp_spec(v as int, lo as int, hi as int),
        lo <= r <= hi,
{
    if v < lo {
        lo
    } else if v > hi {
        hi
    } else {
        v
    }
}

/// The index `v` as a `usize`: an index that is negative or beyond the range
/// of `usize` becomes `usize::MAX`, the index that no sequence has.
pub open spec fn index_spec(v: int) -> int {
    if v < 0 || v > usize::MAX {
        usize::MAX as int
    } else {
        v
    }
}

/// The index `v` as a `usize`; `usize::MAX` for an index that is negative or
/// too large.
pub fn to_index(v: i128) -> (r: usize)
    ensures
        r == index_spec(v as int),
{
    if v < 0 {
        usize::MAX
    } else if v > usize::MAX as i128 {
        usize::MAX
    } else {
        v as usize
    }
}

/// The quotient of `n` by a positive `d`, rounded toward negative infinity.
pub fn div_floor(n: i128, d: i128) -> (q: i128)
    requires
        d > 0,
    ensures
        q == (n as int) / (d as int),
        n >= 0 ==> 0 <= q <= n,
        n < 0 ==> n <= q < 0,
{
    if n >= 0 {
        assert(0 <= (n as int) / (d as int) <= n) by (nonlinear_arith)
            requires
                n >= 0,
                d > 0,
        ;
        n / d
    } else {
        let m: i128 = -(n + 1);
        let q0: i128 = m / d;
        proof {
            // n = -(m + 1) and m = q0 * d + r0 with 0 <= r0 < d, hence
            // n = (-q0 - 1) * d + (d - 1 - r0) with 0 <= d - 1 - r0 < d.
            let r0 = (m as int) % (d as int);
            lemma_fundamental_div_mod(m as int, d as int);
            assert((d as int) * (q0 as int) == (q0 as int) * (d as int)) by (nonlinear_arith);
            assert((-(q0 as int) - 1) * (d as int) == -((q0 as int) * (d as int)) - (d as int))
                by (nonlinear_arith);
            lemma_fundamental_div_mod_converse(
                n as int,
                d as int,
                -(q0 as int) - 1,
                (d as int) - 1 - r0,
            );
            assert(0 <= (m as int) / (d as int) <= m) by (nonlinear_arith)
                requires
                    m >= 0,
                    d > 0,
            ;
        }
        -q0 - 1
    }
}

/// The remainder of `n` by a positive `d`, never negative.
pub fn mod_floor(n: i128, d: i128) -> (r: i128)
    requires
        d > 0,
    ensures
        r == (n as int) % (d as int),
        0 <= r < d,
{
    if n >= 0 {
        n % d
    } else {
        let m: i128 = -(n + 1);
        let r0: i128 = m % d;
        proof {
            let q0 = (m as int) / (d as int);
            lemma_fundamental_div_mod(m as int, d as int);
            assert((d as int) * q0 == q0 * (d as int)) by (nonlinear_arith);
            assert((-q0 - 1) * (d as int) == -(q0 * (d as int)) - (d as int)) by (nonlinear_arith);
            lemma_fundamental_div_mod_converse(
                n as int,
                d as int,
                -q0 - 1,
                (d as int) - 1 - (r0 as int),
            );
        }
        d - 1 - r0
    }
}

/// A product of two bounded factors is bounded by the product of the bounds.
pub proof fn lemma_product_bound(a: int, b: int, ma: int, mb: int)
    by (nonlinear_arith)
    requires
        -ma <= a <= ma,
        -mb <= b <= mb,
    ensures
        -(ma * mb) <= a * b <= ma * mb,
{
}

/// A quotient of a number that is not negative by a positive divisor is not
/// negative and not greater than the number.
pub proof fn lemma_div_bound(n: int, d: int)
    by (nonlinear_arith)
    requires
        0 <= n,
        1 <= d,
    ensures
        0 <= n / d <= n,
{
}

/// Dividing by a greater divisor gives no greater quotient.
pub proof fn lemma_div_antitone(n: int, d1: int, d2: int)
    requires
        0 <= n,
        1 <= d1 <= d2,
    ensures
        n / d2 <= n / d1,
{
    lemma_div_is_ordered_by_denominator(n, d1, d2);
}

/// A product of two bounded factors that are not negative is bounded by the
/// product of the bounds, and is not negative.
pub proof fn lemma_product_range(a: int, b: int, ma: int, mb: int)
    by (nonlinear_arith)
    requires
        0 <= a <= ma,
        0 <= b <= mb,
    ensures
        0 <= a * b <= ma * mb,
{
}

/// Multiplying by a factor of magnitude at most one does not increase the
/// magnitude: for `|b| <= ONE`, `|a * b / ONE| <= |a|`.
pub proof fn lemma_mul_fixed_unit(a: int, b: int)
    requires
        -(ONE as int) <= b <= ONE as int,
    ensures
        -abs_spec(a) <= mul_fixed_spec(a, b) <= abs_spec(a),
{
    let m = abs_spec(a);
    lemma_product_bound(a, b, m, ONE as int);
    assert(m * (ONE as int) == m * 10_000);
}

/// The fixed-point product of `a` and `b`, rounded toward negative infinity.
pub fn mul_fixed(a: i64, b: i64) -> (r: i64)
    requires
        i64::MIN <= mul_fixed_spec(a as int, b as int) <= i64::MAX,
    ensures
        r == mul_fixed_spec(a as int, b as int),
{
    proof {
        lemma_product_bound(a as int, b as int, 0x8000_0000_0000_0000, 0x8000_0000_0000_0000);
    }
    let p: i128 = (a as i128) * (b as i128);
    let q: i128 = div_floor(p, ONE as i128);
    q as i64
}

/// The floor of the square root of `n`.
pub fn isqrt(n: u64) -> (r: u64)
    ensures
        is_sqrt_of(r as int, n as int),
        r == sqrt_spec(n as int),
        r < 0x1_0000_0000,
{
    let mut lo: u64 = 0;
    let mut hi: u64 = 0x1_0000_0000;
    assert(0x1_0000_0000int * 0x1_0000_0000int > u64::MAX);
    while hi - lo > 1
        invariant
            0 <= lo < hi <= 0x1_0000_0000,
            lo * lo <= n,
            n < hi * hi,
        decreases hi - lo,
    {
        let mid: u64 = lo + (hi - lo) / 2;
        assert(mid * mid <= 0xffff_ffffint * 0xffff_ffffint) by (nonlinear_arith)
            requires
                0 <= mid <= 0xffff_ffff,
        ;
        if mid * mid <= n {
            lo = mid;
        } else {
            hi = mid;
        }
    }
    proof {
        lemma_sqrt_unique(lo as int, n as int);
    }
    lo
}

} // verus!
