//! Sine, cosine and the two-argument arctangent on fixed-point radians.
//!
//! The three functions are polynomial approximations evaluated in integer
//! arithmetic. Each is defined by a specification function that gives its
//! value for every argument; the executable function returns exactly that
//! value.

use vstd::prelude::*;
use vstd::arithmetic::div_mod::lemma_mod_multiples_vanish;
use crate::fixed::{
    clamp, clamp_spec, div_floor, mod_floor, abs_spec, lemma_product_bound, lemma_product_range,
    HALF_PI, ONE, PI, TWO_PI,
};

verus! {

/// The scale of the intermediate values of the polynomials: one
/// hundred-millionth.
pub const FINE: i64 = 100_000_000;

/// The sine of an angle `x` of the first quarter turn, `0 <= x <= HALF_PI`:
/// the Taylor polynomial of degree nine in nested form, rounded to the
/// nearest ten-thousandth and limited to the interval from zero to one.
#[verifier::opaque]
pub open spec fn sin_quarter_spec(x: int) -> int {
    let xf = x * 10_000;
    let x2 = (xf * xf) / (FINE as int);
    let t4 = FINE - x2 / 72;
    let t3 = FINE - ((x2 * t4) / (FINE as int)) / 42;
    let t2 = FINE - ((x2 * t3) / (FINE as int)) / 20;
    let t1 = FINE - ((x2 * t2) / (FINE as int)) / 6;
    let s = (xf * t1) / (FINE as int);
    clamp_spec((s + 5_000) / 10_000, 0, ONE as int)
}

/// The sine of an angle `r` of the first turn, `0 <= r < TWO_PI`, by the
/// symmetries of the sine about the quarter and the half turn.
pub open spec fn sin_turn_spec(r: int) -> int {
    if r <= HALF_PI {
        sin_quarter_spec(r)
    } else if r <= PI {
        sin_quarter_spec(PI - r)
    } else if r <= PI + HALF_PI {
        -sin_quarter_spec(r - PI)
    } else {
        -sin_quarter_spec(TWO_PI - r)
    }
}

/// The sine of the angle `a`, for every integer `a`.
pub open spec fn sin_spec(a: int) -> int {
    sin_turn_spec(a % (TWO_PI as int))
}

/// The cosine of the angle `a`: the sine of `a` advanced by a quarter turn.
pub open spec fn cos_spec(a: int) -> int {
    sin_spec(a + HALF_PI)
}

/// The arctangent of a ratio `z` between zero and one, given in
/// hundred-millionths: an odd polynomial of degree nine, rounded to the
/// nearest ten-thousandth of a radian and limited to the first eighth of a
/// turn.
pub open spec fn atan_unit_spec(z: int) -> int {
    let z2 = (z * z) / (FINE as int);
    let c4 = 2_083_510 as int;
    let c3 = -8_513_300 + (z2 * c4) / (FINE as int);
    let c2 = 18_014_100 + (z2 * c3) / (FINE as int);
    let c1 = -33_029_950 + (z2 * c2) / (FINE as int);
    let c0 = 99_986_600 + (z2 * c1) / (FINE as int);
    let a = (z * c0) / (FINE as int);
    clamp_spec((a + 5_000) / 10_000, 0, HALF_PI / 2)
}

/// The angle of the direction `(x, y)` within the first quarter turn, from
/// the magnitudes of its components. At least one of them is not zero.
pub open spec fn atan2_quarter_spec(ay: int, ax: int) -> int {
    if ay <= ax {
        atan_unit_spec((ay * FINE) / ax)
    } else {
        HALF_PI - atan_unit_spec((ax * FINE) / ay)
    }
}

/// The angle of the direction `(x, y)`, measured from the positive x axis
/// toward the positive y axis, greater than minus half a turn and at most
/// half a turn. The direction `(0, 0)` has the angle zero.
pub open spec fn atan2_spec(y: int, x: int) -> int {
    if x == 0 && y == 0 {
        0
    } else {
        let quarter = atan2_quarter_spec(abs_spec(y), abs_spec(x));
        let half = if x < 0 {
            PI - quarter
        } else {
            quarter
        };
        if y < 0 && half < PI {
            -half
        } else {
            half
        }
    }
}

/// The angle `a` brought into the interval that is greater than minus half a
/// turn and at most half a turn, by adding or removing whole turns.
pub open spec fn normalize_spec(a: int) -> int {
    let r = a % (TWO_PI as int);
    if r > PI {
        r - TWO_PI
    } else {
        r
    }
}

/// Sine and cosine stay between minus one and one, for every angle.
pub proof fn lemma_trig_bounds(a: int)
    ensures
        -ONE <= sin_spec(a) <= ONE,
        -ONE <= cos_spec(a) <= ONE,
{
    reveal(sin_quarter_spec);
}

/// Sine and cosine repeat after every full turn: adding any whole number of
/// turns to the angle changes neither.
pub proof fn lemma_trig_periodic(a: int, turns: int)
    ensures
        sin_spec(a + turns * TWO_PI) == sin_spec(a),
        cos_spec(a + turns * TWO_PI) == cos_spec(a),
{
    lemma_mod_multiples_vanish(turns, a, TWO_PI as int);
    lemma_mod_multiples_vanish(turns, a + HALF_PI, TWO_PI as int);
    assert(TWO_PI * turns == turns * TWO_PI) by (nonlinear_arith);
}

/// The turn that holds the opposite of an angle: the opposite of a whole
/// number of turns is a whole number of turns, and any other angle and its
/// opposite lie a full turn apart within their turns.
proof fn lemma_opposite_turn(a: int)
    ensures
        a % (TWO_PI as int) == 0 ==> (-a) % (TWO_PI as int) == 0,
        a % (TWO_PI as int) != 0 ==> (-a) % (TWO_PI as int) == TWO_PI - a % (TWO_PI as int),
{
}

/// The sine is odd: the opposite angle has the opposite sine.
pub proof fn lemma_sin_is_odd(a: int)
    ensures
        sin_spec(-a) == -sin_spec(a),
{
    lemma_opposite_turn(a);
    lemma_sin_quarter_zero();
}

/// The sine of the angle zero is zero.
proof fn lemma_sin_quarter_zero()
    ensures
        sin_quarter_spec(0) == 0,
{
    reveal(sin_quarter_spec);
    assert(0int * 0int == 0);
    assert(0int * 100_000_000int == 0);
}

/// The cosine is even: the opposite angle has the same cosine.
pub proof fn lemma_cos_is_even(a: int)
    ensures
        cos_spec(-a) == cos_spec(a),
{
    lemma_mirrored_turn(a);
}

/// The turns that hold a quarter turn more than an angle and a quarter turn
/// more than its opposite mirror each other about half a turn.
proof fn lemma_mirrored_turn(a: int)
    ensures
        (a + HALF_PI) % (TWO_PI as int) <= PI ==> (-a + HALF_PI) % (TWO_PI as int) == PI - (a
            + HALF_PI) % (TWO_PI as int),
        (a + HALF_PI) % (TWO_PI as int) > PI ==> (-a + HALF_PI) % (TWO_PI as int) == PI + TWO_PI
            - (a + HALF_PI) % (TWO_PI as int),
{
}

/// Bringing an angle into the interval from minus half a turn to half a turn
/// moves it by whole turns only.
pub proof fn lemma_normalize_turns(a: int)
    ensures
        -PI < normalize_spec(a) <= PI,
        normalize_spec(a) % (TWO_PI as int) == a % (TWO_PI as int),
        (normalize_spec(a) + HALF_PI) % (TWO_PI as int) == (a + HALF_PI) % (TWO_PI as int),
{
}

/// Bringing an angle into the interval from minus half a turn to half a turn
/// changes neither its sine nor its cosine.
pub proof fn lemma_normalize_keeps_direction(a: int)
    ensures
        sin_spec(normalize_spec(a)) == sin_spec(a),
        cos_spec(normalize_spec(a)) == cos_spec(a),
{
    lemma_normalize_turns(a);
}

/// At the quarter turns sine and cosine take their exact values.
pub proof fn lemma_trig_quarter_turns()
    ensures
        sin_spec(0) == 0 && cos_spec(0) == ONE,
        sin_spec(HALF_PI as int) == ONE && cos_spec(HALF_PI as int) == 0,
        sin_spec(PI as int) == 0 && cos_spec(PI as int) == -ONE,
        sin_spec(PI + HALF_PI) == -ONE && cos_spec(PI + HALF_PI) == 0,
{
    reveal(sin_quarter_spec);
    lemma_sin_quarter_zero();
    assert(sin_quarter_spec(HALF_PI as int) == ONE) by {
        assert(157_080_000int * 157_080_000int == 24_674_126_400_000_000);
        assert(246_741_264int * 96_573_038int == 23_828_553_464_440_032);
        assert(246_741_264int * 94_326_535int == 23_274_248_474_640_240);
        assert(246_741_264int * 88_362_876int == 21_802_767_714_915_264);
        assert(157_080_000int * 63_662_054int == 10_000_035_442_320_000);
    }
}

fn sin_quarter(x: i64) -> (s: i64)
    requires
        0 <= x <= HALF_PI,
    ensures
        s == sin_quarter_spec(x as int),
        0 <= s <= ONE,
{
    reveal(sin_quarter_spec);
    let xf: i64 = x * 10_000;
    proof {
        lemma_product_range(xf as int, xf as int, 157_080_000, 157_080_000);
    }
    let x2: i64 = (xf * xf) / FINE;
    assert(0 <= x2 <= 246_741_264);
    let t4: i64 = FINE - x2 / 72;
    proof {
        lemma_product_range(x2 as int, t4 as int, 246_741_264, FINE as int);
    }
    let t3: i64 = FINE - ((x2 * t4) / FINE) / 42;
    proof {
        lemma_product_range(x2 as int, t3 as int, 246_741_264, FINE as int);
    }
    let t2: i64 = FINE - ((x2 * t3) / FINE) / 20;
    proof {
        lemma_product_range(x2 as int, t2 as int, 246_741_264, FINE as int);
    }
    let t1: i64 = FINE - ((x2 * t2) / FINE) / 6;
    proof {
        lemma_product_range(xf as int, t1 as int, 157_080_000, FINE as int);
    }
    let s: i64 = (xf * t1) / FINE;
    clamp((s + 5_000) / 10_000, 0, ONE)
}

fn sin_turn(r: i64) -> (s: i64)
    requires
        0 <= r < TWO_PI,
    ensures
        s == sin_turn_spec(r as int),
        -ONE <= s <= ONE,
{
    if r <= HALF_PI {
        sin_quarter(r)
    } else if r <= PI {
        sin_quarter(PI - r)
    } else if r <= PI + HALF_PI {
        -sin_quarter(r - PI)
    } else {
        -sin_quarter(TWO_PI - r)
    }
}

/// The sine of the angle `a`.
pub fn sin(a: i64) -> (s: i64)
    ensures
        s == sin_spec(a as int),
        -ONE <= s <= ONE,
{
    let r: i128 = mod_floor(a as i128, TWO_PI as i128);
    sin_turn(r as i64)
}

/// The cosine of the angle `a`.
pub fn cos(a: i64) -> (c: i64)
    ensures
        c == cos_spec(a as int),
        -ONE <= c <= ONE,
{
    let r: i128 = mod_floor(a as i128 + HALF_PI as i128, TWO_PI as i128);
    sin_turn(r as i64)
}

fn atan_unit(z: i64) -> (a: i64)
    requires
        0 <= z <= FINE,
    ensures
        a == atan_unit_spec(z as int),
        0 <= a <= HALF_PI / 2,
{
    proof {
        lemma_product_range(z as int, z as int, FINE as int, FINE as int);
    }
    let z2: i64 = (z * z) / FINE;
    let c4: i64 = 2_083_510;
    proof {
        lemma_product_bound(z2 as int, c4 as int, FINE as int, 2_083_510);
    }
    let c3: i64 = -8_513_300 + (div_floor((z2 as i128) * (c4 as i128), FINE as i128) as i64);
    proof {
        lemma_product_bound(z2 as int, c3 as int, FINE as int, 10_600_000);
    }
    let c2: i64 = 18_014_100 + (div_floor((z2 as i128) * (c3 as i128), FINE as i128) as i64);
    proof {
        lemma_product_bound(z2 as int, c2 as int, FINE as int, 28_700_000);
    }
    let c1: i64 = -33_029_950 + (div_floor((z2 as i128) * (c2 as i128), FINE as i128) as i64);
    proof {
        lemma_product_bound(z2 as int, c1 as int, FINE as int, 61_800_000);
    }
    let c0: i64 = 99_986_600 + (div_floor((z2 as i128) * (c1 as i128), FINE as i128) as i64);
    proof {
        lemma_product_bound(z as int, c0 as int, FINE as int, 161_800_000);
    }
    let a: i64 = div_floor((z as i128) * (c0 as i128), FINE as i128) as i64;
    clamp(div_floor(a as i128 + 5_000, 10_000) as i64, 0, HALF_PI / 2)
}

/// The ratio of `small` to `large` in hundred-millionths, for
/// `0 <= small <= large` and `large > 0`.
fn ratio(small: i128, large: i128) -> (z: i64)
    requires
        0 <= small <= large,
        0 < large <= 0x8000_0000_0000_0000,
    ensures
        z == (small * FINE) / (large as int),
        0 <= z <= FINE,
{
    proof {
        lemma_product_range(small as int, FINE as int, 0x8000_0000_0000_0000, FINE as int);
        assert(0 <= (small * FINE) / (large as int) <= FINE) by (nonlinear_arith)
            requires
                0 <= small <= large,
                0 < large,
                FINE == 100_000_000,
        ;
    }
    let q: i128 = (small * (FINE as i128)) / large;
    q as i64
}

/// The angle of the direction `(x, y)`, greater than minus half a turn and at
/// most half a turn; zero for the direction `(0, 0)`.
pub fn atan2(y: i64, x: i64) -> (a: i64)
    ensures
        a == atan2_spec(y as int, x as int),
        -PI < a <= PI,
{
    if x == 0 && y == 0 {
        return 0;
    }
    let ax: i128 = if x < 0 {
        -(x as i128)
    } else {
        x as i128
    };
    let ay: i128 = if y < 0 {
        -(y as i128)
    } else {
        y as i128
    };
    let quarter: i64 = if ay <= ax {
        atan_unit(ratio(ay, ax))
    } else {
        HALF_PI - atan_unit(ratio(ax, ay))
    };
    let half: i64 = if x < 0 {
        PI - quarter
    } else {
        quarter
    };
    if y < 0 && half < PI {
        -half
    } else {
        half
    }
}

/// Brings the angle `a` into the interval that is greater than minus half a
/// turn and at most half a turn.
pub fn normalize(a: i128) -> (r: i64)
    ensures
        r == normalize_spec(a as int),
        -PI < r <= PI,
{
    let r: i128 = mod_floor(a, TWO_PI as i128);
    if r > PI as i128 {
        (r - TWO_PI as i128) as i64
    } else {
        r as i64
    }
}

} // verus!
