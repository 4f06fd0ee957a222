//! The cosmetic gains of the three parts of a column: sky, wall and floor.
//!
//! A gain is a fixed-point factor that multiplies the red, green and blue of
//! a sampled color.

use vstd::prelude::*;
use crate::fixed::{
    clamp, clamp_spec, lemma_div_bound, mod_floor, mul_fixed, mul_fixed_spec, MAX_DIMENSION,
    MAX_DISTANCE, ONE, TWO_PI,
};
use crate::projection::{half_height, half_height_spec};
use crate::trig::{sin, sin_spec};

verus! {

/// The part of the wall span, at its top and at its bottom, that the edge
/// highlight brightens (0.03 of the span each).
pub const EDGE_BAND: i64 = 300;

/// The gain of the edge highlight (1.15).
pub const EDGE_GAIN: i64 = 11_500;

/// The gain of the sky in row `y` of a surface of `height` rows: 0.65 at the
/// top, rising by 0.2 toward the middle, limited to the range from 0.5 to
/// 0.95.
pub open spec fn sky_gain_spec(height: int, y: int) -> int {
    let ratio = (y * ONE * ONE) / half_height_spec(height);
    clamp_spec(6_500 + mul_fixed_spec(ratio, 2_000), 5_000, 9_500)
}

/// The gain of the floor at the distance `row_distance`: 0.95 nearby, falling
/// with the distance, limited to the range from 0.25 to 0.9.
pub open spec fn floor_gain_spec(row_distance: int) -> int {
    clamp_spec((9_500 * ONE) / (ONE + mul_fixed_spec(row_distance, 100)), 2_500, 9_000)
}

/// The slow oscillation of the wall brightness at the time `time`: six
/// hundredths of the sine of three times the time.
pub open spec fn pulse_spec(time: int) -> int {
    mul_fixed_spec(sin_spec(3 * time), 600)
}

/// The falloff of the wall brightness with the distance: 1.15 at the eye,
/// falling with the distance, limited to the range from 0.22 to 1.
pub open spec fn falloff_spec(distance: int) -> int {
    clamp_spec((11_500 * ONE) / (ONE + mul_fixed_spec(distance, 250)), 2_200, ONE as int)
}

/// The gain of a wall column at `distance` at the time `time`: falloff plus
/// pulse, limited to the range from 0.18 to 1.
pub open spec fn column_gain_spec(distance: int, time: int) -> int {
    clamp_spec(falloff_spec(distance) + pulse_spec(time), 1_800, ONE as int)
}

/// The gain of the edge highlight at the vertical position `v` of the wall
/// span: [`EDGE_GAIN`] within [`EDGE_BAND`] of the top or the bottom, one
/// elsewhere.
pub open spec fn edge_gain_spec(v: int) -> int {
    if v < EDGE_BAND || v >= ONE - EDGE_BAND {
        EDGE_GAIN as int
    } else {
        ONE as int
    }
}

/// The gain of the sky in row `y`.
pub fn sky_gain(height: usize, y: usize) -> (g: i64)
    requires
        height <= MAX_DIMENSION,
        y <= MAX_DIMENSION,
        height >= 1,
    ensures
        g == sky_gain_spec(height as int, y as int),
        5_000 <= g <= 9_500,
{
    let hh: i64 = half_height(height);
    proof {
        lemma_div_bound(y * ONE * ONE, hh as int);
    }
    let ratio: i64 = ((y as i64) * ONE * ONE) / hh;
    clamp(6_500 + mul_fixed(ratio, 2_000), 5_000, 9_500)
}

/// The gain of the floor at the distance `row_distance`.
pub fn floor_gain(row_distance: i64) -> (g: i64)
    requires
        0 <= row_distance <= 1_000_000_000_000,
    ensures
        g == floor_gain_spec(row_distance as int),
        2_500 <= g <= 9_000,
{
    let slope: i64 = mul_fixed(row_distance, 100);
    clamp((9_500 * ONE) / (ONE + slope), 2_500, 9_000)
}

/// The oscillation of the wall brightness at the time `time`.
pub fn pulse(time: i64) -> (p: i64)
    ensures
        p == pulse_spec(time as int),
        -600 <= p <= 600,
{
    let turn: i128 = mod_floor(3 * (time as i128), TWO_PI as i128);
    let s: i64 = sin(turn as i64);
    mul_fixed(s, 600)
}

/// The gain of a wall column at `distance` at the time `time`.
pub fn column_gain(distance: i64, time: i64) -> (g: i64)
    requires
        0 <= distance <= MAX_DISTANCE,
    ensures
        g == column_gain_spec(distance as int, time as int),
        1_800 <= g <= ONE,
{
    let slope: i64 = mul_fixed(distance, 250);
    let falloff: i64 = clamp((11_500 * ONE) / (ONE + slope), 2_200, ONE);
    clamp(falloff + pulse(time), 1_800, ONE)
}

/// The gain of the edge highlight at the vertical position `v`.
pub fn edge_gain(v: i64) -> (g: i64)
    ensures
        g == edge_gain_spec(v as int),
{
    if v < EDGE_BAND || v >= ONE - EDGE_BAND {
        EDGE_GAIN
    } else {
        ONE
    }
}

} // verus!
