//! Perspective: how tall a wall appears at a distance, which rows of a
//! column it covers, and which distance a row of floor or sky stands for.

use vstd::prelude::*;
use crate::fixed::{
    clamp, clamp_spec, div_floor, lemma_div_antitone, lemma_div_bound, mod_floor, EPSILON,
    MAX_DIMENSION, MAX_DISTANCE, ONE, PROJECTION_DISTANCE,
};

verus! {

/// Half the height of a surface of `height` rows, in fixed-point pixels.
pub open spec fn half_height_spec(height: int) -> int {
    height * 5_000
}

/// The height, in fixed-point pixels, at which a wall at `distance` appears
/// on a surface of `height` rows: half the height of the surface, times the
/// distance of the projection plane, divided by the distance.
pub open spec fn wall_height_spec(height: int, distance: int) -> int {
    (half_height_spec(height) * PROJECTION_DISTANCE) / distance
}

/// The first row of the wall span: the middle of the surface less half the
/// wall height, in whole rows, limited to the surface.
pub open spec fn wall_top_spec(height: int, distance: int) -> int {
    clamp_spec(
        (half_height_spec(height) - wall_height_spec(height, distance) / 2) / (ONE as int),
        0,
        height,
    )
}

/// The row after the last row of the wall span: the middle of the surface
/// plus half the wall height, in whole rows, limited to the surface.
pub open spec fn wall_bottom_spec(height: int, distance: int) -> int {
    clamp_spec(
        (half_height_spec(height) + wall_height_spec(height, distance) / 2) / (ONE as int),
        0,
        height,
    )
}

/// How far row `y` lies from the middle of the surface, in fixed-point
/// pixels.
pub open spec fn row_offset_spec(height: int, y: int) -> int {
    if y * ONE >= half_height_spec(height) {
        y * ONE - half_height_spec(height)
    } else {
        half_height_spec(height) - y * ONE
    }
}

/// The distance along the ray of the floor or sky point that row `y` shows:
/// the projection of the wall height, inverted. Meaningful where the row
/// does not lie in the middle of the surface.
pub open spec fn row_distance_spec(height: int, y: int) -> int {
    (half_height_spec(height) * PROJECTION_DISTANCE) / row_offset_spec(height, y)
}

/// The position of the coordinate `coord` within its cell, as a fraction of
/// the cell's width: zero on the cell's lower boundary, and always less than
/// one.
pub open spec fn tile_fraction_spec(coord: int, block_size: int) -> int {
    ((coord % (block_size * ONE)) * ONE) / (block_size * ONE)
}

/// The wall height does not grow with the distance: of two positive
/// distances, the greater gives a wall no taller than the smaller.
pub proof fn lemma_wall_height_decreasing(height: int, near: int, far: int)
    requires
        0 <= height,
        0 < near <= far,
    ensures
        wall_height_spec(height, far) <= wall_height_spec(height, near),
{
    lemma_div_antitone(half_height_spec(height) * PROJECTION_DISTANCE, near, far);
}

/// The wall height is never negative and never more than at the distance of
/// one ten-thousandth, and it is positive exactly up to the distance at
/// which a wall is one ten-thousandth of a pixel high.
pub proof fn lemma_wall_height_positive(height: int, distance: int)
    requires
        0 <= height,
        1 <= distance,
    ensures
        0 <= wall_height_spec(height, distance) <= half_height_spec(height) * PROJECTION_DISTANCE,
        wall_height_spec(height, distance) > 0 <==> distance <= half_height_spec(height)
            * PROJECTION_DISTANCE,
{
    let n = half_height_spec(height) * PROJECTION_DISTANCE;
    assert(n == height * 3_500_000_000);
    lemma_div_bound(n, distance);
    if distance <= n {
        lemma_div_antitone(n, distance, n);
        assert(n / n == 1) by (nonlinear_arith)
            requires
                n >= 1,
        ;
    } else {
        assert(n / distance == 0) by (nonlinear_arith)
            requires
                0 <= n < distance,
        ;
    }
}

/// At every distance that a ray can report, from [`EPSILON`] to
/// [`MAX_DISTANCE`], a wall on a surface of at least one row has a positive
/// height.
pub proof fn lemma_wall_height_in_view(height: int, distance: int)
    requires
        1 <= height,
        EPSILON <= distance <= MAX_DISTANCE,
    ensures
        0 < wall_height_spec(height, distance),
{
    lemma_wall_height_positive(height, distance);
}

/// Half the height of a surface of `height` rows.
pub fn half_height(height: usize) -> (hh: i64)
    requires
        height <= MAX_DIMENSION,
    ensures
        hh == half_height_spec(height as int),
        0 <= hh <= 81_920_000,
{
    (height as i64) * 5_000
}

/// The height at which a wall at `distance` appears on a surface of `height`
/// rows.
pub fn wall_height(height: usize, distance: i64) -> (wh: i64)
    requires
        height <= MAX_DIMENSION,
        distance >= 1,
    ensures
        wh == wall_height_spec(height as int, distance as int),
        0 <= wh <= 57_344_000_000_000,
{
    let hh: i64 = half_height(height);
    proof {
        lemma_div_bound(hh * PROJECTION_DISTANCE, distance as int);
    }
    (hh * PROJECTION_DISTANCE) / distance
}

/// The rows that a wall at `distance` covers in a column of `height` rows:
/// from the first of the pair up to, but not including, the second.
pub fn wall_span(height: usize, distance: i64) -> (span: (usize, usize))
    requires
        height <= MAX_DIMENSION,
        distance >= 1,
    ensures
        span.0 == wall_top_spec(height as int, distance as int),
        span.1 == wall_bottom_spec(height as int, distance as int),
        span.0 <= span.1 <= height,
        span.0 * ONE <= half_height_spec(height as int),
{
    let hh: i64 = half_height(height);
    let half_wall: i64 = wall_height(height, distance) / 2;
    let top: i128 = div_floor((hh - half_wall) as i128, ONE as i128);
    let bottom: i128 = div_floor((hh + half_wall) as i128, ONE as i128);
    let start: i64 = clamp(top as i64, 0, height as i64);
    let end: i64 = clamp(bottom as i64, 0, height as i64);
    (start as usize, end as usize)
}

/// How far row `y` lies from the middle of a surface of `height` rows.
pub fn row_offset(height: usize, y: usize) -> (offset: i64)
    requires
        height <= MAX_DIMENSION,
        y <= MAX_DIMENSION,
    ensures
        offset == row_offset_spec(height as int, y as int),
        offset == 0 || offset >= 5_000,
        offset <= 163_840_000,
{
    let hh: i64 = half_height(height);
    let row: i64 = (y as i64) * ONE;
    if row >= hh {
        row - hh
    } else {
        hh - row
    }
}

/// The distance along the ray of the floor or sky point that row `y` shows.
pub fn row_distance(height: usize, y: usize) -> (d: i64)
    requires
        height <= MAX_DIMENSION,
        y <= MAX_DIMENSION,
        row_offset_spec(height as int, y as int) != 0,
    ensures
        d == row_distance_spec(height as int, y as int),
        0 <= d <= 11_468_800_000,
{
    let hh: i64 = half_height(height);
    let offset: i64 = row_offset(height, y);
    proof {
        lemma_div_bound(hh * PROJECTION_DISTANCE, offset as int);
        lemma_div_antitone(hh * PROJECTION_DISTANCE, 5_000, offset as int);
    }
    (hh * PROJECTION_DISTANCE) / offset
}

/// The position of `coord` within its cell, as a fraction of the cell's
/// width.
pub fn tile_fraction(coord: i64, block_size: usize) -> (f: i64)
    requires
        1 <= block_size,
    ensures
        f == tile_fraction_spec(coord as int, block_size as int),
        0 <= f < ONE,
{
    let width: i128 = (block_size as i128) * (ONE as i128);
    let within: i128 = mod_floor(coord as i128, width);
    proof {
        assert(0 <= (within * ONE) / (width as int) < ONE) by (nonlinear_arith)
            requires
                0 <= within < width,
                ONE == 10_000,
        ;
    }
    ((within * (ONE as i128)) / width) as i64
}

} // verus!
