//! The ray caster: marches a ray through the grid in steps of one world unit
//! and reports the first cell that stops it.

use vstd::prelude::*;
use vstd::arithmetic::div_mod::lemma_fundamental_div_mod;
use crate::color::Color;
use crate::fixed::{
    clamp, clamp_spec, div_floor, index_spec, lemma_mul_fixed_unit, lemma_product_bound, mod_floor,
    mul_fixed, mul_fixed_spec, to_index, EPSILON, MAX_DISTANCE, ONE,
};
use crate::framebuffer::Framebuffer;
use crate::maze::{cell_symbol, is_solid, solid_at, symbol_at, Maze, EMPTY};
use crate::player::Player;
use crate::trig::{
    cos, cos_spec, lemma_normalize_keeps_direction, normalize, sin, sin_spec,
};
use crate::vector::Vector2;

verus! {

/// The distance between two samples of a ray: one world unit.
pub const MARCH_STEP: i64 = 10_000;

/// The number of samples that are examined before a ray counts as a miss.
/// The last of them lies one step short of [`MAX_DISTANCE`].
pub const MAX_STEPS: i64 = 10_000;

/// What a ray struck.
#[derive(Clone, Copy, Debug, PartialEq, Eq, Structural)]
pub struct Intersect {
    /// The perpendicular distance of the sample that was stopped: its
    /// distance from the observer measured along the viewing direction, at
    /// least [`EPSILON`]; [`MAX_DISTANCE`] for a miss.
    pub distance: i64,
    /// The symbol of the cell that stopped the ray; the symbol of the empty
    /// cell where the ray left the grid or struck nothing.
    pub impact: char,
    /// The world point of the sample that was stopped; for a miss, the point
    /// at [`MAX_DISTANCE`] along the ray.
    pub point: Vector2,
}

/// The x coordinate of sample `k` of the ray that leaves `x` at `angle`.
/// Sample `k` lies `k` world units along the ray.
pub open spec fn ray_x(x: int, angle: int, k: int) -> int {
    x + k * cos_spec(angle)
}

/// The y coordinate of sample `k` of the ray that leaves `y` at `angle`.
pub open spec fn ray_y(y: int, angle: int, k: int) -> int {
    y + k * sin_spec(angle)
}

/// The index of the cell that a ray is in at the coordinate `coord`, when it
/// travels in the direction `dir` along that axis. It is the cell that holds
/// `coord`, except that a ray travelling toward smaller coordinates that
/// stands exactly on the boundary between two cells belongs to the cell it
/// is entering. A ray at a negative coordinate, or about to enter one, is
/// outside every grid: its index is `usize::MAX`, which no grid has.
pub open spec fn ray_cell_index(coord: int, dir: int, block_size: int) -> int {
    let width = block_size * ONE;
    let below = coord / width;
    let entered = if dir < 0 && coord % width == 0 {
        below - 1
    } else {
        below
    };
    index_spec(entered)
}

/// The row of the cell that holds sample `k`.
pub open spec fn ray_row(origin: Vector2, angle: int, block_size: int, k: int) -> int {
    ray_cell_index(ray_y(origin.y as int, angle, k), sin_spec(angle), block_size)
}

/// The column of the cell that holds sample `k`.
pub open spec fn ray_column(origin: Vector2, angle: int, block_size: int, k: int) -> int {
    ray_cell_index(ray_x(origin.x as int, angle, k), cos_spec(angle), block_size)
}

/// Whether sample `k` of the ray lies in a cell that stops rays.
pub open spec fn blocked_at(maze: &Maze, origin: Vector2, angle: int, block_size: int, k: int)
    -> bool {
    solid_at(
        maze,
        ray_row(origin, angle, block_size, k),
        ray_column(origin, angle, block_size, k),
    )
}

/// The first sample from `k` on that is stopped, or [`MAX_STEPS`] where none
/// before it is.
pub open spec fn first_blocked(maze: &Maze, origin: Vector2, angle: int, block_size: int, k: int)
    -> int
    decreases MAX_STEPS - k,
{
    if k >= MAX_STEPS {
        MAX_STEPS as int
    } else if blocked_at(maze, origin, angle, block_size, k) {
        k
    } else {
        first_blocked(maze, origin, angle, block_size, k + 1)
    }
}

/// The perpendicular distance of a point that lies `along` on the ray at
/// `angle`, for an observer that looks along `heading`: the part of the
/// distance that runs along the viewing direction, but at least [`EPSILON`]
/// and at most [`MAX_DISTANCE`].
pub open spec fn perpendicular_spec(along: int, angle: int, heading: int) -> int {
    clamp_spec(
        mul_fixed_spec(along, cos_spec(angle - heading)),
        EPSILON as int,
        MAX_DISTANCE as int,
    )
}

/// What the ray that leaves the observer at `angle` strikes in `maze`.
pub open spec fn cast_ray_spec(maze: &Maze, player: Player, angle: int, block_size: int)
    -> Intersect {
    let k = first_blocked(maze, player.pos, angle, block_size, 0);
    Intersect {
        distance: if k >= MAX_STEPS {
            MAX_DISTANCE
        } else {
            perpendicular_spec(k * MARCH_STEP, angle, player.a as int) as i64
        },
        impact: if k >= MAX_STEPS {
            EMPTY
        } else {
            symbol_at(
                maze,
                ray_row(player.pos, angle, block_size, k),
                ray_column(player.pos, angle, block_size, k),
            )
        },
        point: Vector2 {
            x: ray_x(player.pos.x as int, angle, k) as i64,
            y: ray_y(player.pos.y as int, angle, k) as i64,
        },
    }
}

/// The first stopped sample is the least one: no sample before it is
/// stopped, and it is stopped itself unless it is [`MAX_STEPS`].
pub proof fn lemma_first_blocked_least(
    maze: &Maze,
    origin: Vector2,
    angle: int,
    block_size: int,
    from: int,
)
    requires
        0 <= from <= MAX_STEPS,
    ensures
        from <= first_blocked(maze, origin, angle, block_size, from) <= MAX_STEPS,
        first_blocked(maze, origin, angle, block_size, from) < MAX_STEPS ==> blocked_at(
            maze,
            origin,
            angle,
            block_size,
            first_blocked(maze, origin, angle, block_size, from),
        ),
        forall|k: int|
            from <= k < first_blocked(maze, origin, angle, block_size, from) ==> !blocked_at(
                maze,
                origin,
                angle,
                block_size,
                k,
            ),
    decreases MAX_STEPS - from,
{
    if from < MAX_STEPS && !blocked_at(maze, origin, angle, block_size, from) {
        lemma_first_blocked_least(maze, origin, angle, block_size, from + 1);
    }
}

/// A sample that is stopped, with none stopped before it, is the first
/// stopped sample.
pub proof fn lemma_first_blocked_is(
    maze: &Maze,
    origin: Vector2,
    angle: int,
    block_size: int,
    from: int,
    k: int,
)
    requires
        0 <= from <= k < MAX_STEPS,
        blocked_at(maze, origin, angle, block_size, k),
        forall|j: int| from <= j < k ==> !blocked_at(maze, origin, angle, block_size, j),
    ensures
        first_blocked(maze, origin, angle, block_size, from) == k,
    decreases k - from,
{
    if from < k {
        lemma_first_blocked_is(maze, origin, angle, block_size, from + 1, k);
    }
}

/// A ray that looks along the viewing direction has a perpendicular distance
/// equal to the distance along the ray, within the limits of a distance.
pub proof fn lemma_perpendicular_ahead(along: int, angle: int, heading: int)
    requires
        cos_spec(angle - heading) == ONE,
    ensures
        perpendicular_spec(along, angle, heading) == clamp_spec(
            along,
            EPSILON as int,
            MAX_DISTANCE as int,
        ),
{
    assert((along * ONE) / (ONE as int) == along) by (nonlinear_arith)
        requires
            ONE == 10_000,
    ;
}

/// A coordinate that lies `offset` into the cell `cell`, with
/// `0 <= offset < width`, belongs to that cell; one that lies a whole cell
/// further belongs to the next.
proof fn lemma_cell_holds(cell: int, width: int, offset: int)
    by (nonlinear_arith)
    requires
        0 <= cell,
        0 < width,
        0 <= offset < width,
    ensures
        (cell * width + offset) / width == cell,
        (cell * width + width) / width == cell + 1,
{
}

/// Whether `pos` stands on the boundary where an open cell begins, with a
/// cell that stops rays behind the open one, along the x axis.
pub open spec fn one_cell_before_wall(maze: &Maze, pos: Vector2, block_size: int) -> bool {
    let width = block_size * ONE;
    let x = pos.x as int;
    let y = pos.y as int;
    &&& 0 <= x
    &&& 0 <= y
    &&& x % width == 0
    &&& !solid_at(maze, y / width, x / width)
    &&& solid_at(maze, y / width, x / width + 1)
}

/// A wall one cell ahead is reported at the distance of one cell.
///
/// The observer looks along the x axis and stands on the boundary where an
/// open cell begins; the cell behind the open one stops rays. A ray along
/// the viewing direction then strikes it at exactly the width of a cell,
/// provided that a cell is narrower than the reach of a ray.
pub proof fn lemma_wall_one_cell_ahead(maze: &Maze, player: Player, angle: int, block_size: int)
    requires
        cos_spec(angle) == ONE,
        sin_spec(angle) == 0,
        cos_spec(angle - player.a) == ONE,
        1 <= block_size < MAX_STEPS,
        one_cell_before_wall(maze, player.pos, block_size),
    ensures
        first_blocked(maze, player.pos, angle, block_size, 0) == block_size,
        cast_ray_spec(maze, player, angle, block_size).distance == block_size * MARCH_STEP,
{
    let width = block_size * ONE;
    let x = player.pos.x as int;
    let y = player.pos.y as int;
    let row = y / width;
    let column = x / width;
    assert(0 <= row && 0 <= column) by (nonlinear_arith)
        requires
            row == y / width,
            column == x / width,
            0 <= y,
            0 <= x,
            0 < width,
    ;
    assert(x == column * width) by {
        lemma_fundamental_div_mod(x, width);
        assert(width * column == column * width) by (nonlinear_arith);
    }
    assert(maze.len() <= usize::MAX);
    assert(maze@[row].len() <= usize::MAX);
    assert forall|k: int| 0 <= k <= block_size implies #[trigger] ray_row(
        player.pos,
        angle,
        block_size,
        k,
    ) == row && ray_column(player.pos, angle, block_size, k) == if k < block_size {
        column
    } else {
        column + 1
    } by {
        assert(k * 0 == 0) by (nonlinear_arith);
        assert(k * ONE == k * 10_000);
        if k < block_size {
            lemma_cell_holds(column, width, k * ONE);
        } else {
            lemma_cell_holds(column, width, 0);
        }
    }
    assert(blocked_at(maze, player.pos, angle, block_size, block_size));
    assert forall|k: int| 0 <= k < block_size implies !blocked_at(
        maze,
        player.pos,
        angle,
        block_size,
        k,
    ) by {
        assert(ray_row(player.pos, angle, block_size, k) == row);
    }
    lemma_first_blocked_is(maze, player.pos, angle, block_size, 0, block_size);
    lemma_perpendicular_ahead(block_size * MARCH_STEP, angle, player.a as int);
}

/// The index of the cell that a ray travelling in direction `dir` is in at
/// the coordinate `coord`.
fn ray_cell(coord: i64, dir: i64, block_size: usize) -> (index: usize)
    requires
        1 <= block_size,
    ensures
        index == ray_cell_index(coord as int, dir as int, block_size as int),
{
    let width: i128 = (block_size as i128) * (ONE as i128);
    let below: i128 = div_floor(coord as i128, width);
    let on_boundary: bool = mod_floor(coord as i128, width) == 0;
    if dir < 0 && on_boundary {
        to_index(below - 1)
    } else {
        to_index(below)
    }
}

/// The number of the first sample of the ray from `origin` at `angle` that
/// is stopped, or [`MAX_STEPS`] for a miss.
fn march(maze: &Maze, origin: Vector2, angle: i64, block_size: usize) -> (steps: i64)
    requires
        origin.in_world(),
        1 <= block_size,
    ensures
        steps == first_blocked(maze, origin, angle as int, block_size as int, 0),
        0 <= steps <= MAX_STEPS,
{
    let dx: i64 = cos(angle);
    let dy: i64 = sin(angle);
    let mut k: i64 = 0;
    while k < MAX_STEPS
        invariant
            0 <= k <= MAX_STEPS,
            origin.in_world(),
            1 <= block_size,
            dx == cos_spec(angle as int),
            dy == sin_spec(angle as int),
            -ONE <= dx <= ONE,
            -ONE <= dy <= ONE,
            first_blocked(maze, origin, angle as int, block_size as int, 0) == first_blocked(
                maze,
                origin,
                angle as int,
                block_size as int,
                k as int,
            ),
        decreases MAX_STEPS - k,
    {
        proof {
            lemma_product_bound(k as int, dx as int, MAX_STEPS as int, ONE as int);
            lemma_product_bound(k as int, dy as int, MAX_STEPS as int, ONE as int);
        }
        let i: usize = ray_cell(origin.y + k * dy, dy, block_size);
        let j: usize = ray_cell(origin.x + k * dx, dx, block_size);
        if is_solid(maze, i, j) {
            return k;
        }
        k += 1;
    }
    k
}

/// What the ray struck that was stopped at sample `steps`.
fn intersect_at(maze: &Maze, player: &Player, angle: i64, block_size: usize, steps: i64) -> (hit:
    Intersect)
    requires
        player.wf(),
        1 <= block_size,
        steps == first_blocked(maze, player.pos, angle as int, block_size as int, 0),
        0 <= steps <= MAX_STEPS,
    ensures
        hit == cast_ray_spec(maze, *player, angle as int, block_size as int),
        EPSILON <= hit.distance <= MAX_DISTANCE,
{
    let dx: i64 = cos(angle);
    let dy: i64 = sin(angle);
    proof {
        lemma_product_bound(steps as int, dx as int, MAX_STEPS as int, ONE as int);
        lemma_product_bound(steps as int, dy as int, MAX_STEPS as int, ONE as int);
    }
    let x: i64 = player.pos.x + steps * dx;
    let y: i64 = player.pos.y + steps * dy;
    if steps >= MAX_STEPS {
        return Intersect { distance: MAX_DISTANCE, impact: EMPTY, point: Vector2 { x, y } };
    }
    let turned: i64 = normalize(angle as i128 - player.a as i128);
    let facing: i64 = cos(turned);
    let along: i64 = steps * MARCH_STEP;
    proof {
        lemma_normalize_keeps_direction(angle - player.a);
        lemma_mul_fixed_unit(along as int, facing as int);
    }
    let distance: i64 = clamp(mul_fixed(along, facing), EPSILON, MAX_DISTANCE);
    let i: usize = ray_cell(y, dy, block_size);
    let j: usize = ray_cell(x, dx, block_size);
    Intersect { distance, impact: cell_symbol(maze, i, j), point: Vector2 { x, y } }
}

/// Casts the ray that leaves the observer at `angle` through `maze`, whose
/// cells are `block_size` world units wide.
///
/// The ray is sampled at the observer and then once every world unit. The
/// first sample that lies in a cell that stops rays ends the march. Its
/// perpendicular distance, never less than [`EPSILON`], the symbol of its
/// cell and its position are returned. When none of the first [`MAX_STEPS`]
/// samples is stopped, the ray is a miss at [`MAX_DISTANCE`].
pub fn cast_ray(maze: &Maze, player: &Player, angle: i64, block_size: usize) -> (hit: Intersect)
    requires
        player.wf(),
        1 <= block_size,
    ensures
        hit == cast_ray_spec(maze, *player, angle as int, block_size as int),
        EPSILON <= hit.distance <= MAX_DISTANCE,
{
    let steps: i64 = march(maze, player.pos, angle, block_size);
    intersect_at(maze, player, angle, block_size, steps)
}

/// Whether sample `k` of the ray that leaves `(x0, y0)` at `angle` falls on
/// the pixel `(x, y)` of a surface on which one pixel is one world unit.
pub open spec fn sample_on_pixel(x0: int, y0: int, angle: int, k: int, x: int, y: int) -> bool {
    ray_x(x0, angle, k) / (ONE as int) == x && ray_y(y0, angle, k) / (ONE as int) == y
}

/// Whether one of the first `count` samples of the ray falls on the pixel
/// `(x, y)`.
pub open spec fn ray_crosses(x0: int, y0: int, angle: int, count: int, x: int, y: int) -> bool {
    exists|k: int| 0 <= k < count && #[trigger] sample_on_pixel(x0, y0, angle, k, x, y)
}

/// Whether `after` is `before` with the color `color` in every pixel on
/// which one of the first `count` samples of the ray falls.
pub open spec fn ray_drawn(
    after: &Framebuffer,
    before: &Framebuffer,
    x0: int,
    y0: int,
    angle: int,
    count: int,
    color: Color,
) -> bool {
    &&& after.same_frame(before)
    &&& forall|px: int, py: int|
        before.contains(px, py) ==> after.pixel(px, py) == if ray_crosses(
            x0,
            y0,
            angle,
            count,
            px,
            py,
        ) {
            color
        } else {
            before.pixel(px, py)
        }
}

/// The pixels that the first `count + 1` samples of a ray cross are those
/// that the first `count` samples cross, and the pixel of sample `count`.
pub proof fn lemma_one_more_sample(x0: int, y0: int, angle: int, count: int, x: int, y: int)
    requires
        0 <= count,
    ensures
        ray_crosses(x0, y0, angle, count + 1, x, y) <==> (ray_crosses(x0, y0, angle, count, x, y)
            || sample_on_pixel(x0, y0, angle, count, x, y)),
{
    if ray_crosses(x0, y0, angle, count, x, y) {
        let k = choose|k: int| 0 <= k < count && #[trigger] sample_on_pixel(x0, y0, angle, k, x, y);
        assert(0 <= k < count + 1 && sample_on_pixel(x0, y0, angle, k, x, y));
    }
    if sample_on_pixel(x0, y0, angle, count, x, y) {
        assert(0 <= count < count + 1 && sample_on_pixel(x0, y0, angle, count, x, y));
    }
    if ray_crosses(x0, y0, angle, count + 1, x, y) {
        let k = choose|k: int|
            0 <= k < count + 1 && #[trigger] sample_on_pixel(x0, y0, angle, k, x, y);
        if k < count {
            assert(ray_crosses(x0, y0, angle, count, x, y));
        }
    }
}

/// Draws the first `count` samples of the ray that leaves `(x0, y0)` at
/// `angle`, whatever the ray crosses: each sample gives its pixel the color
/// `color`, on a surface on which one pixel is one world unit. The current
/// color of the surface stays.
pub fn draw_samples(
    framebuffer: &mut Framebuffer,
    x0: i128,
    y0: i128,
    angle: i64,
    count: i128,
    color: Color,
)
    requires
        -0x10_0000_0000_0000_0000_0000_0000 <= x0 <= 0x10_0000_0000_0000_0000_0000_0000,
        -0x10_0000_0000_0000_0000_0000_0000 <= y0 <= 0x10_0000_0000_0000_0000_0000_0000,
        0 <= count <= 0x10_0000_0000_0000_0000_0000_0000,
    ensures
        ray_drawn(
            final(framebuffer),
            old(framebuffer),
            x0 as int,
            y0 as int,
            angle as int,
            count as int,
            color,
        ),
{
    let dx: i128 = cos(angle) as i128;
    let dy: i128 = sin(angle) as i128;
    let width: usize = framebuffer.width();
    let height: usize = framebuffer.height();
    let mut k: i128 = 0;
    while k < count
        invariant
            0 <= k <= count <= 0x10_0000_0000_0000_0000_0000_0000,
            -0x10_0000_0000_0000_0000_0000_0000 <= x0 <= 0x10_0000_0000_0000_0000_0000_0000,
            -0x10_0000_0000_0000_0000_0000_0000 <= y0 <= 0x10_0000_0000_0000_0000_0000_0000,
            width == old(framebuffer).spec_width(),
            height == old(framebuffer).spec_height(),
            dx == cos_spec(angle as int),
            dy == sin_spec(angle as int),
            -ONE <= dx <= ONE,
            -ONE <= dy <= ONE,
            ray_drawn(
                framebuffer,
                old(framebuffer),
                x0 as int,
                y0 as int,
                angle as int,
                k as int,
                color,
            ),
        decreases count - k,
    {
        proof {
            lemma_product_bound(k as int, dx as int, 0x10_0000_0000_0000_0000_0000_0000, ONE as int);
            lemma_product_bound(k as int, dy as int, 0x10_0000_0000_0000_0000_0000_0000, ONE as int);
        }
        let column: i128 = div_floor(x0 + k * dx, ONE as i128);
        let row: i128 = div_floor(y0 + k * dy, ONE as i128);
        if 0 <= column && column < width as i128 && 0 <= row && row < height as i128 {
            framebuffer.put_pixel(column as usize, row as usize, color);
        }
        proof {
            assert forall|px: int, py: int| old(framebuffer).contains(px, py) implies framebuffer.pixel(
                px,
                py,
            ) == if ray_crosses(x0 as int, y0 as int, angle as int, k + 1, px, py) {
                color
            } else {
                old(framebuffer).pixel(px, py)
            } by {
                lemma_one_more_sample(x0 as int, y0 as int, angle as int, k as int, px, py);
            }
        }
        k += 1;
    }
}

/// Casts the ray that leaves the observer at `angle` as [`cast_ray`] does,
/// and draws it on a surface on which one pixel is one world unit: every
/// sample before the one that was stopped gives its pixel the color `color`.
/// The current color of the surface stays.
pub fn draw_ray(
    framebuffer: &mut Framebuffer,
    maze: &Maze,
    player: &Player,
    angle: i64,
    block_size: usize,
    color: Color,
) -> (hit: Intersect)
    requires
        player.wf(),
        1 <= block_size,
    ensures
        hit == cast_ray_spec(maze, *player, angle as int, block_size as int),
        EPSILON <= hit.distance <= MAX_DISTANCE,
        ray_drawn(
            final(framebuffer),
            old(framebuffer),
            player.pos.x as int,
            player.pos.y as int,
            angle as int,
            first_blocked(maze, player.pos, angle as int, block_size as int, 0),
            color,
        ),
{
    let steps: i64 = march(maze, player.pos, angle, block_size);
    draw_samples(
        framebuffer,
        player.pos.x as i128,
        player.pos.y as i128,
        angle,
        steps as i128,
        color,
    );
    intersect_at(maze, player, angle, block_size, steps)
}

} // verus!
