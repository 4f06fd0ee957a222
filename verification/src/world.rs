//! The column renderer: the first-person view of the grid, one ray and one
//! column of pixels at a time, and the depth of every column.

use vstd::prelude::*;
use crate::caster::{
    cast_ray, cast_ray_spec, lemma_wall_one_cell_ahead, one_cell_before_wall, Intersect, MAX_STEPS,
};
use crate::color::{goal_tint, goal_tint_spec, scale_color, scale_color_spec, Color};
use crate::fixed::{
    div_floor, lemma_mul_fixed_unit, lemma_product_bound, mul_fixed, mul_fixed_spec, EPSILON,
    HALF_PI, MAX_DIMENSION, MAX_DISTANCE, ONE, TWO_PI,
};
use crate::framebuffer::{last_in_column, last_painted, Framebuffer};
use crate::maze::{Maze, GOAL};
use crate::player::Player;
use crate::projection::{
    half_height_spec, row_distance, row_distance_spec, row_offset, row_offset_spec, tile_fraction,
    tile_fraction_spec, wall_bottom_spec, wall_span, wall_top_spec,
};
use crate::shading::{
    column_gain, column_gain_spec, edge_gain, edge_gain_spec, floor_gain, floor_gain_spec,
    sky_gain, sky_gain_spec,
};
use crate::texture::{CpuImage, WallTex};
use crate::trig::{
    cos, cos_spec, lemma_normalize_keeps_direction, lemma_normalize_turns, lemma_trig_quarter_turns,
    normalize, normalize_spec, sin, sin_spec,
};
use crate::vector::Vector2;

verus! {

/// The depth of a column in which no wall was recorded: farther than
/// anything in the world.
pub const NO_WALL: i64 = 0x7fff_ffff_ffff_ffff;

/// The angle of the ray of column `x` on a surface `width` columns wide: the
/// heading, less half the field of view, plus the part of the field of view
/// that lies left of the column; brought into the interval from minus half a
/// turn to half a turn.
pub open spec fn column_angle_spec(player: Player, width: int, x: int) -> int {
    normalize_spec(player.a - player.fov / 2 + (player.fov * x) / width)
}

/// What the ray of column `x` strikes.
pub open spec fn column_hit_spec(
    maze: &Maze,
    block_size: int,
    player: Player,
    width: int,
    x: int,
) -> Intersect {
    cast_ray_spec(maze, player, column_angle_spec(player, width, x), block_size)
}

/// The color that the texture `tex`, laid over the ground in tiles of one
/// cell, has at the point that lies `distance` along the ray at `angle`.
pub open spec fn plane_color_spec(
    tex: &CpuImage,
    player: Player,
    block_size: int,
    angle: int,
    distance: int,
) -> Color {
    tex.sample_spec(
        tile_fraction_spec(player.pos.x + mul_fixed_spec(cos_spec(angle), distance), block_size),
        tile_fraction_spec(player.pos.y + mul_fixed_spec(sin_spec(angle), distance), block_size),
    )
}

/// The color of the sky in row `y` of the column whose ray has the angle
/// `angle`.
pub open spec fn sky_color_spec(
    sky: &CpuImage,
    player: Player,
    block_size: int,
    angle: int,
    height: int,
    y: int,
) -> Color {
    scale_color_spec(
        plane_color_spec(sky, player, block_size, angle, row_distance_spec(height, y)),
        sky_gain_spec(height, y),
    )
}

/// The color of the floor in row `y` of the column whose ray has the angle
/// `angle`.
pub open spec fn floor_color_spec(
    floor: &CpuImage,
    player: Player,
    block_size: int,
    angle: int,
    height: int,
    y: int,
) -> Color {
    scale_color_spec(
        plane_color_spec(floor, player, block_size, angle, row_distance_spec(height, y)),
        floor_gain_spec(row_distance_spec(height, y)),
    )
}

/// The horizontal texture coordinate of a wall struck at `point`: the
/// position of the point within its cell along the axis on which it lies
/// farther from a cell boundary. A point on a face that runs along the y
/// axis lies close to a boundary in x, and takes its coordinate from y.
pub open spec fn wall_u_spec(point: Vector2, block_size: int) -> int {
    let fx = tile_fraction_spec(point.x as int, block_size);
    let fy = tile_fraction_spec(point.y as int, block_size);
    let edge_x = if fx < ONE - fx {
        fx
    } else {
        ONE - fx
    };
    let edge_y = if fy < ONE - fy {
        fy
    } else {
        ONE - fy
    };
    if edge_x < edge_y {
        fy
    } else {
        fx
    }
}

/// The vertical texture coordinate of row `y` in the wall span from `top` to
/// `bottom`: zero in the first row, growing toward one.
pub open spec fn wall_v_spec(top: int, bottom: int, y: int) -> int {
    if bottom - top > 1 {
        ((y - top) * ONE) / (bottom - top)
    } else {
        (y - top) * ONE
    }
}

/// The color of a wall in row `y` of its span: the texture `tex` at `u` and
/// at the row's vertical coordinate, drawn toward the goal color where the
/// wall is the goal, multiplied by the gain of the column and then by the
/// edge highlight.
pub open spec fn wall_color_spec(
    tex: &CpuImage,
    impact: char,
    u: int,
    gain: int,
    top: int,
    bottom: int,
    y: int,
) -> Color {
    let v = wall_v_spec(top, bottom, y);
    let sampled = tex.sample_spec(u, v);
    let tinted = if impact == GOAL {
        goal_tint_spec(sampled)
    } else {
        sampled
    };
    scale_color_spec(scale_color_spec(tinted, gain), edge_gain_spec(v))
}

/// The color that the first-person view paints the pixel at column `x`, row
/// `y` with, on a surface of `width` by `height` pixels, or `None` for a
/// pixel that it leaves as it is.
///
/// Above the wall span of the column lies sky, in it the wall, below it
/// floor. A floor pixel exactly in the middle of the surface, which stands
/// for no distance, is left.
pub open spec fn world_paint_spec(
    maze: &Maze,
    block_size: int,
    player: Player,
    walls: &WallTex,
    floor: &CpuImage,
    sky: &CpuImage,
    time: int,
    width: int,
    height: int,
    x: int,
    y: int,
) -> Option<Color> {
    let angle = column_angle_spec(player, width, x);
    let hit = column_hit_spec(maze, block_size, player, width, x);
    let top = wall_top_spec(height, hit.distance as int);
    let bottom = wall_bottom_spec(height, hit.distance as int);
    if y < top {
        Some(sky_color_spec(sky, player, block_size, angle, height, y))
    } else if y < bottom {
        Some(
            wall_color_spec(
                &walls.texture_for(hit.impact),
                hit.impact,
                wall_u_spec(hit.point, block_size),
                column_gain_spec(hit.distance as int, time),
                top,
                bottom,
                y,
            ),
        )
    } else if row_offset_spec(height, y) == 0 {
        None
    } else {
        Some(floor_color_spec(floor, player, block_size, angle, height, y))
    }
}

/// The color of the pixel at column `x`, row `y` of the first-person view,
/// where the pixel was `before`.
pub open spec fn world_pixel_spec(
    before: Color,
    maze: &Maze,
    block_size: int,
    player: Player,
    walls: &WallTex,
    floor: &CpuImage,
    sky: &CpuImage,
    time: int,
    width: int,
    height: int,
    x: int,
    y: int,
) -> Color {
    match world_paint_spec(
        maze,
        block_size,
        player,
        walls,
        floor,
        sky,
        time,
        width,
        height,
        x,
        y,
    ) {
        Some(color) => color,
        None => before,
    }
}

/// What the first-person view paints, pixel by pixel.
pub open spec fn world_paints(
    maze: &Maze,
    block_size: int,
    player: Player,
    walls: &WallTex,
    floor: &CpuImage,
    sky: &CpuImage,
    time: int,
    width: int,
    height: int,
) -> spec_fn(int, int) -> Option<Color> {
    |x: int, y: int|
        world_paint_spec(maze, block_size, player, walls, floor, sky, time, width, height, x, y)
}

/// The current color of the surface after the first-person view was
/// rendered, where it was `before`: the color of the last pixel painted, the
/// lowest painted pixel of the last column.
pub open spec fn world_current_spec(
    before: Color,
    maze: &Maze,
    block_size: int,
    player: Player,
    walls: &WallTex,
    floor: &CpuImage,
    sky: &CpuImage,
    time: int,
    width: int,
    height: int,
) -> Color {
    last_painted(
        before,
        world_paints(maze, block_size, player, walls, floor, sky, time, width, height),
        width,
        height,
    )
}

/// The ray of a column looks along the viewing direction where the field
/// of view is zero, and in the middle column of a surface with an even
/// number of columns.
pub proof fn lemma_column_looks_ahead(player: Player, width: int, x: int)
    requires
        0 <= x < width,
        player.fov == 0 || 2 * x == width,
    ensures
        column_angle_spec(player, width, x) == normalize_spec(player.a as int),
{
    if player.fov == 0 {
        assert(0 * x == 0) by (nonlinear_arith);
        assert(0int / width == 0) by (nonlinear_arith)
            requires
                width > 0,
        ;
    } else {
        let fov = player.fov as int;
        assert((fov * x) / width == fov / 2) by (nonlinear_arith)
            requires
                2 * x == width,
                x > 0,
        ;
    }
}

/// A wall one cell ahead is recorded at the distance of one cell.
///
/// The observer looks along the x axis and stands on the boundary where an
/// open cell begins; the cell behind the open one stops rays, and a cell is
/// narrower than the reach of a ray. Every column whose ray looks along the
/// viewing direction then records exactly the width of a cell: all columns
/// where the field of view is zero, and the middle column of a surface with
/// an even number of columns.
pub proof fn lemma_depth_one_cell_ahead(
    maze: &Maze,
    block_size: int,
    player: Player,
    width: int,
    x: int,
)
    requires
        0 <= x < width,
        player.fov == 0 || 2 * x == width,
        cos_spec(player.a as int) == ONE,
        sin_spec(player.a as int) == 0,
        1 <= block_size < MAX_STEPS,
        one_cell_before_wall(maze, player.pos, block_size),
    ensures
        column_hit_spec(maze, block_size, player, width, x).distance == block_size * ONE,
{
    let a = player.a as int;
    let angle = normalize_spec(a);
    lemma_column_looks_ahead(player, width, x);
    lemma_normalize_keeps_direction(a);
    lemma_normalize_turns(a);
    lemma_trig_quarter_turns();
    assert(cos_spec(angle - a) == ONE) by {
        assert((angle - a + HALF_PI) % (TWO_PI as int) == HALF_PI);
    }
    lemma_wall_one_cell_ahead(maze, player, angle, block_size);
}

/// The angle of the ray of column `x` on a surface `width` columns wide.
pub fn column_angle(player: &Player, width: usize, x: usize) -> (angle: i64)
    requires
        x < width <= MAX_DIMENSION,
    ensures
        angle == column_angle_spec(*player, width as int, x as int),
{
    proof {
        lemma_product_bound(
            player.fov as int,
            x as int,
            0x8000_0000_0000_0000,
            MAX_DIMENSION as int,
        );
    }
    let half: i128 = div_floor(player.fov as i128, 2);
    let swept: i128 = div_floor((player.fov as i128) * (x as i128), width as i128);
    normalize(player.a as i128 - half + swept)
}

/// The color of the tiled texture `tex` at the ground point `distance` along
/// the ray with the direction `(dx, dy)`.
fn plane_color(
    tex: &CpuImage,
    player: &Player,
    block_size: usize,
    dx: i64,
    dy: i64,
    Ghost(angle): Ghost<int>,
    distance: i64,
) -> (c: Color)
    requires
        player.wf(),
        1 <= block_size,
        dx == cos_spec(angle),
        dy == sin_spec(angle),
        -ONE <= dx <= ONE,
        -ONE <= dy <= ONE,
        0 <= distance <= 11_468_800_000,
    ensures
        c == plane_color_spec(tex, *player, block_size as int, angle, distance as int),
{
    proof {
        lemma_mul_fixed_unit(distance as int, dx as int);
        lemma_mul_fixed_unit(distance as int, dy as int);
        assert(dx * distance == distance * dx) by (nonlinear_arith);
        assert(dy * distance == distance * dy) by (nonlinear_arith);
    }
    let gx: i64 = player.pos.x + mul_fixed(dx, distance);
    let gy: i64 = player.pos.y + mul_fixed(dy, distance);
    tex.sample_repeat(tile_fraction(gx, block_size), tile_fraction(gy, block_size))
}

/// The horizontal texture coordinate of a wall struck at `point`.
fn wall_u(point: Vector2, block_size: usize) -> (u: i64)
    requires
        1 <= block_size,
    ensures
        u == wall_u_spec(point, block_size as int),
{
    let fx: i64 = tile_fraction(point.x, block_size);
    let fy: i64 = tile_fraction(point.y, block_size);
    let edge_x: i64 = if fx < ONE - fx {
        fx
    } else {
        ONE - fx
    };
    let edge_y: i64 = if fy < ONE - fy {
        fy
    } else {
        ONE - fy
    };
    if edge_x < edge_y {
        fy
    } else {
        fx
    }
}

/// The color of a wall in row `y` of its span.
fn wall_color(
    tex: &CpuImage,
    impact: char,
    u: i64,
    gain: i64,
    top: usize,
    bottom: usize,
    y: usize,
) -> (c: Color)
    requires
        top <= y < bottom <= MAX_DIMENSION,
    ensures
        c == wall_color_spec(tex, impact, u as int, gain as int, top as int, bottom as int, y as int),
{
    let rows: i64 = (bottom - top) as i64;
    let v: i64 = if rows > 1 {
        ((y - top) as i64 * ONE) / rows
    } else {
        (y - top) as i64 * ONE
    };
    let sampled = tex.sample_repeat(u, v);
    let tinted = if impact == GOAL {
        goal_tint(sampled)
    } else {
        sampled
    };
    scale_color(scale_color(tinted, gain), edge_gain(v))
}

/// Whether `after` is `before` with the first-person view painted into
/// column `x`, in the rows before `rows`.
pub open spec fn column_painted(
    after: &Framebuffer,
    before: &Framebuffer,
    maze: &Maze,
    block_size: int,
    player: Player,
    walls: &WallTex,
    floor: &CpuImage,
    sky: &CpuImage,
    time: int,
    x: int,
    rows: int,
) -> bool {
    &&& after.same_frame(before)
    &&& forall|px: int, py: int|
        before.contains(px, py) ==> after.pixel(px, py) == if px == x && py < rows {
            world_pixel_spec(
                before.pixel(px, py),
                maze,
                block_size,
                player,
                walls,
                floor,
                sky,
                time,
                before.spec_width() as int,
                before.spec_height() as int,
                px,
                py,
            )
        } else {
            before.pixel(px, py)
        }
}

/// Paints column `x` of the first-person view. Returns the distance of the
/// wall in that column, and the color of the last pixel painted, or `last`
/// where none was.
fn render_column(
    framebuffer: &mut Framebuffer,
    maze: &Maze,
    block_size: usize,
    player: &Player,
    walls: &WallTex,
    floor_tex: &CpuImage,
    sky_tex: &CpuImage,
    time: i64,
    x: usize,
    last: Color,
) -> (done: (i64, Color))
    requires
        player.wf(),
        1 <= block_size,
        x < old(framebuffer).spec_width(),
    ensures
        column_painted(
            final(framebuffer),
            old(framebuffer),
            maze,
            block_size as int,
            *player,
            walls,
            floor_tex,
            sky_tex,
            time as int,
            x as int,
            old(framebuffer).spec_height() as int,
        ),
        done.0 == column_hit_spec(
            maze,
            block_size as int,
            *player,
            old(framebuffer).spec_width() as int,
            x as int,
        ).distance,
        EPSILON <= done.0 <= MAX_DISTANCE,
        done.1 == last_in_column(
            last,
            world_paints(
                maze,
                block_size as int,
                *player,
                walls,
                floor_tex,
                sky_tex,
                time as int,
                old(framebuffer).spec_width() as int,
                old(framebuffer).spec_height() as int,
            ),
            x as int,
            old(framebuffer).spec_height() as int,
        ),
{
    let width: usize = framebuffer.width();
    let height: usize = framebuffer.height();
    let angle: i64 = column_angle(player, width, x);
    let dx: i64 = cos(angle);
    let dy: i64 = sin(angle);
    let hit: Intersect = cast_ray(maze, player, angle, block_size);
    let (top, bottom) = wall_span(height, hit.distance);
    let tex: &CpuImage = walls.for_cell(hit.impact);
    let u: i64 = wall_u(hit.point, block_size);
    let gain: i64 = column_gain(hit.distance, time);
    let ghost paints = world_paints(
        maze,
        block_size as int,
        *player,
        walls,
        floor_tex,
        sky_tex,
        time as int,
        width as int,
        height as int,
    );
    let mut current: Color = last;
    let mut y: usize = 0;
    while y < height
        invariant
            y <= height,
            height == old(framebuffer).spec_height(),
            width == old(framebuffer).spec_width(),
            height <= MAX_DIMENSION,
            x < width,
            player.wf(),
            1 <= block_size,
            angle == column_angle_spec(*player, width as int, x as int),
            dx == cos_spec(angle as int),
            dy == sin_spec(angle as int),
            -ONE <= dx <= ONE,
            -ONE <= dy <= ONE,
            hit == column_hit_spec(maze, block_size as int, *player, width as int, x as int),
            top == wall_top_spec(height as int, hit.distance as int),
            bottom == wall_bottom_spec(height as int, hit.distance as int),
            top <= bottom <= height,
            top * ONE <= half_height_spec(height as int),
            *tex == walls.texture_for(hit.impact),
            u == wall_u_spec(hit.point, block_size as int),
            gain == column_gain_spec(hit.distance as int, time as int),
            paints == world_paints(
                maze,
                block_size as int,
                *player,
                walls,
                floor_tex,
                sky_tex,
                time as int,
                width as int,
                height as int,
            ),
            current == last_in_column(last, paints, x as int, y as int),
            column_painted(
                framebuffer,
                old(framebuffer),
                maze,
                block_size as int,
                *player,
                walls,
                floor_tex,
                sky_tex,
                time as int,
                x as int,
                y as int,
            ),
        decreases height - y,
    {
        if y < top {
            let d: i64 = row_distance(height, y);
            let sampled = plane_color(sky_tex, player, block_size, dx, dy, Ghost(angle as int), d);
            current = scale_color(sampled, sky_gain(height, y));
            framebuffer.put_pixel(x, y, current);
        } else if y < bottom {
            current = wall_color(tex, hit.impact, u, gain, top, bottom, y);
            framebuffer.put_pixel(x, y, current);
        } else if row_offset(height, y) != 0 {
            let d: i64 = row_distance(height, y);
            let sampled = plane_color(floor_tex, player, block_size, dx, dy, Ghost(angle as int), d);
            current = scale_color(sampled, floor_gain(d));
            framebuffer.put_pixel(x, y, current);
        }
        y += 1;
    }
    (hit.distance, current)
}

/// Whether `after` shows the first-person view in the columns before
/// `columns` and is as `before` in the others.
pub open spec fn world_painted(
    after: &Framebuffer,
    before: &Framebuffer,
    maze: &Maze,
    block_size: int,
    player: Player,
    walls: &WallTex,
    floor: &CpuImage,
    sky: &CpuImage,
    time: int,
    columns: int,
) -> bool {
    &&& after.same_surface(before)
    &&& forall|px: int, py: int|
        before.contains(px, py) ==> after.pixel(px, py) == if px < columns {
            world_pixel_spec(
                before.pixel(px, py),
                maze,
                block_size,
                player,
                walls,
                floor,
                sky,
                time,
                before.spec_width() as int,
                before.spec_height() as int,
                px,
                py,
            )
        } else {
            before.pixel(px, py)
        }
}

/// Whether `after` holds the wall distances of the columns before `columns`
/// of a surface `width` columns wide, as far as the buffer reaches, and is as
/// `before` in its other entries.
pub open spec fn depth_written(
    after: Seq<i64>,
    before: Seq<i64>,
    maze: &Maze,
    block_size: int,
    player: Player,
    width: int,
    columns: int,
) -> bool {
    &&& after.len() == before.len()
    &&& forall|i: int|
        0 <= i < after.len() ==> after[i] == if i < columns {
            column_hit_spec(maze, block_size, player, width, i).distance
        } else {
            before[i]
        }
}

/// Renders the first-person view of `maze`, as `player` sees it, onto
/// `framebuffer`, and records the distance of the wall of every column in
/// `depth`.
///
/// Every pixel of the surface takes the color that [`world_pixel_spec`]
/// gives; the size and the background color of the surface stay, and the
/// color of the last pixel painted becomes its current color. Entry `i` of
/// `depth` takes the perpendicular distance of the wall in column `i`,
/// whether the ray struck a wall or not; entries for which the surface has
/// no column stay, and columns for which the buffer has no entry are painted
/// all the same.
pub fn render_world(
    framebuffer: &mut Framebuffer,
    maze: &Maze,
    block_size: usize,
    player: &Player,
    walls: &WallTex,
    floor_tex: &CpuImage,
    sky_tex: &CpuImage,
    tron_time: i64,
    depth: &mut Vec<i64>,
)
    requires
        player.wf(),
        1 <= block_size,
    ensures
        world_painted(
            final(framebuffer),
            old(framebuffer),
            maze,
            block_size as int,
            *player,
            walls,
            floor_tex,
            sky_tex,
            tron_time as int,
            old(framebuffer).spec_width() as int,
        ),
        final(framebuffer).spec_current() == world_current_spec(
            old(framebuffer).spec_current(),
            maze,
            block_size as int,
            *player,
            walls,
            floor_tex,
            sky_tex,
            tron_time as int,
            old(framebuffer).spec_width() as int,
            old(framebuffer).spec_height() as int,
        ),
        depth_written(
            final(depth)@,
            old(depth)@,
            maze,
            block_size as int,
            *player,
            old(framebuffer).spec_width() as int,
            old(framebuffer).spec_width() as int,
        ),
        forall|i: int|
            0 <= i < final(depth)@.len() && i < old(framebuffer).spec_width() ==> EPSILON
                <= #[trigger] final(depth)@[i] <= MAX_DISTANCE,
{
    let width: usize = framebuffer.width();
    let ghost height = framebuffer.spec_height() as int;
    let ghost paints = world_paints(
        maze,
        block_size as int,
        *player,
        walls,
        floor_tex,
        sky_tex,
        tron_time as int,
        width as int,
        height,
    );
    let mut current: Color = framebuffer.current_color();
    let mut x: usize = 0;
    while x < width
        invariant
            x <= width,
            width == old(framebuffer).spec_width(),
            height == old(framebuffer).spec_height(),
            player.wf(),
            1 <= block_size,
            framebuffer.spec_current() == old(framebuffer).spec_current(),
            paints == world_paints(
                maze,
                block_size as int,
                *player,
                walls,
                floor_tex,
                sky_tex,
                tron_time as int,
                width as int,
                height,
            ),
            current == last_painted(old(framebuffer).spec_current(), paints, x as int, height),
            world_painted(
                framebuffer,
                old(framebuffer),
                maze,
                block_size as int,
                *player,
                walls,
                floor_tex,
                sky_tex,
                tron_time as int,
                x as int,
            ),
            depth_written(
                depth@,
                old(depth)@,
                maze,
                block_size as int,
                *player,
                width as int,
                x as int,
            ),
            forall|i: int|
                0 <= i < depth@.len() && i < x ==> EPSILON <= #[trigger] depth@[i] <= MAX_DISTANCE,
        decreases width - x,
    {
        let (distance, last) = render_column(
            framebuffer,
            maze,
            block_size,
            player,
            walls,
            floor_tex,
            sky_tex,
            tron_time,
            x,
            current,
        );
        current = last;
        if x < depth.len() {
            depth[x] = distance;
        }
        x += 1;
    }
    framebuffer.set_current_color(current);
}

/// A depth buffer for a surface `width` columns wide, with no wall recorded
/// in any column.
pub fn new_depth(width: usize) -> (depth: Vec<i64>)
    ensures
        depth@.len() == width,
        forall|i: int| 0 <= i < width ==> depth@[i] == NO_WALL,
{
    let mut depth: Vec<i64> = Vec::new();
    let mut i: usize = 0;
    while i < width
        invariant
            i <= width,
            depth@.len() == i,
            forall|k: int| 0 <= k < i ==> depth@[k] == NO_WALL,
        decreases width - i,
    {
        depth.push(NO_WALL);
        i += 1;
    }
    depth
}

/// Forgets the walls of the last frame: every entry of `depth` records no
/// wall.
pub fn reset_depth(depth: &mut Vec<i64>)
    ensures
        final(depth)@.len() == old(depth)@.len(),
        forall|i: int| 0 <= i < final(depth)@.len() ==> final(depth)@[i] == NO_WALL,
{
    let count: usize = depth.len();
    let mut i: usize = 0;
    while i < count
        invariant
            i <= count,
            depth@.len() == count,
            count == old(depth)@.len(),
            forall|k: int| 0 <= k < i ==> depth@[k] == NO_WALL,
        decreases count - i,
    {
        depth[i] = NO_WALL;
        i += 1;
    }
}

} // verus!
