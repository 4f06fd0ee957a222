//! The billboard renderer: animated sprites that always face the observer,
//! drawn over the first-person view and hidden by nearer walls.

use vstd::prelude::*;
use vstd::seq_lib::{to_multiset_build, to_multiset_insert};
use crate::color::Color;
use crate::fixed::{
    abs_spec, clamp_spec, div_floor, isqrt, lemma_product_bound, mod_floor, sqrt_spec, EPSILON,
    MAX_COORD, MAX_DIMENSION, ONE, PI,
};
use crate::framebuffer::{
    last_in_column, last_painted, lemma_columns_skipped, lemma_rows_skipped, Framebuffer,
};
use crate::player::Player;
use crate::projection::{half_height, half_height_spec, wall_height, wall_height_spec};
use crate::texture::CpuImage;
use crate::trig::{atan2, atan2_spec, normalize, normalize_spec};
use crate::vector::Vector2;
use crate::world::NO_WALL;

verus! {

/// An animated billboard in the world.
#[derive(Debug)]
pub struct Sprite {
    /// The position in the world.
    pub pos: Vector2,
    /// The frames of the animation, in the order in which they are shown.
    pub frames: Vec<CpuImage>,
    /// The number of frames shown per second.
    pub fps: i64,
    /// The time for which the animation has run, in seconds.
    pub t: i64,
    /// The size of the sprite as a multiple of the height of a wall at the
    /// same distance.
    pub scale: i64,
}

/// The sum `a + b`, limited to the range of `i64`.
pub open spec fn saturating_sum_spec(a: int, b: int) -> int {
    if a + b > i64::MAX {
        i64::MAX as int
    } else if a + b < i64::MIN {
        i64::MIN as int
    } else {
        a + b
    }
}

/// The index of the frame shown after `t` seconds at `fps` frames per second,
/// of `count` frames: the whole number of frames that have passed, none for a
/// negative product, wrapped around at the number of frames. With no frames
/// the count is taken as one.
pub open spec fn frame_index_spec(t: int, fps: int, count: int) -> int {
    let passed = (t * fps) / (ONE * ONE);
    let shown = if passed < 0 {
        0
    } else {
        passed
    };
    if count <= 1 {
        0
    } else {
        shown % count
    }
}

/// The square of the distance between `a` and `b`.
pub open spec fn distance_squared_spec(a: Vector2, b: Vector2) -> int {
    (a.x - b.x) * (a.x - b.x) + (a.y - b.y) * (a.y - b.y)
}

/// The distance from the observer at `eye` to a sprite at `pos`, at least
/// [`EPSILON`].
pub open spec fn sprite_distance_spec(pos: Vector2, eye: Vector2) -> int {
    let d = sqrt_spec(distance_squared_spec(pos, eye));
    if d < EPSILON {
        EPSILON as int
    } else {
        d
    }
}

/// The angle between the viewing direction and the direction from the
/// observer to `pos`, greater than minus half a turn and at most half a
/// turn.
pub open spec fn sprite_angle_spec(pos: Vector2, player: Player) -> int {
    normalize_spec(atan2_spec(pos.y - player.pos.y, pos.x - player.pos.x) - player.a)
}

/// Whether a sprite at `pos` lies in the field of view: the field of view is
/// positive, and the angle to the sprite does not exceed half of it.
pub open spec fn sprite_visible_spec(pos: Vector2, player: Player) -> bool {
    player.fov > 0 && 2 * abs_spec(sprite_angle_spec(pos, player)) <= player.fov
}

/// The column of the surface on which the middle of a visible sprite falls.
pub open spec fn sprite_center_spec(pos: Vector2, player: Player, width: int) -> int {
    (((sprite_angle_spec(pos, player) * ONE) / (player.fov as int) + 5_000) * width) / (ONE as int)
}

/// The height and width of a sprite on the surface, in fixed-point pixels:
/// the height of a wall at its distance, times its scale.
pub open spec fn sprite_extent_spec(pos: Vector2, scale: int, eye: Vector2, height: int) -> int {
    (wall_height_spec(height, sprite_distance_spec(pos, eye)) * scale) / (ONE as int)
}

/// The first column of the sprite's rectangle.
pub open spec fn sprite_left_spec(sprite: &Sprite, player: Player, width: int, height: int)
    -> int {
    sprite_center_spec(sprite.pos, player, width) - (sprite_extent_spec(
        sprite.pos,
        sprite.scale as int,
        player.pos,
        height,
    ) / (ONE as int)) / 2
}

/// The column after the last column of the sprite's rectangle.
pub open spec fn sprite_right_spec(sprite: &Sprite, player: Player, width: int, height: int)
    -> int {
    sprite_left_spec(sprite, player, width, height) + sprite_extent_spec(
        sprite.pos,
        sprite.scale as int,
        player.pos,
        height,
    ) / (ONE as int)
}

/// The first row of the sprite's rectangle.
pub open spec fn sprite_top_spec(sprite: &Sprite, player: Player, height: int) -> int {
    (half_height_spec(height) - sprite_extent_spec(
        sprite.pos,
        sprite.scale as int,
        player.pos,
        height,
    ) / 2) / (ONE as int)
}

/// The row after the last row of the sprite's rectangle.
pub open spec fn sprite_bottom_spec(sprite: &Sprite, player: Player, height: int) -> int {
    (half_height_spec(height) + sprite_extent_spec(
        sprite.pos,
        sprite.scale as int,
        player.pos,
        height,
    ) / 2) / (ONE as int)
}

/// The distance of the wall in column `x`, as `depth` records it; a column
/// without an entry has no wall at any distance.
pub open spec fn depth_at_spec(depth: Seq<i64>, x: int) -> int {
    if 0 <= x < depth.len() {
        depth[x] as int
    } else {
        NO_WALL as int
    }
}

/// Whether the pixel `(x, y)` lies in the rectangle of the sprite, the
/// sprite has a frame to show and lies in the field of view.
pub open spec fn sprite_covers(
    sprite: &Sprite,
    player: Player,
    width: int,
    height: int,
    x: int,
    y: int,
) -> bool {
    &&& sprite.frames@.len() > 0
    &&& sprite_visible_spec(sprite.pos, player)
    &&& sprite_left_spec(sprite, player, width, height) <= x < sprite_right_spec(
        sprite,
        player,
        width,
        height,
    )
    &&& sprite_top_spec(sprite, player, height) <= y < sprite_bottom_spec(sprite, player, height)
}

/// The color of the sprite's current frame at the pixel `(x, y)` of its
/// rectangle.
pub open spec fn sprite_texel_spec(
    sprite: &Sprite,
    player: Player,
    width: int,
    height: int,
    x: int,
    y: int,
) -> Color {
    let left = sprite_left_spec(sprite, player, width, height);
    let right = sprite_right_spec(sprite, player, width, height);
    let top = sprite_top_spec(sprite, player, height);
    let bottom = sprite_bottom_spec(sprite, player, height);
    sprite.frames@[frame_index_spec(
        sprite.t as int,
        sprite.fps as int,
        sprite.frames@.len() as int,
    )].sample_spec(((x - left) * ONE) / (right - left), ((y - top) * ONE) / (bottom - top))
}

/// The color that the sprite paints the pixel `(x, y)` with, or `None` for
/// a pixel that it leaves as it is. The sprite paints where it covers the
/// pixel, its frame is not fully transparent there, and the sprite is
/// strictly nearer than the wall of column `x`.
pub open spec fn sprite_paint_spec(
    sprite: &Sprite,
    player: Player,
    depth: Seq<i64>,
    width: int,
    height: int,
    x: int,
    y: int,
) -> Option<Color> {
    if !sprite_covers(sprite, player, width, height, x, y) {
        None
    } else if sprite_texel_spec(sprite, player, width, height, x, y).a == 0 {
        None
    } else if sprite_distance_spec(sprite.pos, player.pos) >= depth_at_spec(depth, x) {
        None
    } else {
        Some(sprite_texel_spec(sprite, player, width, height, x, y))
    }
}

/// The color of the pixel `(x, y)` after the sprite was drawn over the color
/// `before`.
pub open spec fn sprite_pixel_spec(
    before: Color,
    sprite: &Sprite,
    player: Player,
    depth: Seq<i64>,
    width: int,
    height: int,
    x: int,
    y: int,
) -> Color {
    match sprite_paint_spec(sprite, player, depth, width, height, x, y) {
        Some(color) => color,
        None => before,
    }
}

/// What the sprite paints, pixel by pixel.
pub open spec fn sprite_paints(
    sprite: &Sprite,
    player: Player,
    depth: Seq<i64>,
    width: int,
    height: int,
) -> spec_fn(int, int) -> Option<Color> {
    |x: int, y: int| sprite_paint_spec(sprite, player, depth, width, height, x, y)
}

/// The current color of the surface after the sprite was drawn, where it
/// was `before`: the color of the last pixel that the sprite painted, going
/// through its columns from the left and through each column from the top.
pub open spec fn sprite_current_spec(
    before: Color,
    sprite: &Sprite,
    player: Player,
    depth: Seq<i64>,
    width: int,
    height: int,
) -> Color {
    last_painted(before, sprite_paints(sprite, player, depth, width, height), width, height)
}

/// A sprite at or behind the wall of a column leaves every pixel of that
/// column as it was.
pub proof fn lemma_sprite_hidden_behind_wall(
    before: Color,
    sprite: &Sprite,
    player: Player,
    depth: Seq<i64>,
    width: int,
    height: int,
    x: int,
    y: int,
)
    requires
        0 <= x < depth.len(),
        depth[x] <= sprite_distance_spec(sprite.pos, player.pos),
    ensures
        sprite_pixel_spec(before, sprite, player, depth, width, height, x, y) == before,
{
}

/// A sprite strictly nearer than the wall of a column shows its frame in
/// every pixel of that column that it covers and in which the frame is not
/// fully transparent.
pub proof fn lemma_sprite_drawn_before_wall(
    before: Color,
    sprite: &Sprite,
    player: Player,
    depth: Seq<i64>,
    width: int,
    height: int,
    x: int,
    y: int,
)
    requires
        sprite_distance_spec(sprite.pos, player.pos) < depth_at_spec(depth, x),
        sprite_covers(sprite, player, width, height, x, y),
        sprite_texel_spec(sprite, player, width, height, x, y).a > 0,
    ensures
        sprite_pixel_spec(before, sprite, player, depth, width, height, x, y) == sprite_texel_spec(
            sprite,
            player,
            width,
            height,
            x,
            y,
        ),
{
}

/// The square of the distance between two points of the world.
pub fn distance_squared(a: Vector2, b: Vector2) -> (d2: u64)
    requires
        a.in_world(),
        b.in_world(),
    ensures
        d2 == distance_squared_spec(a, b),
        d2 <= 8_000_000_000_000_000_000,
{
    let dx: i64 = a.x - b.x;
    let dy: i64 = a.y - b.y;
    proof {
        lemma_product_bound(dx as int, dx as int, 2 * MAX_COORD, 2 * MAX_COORD);
        lemma_product_bound(dy as int, dy as int, 2 * MAX_COORD, 2 * MAX_COORD);
        assert(dx * dx >= 0) by (nonlinear_arith);
        assert(dy * dy >= 0) by (nonlinear_arith);
    }
    ((dx as i128) * (dx as i128) + (dy as i128) * (dy as i128)) as u64
}

/// The distance from the observer at `eye` to a sprite at `pos`, at least
/// [`EPSILON`].
pub fn sprite_distance(pos: Vector2, eye: Vector2) -> (d: i64)
    requires
        pos.in_world(),
        eye.in_world(),
    ensures
        d == sprite_distance_spec(pos, eye),
        EPSILON <= d < 0x1_0000_0000,
{
    let root: u64 = isqrt(distance_squared(pos, eye));
    if root < EPSILON as u64 {
        EPSILON
    } else {
        root as i64
    }
}

impl Sprite {
    /// A sprite at `pos` that shows `frames` at `fps` frames per second,
    /// `scale` times the height of a wall, with its animation at the start.
    pub fn new(pos: Vector2, frames: Vec<CpuImage>, fps: i64, scale: i64) -> (sprite: Sprite)
        ensures
            sprite.pos == pos,
            sprite.frames == frames,
            sprite.fps == fps,
            sprite.t == 0,
            sprite.scale == scale,
    {
        Sprite { pos, frames, fps, t: 0, scale }
    }

    /// Advances the animation by `dt` seconds. The time stops at the ends of
    /// the range of `i64`.
    pub fn update(&mut self, dt: i64)
        ensures
            final(self).t == saturating_sum_spec(old(self).t as int, dt as int),
            final(self).pos == old(self).pos,
            final(self).frames == old(self).frames,
            final(self).fps == old(self).fps,
            final(self).scale == old(self).scale,
    {
        let sum: i128 = self.t as i128 + dt as i128;
        self.t = if sum > i64::MAX as i128 {
            i64::MAX
        } else if sum < i64::MIN as i128 {
            i64::MIN
        } else {
            sum as i64
        };
    }

    /// The index of the frame that the animation shows now.
    pub fn frame_index(&self) -> (index: usize)
        ensures
            index == frame_index_spec(
                self.t as int,
                self.fps as int,
                self.frames@.len() as int,
            ),
            self.frames@.len() > 0 ==> index < self.frames@.len(),
    {
        let count: usize = self.frames.len();
        if count <= 1 {
            return 0;
        }
        proof {
            lemma_product_bound(
                self.t as int,
                self.fps as int,
                0x8000_0000_0000_0000,
                0x8000_0000_0000_0000,
            );
        }
        let passed: i128 = div_floor((self.t as i128) * (self.fps as i128), 100_000_000);
        let shown: i128 = if passed < 0 {
            0
        } else {
            passed
        };
        mod_floor(shown, count as i128) as usize
    }

    /// The frame that the animation shows now, or `None` for a sprite without
    /// frames.
    pub fn current_frame(&self) -> (frame: Option<&CpuImage>)
        ensures
            frame.is_some() == (self.frames@.len() > 0),
            frame matches Some(f) ==> *f == self.frames@[frame_index_spec(
                self.t as int,
                self.fps as int,
                self.frames@.len() as int,
            )],
    {
        if self.frames.len() == 0 {
            None
        } else {
            Some(&self.frames[self.frame_index()])
        }
    }
}

/// The rectangle of a visible sprite on the surface, and its distance.
struct Billboard {
    distance: i64,
    left: i128,
    right: i128,
    top: i128,
    bottom: i128,
}

impl Billboard {
    /// Whether the sides of the rectangle are small enough to be multiplied
    /// by the fixed-point scale without leaving the range of `i128`.
    spec fn within_reach(&self) -> bool {
        &&& -0x1000_0000_0000_0000_0000_0000_0000 <= self.left
            <= 0x1000_0000_0000_0000_0000_0000_0000
        &&& -0x1000_0000_0000_0000_0000_0000_0000 <= self.right
            <= 0x1000_0000_0000_0000_0000_0000_0000
        &&& -0x1000_0000_0000_0000_0000_0000_0000 <= self.top
            <= 0x1000_0000_0000_0000_0000_0000_0000
        &&& -0x1000_0000_0000_0000_0000_0000_0000 <= self.bottom
            <= 0x1000_0000_0000_0000_0000_0000_0000
    }
}

/// The angle between the viewing direction and the direction to `pos`.
pub fn sprite_angle(pos: Vector2, player: &Player) -> (angle: i64)
    requires
        pos.in_world(),
        player.wf(),
    ensures
        angle == sprite_angle_spec(pos, *player),
        -PI < angle <= PI,
{
    let toward: i64 = atan2(pos.y - player.pos.y, pos.x - player.pos.x);
    normalize(toward as i128 - player.a as i128)
}

/// Tells whether a sprite at `pos` lies in the field of view.
pub fn sprite_visible(pos: Vector2, player: &Player) -> (visible: bool)
    requires
        pos.in_world(),
        player.wf(),
    ensures
        visible == sprite_visible_spec(pos, *player),
{
    let angle: i64 = sprite_angle(pos, player);
    let spread: i64 = if angle < 0 {
        2 * (-angle)
    } else {
        2 * angle
    };
    player.fov > 0 && spread <= player.fov
}

/// The rectangle of the sprite on a surface of `width` by `height` pixels,
/// or `None` where the sprite lies outside the field of view.
fn billboard(sprite: &Sprite, player: &Player, width: usize, height: usize) -> (b: Option<
    Billboard,
>)
    requires
        sprite.pos.in_world(),
        player.wf(),
        width <= MAX_DIMENSION,
        height <= MAX_DIMENSION,
    ensures
        b.is_some() == sprite_visible_spec(sprite.pos, *player),
        b matches Some(bb) ==> {
            &&& bb.distance == sprite_distance_spec(sprite.pos, player.pos)
            &&& bb.left == sprite_left_spec(sprite, *player, width as int, height as int)
            &&& bb.right == sprite_right_spec(sprite, *player, width as int, height as int)
            &&& bb.top == sprite_top_spec(sprite, *player, height as int)
            &&& bb.bottom == sprite_bottom_spec(sprite, *player, height as int)
            &&& bb.within_reach()
        },
{
    if !sprite_visible(sprite.pos, player) {
        return None;
    }
    let angle: i64 = sprite_angle(sprite.pos, player);
    let part: i128 = div_floor((angle as i128) * (ONE as i128), player.fov as i128);
    proof {
        assert(-ONE <= (angle * ONE) / (player.fov as int) <= ONE) by (nonlinear_arith)
            requires
                player.fov > 0,
                -player.fov <= 2 * angle <= player.fov,
                ONE == 10_000,
        ;
        lemma_product_bound(part + 5_000, width as int, 15_000, MAX_DIMENSION as int);
    }
    let center: i128 = div_floor((part + 5_000) * (width as i128), ONE as i128);
    let distance: i64 = sprite_distance(sprite.pos, player.pos);
    let tall: i64 = wall_height(height, distance);
    proof {
        lemma_product_bound(
            tall as int,
            sprite.scale as int,
            57_344_000_000_000,
            0x8000_0000_0000_0000,
        );
    }
    let extent: i128 = div_floor((tall as i128) * (sprite.scale as i128), ONE as i128);
    let size: i128 = div_floor(extent, ONE as i128);
    let left: i128 = center - div_floor(size, 2);
    let middle: i128 = half_height(height) as i128;
    let half: i128 = div_floor(extent, 2);
    Some(
        Billboard {
            distance,
            left,
            right: left + size,
            top: div_floor(middle - half, ONE as i128),
            bottom: div_floor(middle + half, ONE as i128),
        },
    )
}

/// The wall distance that `depth` records for column `x`.
pub fn depth_at(depth: &Vec<i64>, x: usize) -> (d: i64)
    ensures
        d == depth_at_spec(depth@, x as int),
{
    if x < depth.len() {
        depth[x]
    } else {
        NO_WALL
    }
}

/// `v` limited to the interval from zero to `limit`.
fn clip(v: i128, limit: usize) -> (r: usize)
    ensures
        r == clamp_spec(v as int, 0, limit as int),
{
    if v < 0 {
        0
    } else if v > limit as i128 {
        limit
    } else {
        v as usize
    }
}

/// Whether `after` shows the sprite drawn over `before` in the columns before
/// `x` and in the rows before `y` of column `x`, and is as `before` in every
/// other pixel.
pub open spec fn sprite_painted(
    after: &Framebuffer,
    before: &Framebuffer,
    sprite: &Sprite,
    player: Player,
    depth: Seq<i64>,
    x: int,
    y: int,
) -> bool {
    &&& after.same_frame(before)
    &&& forall|px: int, py: int|
        before.contains(px, py) ==> after.pixel(px, py) == if px < x || (px == x && py < y) {
            sprite_pixel_spec(
                before.pixel(px, py),
                sprite,
                player,
                depth,
                before.spec_width() as int,
                before.spec_height() as int,
                px,
                py,
            )
        } else {
            before.pixel(px, py)
        }
}

/// Paints one sprite over the surface and leaves the current color of the
/// surface as it is. Returns the color of the last pixel painted, or `last`
/// where none was.
fn paint_sprite(
    framebuffer: &mut Framebuffer,
    player: &Player,
    sprite: &Sprite,
    depth: &Vec<i64>,
    last: Color,
) -> (current: Color)
    requires
        player.wf(),
        sprite.pos.in_world(),
    ensures
        sprite_painted(
            final(framebuffer),
            old(framebuffer),
            sprite,
            *player,
            depth@,
            old(framebuffer).spec_width() as int,
            0,
        ),
        current == sprite_current_spec(
            last,
            sprite,
            *player,
            depth@,
            old(framebuffer).spec_width() as int,
            old(framebuffer).spec_height() as int,
        ),
{
    let width: usize = framebuffer.width();
    let height: usize = framebuffer.height();
    let ghost paints = sprite_paints(sprite, *player, depth@, width as int, height as int);
    let frame: &CpuImage = match sprite.current_frame() {
        Some(f) => f,
        None => {
            proof {
                lemma_columns_skipped(last, paints, 0, width as int, height as int);
            }
            return last;
        },
    };
    let bb: Billboard = match billboard(sprite, player, width, height) {
        Some(b) => b,
        None => {
            proof {
                lemma_columns_skipped(last, paints, 0, width as int, height as int);
            }
            return last;
        },
    };
    let first_x: usize = clip(bb.left, width);
    let last_x: usize = clip(bb.right, width);
    let first_y: usize = clip(bb.top, height);
    let last_y: usize = clip(bb.bottom, height);
    if first_x >= last_x || first_y >= last_y {
        proof {
            lemma_columns_skipped(last, paints, 0, width as int, height as int);
        }
        return last;
    }
    proof {
        lemma_columns_skipped(last, paints, 0, first_x as int, height as int);
    }
    let mut current: Color = last;
    let mut sx: usize = first_x;
    while sx < last_x
        invariant
            first_x <= sx <= last_x <= width,
            first_y < last_y <= height,
            width == old(framebuffer).spec_width(),
            height == old(framebuffer).spec_height(),
            width <= MAX_DIMENSION,
            height <= MAX_DIMENSION,
            sprite.frames@.len() > 0,
            *frame == sprite.frames@[frame_index_spec(
                sprite.t as int,
                sprite.fps as int,
                sprite.frames@.len() as int,
            )],
            sprite_visible_spec(sprite.pos, *player),
            bb.distance == sprite_distance_spec(sprite.pos, player.pos),
            bb.left == sprite_left_spec(sprite, *player, width as int, height as int),
            bb.right == sprite_right_spec(sprite, *player, width as int, height as int),
            bb.top == sprite_top_spec(sprite, *player, height as int),
            bb.bottom == sprite_bottom_spec(sprite, *player, height as int),
            bb.within_reach(),
            bb.left < bb.right,
            bb.top < bb.bottom,
            first_x == clamp_spec(bb.left as int, 0, width as int),
            last_x == clamp_spec(bb.right as int, 0, width as int),
            first_y == clamp_spec(bb.top as int, 0, height as int),
            last_y == clamp_spec(bb.bottom as int, 0, height as int),
            sprite_painted(framebuffer, old(framebuffer), sprite, *player, depth@, sx as int, 0),
            paints == sprite_paints(sprite, *player, depth@, width as int, height as int),
            current == last_painted(last, paints, sx as int, height as int),
        decreases last_x - sx,
    {
        let ghost column_start = current;
        proof {
            lemma_rows_skipped(column_start, paints, sx as int, 0, first_y as int);
        }
        proof {
            assert(0 <= ((sx - bb.left) * ONE) / ((bb.right - bb.left) as int) < ONE)
                by (nonlinear_arith)
                requires
                    bb.left <= sx < bb.right,
                    ONE == 10_000,
            ;
        }
        let u: i64 = (((sx as i128 - bb.left) * (ONE as i128)) / (bb.right - bb.left)) as i64;
        let wall: i64 = depth_at(depth, sx);
        let mut sy: usize = first_y;
        while sy < last_y
            invariant
                first_x <= sx < last_x <= width,
                first_y <= sy <= last_y <= height,
                width == old(framebuffer).spec_width(),
                height == old(framebuffer).spec_height(),
                sprite.frames@.len() > 0,
                *frame == sprite.frames@[frame_index_spec(
                    sprite.t as int,
                    sprite.fps as int,
                    sprite.frames@.len() as int,
                )],
                sprite_visible_spec(sprite.pos, *player),
                bb.distance == sprite_distance_spec(sprite.pos, player.pos),
                bb.left == sprite_left_spec(sprite, *player, width as int, height as int),
                bb.right == sprite_right_spec(sprite, *player, width as int, height as int),
                bb.top == sprite_top_spec(sprite, *player, height as int),
                bb.bottom == sprite_bottom_spec(sprite, *player, height as int),
                bb.within_reach(),
                bb.left < bb.right,
                bb.top < bb.bottom,
                first_x == clamp_spec(bb.left as int, 0, width as int),
                last_x == clamp_spec(bb.right as int, 0, width as int),
                first_y == clamp_spec(bb.top as int, 0, height as int),
                last_y == clamp_spec(bb.bottom as int, 0, height as int),
                u == ((sx - bb.left) * ONE) / ((bb.right - bb.left) as int),
                wall == depth_at_spec(depth@, sx as int),
                sprite_painted(
                    framebuffer,
                    old(framebuffer),
                    sprite,
                    *player,
                    depth@,
                    sx as int,
                    if sy == first_y {
                        0
                    } else {
                        sy as int
                    },
                ),
                paints == sprite_paints(sprite, *player, depth@, width as int, height as int),
                column_start == last_painted(last, paints, sx as int, height as int),
                current == last_in_column(column_start, paints, sx as int, sy as int),
            decreases last_y - sy,
        {
            proof {
                assert(0 <= ((sy - bb.top) * ONE) / ((bb.bottom - bb.top) as int) < ONE)
                    by (nonlinear_arith)
                    requires
                        bb.top <= sy < bb.bottom,
                        ONE == 10_000,
                ;
            }
            let v: i64 = (((sy as i128 - bb.top) * (ONE as i128)) / (bb.bottom - bb.top)) as i64;
            let color: Color = frame.sample_repeat(u, v);
            if color.a > 0 && bb.distance < wall {
                framebuffer.put_pixel(sx, sy, color);
                current = color;
            }
            sy += 1;
        }
        proof {
            lemma_rows_skipped(column_start, paints, sx as int, last_y as int, height as int);
        }
        sx += 1;
    }
    proof {
        lemma_columns_skipped(last, paints, last_x as int, width as int, height as int);
    }
    current
}

/// Draws one sprite over the surface, hidden by nearer walls.
///
/// Every pixel of the surface takes the color that [`sprite_pixel_spec`]
/// gives, and the color of the last pixel painted becomes the current color
/// of the surface. The depth buffer is read and not written: a sprite hides
/// no other sprite through it.
pub fn draw_sprite(
    framebuffer: &mut Framebuffer,
    player: &Player,
    sprite: &Sprite,
    depth: &Vec<i64>,
)
    requires
        player.wf(),
        sprite.pos.in_world(),
    ensures
        final(framebuffer).same_surface(old(framebuffer)),
        final(framebuffer).spec_current() == sprite_current_spec(
            old(framebuffer).spec_current(),
            sprite,
            *player,
            depth@,
            old(framebuffer).spec_width() as int,
            old(framebuffer).spec_height() as int,
        ),
        forall|px: int, py: int|
            old(framebuffer).contains(px, py) ==> final(framebuffer).pixel(px, py)
                == sprite_pixel_spec(
                old(framebuffer).pixel(px, py),
                sprite,
                *player,
                depth@,
                old(framebuffer).spec_width() as int,
                old(framebuffer).spec_height() as int,
                px,
                py,
            ),
{
    let last = framebuffer.current_color();
    let current = paint_sprite(framebuffer, player, sprite, depth, last);
    framebuffer.set_current_color(current);
}


/// Where a sprite whose squared distance is `key` enters the sequence
/// `sorted`: behind the last sprite that is at least as far from `eye`.
pub open spec fn insert_position(sorted: Seq<Sprite>, key: int, eye: Vector2) -> int
    decreases sorted.len(),
{
    if sorted.len() == 0 {
        0
    } else if distance_squared_spec(sorted.last().pos, eye) >= key {
        sorted.len() as int
    } else {
        insert_position(sorted.drop_last(), key, eye)
    }
}

/// The sprites in the order in which they are drawn: the farthest from `eye`
/// first. Sprites at the same distance keep the order in which they came.
pub open spec fn sort_spec(sprites: Seq<Sprite>, eye: Vector2) -> Seq<Sprite>
    decreases sprites.len(),
{
    if sprites.len() == 0 {
        sprites
    } else {
        let sorted = sort_spec(sprites.drop_last(), eye);
        sorted.insert(
            insert_position(sorted, distance_squared_spec(sprites.last().pos, eye), eye),
            sprites.last(),
        )
    }
}

/// Whether every sprite of the sequence is at least as far from `eye` as the
/// sprites behind it.
pub open spec fn farthest_first(sprites: Seq<Sprite>, eye: Vector2) -> bool {
    forall|i: int, j: int|
        0 <= i < j < sprites.len() ==> distance_squared_spec(sprites[i].pos, eye)
            >= distance_squared_spec(sprites[j].pos, eye)
}

/// The insert position lies within the sequence or at its end; the sprite
/// before it, if there is one, is at least as far as the key, and every
/// sprite from it on is nearer.
pub proof fn lemma_insert_position(sorted: Seq<Sprite>, key: int, eye: Vector2)
    ensures
        0 <= insert_position(sorted, key, eye) <= sorted.len(),
        insert_position(sorted, key, eye) > 0 ==> distance_squared_spec(
            sorted[insert_position(sorted, key, eye) - 1].pos,
            eye,
        ) >= key,
        forall|k: int|
            insert_position(sorted, key, eye) <= k < sorted.len() ==> distance_squared_spec(
                sorted[k].pos,
                eye,
            ) < key,
    decreases sorted.len(),
{
    if sorted.len() > 0 && distance_squared_spec(sorted.last().pos, eye) < key {
        let front = sorted.drop_last();
        lemma_insert_position(front, key, eye);
        assert forall|k: int|
            insert_position(sorted, key, eye) <= k < sorted.len() implies distance_squared_spec(
            sorted[k].pos,
            eye,
        ) < key by {
            if k < front.len() {
                assert(front[k] == sorted[k]);
            }
        }
        if insert_position(sorted, key, eye) > 0 {
            assert(front[insert_position(sorted, key, eye) - 1] == sorted[insert_position(
                sorted,
                key,
                eye,
            ) - 1]);
        }
    }
}

/// The draw order holds the sprites that were given, each as often as it was
/// given.
pub proof fn lemma_sort_permutes(sprites: Seq<Sprite>, eye: Vector2)
    ensures
        sort_spec(sprites, eye).len() == sprites.len(),
        sort_spec(sprites, eye).to_multiset() == sprites.to_multiset(),
    decreases sprites.len(),
{
    if sprites.len() > 0 {
        let rest = sprites.drop_last();
        let sorted = sort_spec(rest, eye);
        let key = distance_squared_spec(sprites.last().pos, eye);
        lemma_sort_permutes(rest, eye);
        lemma_insert_position(sorted, key, eye);
        to_multiset_insert(sorted, insert_position(sorted, key, eye), sprites.last());
        assert(sprites == rest.push(sprites.last()));
        to_multiset_build(rest, sprites.last());
    }
}

/// The draw order runs from the farthest sprite to the nearest.
pub proof fn lemma_sort_farthest_first(sprites: Seq<Sprite>, eye: Vector2)
    ensures
        farthest_first(sort_spec(sprites, eye), eye),
    decreases sprites.len(),
{
    if sprites.len() > 0 {
        let sorted = sort_spec(sprites.drop_last(), eye);
        let key = distance_squared_spec(sprites.last().pos, eye);
        let p = insert_position(sorted, key, eye);
        lemma_sort_farthest_first(sprites.drop_last(), eye);
        lemma_insert_position(sorted, key, eye);
        let result = sorted.insert(p, sprites.last());
        assert forall|i: int, j: int| 0 <= i < j < result.len() implies distance_squared_spec(
            result[i].pos,
            eye,
        ) >= distance_squared_spec(result[j].pos, eye) by {
            if j == p {
                if i < p && p > 0 {
                    assert(distance_squared_spec(sorted[i].pos, eye) >= distance_squared_spec(
                        sorted[p - 1].pos,
                        eye,
                    ));
                }
            }
        }
    }
}

/// Sprites that already stand in the order in which they are drawn stay as
/// they are; in particular, sprites at the same distance keep their order.
pub proof fn lemma_sort_keeps_sorted(sprites: Seq<Sprite>, eye: Vector2)
    requires
        farthest_first(sprites, eye),
    ensures
        sort_spec(sprites, eye) == sprites,
    decreases sprites.len(),
{
    if sprites.len() > 0 {
        let front = sprites.drop_last();
        lemma_sort_keeps_sorted(front, eye);
        if front.len() > 0 {
            assert(front.last() == sprites[front.len() - 1]);
        }
        assert(front.insert(front.len() as int, sprites.last()) =~= sprites);
    }
}

/// Whether every sprite of the sequence lies within the supported extent of
/// the world.
pub open spec fn all_in_world(sprites: Seq<Sprite>) -> bool {
    forall|i: int| 0 <= i < sprites.len() ==> (#[trigger] sprites[i]).pos.in_world()
}

/// Puts the sprites into the order in which they are drawn: the farthest
/// from `eye` first, sprites at the same distance in the order in which they
/// came.
pub fn sort_by_distance(sprites: &mut Vec<Sprite>, eye: Vector2)
    requires
        eye.in_world(),
        all_in_world(old(sprites)@),
    ensures
        final(sprites)@ == sort_spec(old(sprites)@, eye),
        all_in_world(final(sprites)@),
{
    let count: usize = sprites.len();
    let mut i: usize = 0;
    assert(old(sprites)@.take(0) =~= Seq::<Sprite>::empty());
    assert(sprites@ =~= sort_spec(old(sprites)@.take(0), eye) + old(sprites)@.skip(0));
    while i < count
        invariant
            i <= count,
            count == old(sprites)@.len(),
            eye.in_world(),
            all_in_world(sprites@),
            sprites@ == sort_spec(old(sprites)@.take(i as int), eye) + old(sprites)@.skip(
                i as int,
            ),
            sort_spec(old(sprites)@.take(i as int), eye).len() == i,
        decreases count - i,
    {
        let ghost head = sort_spec(old(sprites)@.take(i as int), eye);
        let ghost tail = old(sprites)@.skip(i as int + 1);
        let moved: Sprite = sprites.remove(i);
        assert(sprites@ =~= head + tail);
        assert(moved == old(sprites)@[i as int]);
        let key: u64 = distance_squared(moved.pos, eye);
        let mut j: usize = i;
        assert(head.take(i as int) =~= head);
        while j > 0 && distance_squared(sprites[j - 1].pos, eye) < key
            invariant
                j <= i,
                i + tail.len() == sprites@.len(),
                eye.in_world(),
                all_in_world(sprites@),
                sprites@ == head + tail,
                head.len() == i,
                insert_position(head, key as int, eye) == insert_position(
                    head.take(j as int),
                    key as int,
                    eye,
                ),
            decreases j,
        {
            assert(head.take(j as int).drop_last() =~= head.take(j as int - 1));
            j -= 1;
        }
        proof {
            assert(head.take(i as int) =~= head);
            if j > 0 {
                assert(head.take(j as int).last() == sprites@[j as int - 1]);
            }
            assert(insert_position(head, key as int, eye) == j);
            let grown = old(sprites)@.take(i as int + 1);
            assert(grown.drop_last() =~= old(sprites)@.take(i as int));
            assert(grown.last() == moved);
            assert(sort_spec(grown, eye) == head.insert(j as int, moved));
        }
        sprites.insert(j, moved);
        assert(sprites@ =~= sort_spec(old(sprites)@.take(i as int + 1), eye) + tail);
        i += 1;
    }
    assert(old(sprites)@.take(count as int) =~= old(sprites)@);
    assert(sprites@ =~= sort_spec(old(sprites)@, eye));
}

/// The color of the pixel `(x, y)` after the first `count` sprites of the
/// sequence were drawn, one over the other, over the color `before`.
pub open spec fn sprites_pixel_spec(
    before: Color,
    sprites: Seq<Sprite>,
    count: int,
    player: Player,
    depth: Seq<i64>,
    width: int,
    height: int,
    x: int,
    y: int,
) -> Color
    decreases count,
{
    if count <= 0 {
        before
    } else {
        sprite_pixel_spec(
            sprites_pixel_spec(before, sprites, count - 1, player, depth, width, height, x, y),
            &sprites[count - 1],
            player,
            depth,
            width,
            height,
            x,
            y,
        )
    }
}

/// Where the wall of a column is not farther than any of the sprites, the
/// sprites leave every pixel of that column as it was.
pub proof fn lemma_sprites_hidden_behind_wall(
    before: Color,
    sprites: Seq<Sprite>,
    count: int,
    player: Player,
    depth: Seq<i64>,
    width: int,
    height: int,
    x: int,
    y: int,
)
    requires
        0 <= count <= sprites.len(),
        0 <= x < depth.len(),
        forall|i: int|
            0 <= i < count ==> depth[x] <= sprite_distance_spec(
                (#[trigger] sprites[i]).pos,
                player.pos,
            ),
    ensures
        sprites_pixel_spec(before, sprites, count, player, depth, width, height, x, y) == before,
    decreases count,
{
    if count > 0 {
        lemma_sprites_hidden_behind_wall(
            before,
            sprites,
            count - 1,
            player,
            depth,
            width,
            height,
            x,
            y,
        );
        lemma_sprite_hidden_behind_wall(
            before,
            &sprites[count - 1],
            player,
            depth,
            width,
            height,
            x,
            y,
        );
    }
}

/// The current color of the surface after the first `count` sprites of the
/// sequence were drawn, where it was `before`: the color of the last pixel
/// that any of them painted.
pub open spec fn sprites_current_spec(
    before: Color,
    sprites: Seq<Sprite>,
    count: int,
    player: Player,
    depth: Seq<i64>,
    width: int,
    height: int,
) -> Color
    decreases count,
{
    if count <= 0 {
        before
    } else {
        sprite_current_spec(
            sprites_current_spec(before, sprites, count - 1, player, depth, width, height),
            &sprites[count - 1],
            player,
            depth,
            width,
            height,
        )
    }
}

/// Whether `after` shows the first `count` sprites drawn over `before`.
pub open spec fn sprites_painted(
    after: &Framebuffer,
    before: &Framebuffer,
    sprites: Seq<Sprite>,
    count: int,
    player: Player,
    depth: Seq<i64>,
) -> bool {
    &&& after.same_surface(before)
    &&& forall|px: int, py: int|
        before.contains(px, py) ==> after.pixel(px, py) == sprites_pixel_spec(
            before.pixel(px, py),
            sprites,
            count,
            player,
            depth,
            before.spec_width() as int,
            before.spec_height() as int,
            px,
            py,
        )
}

/// Draws the sprites over the first-person view, after the walls of the same
/// frame were rendered and their distances recorded in `depth`.
///
/// The sprites are first put into the order in which they are drawn, the
/// farthest from the observer first, and stay in that order. Each is then
/// drawn over what is there, hidden in every column by a wall that is not
/// farther than the sprite. The depth buffer is not written.
pub fn render_sprites(
    framebuffer: &mut Framebuffer,
    player: &Player,
    sprites: &mut Vec<Sprite>,
    depth: &Vec<i64>,
)
    requires
        player.wf(),
        all_in_world(old(sprites)@),
    ensures
        final(sprites)@ == sort_spec(old(sprites)@, player.pos),
        sprites_painted(
            final(framebuffer),
            old(framebuffer),
            final(sprites)@,
            final(sprites)@.len() as int,
            *player,
            depth@,
        ),
        final(framebuffer).spec_current() == sprites_current_spec(
            old(framebuffer).spec_current(),
            final(sprites)@,
            final(sprites)@.len() as int,
            *player,
            depth@,
            old(framebuffer).spec_width() as int,
            old(framebuffer).spec_height() as int,
        ),
{
    sort_by_distance(sprites, player.pos);
    let count: usize = sprites.len();
    let mut current: Color = framebuffer.current_color();
    let mut i: usize = 0;
    while i < count
        invariant
            i <= count,
            count == sprites@.len(),
            player.wf(),
            all_in_world(sprites@),
            sprites@ == sort_spec(old(sprites)@, player.pos),
            sprites_painted(framebuffer, old(framebuffer), sprites@, i as int, *player, depth@),
            framebuffer.spec_current() == old(framebuffer).spec_current(),
            current == sprites_current_spec(
                old(framebuffer).spec_current(),
                sprites@,
                i as int,
                *player,
                depth@,
                old(framebuffer).spec_width() as int,
                old(framebuffer).spec_height() as int,
            ),
        decreases count - i,
    {
        current = paint_sprite(framebuffer, player, &sprites[i], depth, current);
        i += 1;
    }
    framebuffer.set_current_color(current);
}

} // verus!
