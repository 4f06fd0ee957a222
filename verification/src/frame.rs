//! One frame of the first-person view: the walls first, which fill the depth
//! buffer, the sprites after them, which read it.

use vstd::prelude::*;
use crate::color::Color;
use crate::fixed::{EPSILON, MAX_DISTANCE};
use crate::framebuffer::Framebuffer;
use crate::maze::Maze;
use crate::player::Player;
use crate::sprite::{
    all_in_world, render_sprites, sort_spec, sprites_current_spec, sprites_pixel_spec, Sprite,
};
use crate::texture::{CpuImage, WallTex};
use crate::world::{
    column_hit_spec, render_world, reset_depth, world_current_spec, world_pixel_spec, NO_WALL,
};

verus! {

/// The depth that the walls of one frame leave in entry `i` of a buffer:
/// the distance of the wall in column `i` where the surface has that column,
/// no wall elsewhere.
pub open spec fn frame_depth_spec(
    maze: &Maze,
    block_size: int,
    player: Player,
    width: int,
    i: int,
) -> i64 {
    if i < width {
        column_hit_spec(maze, block_size, player, width, i).distance
    } else {
        NO_WALL
    }
}

/// The color of the pixel `(x, y)` of a frame: the sprites, in the order
/// `sprites` in which they are drawn, over the walls, the floor and the sky,
/// over the background color.
pub open spec fn frame_pixel_spec(
    background: Color,
    maze: &Maze,
    block_size: int,
    player: Player,
    walls: &WallTex,
    floor: &CpuImage,
    sky: &CpuImage,
    time: int,
    sprites: Seq<Sprite>,
    depth: Seq<i64>,
    width: int,
    height: int,
    x: int,
    y: int,
) -> Color {
    sprites_pixel_spec(
        world_pixel_spec(
            background,
            maze,
            block_size,
            player,
            walls,
            floor,
            sky,
            time,
            width,
            height,
            x,
            y,
        ),
        sprites,
        sprites.len() as int,
        player,
        depth,
        width,
        height,
        x,
        y,
    )
}

/// Renders one frame of the first-person view.
///
/// The surface is cleared and the depth buffer reset. The walls, the floor
/// and the sky are rendered, and the distance of the wall of every column is
/// recorded. Only then the sprites are drawn, the farthest first, each
/// hidden by the walls that are not farther than it is. The sprites stay in
/// the order in which they were drawn.
pub fn render_frame(
    framebuffer: &mut Framebuffer,
    maze: &Maze,
    block_size: usize,
    player: &Player,
    walls: &WallTex,
    floor_tex: &CpuImage,
    sky_tex: &CpuImage,
    tron_time: i64,
    sprites: &mut Vec<Sprite>,
    depth: &mut Vec<i64>,
)
    requires
        player.wf(),
        1 <= block_size,
        all_in_world(old(sprites)@),
    ensures
        final(framebuffer).same_surface(old(framebuffer)),
        final(framebuffer).spec_current() == sprites_current_spec(
            world_current_spec(
                old(framebuffer).spec_current(),
                maze,
                block_size as int,
                *player,
                walls,
                floor_tex,
                sky_tex,
                tron_time as int,
                old(framebuffer).spec_width() as int,
                old(framebuffer).spec_height() as int,
            ),
            final(sprites)@,
            final(sprites)@.len() as int,
            *player,
            final(depth)@,
            old(framebuffer).spec_width() as int,
            old(framebuffer).spec_height() as int,
        ),
        final(sprites)@ == sort_spec(old(sprites)@, player.pos),
        final(depth)@.len() == old(depth)@.len(),
        forall|i: int|
            0 <= i < final(depth)@.len() ==> #[trigger] final(depth)@[i] == frame_depth_spec(
                maze,
                block_size as int,
                *player,
                old(framebuffer).spec_width() as int,
                i,
            ),
        forall|i: int|
            0 <= i < final(depth)@.len() && i < old(framebuffer).spec_width() ==> EPSILON
                <= #[trigger] final(depth)@[i] <= MAX_DISTANCE,
        forall|px: int, py: int|
            old(framebuffer).contains(px, py) ==> final(framebuffer).pixel(px, py)
                == frame_pixel_spec(
                old(framebuffer).spec_background(),
                maze,
                block_size as int,
                *player,
                walls,
                floor_tex,
                sky_tex,
                tron_time as int,
                final(sprites)@,
                final(depth)@,
                old(framebuffer).spec_width() as int,
                old(framebuffer).spec_height() as int,
                px,
                py,
            ),
{
    framebuffer.clear();
    reset_depth(depth);
    render_world(framebuffer, maze, block_size, player, walls, floor_tex, sky_tex, tron_time, depth);
    render_sprites(framebuffer, player, sprites, depth);
}

} // verus!
