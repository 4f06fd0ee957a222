//! The views from above: the top-down view of the grid with the rays of the
//! observer, and the small overlay map.

use vstd::prelude::*;
use crate::caster::{draw_ray, draw_samples, first_blocked, ray_crosses};
use crate::color::{
    cell_to_color, cell_to_color_spec, rgba, tron_wall_color, tron_wall_color_spec, Color,
};
use crate::fixed::{div_floor, lemma_product_bound, lemma_product_range, MAX_COORD, ONE};
use crate::framebuffer::Framebuffer;
use crate::maze::{in_grid, Maze, EMPTY};
use crate::player::Player;
use crate::world::{column_angle, column_angle_spec};

verus! {

/// The colors in which a view from above shows the cells.
#[derive(Clone, Copy, Debug, PartialEq, Eq, Structural)]
pub enum Palette {
    /// The colors of the top-down view.
    TopDown,
    /// The colors of the overlay map.
    Overlay,
}

/// The color of the cell symbol `cell` in the palette `palette`.
pub open spec fn palette_color_spec(palette: Palette, cell: char) -> Color {
    match palette {
        Palette::TopDown => cell_to_color_spec(cell),
        Palette::Overlay => tron_wall_color_spec(cell),
    }
}

/// The color of the cell symbol `cell` in the palette `palette`.
pub fn palette_color(palette: Palette, cell: char) -> (c: Color)
    ensures
        c == palette_color_spec(palette, cell),
{
    match palette {
        Palette::TopDown => cell_to_color(cell),
        Palette::Overlay => tron_wall_color(cell),
    }
}

/// Whether `after` is `before` with the color `color` in every pixel of the
/// rectangle from `(x0, y0)` up to, but not including, `(x1, y1)`.
pub open spec fn rect_filled(
    after: &Framebuffer,
    before: &Framebuffer,
    x0: int,
    y0: int,
    x1: int,
    y1: int,
    color: Color,
) -> bool {
    &&& after.same_frame(before)
    &&& forall|px: int, py: int|
        before.contains(px, py) ==> after.pixel(px, py) == if x0 <= px < x1 && y0 <= py < y1 {
            color
        } else {
            before.pixel(px, py)
        }
}

/// Gives the color `color` to every pixel of the surface that lies in the
/// rectangle from `(x0, y0)` up to, but not including, `(x1, y1)`.
pub fn fill_rect(
    framebuffer: &mut Framebuffer,
    x0: usize,
    y0: usize,
    x1: usize,
    y1: usize,
    color: Color,
)
    ensures
        rect_filled(
            final(framebuffer),
            old(framebuffer),
            x0 as int,
            y0 as int,
            x1 as int,
            y1 as int,
            color,
        ),
{
    let width: usize = framebuffer.width();
    let height: usize = framebuffer.height();
    let right: usize = if x1 < width {
        x1
    } else {
        width
    };
    let below: usize = if y1 < height {
        y1
    } else {
        height
    };
    if x0 >= right || y0 >= below {
        return ;
    }
    let mut x: usize = x0;
    while x < right
        invariant
            x0 <= x <= right,
            y0 < below,
            right == if x1 < width {
                x1
            } else {
                width
            },
            below == if y1 < height {
                y1
            } else {
                height
            },
            width == old(framebuffer).spec_width(),
            height == old(framebuffer).spec_height(),
            rect_filled(
                framebuffer,
                old(framebuffer),
                x0 as int,
                y0 as int,
                x as int,
                y1 as int,
                color,
            ),
        decreases right - x,
    {
        let mut y: usize = y0;
        while y < below
            invariant
                x0 <= x < right,
                y0 <= y <= below,
                right <= width,
                below <= height,
                below == if y1 < height {
                    y1
                } else {
                    height
                },
                width == old(framebuffer).spec_width(),
                height == old(framebuffer).spec_height(),
                framebuffer.same_frame(old(framebuffer)),
                forall|px: int, py: int|
                    old(framebuffer).contains(px, py) ==> framebuffer.pixel(px, py) == if (x0
                        <= px < x && y0 <= py < y1) || (px == x && y0 <= py < y) {
                        color
                    } else {
                        old(framebuffer).pixel(px, py)
                    },
            decreases below - y,
        {
            framebuffer.put_pixel(x, y, color);
            y += 1;
        }
        x += 1;
    }
}

/// The color of the pixel `(x, y)` after the cells of `maze` were drawn over
/// the color `before` as squares of `size` pixels, the cell of row zero and
/// column zero with its corner at `(origin_x, origin_y)`. A pixel in the
/// square of a cell that is not empty takes the cell's color; every other
/// pixel keeps its color.
pub open spec fn grid_pixel_spec(
    before: Color,
    maze: &Maze,
    size: int,
    origin_x: int,
    origin_y: int,
    palette: Palette,
    x: int,
    y: int,
) -> Color {
    if size <= 0 || x < origin_x || y < origin_y {
        before
    } else {
        let row = (y - origin_y) / size;
        let column = (x - origin_x) / size;
        if in_grid(maze, row, column) && maze@[row]@[column] != EMPTY {
            palette_color_spec(palette, maze@[row]@[column])
        } else {
            before
        }
    }
}

/// Whether `after` shows the cells of the rows before `rows`, and of the
/// columns before `columns` in row `rows`, drawn over `before`.
pub open spec fn grid_painted(
    after: &Framebuffer,
    before: &Framebuffer,
    maze: &Maze,
    size: int,
    origin_x: int,
    origin_y: int,
    palette: Palette,
    rows: int,
    columns: int,
) -> bool {
    &&& after.same_frame(before)
    &&& forall|px: int, py: int|
        before.contains(px, py) ==> after.pixel(px, py) == if size > 0 && px >= origin_x && py
            >= origin_y && ((py - origin_y) / size < rows || ((py - origin_y) / size == rows && (px
            - origin_x) / size < columns)) {
            grid_pixel_spec(before.pixel(px, py), maze, size, origin_x, origin_y, palette, px, py)
        } else {
            before.pixel(px, py)
        }
}

/// A pixel lies in the square of the cell with index `k` exactly when its
/// offset from the origin, divided by the size of a cell, is `k`.
proof fn lemma_cell_of_pixel(offset: int, size: int, k: int)
    by (nonlinear_arith)
    requires
        size > 0,
        offset >= 0,
        k >= 0,
    ensures
        (k * size <= offset < (k + 1) * size) <==> offset / size == k,
        (k + 1) * size == k * size + size,
        k * size >= 0,
{
}

/// `origin + index * size`, limited to `limit`.
fn cell_edge(origin: usize, index: usize, size: usize, limit: usize) -> (edge: usize)
    ensures
        edge == if origin + index * size < limit {
            origin + index * size
        } else {
            limit as int
        },
{
    proof {
        lemma_product_range(
            index as int,
            size as int,
            0xffff_ffff_ffff_ffff,
            0xffff_ffff_ffff_ffff,
        );
        assert(0xffff_ffff_ffff_ffffint * 0xffff_ffff_ffff_ffffint
            == 0xffff_ffff_ffff_fffe_0000_0000_0000_0001);
    }
    let at: u128 = (origin as u128) + (index as u128) * (size as u128);
    if at < limit as u128 {
        at as usize
    } else {
        limit
    }
}

/// Draws the cells of `maze` as squares of `size` pixels, the cell of row
/// zero and column zero with its corner at `(origin_x, origin_y)`. Empty
/// cells are not drawn.
pub fn draw_grid(
    framebuffer: &mut Framebuffer,
    maze: &Maze,
    size: usize,
    origin_x: usize,
    origin_y: usize,
    palette: Palette,
)
    ensures
        final(framebuffer).same_frame(old(framebuffer)),
        forall|px: int, py: int|
            old(framebuffer).contains(px, py) ==> final(framebuffer).pixel(px, py)
                == grid_pixel_spec(
                old(framebuffer).pixel(px, py),
                maze,
                size as int,
                origin_x as int,
                origin_y as int,
                palette,
                px,
                py,
            ),
{
    if size == 0 {
        return ;
    }
    let width: usize = framebuffer.width();
    let height: usize = framebuffer.height();
    let mut i: usize = 0;
    while i < maze.len()
        invariant
            i <= maze@.len(),
            0 < size,
            width == old(framebuffer).spec_width(),
            height == old(framebuffer).spec_height(),
            grid_painted(
                framebuffer,
                old(framebuffer),
                maze,
                size as int,
                origin_x as int,
                origin_y as int,
                palette,
                i as int,
                0,
            ),
        decreases maze@.len() - i,
    {
        let top: usize = cell_edge(origin_y, i, size, height);
        let bottom: usize = cell_edge(origin_y, i + 1, size, height);
        let mut j: usize = 0;
        while j < maze[i].len()
            invariant
                i < maze@.len(),
                j <= maze@[i as int]@.len(),
                0 < size,
                width == old(framebuffer).spec_width(),
                height == old(framebuffer).spec_height(),
                top == if origin_y + i * size < height {
                    origin_y + i * size
                } else {
                    height as int
                },
                bottom == if origin_y + (i + 1) * size < height {
                    origin_y + (i + 1) * size
                } else {
                    height as int
                },
                grid_painted(
                    framebuffer,
                    old(framebuffer),
                    maze,
                    size as int,
                    origin_x as int,
                    origin_y as int,
                    palette,
                    i as int,
                    j as int,
                ),
            decreases maze@[i as int]@.len() - j,
        {
            let cell: char = maze[i][j];
            if cell != EMPTY {
                let left: usize = cell_edge(origin_x, j, size, width);
                let right: usize = cell_edge(origin_x, j + 1, size, width);
                fill_rect(framebuffer, left, top, right, bottom, palette_color(palette, cell));
            }
            proof {
                assert forall|px: int, py: int| old(framebuffer).contains(px, py) implies (
                    if px >= origin_x && py >= origin_y && ((py - origin_y) / (size as int) < i || ((py - origin_y) / (size as int) == i && (px - origin_x) / (size as int) < j + 1)) {
                        framebuffer.pixel(px, py) == grid_pixel_spec(
                            old(framebuffer).pixel(px, py),
                            maze,
                            size as int,
                            origin_x as int,
                            origin_y as int,
                            palette,
                            px,
                            py,
                        )
                    } else {
                        framebuffer.pixel(px, py) == old(framebuffer).pixel(px, py)
                    }
                ) by {
                    if px >= origin_x {
                        lemma_cell_of_pixel(px - origin_x, size as int, j as int);
                    }
                    if py >= origin_y {
                        lemma_cell_of_pixel(py - origin_y, size as int, i as int);
                    }
                }
            }
            j += 1;
        }
        proof {
            assert forall|px: int, py: int| old(framebuffer).contains(px, py) implies (
                if px >= origin_x && py >= origin_y && (py - origin_y) / (size as int) < i + 1 {
                    framebuffer.pixel(px, py) == grid_pixel_spec(
                        old(framebuffer).pixel(px, py),
                        maze,
                        size as int,
                        origin_x as int,
                        origin_y as int,
                        palette,
                        px,
                        py,
                    )
                } else {
                    framebuffer.pixel(px, py) == old(framebuffer).pixel(px, py)
                }
            ) by {
                if px >= origin_x && py >= origin_y {
                    assert((px - origin_x) / (size as int) >= 0) by (nonlinear_arith)
                        requires
                            px - origin_x >= 0,
                            size > 0,
                    ;
                }
            }
        }
        i += 1;
    }
    proof {
        assert forall|px: int, py: int| old(framebuffer).contains(px, py) implies framebuffer.pixel(
            px,
            py,
        ) == grid_pixel_spec(
            old(framebuffer).pixel(px, py),
            maze,
            size as int,
            origin_x as int,
            origin_y as int,
            palette,
            px,
            py,
        ) by {
            if px >= origin_x && py >= origin_y {
                assert((py - origin_y) / (size as int) >= 0) by (nonlinear_arith)
                    requires
                        py - origin_y >= 0,
                        size > 0,
                ;
            }
        }
    }
}

/// The number of rays that the top-down view shows.
pub const VIEW_RAYS: usize = 5;

/// Draws one cell of the top-down view: a square of `block_size` pixels with
/// its corner at `(xo, yo)`, in the color of the symbol `cell`, which
/// becomes the current color of the surface. An empty cell is not drawn and
/// leaves the current color as it is.
pub fn draw_cell(framebuffer: &mut Framebuffer, xo: usize, yo: usize, block_size: usize, cell: char)
    ensures
        final(framebuffer).same_surface(old(framebuffer)),
        final(framebuffer).spec_current() == if cell == EMPTY {
            old(framebuffer).spec_current()
        } else {
            cell_to_color_spec(cell)
        },
        forall|px: int, py: int|
            old(framebuffer).contains(px, py) ==> final(framebuffer).pixel(px, py) == if cell
                != EMPTY && xo <= px < xo + block_size && yo <= py < yo + block_size {
                cell_to_color_spec(cell)
            } else {
                old(framebuffer).pixel(px, py)
            },
{
    if cell == EMPTY {
        return ;
    }
    let width: usize = framebuffer.width();
    let height: usize = framebuffer.height();
    proof {
        assert(1 * block_size == block_size) by (nonlinear_arith);
    }
    let right: usize = cell_edge(xo, 1, block_size, width);
    let below: usize = cell_edge(yo, 1, block_size, height);
    let color = cell_to_color(cell);
    fill_rect(framebuffer, xo, yo, right, below, color);
    framebuffer.set_current_color(color);
}

/// Whether ray `r` of the top-down view crosses the pixel `(x, y)` before it
/// is stopped.
pub open spec fn view_ray_crosses(
    maze: &Maze,
    block_size: int,
    player: Player,
    r: int,
    x: int,
    y: int,
) -> bool {
    ray_crosses(
        player.pos.x as int,
        player.pos.y as int,
        column_angle_spec(player, VIEW_RAYS as int, r),
        first_blocked(
            maze,
            player.pos,
            column_angle_spec(player, VIEW_RAYS as int, r),
            block_size,
            0,
        ),
        x,
        y,
    )
}

/// The color of the pixel `(x, y)` after the first `count` rays of the
/// top-down view were drawn over the color `before`.
pub open spec fn view_rays_pixel_spec(
    before: Color,
    maze: &Maze,
    block_size: int,
    player: Player,
    count: int,
    x: int,
    y: int,
) -> Color
    decreases count,
{
    if count <= 0 {
        before
    } else if view_ray_crosses(maze, block_size, player, count - 1, x, y) {
        rgba(245, 245, 245, 255)
    } else {
        view_rays_pixel_spec(before, maze, block_size, player, count - 1, x, y)
    }
}

/// The color of the pixel `(x, y)` of the top-down view, where the pixel was
/// `before`: the rays of the observer over the cells of the grid. One pixel
/// is one world unit.
pub open spec fn top_down_pixel_spec(
    before: Color,
    maze: &Maze,
    block_size: int,
    player: Player,
    x: int,
    y: int,
) -> Color {
    view_rays_pixel_spec(
        grid_pixel_spec(before, maze, block_size, 0, 0, Palette::TopDown, x, y),
        maze,
        block_size,
        player,
        VIEW_RAYS as int,
        x,
        y,
    )
}

/// Renders the top-down view: every cell of the grid that is not empty as a
/// square of `block_size` pixels, and over the cells five rays that fan out
/// from the observer across its field of view, each drawn up to the cell
/// that stops it. The color of the rays becomes the current color of the
/// surface.
pub fn render_maze(framebuffer: &mut Framebuffer, maze: &Maze, block_size: usize, player: &Player)
    requires
        player.wf(),
        1 <= block_size,
    ensures
        final(framebuffer).same_surface(old(framebuffer)),
        final(framebuffer).spec_current() == rgba(245, 245, 245, 255),
        forall|px: int, py: int|
            old(framebuffer).contains(px, py) ==> final(framebuffer).pixel(px, py)
                == top_down_pixel_spec(
                old(framebuffer).pixel(px, py),
                maze,
                block_size as int,
                *player,
                px,
                py,
            ),
{
    draw_grid(framebuffer, maze, block_size, 0, 0, Palette::TopDown);
    let ghost cells = *framebuffer;
    let mut r: usize = 0;
    while r < VIEW_RAYS
        invariant
            r <= VIEW_RAYS,
            player.wf(),
            1 <= block_size,
            framebuffer.same_frame(old(framebuffer)),
            cells.same_frame(old(framebuffer)),
            forall|px: int, py: int|
                old(framebuffer).contains(px, py) ==> framebuffer.pixel(px, py)
                    == view_rays_pixel_spec(
                    cells.pixel(px, py),
                    maze,
                    block_size as int,
                    *player,
                    r as int,
                    px,
                    py,
                ),
        decreases VIEW_RAYS - r,
    {
        let angle: i64 = column_angle(player, VIEW_RAYS, r);
        draw_ray(framebuffer, maze, player, angle, block_size, Color::new(245, 245, 245, 255));
        r += 1;
    }
    framebuffer.set_current_color(Color::new(245, 245, 245, 255));
}

/// The x coordinate of the observer on the overlay map, in fixed-point
/// pixels: the corner of the map, plus the observer's position in cells times
/// the size of a cell on the map.
pub open spec fn marker_x_spec(player: Player, block_size: int, origin_x: int, scale: int) -> int {
    origin_x * ONE + (player.pos.x * scale) / block_size
}

/// The y coordinate of the observer on the overlay map, in fixed-point
/// pixels.
pub open spec fn marker_y_spec(player: Player, block_size: int, origin_y: int, scale: int) -> int {
    origin_y * ONE + (player.pos.y * scale) / block_size
}

/// The length of the line that shows the viewing direction on the overlay
/// map, in pixels: twice the size of a cell, but at least six.
pub open spec fn pointer_length_spec(scale: int) -> int {
    if 2 * scale > 6 {
        2 * scale
    } else {
        6
    }
}

/// The width of the overlay map in pixels: the length of the first row of
/// the grid times the size of a cell; zero for a grid without rows.
pub open spec fn map_width_spec(maze: &Maze, scale: int) -> int {
    if maze@.len() == 0 {
        0
    } else {
        maze@[0]@.len() * scale
    }
}

/// The color of the pixel `(x, y)` after the overlay map was drawn over the
/// color `before`. From the bottom layer to the top: a dark backdrop as wide
/// as the first row and as high as the grid, the cells that are not empty,
/// a yellow pixel for the observer, and an orange line in the viewing
/// direction.
pub open spec fn minimap_pixel_spec(
    before: Color,
    maze: &Maze,
    block_size: int,
    player: Player,
    origin_x: int,
    origin_y: int,
    scale: int,
    x: int,
    y: int,
) -> Color {
    let mx = marker_x_spec(player, block_size, origin_x, scale);
    let my = marker_y_spec(player, block_size, origin_y, scale);
    let backdrop = if origin_x <= x < origin_x + map_width_spec(maze, scale) && origin_y <= y
        < origin_y + maze@.len() * scale {
        rgba(8, 10, 18, 255)
    } else {
        before
    };
    let cells = grid_pixel_spec(backdrop, maze, scale, origin_x, origin_y, Palette::Overlay, x, y);
    let marked = if mx / (ONE as int) == x && my / (ONE as int) == y {
        rgba(255, 255, 0, 255)
    } else {
        cells
    };
    if ray_crosses(mx, my, player.a as int, pointer_length_spec(scale) + 1, x, y) {
        rgba(255, 165, 0, 255)
    } else {
        marked
    }
}

/// Draws the overlay map with its corner at `(origin_x, origin_y)`, each
/// cell a square of `scale` pixels, and on it the observer and its viewing
/// direction. The color of the line that shows the viewing direction becomes
/// the current color of the surface.
pub fn render_minimap(
    framebuffer: &mut Framebuffer,
    maze: &Maze,
    block_size: usize,
    player: &Player,
    origin_x: usize,
    origin_y: usize,
    scale: usize,
)
    requires
        player.wf(),
        1 <= block_size,
    ensures
        final(framebuffer).same_surface(old(framebuffer)),
        final(framebuffer).spec_current() == rgba(255, 165, 0, 255),
        forall|px: int, py: int|
            old(framebuffer).contains(px, py) ==> final(framebuffer).pixel(px, py)
                == minimap_pixel_spec(
                old(framebuffer).pixel(px, py),
                maze,
                block_size as int,
                *player,
                origin_x as int,
                origin_y as int,
                scale as int,
                px,
                py,
            ),
{
    let width: usize = framebuffer.width();
    let height: usize = framebuffer.height();
    let columns: usize = if maze.len() == 0 {
        0
    } else {
        maze[0].len()
    };
    let right: usize = cell_edge(origin_x, columns, scale, width);
    let below: usize = cell_edge(origin_y, maze.len(), scale, height);
    fill_rect(framebuffer, origin_x, origin_y, right, below, Color::new(8, 10, 18, 255));
    draw_grid(framebuffer, maze, scale, origin_x, origin_y, Palette::Overlay);
    proof {
        lemma_product_bound(
            player.pos.x as int,
            scale as int,
            MAX_COORD as int,
            0xffff_ffff_ffff_ffff,
        );
        lemma_product_bound(
            player.pos.y as int,
            scale as int,
            MAX_COORD as int,
            0xffff_ffff_ffff_ffff,
        );
        assert(MAX_COORD * 0xffff_ffff_ffff_ffffint <= 0x1_0000_0000_0000_0000_0000_0000int);
    }
    let mx: i128 = (origin_x as i128) * (ONE as i128) + div_floor(
        (player.pos.x as i128) * (scale as i128),
        block_size as i128,
    );
    let my: i128 = (origin_y as i128) * (ONE as i128) + div_floor(
        (player.pos.y as i128) * (scale as i128),
        block_size as i128,
    );
    let column: i128 = div_floor(mx, ONE as i128);
    let row: i128 = div_floor(my, ONE as i128);
    if 0 <= column && column < width as i128 && 0 <= row && row < height as i128 {
        framebuffer.put_pixel(column as usize, row as usize, Color::new(255, 255, 0, 255));
    }
    let reach: i128 = if 2 * (scale as i128) > 6 {
        2 * (scale as i128)
    } else {
        6
    };
    draw_samples(framebuffer, mx, my, player.a, reach + 1, Color::new(255, 165, 0, 255));
    framebuffer.set_current_color(Color::new(255, 165, 0, 255));
}

} // verus!
