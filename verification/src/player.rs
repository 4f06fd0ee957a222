//! The observer: where it stands, where it looks and how wide it sees.

use vstd::prelude::*;
use crate::fixed::{lemma_product_bound, MAX_COORD, ONE};
use crate::maze::{cell_index, in_grid, is_wall, wall_at, world_to_cell, Maze, GOAL};
use crate::trig::{cos, cos_spec, sin, sin_spec};
use crate::vector::Vector2;

verus! {

/// The observer of the scene.
#[derive(Clone, Copy, Debug, PartialEq, Eq, Structural)]
pub struct Player {
    /// The position in the world.
    pub pos: Vector2,
    /// The heading: the angle of the viewing direction, in radians, measured
    /// from the positive x axis toward the positive y axis.
    pub a: i64,
    /// The horizontal field of view, in radians.
    pub fov: i64,
}

impl Player {
    /// Whether the observer can be rendered: its position lies within the
    /// supported extent of the world, a limit of the fixed-point model.
    /// Heading and field of view may be any angle.
    pub open spec fn wf(&self) -> bool {
        self.pos.in_world()
    }

    /// Tells whether the observer can be rendered.
    pub fn is_valid(&self) -> (b: bool)
        ensures
            b == self.wf(),
    {
        self.pos.is_in_world()
    }
}

/// The angle by which the observer turns in one step (a sixtieth of half a
/// turn).
pub const ROTATION_SPEED: i64 = 524;

/// The distance that the observer walks in one step, in whole world units.
pub const MOVE_SPEED: i64 = 4;

/// What the user asks of the observer in one step.
#[derive(Clone, Copy, Debug, PartialEq, Eq, Structural)]
pub struct Controls {
    /// Turn toward smaller angles.
    pub turn_left: bool,
    /// Turn toward greater angles.
    pub turn_right: bool,
    /// Walk in the viewing direction.
    pub forward: bool,
    /// Walk against the viewing direction.
    pub backward: bool,
}

/// The sum of the turns that `controls` asks for.
pub open spec fn turn_spec(controls: Controls) -> int {
    (if controls.turn_right {
        ROTATION_SPEED as int
    } else {
        0
    }) - (if controls.turn_left {
        ROTATION_SPEED as int
    } else {
        0
    })
}

/// The heading after the turns of `controls`.
pub open spec fn turned_spec(a: int, controls: Controls) -> int {
    a + turn_spec(controls)
}

/// The number of steps forward that `controls` asks for: one, none, or one
/// backward.
pub open spec fn advance_spec(controls: Controls) -> int {
    (if controls.forward {
        1int
    } else {
        0
    }) - (if controls.backward {
        1int
    } else {
        0
    })
}

/// The position one step from `pos` along the heading `a`.
pub open spec fn stepped_spec(pos: Vector2, a: int, controls: Controls) -> (int, int) {
    (
        pos.x + MOVE_SPEED * advance_spec(controls) * cos_spec(a),
        pos.y + MOVE_SPEED * advance_spec(controls) * sin_spec(a),
    )
}

/// Whether the observer may stand at `(x, y)`: the point lies within the
/// supported extent of the world, and its cell is not a wall. A point with a
/// negative coordinate lies outside the grid, where everything is a wall.
pub open spec fn open_at(maze: &Maze, block_size: int, x: int, y: int) -> bool {
    &&& -MAX_COORD <= x <= MAX_COORD
    &&& -MAX_COORD <= y <= MAX_COORD
    &&& !wall_at(maze, cell_index(y, block_size), cell_index(x, block_size))
}

/// The observer after one step under `controls`: it turns first, then walks
/// along the new heading, unless the place it would reach is not open.
pub open spec fn process_events_spec(
    player: Player,
    controls: Controls,
    maze: &Maze,
    block_size: int,
) -> Player {
    let a = turned_spec(player.a as int, controls);
    let next = stepped_spec(player.pos, a, controls);
    Player {
        pos: if open_at(maze, block_size, next.0, next.1) {
            Vector2 { x: next.0 as i64, y: next.1 as i64 }
        } else {
            player.pos
        },
        a: a as i64,
        fov: player.fov,
    }
}

/// Moves the observer by one step: turns it as `controls` asks, then walks
/// it forward or backward along the new heading. The observer does not walk
/// into a wall, nor out of the grid or the supported extent of the world; it
/// stays where it is instead. The new heading has to fit into an `i64`.
pub fn process_events(player: &mut Player, controls: Controls, maze: &Maze, block_size: usize)
    requires
        old(player).wf(),
        i64::MIN <= turned_spec(old(player).a as int, controls) <= i64::MAX,
        1 <= block_size,
    ensures
        *final(player) == process_events_spec(*old(player), controls, maze, block_size as int),
        final(player).wf(),
{
    let mut turn: i64 = 0;
    if controls.turn_left {
        turn = turn - ROTATION_SPEED;
    }
    if controls.turn_right {
        turn = turn + ROTATION_SPEED;
    }
    player.a = player.a + turn;
    let mut advance: i64 = 0;
    if controls.forward {
        advance = advance + 1;
    }
    if controls.backward {
        advance = advance - 1;
    }
    let dx: i64 = cos(player.a);
    let dy: i64 = sin(player.a);
    let stride: i64 = MOVE_SPEED * advance;
    proof {
        lemma_product_bound(stride as int, dx as int, MOVE_SPEED as int, ONE as int);
        lemma_product_bound(stride as int, dy as int, MOVE_SPEED as int, ONE as int);
    }
    let next_x: i64 = player.pos.x + stride * dx;
    let next_y: i64 = player.pos.y + stride * dy;
    let next = Vector2 { x: next_x, y: next_y };
    if next.is_in_world() {
        let (ci, cj) = world_to_cell(next_x, next_y, block_size);
        if !is_wall(maze, ci, cj) {
            player.pos = next;
        }
    }
}

/// Whether the observer stands on the goal.
pub open spec fn on_goal_spec(player: Player, maze: &Maze, block_size: int) -> bool {
    let i = cell_index(player.pos.y as int, block_size);
    let j = cell_index(player.pos.x as int, block_size);
    in_grid(maze, i, j) && maze@[i]@[j] == GOAL
}

/// Tells whether the observer stands on the goal.
pub fn player_on_goal(player: &Player, maze: &Maze, block_size: usize) -> (won: bool)
    requires
        1 <= block_size,
    ensures
        won == on_goal_spec(*player, maze, block_size as int),
{
    let (i, j) = world_to_cell(player.pos.x, player.pos.y, block_size);
    if i >= maze.len() || j >= maze[i].len() {
        return false;
    }
    maze[i][j] == GOAL
}

} // verus!
