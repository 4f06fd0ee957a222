use raycaster::maze::Maze;
use raycaster::player::{
    player_on_goal, process_events, Controls, Player, MOVE_SPEED, ROTATION_SPEED,
};
use raycaster::vector::Vector2;

const IDLE: Controls =
    Controls { turn_left: false, turn_right: false, forward: false, backward: false };

fn hall() -> Maze {
    ["+++++", "+  g+", "+++++"].iter().map(|r| r.chars().collect()).collect()
}

fn at(x: i64, y: i64, a: i64) -> Player {
    Player { pos: Vector2::new(x, y), a, fov: 10_472 }
}

#[test]
fn speeds_have_their_values() {
    assert_eq!(ROTATION_SPEED, 524);
    assert_eq!(MOVE_SPEED, 4);
}

#[test]
fn idle_controls_change_nothing() {
    let mut p = at(1_500_000, 1_500_000, 1_000_000);
    process_events(&mut p, IDLE, &hall(), 100);
    assert_eq!(p, at(1_500_000, 1_500_000, 1_000_000));
}

#[test]
fn turning_changes_the_heading_only() {
    let mut p = at(1_500_000, 1_500_000, 0);
    process_events(&mut p, Controls { turn_right: true, ..IDLE }, &hall(), 100);
    assert_eq!(p, at(1_500_000, 1_500_000, 524));
    process_events(&mut p, Controls { turn_left: true, ..IDLE }, &hall(), 100);
    process_events(&mut p, Controls { turn_left: true, ..IDLE }, &hall(), 100);
    assert_eq!(p, at(1_500_000, 1_500_000, -524));
    process_events(&mut p, Controls { turn_left: true, turn_right: true, ..IDLE }, &hall(), 100);
    assert_eq!(p, at(1_500_000, 1_500_000, -524));
}

#[test]
fn turning_adds_the_turn_and_nothing_more() {
    let mut p = at(1_500_000, 1_500_000, 31_416);
    process_events(&mut p, Controls { turn_right: true, ..IDLE }, &hall(), 100);
    assert_eq!(p.a, 31_940);
    let mut q = at(1_500_000, 1_500_000, -31_416);
    process_events(&mut q, Controls { turn_left: true, ..IDLE }, &hall(), 100);
    assert_eq!(q.a, -31_940);
    let mut r = at(1_500_000, 1_500_000, 1_000_000_000);
    for _ in 0..120 {
        process_events(&mut r, Controls { turn_right: true, ..IDLE }, &hall(), 100);
    }
    assert_eq!(r.a, 1_000_000_000 + 120 * 524);
    assert_eq!(r.fov, 10_472);
}

#[test]
fn walking_moves_four_units_along_the_heading() {
    let mut p = at(1_500_000, 1_500_000, 0);
    process_events(&mut p, Controls { forward: true, ..IDLE }, &hall(), 100);
    assert_eq!(p, at(1_540_000, 1_500_000, 0));
    process_events(&mut p, Controls { backward: true, ..IDLE }, &hall(), 100);
    process_events(&mut p, Controls { backward: true, ..IDLE }, &hall(), 100);
    assert_eq!(p, at(1_460_000, 1_500_000, 0));
    process_events(&mut p, Controls { forward: true, backward: true, ..IDLE }, &hall(), 100);
    assert_eq!(p, at(1_460_000, 1_500_000, 0));
    // Thirty degrees: 4 * 0.866 and 4 * 0.5
    let mut q = at(1_500_000, 1_500_000, 5_236);
    process_events(&mut q, Controls { forward: true, ..IDLE }, &hall(), 100);
    assert_eq!(q, at(1_534_640, 1_520_000, 5_236));
}

#[test]
fn the_observer_turns_before_it_walks() {
    let mut p = at(1_500_000, 1_500_000, 15_708 - 524);
    process_events(&mut p, Controls { turn_right: true, forward: true, ..IDLE }, &hall(), 100);
    assert_eq!(p, at(1_500_000, 1_540_000, 15_708));
}

#[test]
fn walls_stop_the_observer() {
    let mut p = at(1_010_000, 1_500_000, 0);
    process_events(&mut p, Controls { backward: true, ..IDLE }, &hall(), 100);
    assert_eq!(p, at(1_010_000, 1_500_000, 0));
    let mut q = at(1_500_000, 1_980_000, 15_708);
    process_events(&mut q, Controls { forward: true, ..IDLE }, &hall(), 100);
    assert_eq!(q, at(1_500_000, 1_980_000, 15_708));
}

#[test]
fn the_goal_does_not_stop_the_observer() {
    let mut p = at(2_980_000, 1_500_000, 0);
    assert!(!player_on_goal(&p, &hall(), 100));
    process_events(&mut p, Controls { forward: true, ..IDLE }, &hall(), 100);
    assert_eq!(p, at(3_020_000, 1_500_000, 0));
    assert!(player_on_goal(&p, &hall(), 100));
}

#[test]
fn the_edge_of_the_world_stops_the_observer() {
    // One cell as large as the world: the observer stands four tenths of a
    // unit before the end of the supported extent.
    let open: Maze = vec![vec![' ']];
    let mut p = at(999_996_000, 0, 0);
    assert!(p.is_valid());
    process_events(&mut p, Controls { forward: true, ..IDLE }, &open, 1_000_000);
    assert_eq!(p, at(999_996_000, 0, 0));
    process_events(&mut p, Controls { backward: true, ..IDLE }, &open, 1_000_000);
    assert_eq!(p, at(999_956_000, 0, 0));
    assert!(!at(1_000_000_001, 0, 0).is_valid());
}

#[test]
fn negative_coordinates_are_walls() {
    let open: Maze = vec![vec![' ', ' '], vec![' ', ' ']];
    let mut p = at(20_000, 500_000, 31_416);
    process_events(&mut p, Controls { forward: true, ..IDLE }, &open, 100);
    assert_eq!(p, at(20_000, 500_000, 31_416));
    let mut q = at(500_000, 20_000, -15_708);
    process_events(&mut q, Controls { forward: true, ..IDLE }, &open, 100);
    assert_eq!(q, at(500_000, 20_000, -15_708));
    let mut r = at(60_000, 500_000, 31_416);
    process_events(&mut r, Controls { forward: true, ..IDLE }, &open, 100);
    assert_eq!(r, at(20_000, 500_000, 31_416));
}

#[test]
fn player_on_goal_outside_the_grid_is_false() {
    assert!(!player_on_goal(&at(9_000_000, 1_500_000, 0), &hall(), 100));
    assert!(!player_on_goal(&at(1_500_000, 9_000_000, 0), &hall(), 100));
    assert!(!player_on_goal(&at(0, 0, 0), &Vec::new(), 100));
}
