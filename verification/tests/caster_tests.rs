use raycaster::caster::{cast_ray, draw_ray, draw_samples, Intersect, MARCH_STEP, MAX_STEPS};
use raycaster::color::Color;
use raycaster::fixed::{EPSILON, HALF_PI, MAX_DISTANCE, PI};
use raycaster::framebuffer::Framebuffer;
use raycaster::maze::Maze;
use raycaster::player::Player;
use raycaster::vector::Vector2;

fn rows(lines: &[&str]) -> Maze {
    lines.iter().map(|r| r.chars().collect()).collect()
}

fn corridor() -> Maze {
    rows(&["+++++", "+   -", "+++++"])
}

fn looking(x: i64, y: i64, a: i64) -> Player {
    Player { pos: Vector2::new(x, y), a, fov: 10_472 }
}

#[test]
fn march_spans_the_miss_distance() {
    assert_eq!(MARCH_STEP * MAX_STEPS, MAX_DISTANCE);
}

#[test]
fn ray_straight_at_a_wall_one_cell_away() {
    // Cells are 100 units wide; the wall in column 4 begins at x = 400.
    let hit = cast_ray(&corridor(), &looking(3_000_000, 1_500_000, 0), 0, 100);
    assert_eq!(
        hit,
        Intersect { distance: 1_000_000, impact: '-', point: Vector2::new(4_000_000, 1_500_000) }
    );
}

#[test]
fn ray_is_stopped_within_one_step_of_the_wall() {
    // From x = 299.5 the wall at x = 400 is 100.5 away; the first sample in
    // the wall is number 101.
    let hit = cast_ray(&corridor(), &looking(2_995_000, 1_500_000, 0), 0, 100);
    assert_eq!(hit.distance, 1_010_000);
    assert_eq!(hit.point, Vector2::new(4_005_000, 1_500_000));
    assert!(hit.distance - 1_005_000 <= MARCH_STEP);
}

#[test]
fn distance_is_measured_along_the_viewing_direction() {
    // Thirty degrees off the viewing direction the ray travels 116 units to
    // the wall that stands 100 units ahead: 116 * 0.866 = 100.456.
    let hit = cast_ray(&corridor(), &looking(3_000_000, 1_500_000, 5_236), 0, 100);
    assert_eq!(hit.point, Vector2::new(4_000_000, 1_500_000));
    assert_eq!(hit.distance, 866_000);
    let wide = rows(&["+++++", "+   -", "+   -", "+   -", "+++++"]);
    let eye = looking(3_000_000, 2_500_000, 0);
    let side = cast_ray(&wide, &eye, 5_236, 100);
    assert_eq!(side.point, Vector2::new(4_004_560, 3_080_000));
    assert_eq!(side.distance, 1_004_560);
    let other = cast_ray(&wide, &eye, -5_236, 100);
    assert_eq!(other.distance, 1_004_560);
    // Behind the observer nothing has a distance along the viewing
    // direction: the floor distance is reported.
    let behind = cast_ray(&wide, &eye, PI, 100);
    assert_eq!(behind.point, Vector2::new(1_000_000, 2_500_000));
    assert_eq!(behind.distance, EPSILON);
}

#[test]
fn ray_on_a_boundary_belongs_to_the_cell_it_enters() {
    // Toward smaller x the wall in column 0 ends at x = 100. The sample on
    // the boundary itself already lies in the wall.
    let hit = cast_ray(&corridor(), &looking(3_000_000, 1_500_000, PI), PI, 100);
    assert_eq!(
        hit,
        Intersect { distance: 2_000_000, impact: '+', point: Vector2::new(1_000_000, 1_500_000) }
    );
    // Toward greater y the wall in row 2 begins at y = 200.
    let down = cast_ray(&corridor(), &looking(3_000_000, 1_500_000, HALF_PI), HALF_PI, 100);
    assert_eq!(down.distance, 500_000);
    assert_eq!(down.point, Vector2::new(3_000_000, 2_000_000));
    // Toward smaller y the wall in row 0 ends at y = 100.
    let up = cast_ray(&corridor(), &looking(3_000_000, 1_500_000, -HALF_PI), -HALF_PI, 100);
    assert_eq!(up.distance, 500_000);
    assert_eq!(up.point, Vector2::new(3_000_000, 1_000_000));
}

#[test]
fn ray_from_inside_a_wall_reports_the_floor_distance() {
    let hit = cast_ray(&corridor(), &looking(500_000, 500_000, 0), 0, 100);
    assert_eq!(hit.distance, EPSILON);
    assert_eq!(hit.impact, '+');
    assert_eq!(hit.point, Vector2::new(500_000, 500_000));
}

#[test]
fn ray_that_leaves_the_grid_is_stopped_there() {
    // Row 1 is open to both edges of the grid; beyond them everything is
    // wall, and the symbol is the empty one.
    let maze = rows(&["+++", "   ", "+++"]);
    let hit = cast_ray(&maze, &looking(1_500_000, 1_500_000, 0), 0, 100);
    assert_eq!(
        hit,
        Intersect { distance: 1_500_000, impact: ' ', point: Vector2::new(3_000_000, 1_500_000) }
    );
    // Toward smaller x the grid ends at x = 0.
    let left = cast_ray(&maze, &looking(1_500_000, 1_500_000, PI), PI, 100);
    assert_eq!(
        left,
        Intersect { distance: 1_500_000, impact: ' ', point: Vector2::new(0, 1_500_000) }
    );
    let open = rows(&["   ", "   "]);
    let up = cast_ray(&open, &looking(1_500_000, 500_000, -HALF_PI), -HALF_PI, 100);
    assert_eq!(up.distance, 500_000);
    assert_eq!(up.point, Vector2::new(1_500_000, 0));
}

#[test]
fn ray_from_outside_the_grid_reports_the_floor_distance() {
    let open = rows(&["   "]);
    let hit = cast_ray(&open, &looking(-500_000, 500_000, 0), 0, 100);
    assert_eq!(hit.distance, EPSILON);
    assert_eq!(hit.impact, ' ');
}

#[test]
fn ray_along_an_open_corridor_is_a_miss() {
    // One open cell of 100 000 units: the walls are farther away than a ray
    // reaches.
    let maze = rows(&[" "]);
    let eye = looking(500_000_000, 500_000_000, 0);
    let hit = cast_ray(&maze, &eye, 0, 100_000);
    assert_eq!(
        hit,
        Intersect {
            distance: MAX_DISTANCE,
            impact: ' ',
            point: Vector2::new(600_000_000, 500_000_000)
        }
    );
    assert_eq!(cast_ray(&maze, &eye, 20_000, 100_000).distance, MAX_DISTANCE);
    // A corridor of 101 cells of 100 units is longer than the reach, too.
    let long: Maze = vec![vec!['+'; 103], {
        let mut row = vec![' '; 102];
        row.insert(0, '+');
        row
    }, vec!['+'; 103]];
    let start = looking(1_500_000, 1_500_000, 0);
    assert_eq!(cast_ray(&long, &start, 0, 100).distance, MAX_DISTANCE);
    assert_eq!(cast_ray(&long, &looking(1_500_000, 1_500_000, PI), PI, 100).distance, 500_000);
}

#[test]
fn ray_stops_at_the_goal() {
    let maze = rows(&["+++++", "+  g+", "+++++"]);
    let hit = cast_ray(&maze, &looking(1_500_000, 1_500_000, 0), 0, 100);
    assert_eq!(hit.distance, 1_500_000);
    assert_eq!(hit.impact, 'g');
}

#[test]
fn ray_distance_is_always_in_range() {
    let maze = corridor();
    let mut angle = -70_000i64;
    while angle < 70_000 {
        for a in [0i64, 15_000, -40_000] {
            let hit = cast_ray(&maze, &looking(2_500_000, 1_500_000, a), angle, 100);
            assert!(EPSILON <= hit.distance && hit.distance <= MAX_DISTANCE);
        }
        angle += 997;
    }
}

#[test]
fn draw_ray_paints_the_samples_before_the_wall() {
    // One pixel is one world unit; cells are 4 units wide.
    let maze = rows(&["+++", "+ +", "+++"]);
    let mut fb = Framebuffer::new(12, 12);
    let white = Color::new(245, 245, 245, 255);
    let eye = looking(45_000, 55_000, 0);
    let hit = draw_ray(&mut fb, &maze, &eye, 0, 4, white);
    assert_eq!(hit, cast_ray(&maze, &eye, 0, 4));
    assert_eq!(hit.distance, 40_000);
    for y in 0..12 {
        for x in 0..12 {
            let on_ray = y == 5 && (4..8).contains(&x);
            let expected = if on_ray { white } else { Color::new(0, 0, 0, 255) };
            assert_eq!(fb.get_pixel(x, y), Some(expected));
        }
    }
    assert_eq!(fb.current_color(), Color::new(255, 255, 255, 255));
}

#[test]
fn draw_samples_paints_a_given_number_of_samples() {
    let mut fb = Framebuffer::new(8, 8);
    let c = Color::new(255, 165, 0, 255);
    // Straight up from (3.5, 6.5): rows 6, 5, 4.
    draw_samples(&mut fb, 35_000, 65_000, -HALF_PI, 3, c);
    for y in 0..8 {
        for x in 0..8 {
            let expected = if x == 3 && (4..7).contains(&y) { c } else { Color::new(0, 0, 0, 255) };
            assert_eq!(fb.get_pixel(x, y), Some(expected));
        }
    }
    draw_samples(&mut fb, -35_000, 65_000, PI, 5, c);
    draw_samples(&mut fb, 35_000, 65_000, 0, 0, c);
    assert_eq!(fb.get_pixel(0, 6), Some(Color::new(0, 0, 0, 255)));
    assert_eq!(fb.get_pixel(4, 6), Some(Color::new(0, 0, 0, 255)));
    assert_eq!(fb.current_color(), Color::new(255, 255, 255, 255));
}
