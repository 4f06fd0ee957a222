use raycaster::color::Color;
use raycaster::framebuffer::Framebuffer;
use raycaster::line::to_pixel;
use raycaster::vector::Vector2;

const INK: Color = Color { r: 255, g: 0, b: 255, a: 255 };

fn drawn(w: usize, h: usize, from: (i64, i64), to: (i64, i64)) -> Vec<(usize, usize)> {
    let mut fb = Framebuffer::new(w, h);
    fb.set_current_color(INK);
    raycaster::line::line(
        &mut fb,
        Vector2::new(from.0 * 10_000, from.1 * 10_000),
        Vector2::new(to.0 * 10_000, to.1 * 10_000),
    );
    let mut found = Vec::new();
    for y in 0..h {
        for x in 0..w {
            if fb.get_pixel(x, y) == Some(INK) {
                found.push((x, y));
            }
        }
    }
    found
}

#[test]
fn to_pixel_rounds_toward_zero() {
    assert_eq!(to_pixel(0), 0);
    assert_eq!(to_pixel(9_999), 0);
    assert_eq!(to_pixel(10_000), 1);
    assert_eq!(to_pixel(-9_999), 0);
    assert_eq!(to_pixel(-10_000), -1);
    assert_eq!(to_pixel(-25_000), -2);
    assert_eq!(to_pixel(i64::MAX), i32::MAX as i64);
    assert_eq!(to_pixel(i64::MIN), i32::MIN as i64);
}

#[test]
fn horizontal_and_vertical_lines() {
    assert_eq!(drawn(6, 4, (1, 2), (4, 2)), vec![(1, 2), (2, 2), (3, 2), (4, 2)]);
    assert_eq!(drawn(6, 4, (4, 2), (1, 2)), vec![(1, 2), (2, 2), (3, 2), (4, 2)]);
    assert_eq!(drawn(6, 4, (5, 0), (5, 3)), vec![(5, 0), (5, 1), (5, 2), (5, 3)]);
}

#[test]
fn single_point_line() {
    assert_eq!(drawn(6, 4, (3, 1), (3, 1)), vec![(3, 1)]);
}

#[test]
fn diagonal_line() {
    assert_eq!(drawn(5, 5, (0, 0), (4, 4)), vec![(0, 0), (1, 1), (2, 2), (3, 3), (4, 4)]);
    assert_eq!(drawn(5, 5, (4, 0), (0, 4)), vec![(4, 0), (3, 1), (2, 2), (1, 3), (0, 4)]);
}

#[test]
fn shallow_line_steps_once_per_column() {
    assert_eq!(
        drawn(8, 4, (0, 0), (6, 2)),
        vec![(0, 0), (1, 0), (2, 1), (3, 1), (4, 1), (5, 2), (6, 2)]
    );
}

#[test]
fn steep_line_steps_once_per_row() {
    assert_eq!(
        drawn(4, 8, (2, 6), (0, 0)),
        vec![(0, 0), (0, 1), (1, 2), (1, 3), (1, 4), (2, 5), (2, 6)]
    );
}

#[test]
fn line_is_clipped_to_the_surface() {
    assert_eq!(drawn(3, 3, (-2, 1), (5, 1)), vec![(0, 1), (1, 1), (2, 1)]);
    assert_eq!(drawn(3, 3, (-3, -3), (6, 6)), vec![(0, 0), (1, 1), (2, 2)]);
    assert_eq!(drawn(3, 3, (5, 5), (9, 7)), Vec::new());
}

#[test]
fn line_takes_the_whole_pixel_of_each_end() {
    let mut fb = Framebuffer::new(5, 3);
    fb.set_current_color(INK);
    // (0.9, 1.2) to (3.999, 1.9): pixels (0, 1) to (3, 1)
    raycaster::line::line(&mut fb, Vector2::new(9_000, 12_000), Vector2::new(39_990, 19_000));
    for x in 0..5 {
        let expected = if x <= 3 { INK } else { Color::new(0, 0, 0, 255) };
        assert_eq!(fb.get_pixel(x, 1), Some(expected));
    }
    assert_eq!(fb.current_color(), INK);
}
