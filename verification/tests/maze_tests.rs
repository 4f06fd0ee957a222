use raycaster::maze::{cell_symbol, is_solid, is_wall, parse_maze, world_to_cell, Maze};

fn maze_of(rows: &[&str]) -> Maze {
    rows.iter().map(|r| r.chars().collect()).collect()
}

#[test]
fn is_wall_classifies_cells() {
    let maze = maze_of(&["+-+", "| g", "+"]);
    assert!(is_wall(&maze, 0, 0));
    assert!(is_wall(&maze, 0, 1));
    assert!(is_wall(&maze, 1, 0));
    assert!(!is_wall(&maze, 1, 1));
    assert!(!is_wall(&maze, 1, 2));
}

#[test]
fn is_wall_treats_outside_as_wall() {
    let maze = maze_of(&["+-+", "| g", "+"]);
    assert!(is_wall(&maze, 3, 0));
    assert!(is_wall(&maze, 2, 1));
    assert!(is_wall(&maze, 0, 3));
    assert!(is_wall(&Vec::new(), 0, 0));
}

#[test]
fn is_wall_counts_unknown_symbols_as_walls() {
    let maze = maze_of(&["1x#"]);
    assert!(is_wall(&maze, 0, 0));
    assert!(is_wall(&maze, 0, 1));
    assert!(is_wall(&maze, 0, 2));
}

#[test]
fn goal_stops_rays_but_not_movement() {
    let maze = maze_of(&["g "]);
    assert!(is_solid(&maze, 0, 0));
    assert!(!is_wall(&maze, 0, 0));
    assert!(!is_solid(&maze, 0, 1));
    assert!(is_solid(&maze, 0, 2));
    assert!(is_solid(&maze, 1, 0));
}

#[test]
fn cell_symbol_reads_the_grid() {
    let maze = maze_of(&["+-", "|"]);
    assert_eq!(cell_symbol(&maze, 0, 1), '-');
    assert_eq!(cell_symbol(&maze, 1, 0), '|');
    assert_eq!(cell_symbol(&maze, 1, 1), ' ');
    assert_eq!(cell_symbol(&maze, 2, 0), ' ');
}

#[test]
fn world_to_cell_gives_row_then_column() {
    // x = 450.0 and y = 260.0 with cells of 150 units: column 3, row 1.
    assert_eq!(world_to_cell(4_500_000, 2_600_000, 150), (1, 3));
    assert_eq!(world_to_cell(0, 0, 150), (0, 0));
    assert_eq!(world_to_cell(1_499_999, 1_500_000, 150), (1, 0));
}

#[test]
fn world_to_cell_puts_negative_coordinates_outside_every_grid() {
    assert_eq!(world_to_cell(-1, -5_000_000, 150), (usize::MAX, usize::MAX));
    assert_eq!(world_to_cell(i64::MIN, 3_000_000, 150), (2, usize::MAX));
    assert_eq!(world_to_cell(3_000_000, -1, 150), (usize::MAX, 2));
    let open = maze_of(&["   ", "   "]);
    let (i, j) = world_to_cell(-1, 500_000, 150);
    assert!(is_wall(&open, i, j));
    assert!(is_solid(&open, i, j));
    let (i, j) = world_to_cell(500_000, -1, 150);
    assert!(is_wall(&open, i, j));
    let (i, j) = world_to_cell(0, 0, 150);
    assert!(!is_wall(&open, i, j));
}

#[test]
fn world_to_cell_accepts_every_cell_size() {
    assert_eq!(world_to_cell(i64::MAX, 0, usize::MAX), (0, 0));
    assert_eq!(world_to_cell(20_000_000_000, 10_000_000_000, 1_000_000), (1, 2));
}

#[test]
fn world_to_cell_with_unit_cells() {
    assert_eq!(world_to_cell(29_999, 30_000, 1), (3, 2));
}

#[test]
fn parse_maze_makes_one_row_for_each_line() {
    assert_eq!(parse_maze("+-+\n| g\n+-+\n"), maze_of(&["+-+", "| g", "+-+"]));
    assert_eq!(parse_maze("+-+\n| g\n+-+"), maze_of(&["+-+", "| g", "+-+"]));
    assert_eq!(parse_maze(""), Vec::<Vec<char>>::new());
    assert_eq!(parse_maze("\n"), maze_of(&[""]));
    assert_eq!(parse_maze("a\n\nb"), maze_of(&["a", "", "b"]));
    assert_eq!(parse_maze("a\n\n"), maze_of(&["a", ""]));
    assert_eq!(parse_maze("+ñ|"), vec![vec!['+', 'ñ', '|']]);
}

#[test]
fn parse_maze_drops_the_carriage_return_before_a_line_feed() {
    assert_eq!(parse_maze("+-\r\n|\r\n"), maze_of(&["+-", "|"]));
    assert_eq!(parse_maze("\r\n"), maze_of(&[""]));
    assert_eq!(parse_maze("a\r\r\n"), maze_of(&["a\r"]));
    assert_eq!(parse_maze("a\rb\n"), maze_of(&["a\rb"]));
    // Without a line feed behind it the carriage return stays.
    assert_eq!(parse_maze("a\nb\r"), maze_of(&["a", "b\r"]));
}

#[test]
fn parse_maze_agrees_with_the_lines_of_a_buffered_reader() {
    for text in ["", "x", "x\n", "\n\n", "ab\r\ncd\n\r\n\r", "  +\n +\n+", "\r", "\n\r\n\n"] {
        let expected: Maze = std::io::BufRead::lines(std::io::Cursor::new(text.as_bytes()))
            .map(|l| l.unwrap().chars().collect())
            .collect();
        assert_eq!(parse_maze(text), expected, "text {:?}", text);
    }
}
