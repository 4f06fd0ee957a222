//! The tile grid: rows of cell symbols, the cell classifier and the mapping
//! from world coordinates to cell indices.

use vstd::prelude::*;
use vstd::string::StrSliceExecFns;
use crate::fixed::{div_floor, index_spec, to_index, ONE};

verus! {

/// A grid of cell symbols, addressed as `maze[row][column]`. Rows may differ
/// in length.
pub type Maze = Vec<Vec<char>>;

/// The symbol of an empty cell.
pub const EMPTY: char = ' ';

/// The symbol of the goal cell.
pub const GOAL: char = 'g';

/// Whether `(i, j)` lies inside the grid: row `i` exists and has a column `j`.
pub open spec fn in_grid(maze: &Maze, i: int, j: int) -> bool {
    0 <= i < maze@.len() && 0 <= j < maze@[i]@.len()
}

/// Whether the cell at row `i`, column `j` stops movement: every position
/// outside the grid does, and inside it every symbol except the empty cell
/// and the goal.
pub open spec fn wall_at(maze: &Maze, i: int, j: int) -> bool {
    !in_grid(maze, i, j) || (maze@[i]@[j] != EMPTY && maze@[i]@[j] != GOAL)
}

/// Whether the cell at row `i`, column `j` stops a ray: every position
/// outside the grid does, and inside it every symbol except the empty cell.
/// The goal stops rays, so that it is drawn, though it does not stop
/// movement.
pub open spec fn solid_at(maze: &Maze, i: int, j: int) -> bool {
    !in_grid(maze, i, j) || maze@[i]@[j] != EMPTY
}

/// The symbol at row `i`, column `j`; outside the grid, the symbol of the
/// empty cell.
pub open spec fn symbol_at(maze: &Maze, i: int, j: int) -> char {
    if in_grid(maze, i, j) {
        maze@[i]@[j]
    } else {
        EMPTY
    }
}

/// The index of the cell that holds the coordinate `coord`, for cells
/// `block_size` world units wide: the whole number of cells below `coord`.
/// A negative coordinate lies outside every grid, and so does one beyond the
/// range of `usize`: both have the index `usize::MAX`, which no grid has.
pub open spec fn cell_index(coord: int, block_size: int) -> int {
    index_spec(coord / (block_size * ONE))
}

/// A point with a negative coordinate lies in no cell of any grid: its cell
/// is a wall, and it stops rays.
pub proof fn lemma_negative_is_outside(maze: &Maze, x: int, y: int, block_size: int)
    requires
        block_size >= 1,
        x < 0 || y < 0,
    ensures
        !in_grid(maze, cell_index(y, block_size), cell_index(x, block_size)),
        wall_at(maze, cell_index(y, block_size), cell_index(x, block_size)),
        solid_at(maze, cell_index(y, block_size), cell_index(x, block_size)),
{
    let width = block_size * ONE;
    if x < 0 {
        assert(x / width < 0) by (nonlinear_arith)
            requires
                x < 0,
                width >= 1,
        ;
    }
    if y < 0 {
        assert(y / width < 0) by (nonlinear_arith)
            requires
                y < 0,
                width >= 1,
        ;
    }
    assert(maze.len() <= usize::MAX);
    if 0 <= cell_index(y, block_size) < maze@.len() {
        assert(maze@[cell_index(y, block_size)].len() <= usize::MAX);
    }
}

/// The symbol at row `i`, column `j`, or the symbol of the empty cell where
/// the grid has no such cell.
pub fn cell_symbol(maze: &Maze, i: usize, j: usize) -> (c: char)
    ensures
        c == symbol_at(maze, i as int, j as int),
{
    if i < maze.len() && j < maze[i].len() {
        maze[i][j]
    } else {
        EMPTY
    }
}

/// The cell that holds the world point `(x, y)`, as `(row, column)`: the row
/// comes from `y`, the column from `x`.
pub fn world_to_cell(x: i64, y: i64, block_size: usize) -> (cell: (usize, usize))
    requires
        1 <= block_size,
    ensures
        cell.0 == cell_index(y as int, block_size as int),
        cell.1 == cell_index(x as int, block_size as int),
{
    assert(block_size * ONE <= 0xffff_ffff_ffff_ffff * 10_000);
    let width: i128 = (block_size as i128) * (ONE as i128);
    let j: i128 = div_floor(x as i128, width);
    let i: i128 = div_floor(y as i128, width);
    (to_index(i), to_index(j))
}

/// Tells whether the cell at row `i`, column `j` is a wall. Anything outside
/// the grid counts as a wall.
pub fn is_wall(maze: &Maze, i: usize, j: usize) -> (wall: bool)
    ensures
        wall == wall_at(maze, i as int, j as int),
{
    if i >= maze.len() {
        return true;
    }
    if j >= maze[i].len() {
        return true;
    }
    let c = maze[i][j];
    c != EMPTY && c != GOAL
}

/// Tells whether the cell at row `i`, column `j` stops a ray. Anything
/// outside the grid does.
pub fn is_solid(maze: &Maze, i: usize, j: usize) -> (solid: bool)
    ensures
        solid == solid_at(maze, i as int, j as int),
{
    if i >= maze.len() {
        return true;
    }
    if j >= maze[i].len() {
        return true;
    }
    maze[i][j] != EMPTY
}

/// The position of the first line feed of `text` at or after `from`, or the
/// length of `text` where there is none.
pub open spec fn line_end(text: Seq<char>, from: int) -> int
    decreases text.len() - from,
{
    if from >= text.len() || text[from] == '\n' {
        from
    } else {
        line_end(text, from + 1)
    }
}

/// The line of `text` that begins at `from` and ends before `end`. Where a
/// line feed ends the line and a carriage return stands before it, the
/// carriage return does not belong to the line.
pub open spec fn line_between(text: Seq<char>, from: int, end: int) -> Seq<char> {
    if end < text.len() && from < end && text[end - 1] == '\r' {
        text.subrange(from, end - 1)
    } else {
        text.subrange(from, end)
    }
}

/// The lines of `text` from the position `from` on. Each line feed ends a
/// line; what follows the last line feed is a line too, unless it is empty.
pub open spec fn lines_from(text: Seq<char>, from: int) -> Seq<Seq<char>>
    decreases text.len() - from,
{
    if from < 0 || from >= text.len() {
        Seq::empty()
    } else {
        let end = line_end(text, from);
        if from <= end && end + 1 < text.len() {
            seq![line_between(text, from, end)] + lines_from(text, end + 1)
        } else {
            seq![line_between(text, from, end)]
        }
    }
}

/// The end of a line lies between its beginning and the end of the text, is
/// the same for every position of the line, and no line feed stands before
/// it.
pub proof fn lemma_line_end(text: Seq<char>, from: int)
    requires
        0 <= from <= text.len(),
    ensures
        from <= line_end(text, from) <= text.len(),
        line_end(text, from) < text.len() ==> text[line_end(text, from)] == '\n',
        forall|k: int| from <= k < line_end(text, from) ==> text[k] != '\n',
        forall|k: int|
            from <= k <= line_end(text, from) ==> #[trigger] line_end(text, k) == line_end(
                text,
                from,
            ),
    decreases text.len() - from,
{
    if from < text.len() && text[from] != '\n' {
        lemma_line_end(text, from + 1);
    }
}

/// Whether `maze` holds the rows `rows`, symbol by symbol.
pub open spec fn has_rows(maze: &Maze, rows: Seq<Seq<char>>) -> bool {
    &&& maze@.len() == rows.len()
    &&& forall|i: int| 0 <= i < rows.len() ==> (#[trigger] maze@[i])@ == rows[i]
}

/// Reads a grid from the text of a level: one row for each line, one cell
/// for each character of the line.
pub fn parse_maze(text: &str) -> (maze: Maze)
    ensures
        has_rows(&maze, lines_from(text@, 0)),
{
    let count: usize = text.unicode_len();
    let mut maze: Maze = Vec::new();
    let mut row: Vec<char> = Vec::new();
    let mut start: usize = 0;
    let mut i: usize = 0;
    let ghost mut done: Seq<Seq<char>> = Seq::empty();
    proof {
        lemma_line_end(text@, 0);
    }
    while i < count
        invariant
            start <= i <= count,
            count == text@.len(),
            i <= line_end(text@, start as int),
            row@ == text@.subrange(start as int, i as int),
            has_rows(&maze, done),
            lines_from(text@, 0) == done + lines_from(text@, start as int),
        decreases count - i,
    {
        let c: char = text.get_char(i);
        proof {
            lemma_line_end(text@, start as int);
        }
        if c == '\n' {
            if row.len() > 0 && row[row.len() - 1] == '\r' {
                row.pop();
            }
            proof {
                assert(line_end(text@, start as int) == i);
                assert(row@ == line_between(text@, start as int, i as int));
                assert(done + lines_from(text@, start as int) == done.push(row@) + lines_from(
                    text@,
                    i + 1,
                )) by {
                    assert(done + (seq![row@] + lines_from(text@, i + 1)) =~= done.push(row@)
                        + lines_from(text@, i + 1));
                    assert(done + seq![row@] =~= done.push(row@) + Seq::<Seq<char>>::empty());
                }
                done = done.push(row@);
                if i + 1 <= count {
                    lemma_line_end(text@, i + 1);
                }
            }
            maze.push(row);
            row = Vec::new();
            start = i + 1;
            proof {
                assert(row@ =~= text@.subrange(start as int, start as int));
            }
        } else {
            row.push(c);
            proof {
                assert(row@ =~= text@.subrange(start as int, i + 1));
            }
        }
        i += 1;
    }
    if start < count {
        proof {
            lemma_line_end(text@, start as int);
            assert(line_end(text@, start as int) == count);
            assert(row@ == line_between(text@, start as int, count as int));
            assert(done + lines_from(text@, start as int) =~= done.push(row@));
        }
        maze.push(row);
    } else {
        proof {
            assert(done + lines_from(text@, start as int) =~= done);
        }
    }
    maze
}

} // verus!
