//! The playing field: cell coordinates, headings and the boundary rule.
use vstd::prelude::*;

verus! {

/// Number of columns on the board.
pub const GRID_WIDTH: i32 = 30;

/// Number of rows on the board.
pub const GRID_HEIGHT: i32 = 20;

/// Side of one cell, in pixels.
pub const CELL_SIZE: i32 = 20;

/// A cell of the board, by column and row.
#[derive(Clone, Copy, Debug, PartialEq, Eq, Structural, Hash)]
pub struct Coord {
    pub x: i32,
    pub y: i32,
}

/// A heading of the snake.
#[derive(Clone, Copy, Debug, PartialEq, Eq, Structural, Hash)]
pub enum Direction {
    Up,
    Down,
    Left,
    Right,
}

/// A cell lies on the board when its column is in `[0, GRID_WIDTH)` and its
/// row in `[0, GRID_HEIGHT)`.
pub open spec fn in_bounds(c: Coord) -> bool {
    0 <= c.x < GRID_WIDTH && 0 <= c.y < GRID_HEIGHT
}

/// The heading that points the other way.
pub open spec fn opposite(d: Direction) -> Direction {
    match d {
        Direction::Up => Direction::Down,
        Direction::Down => Direction::Up,
        Direction::Left => Direction::Right,
        Direction::Right => Direction::Left,
    }
}

/// The cell one step from `c` in heading `d` (rows grow downwards).
pub open spec fn neighbor(c: Coord, d: Direction) -> Coord
    recommends
        in_bounds(c),
{
    match d {
        Direction::Up => Coord { x: c.x, y: (c.y - 1) as i32 },
        Direction::Down => Coord { x: c.x, y: (c.y + 1) as i32 },
        Direction::Left => Coord { x: (c.x - 1) as i32, y: c.y },
        Direction::Right => Coord { x: (c.x + 1) as i32, y: c.y },
    }
}

/// Position of a cell in row-major order: a one-to-one map from the board
/// onto `[0, GRID_WIDTH * GRID_HEIGHT)`.
pub open spec fn cell_index(c: Coord) -> int {
    c.y * GRID_WIDTH + c.x
}

impl Coord {
    /// Whether the cell lies on the board.
    pub fn in_bounds(&self) -> (r: bool)
        ensures
            r == in_bounds(*self),
    {
        0 <= self.x && self.x < GRID_WIDTH && 0 <= self.y && self.y < GRID_HEIGHT
    }

    /// The cell one step away in heading `d`.
    pub fn step(&self, d: Direction) -> (r: Coord)
        requires
            in_bounds(*self),
        ensures
            r == neighbor(*self, d),
    {
        match d {
            Direction::Up => Coord { x: self.x, y: self.y - 1 },
            Direction::Down => Coord { x: self.x, y: self.y + 1 },
            Direction::Left => Coord { x: self.x - 1, y: self.y },
            Direction::Right => Coord { x: self.x + 1, y: self.y },
        }
    }

    /// Top-left corner of the cell on screen, in pixels.
    pub fn pixel_origin(&self) -> (r: (i32, i32))
        requires
            in_bounds(*self),
        ensures
            r.0 == self.x * CELL_SIZE,
            r.1 == self.y * CELL_SIZE,
    {
        (self.x * CELL_SIZE, self.y * CELL_SIZE)
    }
}

impl Direction {
    /// The heading that points the other way.
    pub fn opposite(&self) -> (r: Direction)
        ensures
            r == opposite(*self),
    {
        match self {
            Direction::Up => Direction::Down,
            Direction::Down => Direction::Up,
            Direction::Left => Direction::Right,
            Direction::Right => Direction::Left,
        }
    }
}

/// Two cells on the board with the same row-major position are the same cell.
pub proof fn lemma_cell_index_injective(a: Coord, b: Coord)
    requires
        in_bounds(a),
        in_bounds(b),
        cell_index(a) == cell_index(b),
    ensures
        a == b,
{
    assert(a.y == b.y) by (nonlinear_arith)
        requires
            0 <= a.x < 30,
            0 <= b.x < 30,
            a.y * 30 + a.x == b.y * 30 + b.x,
    ;
}

/// Every cell on the board has a row-major position in `[0, GRID_WIDTH * GRID_HEIGHT)`.
pub proof fn lemma_cell_index_range(c: Coord)
    requires
        in_bounds(c),
    ensures
        0 <= cell_index(c) < GRID_WIDTH * GRID_HEIGHT,
{
    assert(0 <= c.y * 30 + c.x < 600) by (nonlinear_arith)
        requires
            0 <= c.x < 30,
            0 <= c.y < 20,
    ;
}

} // verus!
