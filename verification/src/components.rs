//! Value objects of the simulation: grid cells, headings, board dimensions.

use vstd::prelude::*;

verus! {

/// A heading of the snake. Each variant maps to a unit cell delta:
/// `Up = (0, +1)`, `Down = (0, -1)`, `Left = (-1, 0)`, `Right = (+1, 0)`.
#[derive(Clone, Copy, PartialEq, Eq, Structural, Debug)]
pub enum Direction {
    Up,
    Down,
    Left,
    Right,
}

/// The axis a heading moves along; used by renderers to pick a body sprite
/// for a freshly appended segment.
#[derive(Clone, Copy, PartialEq, Eq, Structural, Debug)]
pub enum Axial {
    Vertical,
    Horizontal,
}

/// One grid cell, as a pair of integer coordinates. Equality is exact.
#[derive(Clone, Copy, PartialEq, Eq, Structural, Debug)]
pub struct Position {
    pub x: i32,
    pub y: i32,
}

impl View for Position {
    type V = (int, int);

    open spec fn view(&self) -> (int, int) {
        (self.x as int, self.y as int)
    }
}

/// Horizontal component of the unit delta of a heading.
pub open spec fn delta_x(d: Direction) -> int {
    match d {
        Direction::Left => -1,
        Direction::Right => 1,
        _ => 0,
    }
}

/// Vertical component of the unit delta of a heading.
pub open spec fn delta_y(d: Direction) -> int {
    match d {
        Direction::Up => 1,
        Direction::Down => -1,
        _ => 0,
    }
}

/// The 180-degree reverse of a heading.
pub open spec fn opposite(d: Direction) -> Direction {
    match d {
        Direction::Up => Direction::Down,
        Direction::Down => Direction::Up,
        Direction::Left => Direction::Right,
        Direction::Right => Direction::Left,
    }
}

/// Computes the 180-degree reverse of a heading.
pub fn opposite_of(d: Direction) -> (r: Direction)
    ensures
        r == opposite(d),
{
    match d {
        Direction::Up => Direction::Down,
        Direction::Down => Direction::Up,
        Direction::Left => Direction::Right,
        Direction::Right => Direction::Left,
    }
}

/// The axis a heading moves along.
pub open spec fn axis_spec(d: Direction) -> Axial {
    match d {
        Direction::Up | Direction::Down => Axial::Vertical,
        Direction::Left | Direction::Right => Axial::Horizontal,
    }
}

/// Computes the axis a heading moves along.
pub fn axis_of(d: Direction) -> (r: Axial)
    ensures
        r == axis_spec(d),
{
    match d {
        Direction::Up | Direction::Down => Axial::Vertical,
        Direction::Left | Direction::Right => Axial::Horizontal,
    }
}

/// Immutable board dimensions, in cells.
#[derive(Clone, Copy, PartialEq, Eq, Structural, Debug)]
pub struct GridConfig {
    pub width: i32,
    pub height: i32,
}

impl GridConfig {
    /// A usable board: wide enough for any cell, tall enough for the
    /// canonical three-segment snake, and small enough that a cell count
    /// fits the machine's integers.
    pub open spec fn wf(self) -> bool {
        &&& 1 <= self.width
        &&& 3 <= self.height
        &&& self.width * self.height <= i32::MAX
    }

    /// Builds a board configuration.
    pub fn new(width: i32, height: i32) -> (g: GridConfig)
        requires
            1 <= width,
            3 <= height,
            width * height <= i32::MAX,
        ensures
            g.width == width,
            g.height == height,
            g.wf(),
    {
        GridConfig { width, height }
    }
}

/// Whether a cell lies on a `w` by `h` board.
pub open spec fn cell_in_bounds(c: (int, int), w: int, h: int) -> bool {
    &&& 0 <= c.0 < w
    &&& 0 <= c.1 < h
}

/// The cell one step from `c` in heading `d`.
pub open spec fn cell_step(c: (int, int), d: Direction) -> (int, int) {
    (c.0 + delta_x(d), c.1 + delta_y(d))
}

/// Manhattan distance between two cells.
pub open spec fn manhattan(a: (int, int), b: (int, int)) -> nat {
    vstd::math::abs(a.0 - b.0) + vstd::math::abs(a.1 - b.1)
}

/// A single step in any heading moves exactly one cell: the Manhattan
/// distance between a cell and its successor is always 1.
pub proof fn lemma_step_is_one_cell(c: (int, int), d: Direction)
    ensures
        manhattan(cell_step(c, d), c) == 1,
{
}

} // verus!
