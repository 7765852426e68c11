//! The toroidal coordinate space: cells, unit directions, and wrap-around
//! arithmetic. Motion off one edge of the grid reappears on the opposite edge.

use vstd::arithmetic::div_mod::{lemma_mod_add_multiples_vanish, lemma_mod_bound};
use vstd::prelude::*;

verus! {

/// A grid square, identified by its column `x` and row `y`.
#[derive(Clone, Copy, PartialEq, Eq, Structural, Debug)]
pub struct Cell {
    pub x: i32,
    pub y: i32,
}

/// Largest accepted grid side. It keeps the cell count `width * height`
/// and every coordinate computation within `i32`.
pub const MAX_GRID_SIDE: i32 = 46340;

/// A usable grid side: positive and within the machine limit.
pub open spec fn side_ok(side: int) -> bool {
    1 <= side <= MAX_GRID_SIDE
}

/// The cell lies on a `width` by `height` grid.
pub open spec fn cell_in_bounds(c: Cell, width: int, height: int) -> bool {
    &&& 0 <= c.x < width
    &&& 0 <= c.y < height
}

/// Where the snake's head moves on the next tick. `Still` is the state
/// before the first accepted input: the snake does not move yet.
#[derive(Clone, Copy, PartialEq, Eq, Structural, Debug)]
pub enum Dir {
    Up,
    Down,
    Left,
    Right,
    Still,
}

impl Dir {
    /// Horizontal component of the unit step.
    pub open spec fn dx(self) -> int {
        match self {
            Dir::Left => -1,
            Dir::Right => 1,
            _ => 0,
        }
    }

    /// Vertical component of the unit step. Rows grow downward.
    pub open spec fn dy(self) -> int {
        match self {
            Dir::Up => -1,
            Dir::Down => 1,
            _ => 0,
        }
    }

    /// The direction whose unit step is the exact negation of this one.
    pub open spec fn opposite(self) -> Dir {
        match self {
            Dir::Up => Dir::Down,
            Dir::Down => Dir::Up,
            Dir::Left => Dir::Right,
            Dir::Right => Dir::Left,
            Dir::Still => Dir::Still,
        }
    }
}

/// Toroidal wrap of one coordinate: the mathematical (non-negative)
/// remainder of `v` by the grid side `m`.
pub open spec fn wrap(v: int, m: int) -> int
    recommends
        1 <= m,
{
    v % m
}

/// One coordinate after a unit step, wrapped onto the grid. Adding `m`
/// before the remainder keeps the executable operand non-negative, so the
/// machine remainder agrees with the mathematical one; this is what lets a
/// coordinate at `0` step down to `m - 1` instead of to `-1`.
pub fn wrap_step(v: i32, d: i32, m: i32) -> (r: i32)
    requires
        side_ok(m as int),
        0 <= v < m,
        -1 <= d <= 1,
    ensures
        r == wrap(v + d, m as int),
        0 <= r < m,
{
    proof {
        lemma_mod_add_multiples_vanish(v + d, m as int);
        lemma_mod_bound(v + d, m as int);
    }
    (v + d + m) % m
}

/// The cell one step in direction `d` from `c`, wrapped onto the grid.
pub open spec fn step_cell(c: Cell, d: Dir, width: int, height: int) -> Cell {
    Cell { x: wrap(c.x + d.dx(), width) as i32, y: wrap(c.y + d.dy(), height) as i32 }
}

/// Executable unit step: moves `c` one cell in direction `d`, wrapping
/// around the grid edges.
pub fn move_cell(c: Cell, d: Dir, width: i32, height: i32) -> (r: Cell)
    requires
        side_ok(width as int),
        side_ok(height as int),
        cell_in_bounds(c, width as int, height as int),
    ensures
        r == step_cell(c, d, width as int, height as int),
        cell_in_bounds(r, width as int, height as int),
{
    let dx: i32 = match d {
        Dir::Left => -1,
        Dir::Right => 1,
        _ => 0,
    };
    let dy: i32 = match d {
        Dir::Up => -1,
        Dir::Down => 1,
        _ => 0,
    };
    Cell { x: wrap_step(c.x, dx, width), y: wrap_step(c.y, dy, height) }
}

/// Whether `c` is one of the cells, by linear search.
pub fn contains_cell(cells: &Vec<Cell>, c: Cell) -> (r: bool)
    ensures
        r == cells@.contains(c),
{
    let n: usize = cells.len();
    let mut i: usize = 0;
    while i < n
        invariant
            n == cells@.len(),
            i <= n,
            forall|j: int| 0 <= j < i ==> cells@[j] != c,
        decreases n - i,
    {
        if cells[i] == c {
            return true;
        }
        i = i + 1;
    }
    false
}

/// Law (wrap invariant): a unit step in any of the eight surrounding
/// deltas, or none, taken from an in-bounds cell lands in bounds.
pub proof fn lemma_wrap_stays_in_bounds(c: Cell, dx: int, dy: int, width: int, height: int)
    requires
        side_ok(width),
        side_ok(height),
        cell_in_bounds(c, width, height),
        -1 <= dx <= 1,
        -1 <= dy <= 1,
    ensures
        0 <= wrap(c.x + dx, width) < width,
        0 <= wrap(c.y + dy, height) < height,
{
    lemma_mod_bound(c.x + dx, width);
    lemma_mod_bound(c.y + dy, height);
}

} // verus!
