//! Random food placement: picks a grid cell the snake does not occupy.
//!
//! The spawner samples random cells and keeps the first free one. Rejection
//! sampling alone could run forever on a crowded board and would never end
//! on a full one, so after as many tries as the grid has cells — or as soon
//! as the random source refuses — it falls back to a deterministic scan of
//! the whole grid. The scan makes the spawner total: it returns `None`
//! exactly when the snake occupies every cell of the grid.

use crate::grid::{cell_in_bounds, contains_cell, side_ok, Cell};
use vstd::arithmetic::div_mod::{
    lemma_div_pos_is_pos, lemma_fundamental_div_mod, lemma_fundamental_div_mod_converse,
    lemma_mod_bound, lemma_multiply_divide_lt,
};
use vstd::prelude::*;
use vstd::relations::injective_on;
use vstd::set_lib::{lemma_int_range, lemma_len_subset, lemma_map_size, set_int_range};

verus! {

/// Relies on getrandom::u32: a value from the system's preferred random
/// source, or `None` where that source refuses. Nothing can be promised
/// of the value itself.
#[verifier::external_body]
fn random_u32() -> (r: Option<u32>) {
    getrandom::u32().ok()
}

/// The cell at position `j` of the row-by-row scan of a grid `w` wide.
pub open spec fn scan_cell(j: int, w: int) -> Cell {
    Cell { x: (j % w) as i32, y: (j / w) as i32 }
}

/// Picks a cell for the food: on the grid and off the snake. Random cells
/// are tried first; the deterministic scan is the safety net that makes
/// the call total. Returns `None` exactly when the snake covers the grid.
pub fn spawn_food(snake: &Vec<Cell>, width: i32, height: i32) -> (r: Option<Cell>)
    requires
        side_ok(width as int),
        side_ok(height as int),
    ensures
        r matches Some(c) ==> cell_in_bounds(c, width as int, height as int)
            && !snake@.contains(c),
        r is None <==> (forall|c: Cell|
            cell_in_bounds(c, width as int, height as int) ==> snake@.contains(c)),
{
    proof {
        assert(width as int * height as int <= 46340 * 46340) by (nonlinear_arith)
            requires
                1 <= width as int <= 46340,
                1 <= height as int <= 46340,
        ;
    }
    let total: i32 = width * height;
    let mut fuel: i32 = total;
    let mut rng_ok: bool = true;
    while rng_ok && fuel > 0
        invariant
            side_ok(width as int),
            side_ok(height as int),
        decreases fuel,
    {
        fuel = fuel - 1;
        match (random_u32(), random_u32()) {
            (Some(a), Some(b)) => {
                let x: i32 = (a % (width as u32)) as i32;
                let y: i32 = (b % (height as u32)) as i32;
                let c = Cell { x, y };
                if !contains_cell(snake, c) {
                    return Some(c);
                }
            },
            _ => {
                rng_ok = false;
            },
        }
    }
    let mut idx: i32 = 0;
    while idx < total
        invariant
            side_ok(width as int),
            side_ok(height as int),
            total == width as int * height as int,
            0 <= idx <= total,
            forall|j: int| 0 <= j < idx ==> snake@.contains(#[trigger] scan_cell(j, width as int)),
        decreases total - idx,
    {
        proof {
            lemma_mod_bound(idx as int, width as int);
            lemma_multiply_divide_lt(idx as int, width as int, height as int);
        }
        let c = Cell { x: idx % width, y: idx / width };
        if !contains_cell(snake, c) {
            return Some(c);
        }
        idx = idx + 1;
    }
    proof {
        assert forall|c: Cell|
            cell_in_bounds(c, width as int, height as int) implies snake@.contains(c) by {
            let j = c.y as int * width as int + c.x as int;
            assert(0 <= j < width as int * height as int) by (nonlinear_arith)
                requires
                    0 <= (c.x as int) < (width as int),
                    0 <= (c.y as int) < (height as int),
                    j == c.y as int * width as int + c.x as int,
            ;
            lemma_fundamental_div_mod_converse(j, width as int, c.y as int, c.x as int);
            assert(scan_cell(j, width as int) == c);
            assert(snake@.contains(scan_cell(j, width as int)));
        }
    }
    None
}

/// Law (board capacity): a duplicate-free snake of on-grid cells never has
/// more cells than the grid, and it covers every grid cell — the spawner's
/// "board full" answer — exactly when its length is `width * height`.
pub proof fn lemma_board_capacity(snake: Seq<Cell>, width: int, height: int)
    requires
        side_ok(width),
        side_ok(height),
        snake.no_duplicates(),
        forall|i: int| 0 <= i < snake.len() ==> cell_in_bounds(#[trigger] snake[i], width, height),
    ensures
        snake.len() <= width * height,
        (forall|c: Cell| cell_in_bounds(c, width, height) ==> snake.contains(c)) <==> snake.len()
            == width * height,
{
    let total = width * height;
    assert(1 <= total <= 46340 * 46340) by (nonlinear_arith)
        requires
            1 <= width <= 46340,
            1 <= height <= 46340,
            total == width * height,
    ;
    let grid = Set::new(|c: Cell| cell_in_bounds(c, width, height));
    let rng = set_int_range(0, total);
    let f = |j: int| scan_cell(j, width);
    lemma_int_range(0, total);

    // the scan enumerates the grid: `f` maps [0, total) onto `grid` ...
    assert forall|c: Cell| grid.contains(c) implies rng.map(f).contains(c) by {
        let j = c.y as int * width + c.x as int;
        assert(0 <= j < total) by (nonlinear_arith)
            requires
                0 <= (c.x as int) < width,
                0 <= (c.y as int) < height,
                total == width * height,
                j == c.y as int * width + c.x as int,
        ;
        lemma_fundamental_div_mod_converse(j, width, c.y as int, c.x as int);
        assert(rng.contains(j) && f(j) == c);
    }
    assert forall|c: Cell| rng.map(f).contains(c) implies grid.contains(c) by {
        let j = choose|j: int| rng.contains(j) && c == f(j);
        lemma_mod_bound(j, width);
        lemma_div_pos_is_pos(j, width);
        lemma_multiply_divide_lt(j, width, height);
    }
    assert(rng.map(f) =~= grid);

    // ... and one-to-one: row and column recover the scan position
    assert forall|j1: int, j2: int|
        rng.contains(j1) && rng.contains(j2) && #[trigger] f(j1) == #[trigger] f(j2) implies j1
        == j2 by {
        lemma_mod_bound(j1, width);
        lemma_div_pos_is_pos(j1, width);
        lemma_multiply_divide_lt(j1, width, height);
        lemma_mod_bound(j2, width);
        lemma_div_pos_is_pos(j2, width);
        lemma_multiply_divide_lt(j2, width, height);
        lemma_fundamental_div_mod(j1, width);
        lemma_fundamental_div_mod(j2, width);
    }
    assert(injective_on(f, rng));
    lemma_map_size(rng, grid, f);
    assert(grid.finite() && grid.len() == total);

    // a duplicate-free snake occupies as many grid cells as it has
    let occupied = snake.to_set();
    snake.unique_seq_to_set();
    assert(occupied.subset_of(grid));
    lemma_len_subset(occupied, grid);

    if forall|c: Cell| cell_in_bounds(c, width, height) ==> snake.contains(c) {
        assert(grid.subset_of(occupied));
        lemma_len_subset(grid, occupied);
    }
    if snake.len() == total {
        assert forall|c: Cell| cell_in_bounds(c, width, height) implies snake.contains(c) by {
            if !snake.contains(c) {
                assert(occupied.subset_of(grid.remove(c)));
                assert(grid.remove(c).len() == total - 1);
                lemma_len_subset(occupied, grid.remove(c));
            }
        }
    }
}

} // verus!
