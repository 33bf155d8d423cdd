//! Food placement: a uniformly random unoccupied cell.
//!
//! The spawner draws random cells and rejects occupied ones. Because every
//! loop here must provably terminate, the random draws are capped; if none
//! of them hits a free cell the spawner falls back to a deterministic sweep
//! of the board, which finds a free cell whenever one exists. Placing food
//! on an occupied cell is impossible by contract, and `None` comes back
//! only when the body covers the whole board.

use vstd::prelude::*;
use crate::components::{cell_in_bounds, GridConfig, Position};
use crate::model::cells_of;

verus! {

/// How many random draws are tried before the deterministic sweep.
const RANDOM_DRAW_LIMIT: u32 = 64;

/// Relies on `rand::thread_rng` and `rand::Rng::gen_range` over `lo..hi`:
/// the sample lies in the half-open range `[lo, hi)`. `gen_range` panics on
/// an empty range, which the precondition rules out.
#[verifier::external_body]
fn random_in_range(lo: i32, hi: i32) -> (r: i32)
    requires
        lo < hi,
    ensures
        lo <= r < hi,
{
    rand::Rng::gen_range(&mut rand::thread_rng(), lo..hi)
}

/// Whether some position of `occupied` stands on the cell of `p`.
pub(crate) fn occupied_contains(occupied: &Vec<Position>, p: Position) -> (r: bool)
    ensures
        r == cells_of(occupied@).contains(p@),
{
    let mut i: usize = 0;
    while i < occupied.len()
        invariant
            0 <= i <= occupied.len(),
            forall|k: int| 0 <= k < i ==> occupied@[k]@ != p@,
        decreases occupied.len() - i,
    {
        if occupied[i] == p {
            proof {
                assert(cells_of(occupied@)[i as int] == p@);
            }
            return true;
        }
        i = i + 1;
    }
    false
}

/// Draws a food cell outside `occupied`: first by rejection sampling of
/// uniformly random cells, then, should every capped draw land on the body,
/// by a row-major sweep for the first free cell. Returns `None` exactly
/// when no free cell remains (the body covers the board), which a caller
/// may treat as a terminal win.
pub fn spawn_food(occupied: &Vec<Position>, grid: GridConfig) -> (r: Option<Position>)
    requires
        1 <= grid.width,
        1 <= grid.height,
    ensures
        (r matches Some(p) ==> cell_in_bounds(p@, grid.width as int, grid.height as int)
            && !cells_of(occupied@).contains(p@)),
        (r is None ==> forall|c: (int, int)|
            cell_in_bounds(c, grid.width as int, grid.height as int) ==> cells_of(
                occupied@,
            ).contains(c)),
{
    let mut tries: u32 = 0;
    while tries < RANDOM_DRAW_LIMIT
        invariant
            1 <= grid.width,
            1 <= grid.height,
        decreases RANDOM_DRAW_LIMIT - tries,
    {
        let x = random_in_range(0, grid.width);
        let y = random_in_range(0, grid.height);
        let p = Position { x, y };
        if !occupied_contains(occupied, p) {
            return Some(p);
        }
        tries = tries + 1;
    }
    let mut y: i32 = 0;
    while y < grid.height
        invariant
            0 <= y <= grid.height,
            1 <= grid.width,
            1 <= grid.height,
            forall|c: (int, int)|
                cell_in_bounds(c, grid.width as int, grid.height as int) && c.1 < y ==> cells_of(
                    occupied@,
                ).contains(c),
        decreases grid.height - y,
    {
        let mut x: i32 = 0;
        while x < grid.width
            invariant
                0 <= x <= grid.width,
                0 <= y < grid.height,
                1 <= grid.width,
                1 <= grid.height,
                forall|c: (int, int)|
                    cell_in_bounds(c, grid.width as int, grid.height as int) && c.1 < y
                        ==> cells_of(occupied@).contains(c),
                forall|cx: int| 0 <= cx < x ==> cells_of(occupied@).contains((cx, y as int)),
            decreases grid.width - x,
        {
            let p = Position { x, y };
            if !occupied_contains(occupied, p) {
                return Some(p);
            }
            x = x + 1;
        }
        y = y + 1;
    }
    None
}

} // verus!
