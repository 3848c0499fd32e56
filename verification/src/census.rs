//! Counting live cells.

use crate::board::alive_flags;
use crate::board::count_true;
use crate::board::live_count_at;
use crate::cell::cell_views;
use crate::cell::LifeCell;
use vstd::prelude::*;

verus! {

/// The number of live cells among a cell's neighbours: `neighbor_idxs` are
/// the neighbours' indices, `alive_grid` holds one flag per cell.
pub fn count_live_neighbors(neighbor_idxs: &Vec<usize>, alive_grid: &Vec<bool>) -> (live: usize)
    requires
        forall|k: int| 0 <= k < neighbor_idxs.len() ==> neighbor_idxs[k] < alive_grid.len(),
    ensures
        live == live_count_at(neighbor_idxs@, alive_grid@),
{
    let mut live: usize = 0;
    let mut k: usize = 0;
    while k < neighbor_idxs.len()
        invariant
            k <= neighbor_idxs.len(),
            live <= k,
            live == live_count_at(neighbor_idxs@.take(k as int), alive_grid@),
            forall|j: int| 0 <= j < neighbor_idxs.len() ==> neighbor_idxs[j] < alive_grid.len(),
        decreases neighbor_idxs.len() - k,
    {
        assert(neighbor_idxs@.take(k + 1).drop_last() =~= neighbor_idxs@.take(k as int));
        if alive_grid[neighbor_idxs[k]] {
            live += 1;
        }
        k += 1;
    }
    assert(neighbor_idxs@.take(k as int) =~= neighbor_idxs@);
    live
}

/// The number of live cells in a list of cells.
pub fn get_num_alive(cells: &Vec<LifeCell>) -> (alive: usize)
    ensures
        alive == count_true(alive_flags(cell_views(cells@))),
{
    let ghost flags = alive_flags(cell_views(cells@));
    let mut alive: usize = 0;
    let mut i: usize = 0;
    while i < cells.len()
        invariant
            i <= cells.len(),
            alive <= i,
            flags == alive_flags(cell_views(cells@)),
            alive == count_true(flags.take(i as int)),
        decreases cells.len() - i,
    {
        assert(flags.take(i + 1).drop_last() =~= flags.take(i as int));
        if cells[i].is_alive() {
            alive += 1;
        }
        i += 1;
    }
    assert(flags.take(i as int) =~= flags);
    alive
}

} // verus!
