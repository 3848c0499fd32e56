//! The data-parallel passes over the cells of a grid.
//!
//! A pass changes every cell on its own: it reads and writes that one cell
//! and may read values that no pass changes. The worker threads are those
//! of `rayon`; what a pass does to one cell is verified here.

use crate::board::lemma_live_count_bounds;
use crate::board::live_count_at;
use crate::cell::CellView;
use crate::cell::LifeCell;
use crate::census::count_live_neighbors;
use rayon::iter::IntoParallelRefIterator;
use rayon::iter::IntoParallelRefMutIterator;
use rayon::iter::ParallelIterator;
use vstd::prelude::*;

verus! {

/// A change made to every cell independently of the others.
pub(crate) trait CellPass: Sync {
    /// The cells on which the pass may run.
    spec fn allows(&self, cell: CellView) -> bool;

    /// The cell after the pass.
    spec fn outcome(&self, cell: CellView) -> CellView;

    /// Runs the pass on one cell.
    fn apply(&self, cell: &mut LifeCell)
        requires
            self.allows(old(cell)@),
        ensures
            final(cell)@ == self.outcome(old(cell)@),
    ;
}

/// Stages every cell's next state from a snapshot of the live cells.
pub(crate) struct Stage<'a> {
    /// One flag per cell of the grid, taken before the pass began.
    pub alive_grid: &'a Vec<bool>,
}

impl<'a> CellPass for Stage<'a> {
    open spec fn allows(&self, cell: CellView) -> bool {
        &&& cell.neighbors.len() <= u8::MAX
        &&& forall|k: int|
            0 <= k < cell.neighbors.len() ==> (#[trigger] cell.neighbors[k])
                < self.alive_grid@.len()
    }

    open spec fn outcome(&self, cell: CellView) -> CellView {
        cell.staged(live_count_at(cell.neighbors, self.alive_grid@))
    }

    fn apply(&self, cell: &mut LifeCell) {
        let live = count_live_neighbors(cell.get_neighbor_indices(), self.alive_grid);
        proof {
            lemma_live_count_bounds(cell@.neighbors, self.alive_grid@);
        }
        cell.prepare_update(live as u8);
    }
}

/// Commits every cell's staged state.
pub(crate) struct Commit;

impl CellPass for Commit {
    open spec fn allows(&self, cell: CellView) -> bool {
        true
    }

    open spec fn outcome(&self, cell: CellView) -> CellView {
        cell.committed()
    }

    fn apply(&self, cell: &mut LifeCell) {
        cell.update();
    }
}

/// Runs a pass on every cell, on rayon's worker threads, and returns once
/// all of them are done.
///
/// Trusted: `par_iter_mut` of `rayon`'s `IntoParallelRefMutIterator` on a
/// `Vec` followed by `for_each` of its `ParallelIterator`. The contract
/// claims that the closure is called exactly once with each element, by
/// exclusive reference, that the elements keep their places, and that the
/// call returns only after the last closure has returned.
#[verifier::external_body]
pub(crate) fn for_each_cell<P: CellPass>(cells: &mut Vec<LifeCell>, pass: &P)
    requires
        forall|i: int| 0 <= i < old(cells).len() ==> pass.allows(#[trigger] old(cells)[i]@),
    ensures
        final(cells).len() == old(cells).len(),
        forall|i: int|
            0 <= i < old(cells).len() ==> (#[trigger] final(cells)[i])@ == pass.outcome(
                old(cells)[i]@,
            ),
{
    cells.par_iter_mut().for_each(|cell| pass.apply(cell));
}

/// The flags of the live cells, in the order of the cells, gathered on
/// rayon's worker threads.
///
/// Trusted: `par_iter` of `rayon`'s `IntoParallelRefIterator` on a `Vec`,
/// `map` and `collect` of its `ParallelIterator`. The contract claims that
/// collecting into a `Vec` keeps the order of the elements and that each
/// result is the closure's value for the element in its place.
#[verifier::external_body]
pub(crate) fn snapshot(cells: &Vec<LifeCell>) -> (alive_grid: Vec<bool>)
    ensures
        alive_grid.len() == cells.len(),
        forall|i: int| 0 <= i < cells.len() ==> #[trigger] alive_grid[i] == cells[i]@.alive,
{
    cells.par_iter().map(|cell| cell.is_alive()).collect()
}

} // verus!
