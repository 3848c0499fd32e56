//! The grid: it owns the cells, fixes their neighbourhoods once and
//! advances all of them together, one generation per step.

use crate::board::lemma_live_count_neighbors;
use crate::board::GridView;
use crate::cell::cell_views;
use crate::cell::CellView;
use crate::cell::LifeCell;
use crate::parallel::for_each_cell;
use crate::parallel::snapshot;
use crate::parallel::CellPass;
use crate::parallel::Commit;
use crate::parallel::Stage;
use crate::topology::column_of;
use crate::topology::get_neighbor_indices_for_cell;
use crate::topology::lemma_index_coordinates;
use crate::topology::lemma_neighbors_in_range;
use crate::topology::neighbors_of;
use crate::topology::row_of;
use vstd::prelude::*;

verus! {

/// A grid of cells, kept row by row.
pub struct Grid {
    x_cells: u32,
    y_cells: u32,
    generation: u64,
    cells: Vec<LifeCell>,
}

impl View for Grid {
    type V = GridView;

    closed spec fn view(&self) -> GridView {
        GridView {
            width: self.x_cells as int,
            height: self.y_cells as int,
            generation: self.generation as int,
            cells: cell_views(self.cells@),
        }
    }
}

impl Grid {
    /// The grid is well formed: see [`GridView::wf`].
    pub open spec fn wf(&self) -> bool {
        self@.wf()
    }

    /// A grid of `x_cells` columns and `y_cells` rows in which nothing
    /// lives yet.
    pub fn new(x_cells: u32, y_cells: u32) -> (grid: Grid)
        requires
            1 <= x_cells,
            1 <= y_cells,
            x_cells * y_cells <= usize::MAX,
        ensures
            grid.wf(),
            grid@ == GridView::blank(x_cells as int, y_cells as int),
    {
        let grid = Grid {
            x_cells,
            y_cells,
            generation: 0,
            cells: Grid::create_cell_grid(x_cells, y_cells),
        };
        proof {
            let blank = GridView::blank(x_cells as int, y_cells as int);
            assert(grid@.cells =~= blank.cells);
        }
        grid
    }

    /// Advances the grid by one generation and returns the new count of
    /// generations.
    ///
    /// Three passes follow one another, each over all cells and each done
    /// before the next begins: the live cells are copied into a snapshot;
    /// every cell stages its next state from its neighbours' flags in the
    /// snapshot; every cell commits what it staged.
    pub fn update(&mut self) -> (generation: u64)
        requires
            old(self).wf(),
            old(self)@.generation < u64::MAX,
        ensures
            final(self).wf(),
            final(self)@ == old(self)@.stepped(),
            generation == final(self)@.generation,
    {
        let alive_grid = snapshot(&self.cells);
        let stage = Stage { alive_grid: &alive_grid };
        proof {
            assert(alive_grid@ =~= self@.alive());
            assert forall|i: int| 0 <= i < self.cells.len() implies stage.allows(
                #[trigger] self.cells[i]@,
            ) by {
                self.lemma_cell_neighbors(i);
            }
        }
        for_each_cell(&mut self.cells, &stage);
        for_each_cell(&mut self.cells, &Commit);
        self.generation += 1;
        proof {
            let before = old(self)@;
            let stepped = before.stepped();
            assert forall|i: int| 0 <= i < stepped.cells.len() implies self@.cells[i]
                == stepped.cells[i] by {
                old(self).lemma_cell_neighbors(i);
                lemma_live_count_neighbors(
                    before.width,
                    before.height,
                    before.alive(),
                    column_of(before.width, i),
                    row_of(before.width, i),
                );
                assert(old(self).cells[i]@ == before.cells[i]);
            }
            assert(self@.cells =~= stepped.cells);
        }
        self.generation
    }

    /// Makes every cell dead and counts the generations anew. The cells
    /// keep their neighbours.
    pub fn reset(&mut self)
        requires
            old(self).wf(),
        ensures
            final(self).wf(),
            final(self)@ == old(self)@.cleared(),
    {
        let count = self.cells.len();
        let mut i: usize = 0;
        while i < count
            invariant
                i <= count,
                self.cells.len() == count,
                self.x_cells == old(self).x_cells,
                self.y_cells == old(self).y_cells,
                forall|j: int|
                    0 <= j < i ==> (#[trigger] self.cells[j])@ == old(self).cells[j]@.with_state(
                        false,
                    ),
                forall|j: int| i <= j < count ==> (#[trigger] self.cells[j]) == old(self).cells[j],
            decreases count - i,
        {
            self.cells[i].make_dead();
            i += 1;
        }
        self.generation = 0;
        assert(self@.cells =~= old(self)@.cleared().cells);
    }

    /// Seeds the grid anew from one draw per cell: after a reset, cell `i`
    /// is made alive where `draws[i]` is `true`. A cell without a draw
    /// stays dead.
    pub fn randomize(&mut self, draws: &Vec<bool>)
        requires
            old(self).wf(),
        ensures
            final(self).wf(),
            final(self)@ == old(self)@.seeded(draws@),
    {
        self.reset();
        let count = self.cells.len();
        proof {
            let cleared = old(self)@.cleared();
            assert(self@.cells.len() == cleared.cells.len());
            assert forall|j: int| 0 <= j < count implies (#[trigger] self.cells[j])@ == old(
                self,
            ).cells[j]@.with_state(false) by {
                assert(self@.cells[j] == cleared.cells[j]);
            }
        }
        let mut i: usize = 0;
        while i < count
            invariant
                i <= count,
                self.cells.len() == count,
                self.x_cells == old(self).x_cells,
                self.y_cells == old(self).y_cells,
                self.generation == 0,
                old(self).cells.len() == count,
                forall|j: int|
                    0 <= j < i ==> (#[trigger] self.cells[j])@ == old(self).cells[j]@.with_state(
                        j < draws.len() && draws[j],
                    ),
                forall|j: int|
                    i <= j < count ==> (#[trigger] self.cells[j])@ == old(
                        self,
                    ).cells[j]@.with_state(false),
            decreases count - i,
        {
            if i < draws.len() && draws[i] {
                self.cells[i].make_live();
            }
            i += 1;
        }
        assert(self@.cells =~= old(self)@.seeded(draws@).cells);
    }

    /// The number of columns.
    pub fn width(&self) -> (width: u32)
        ensures
            width == self@.width,
    {
        self.x_cells
    }

    /// The number of rows.
    pub fn height(&self) -> (height: u32)
        ensures
            height == self@.height,
    {
        self.y_cells
    }

    /// The number of generations since the grid was made or last seeded.
    pub fn generation(&self) -> (generation: u64)
        ensures
            generation == self@.generation,
    {
        self.generation
    }

    /// The cells, row by row.
    pub fn cells(&self) -> (cells: &Vec<LifeCell>)
        ensures
            cell_views(cells@) == self@.cells,
    {
        &self.cells
    }

    /// In a well-formed grid every neighbour of a cell is the index of a
    /// cell, and no cell has more than eight.
    proof fn lemma_cell_neighbors(&self, i: int)
        requires
            self.wf(),
            0 <= i < self.cells.len(),
        ensures
            self.cells[i]@.settled(),
            self.cells[i]@.neighbors == neighbors_of(
                self@.width,
                self@.height,
                column_of(self@.width, i),
                row_of(self@.width, i),
            ),
            self.cells[i]@.neighbors.len() <= 8,
            forall|k: int|
                0 <= k < self.cells[i]@.neighbors.len() ==> (#[trigger] self.cells[i]@.neighbors[k])
                    < self.cells.len(),
    {
        assert(self.cells[i]@ == self@.cells[i]);
        lemma_index_coordinates(self@.width, self@.height, i);
        lemma_neighbors_in_range(
            self@.width,
            self@.height,
            column_of(self@.width, i),
            row_of(self@.width, i),
        );
    }

    /// The cells of a new grid: all dead, each with its neighbours.
    fn create_cell_grid(x_cells: u32, y_cells: u32) -> (cell_grid: Vec<LifeCell>)
        requires
            1 <= x_cells,
            1 <= y_cells,
            x_cells * y_cells <= usize::MAX,
        ensures
            cell_views(cell_grid@) == GridView::blank(x_cells as int, y_cells as int).cells,
    {
        let count = (x_cells as usize) * (y_cells as usize);
        let mut cell_grid: Vec<LifeCell> = Vec::with_capacity(count);
        let mut made: usize = 0;
        while made < count
            invariant
                made <= count,
                cell_grid.len() == made,
                forall|i: int|
                    0 <= i < made ==> (#[trigger] cell_grid[i])@ == (CellView {
                        alive: false,
                        current: false,
                        next: false,
                        neighbors: Seq::empty(),
                    }),
            decreases count - made,
        {
            cell_grid.push(LifeCell::new(false));
            made += 1;
        }
        Grid::set_neighbors(x_cells, y_cells, &mut cell_grid);
        assert(cell_views(cell_grid@) =~= GridView::blank(x_cells as int, y_cells as int).cells);
        cell_grid
    }

    /// Gives every cell the indices of the cells around it.
    fn set_neighbors(x_cells: u32, y_cells: u32, cell_grid: &mut Vec<LifeCell>)
        requires
            1 <= x_cells,
            1 <= y_cells,
            x_cells * y_cells <= usize::MAX,
            old(cell_grid).len() == x_cells * y_cells,
        ensures
            final(cell_grid).len() == old(cell_grid).len(),
            forall|i: int|
                0 <= i < old(cell_grid).len() ==> (#[trigger] final(cell_grid)[i])@ == (CellView {
                    neighbors: neighbors_of(
                        x_cells as int,
                        y_cells as int,
                        column_of(x_cells as int, i),
                        row_of(x_cells as int, i),
                    ),
                    ..old(cell_grid)[i]@
                }),
    {
        let count = cell_grid.len();
        let width = x_cells as usize;
        let mut i: usize = 0;
        while i < count
            invariant
                1 <= x_cells,
                1 <= y_cells,
                x_cells * y_cells <= usize::MAX,
                width == x_cells,
                count == x_cells * y_cells,
                cell_grid.len() == count,
                i <= count,
                forall|j: int|
                    0 <= j < i ==> (#[trigger] cell_grid[j])@ == (CellView {
                        neighbors: neighbors_of(
                            x_cells as int,
                            y_cells as int,
                            column_of(x_cells as int, j),
                            row_of(x_cells as int, j),
                        ),
                        ..old(cell_grid)[j]@
                    }),
                forall|j: int| i <= j < count ==> (#[trigger] cell_grid[j]) == old(cell_grid)[j],
            decreases count - i,
        {
            proof {
                lemma_index_coordinates(x_cells as int, y_cells as int, i as int);
            }
            let x = (i % width) as u32;
            let y = (i / width) as u32;
            let neighbor_idxs = get_neighbor_indices_for_cell(x, y, x_cells, y_cells);
            cell_grid[i].set_neighbor_indices(neighbor_idxs);
            i += 1;
        }
    }
}

} // verus!
