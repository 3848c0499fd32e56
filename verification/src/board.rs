//! A whole generation as plain values: which cells live, how many live
//! cells surround a place, and what the next generation is.

use crate::cell::next_state_of;
use crate::cell::CellView;
use crate::topology::cell_index;
use crate::topology::column_of;
use crate::topology::in_grid;
use crate::topology::lemma_cell_index_bounds;
use crate::topology::neighbor_at;
use crate::topology::neighbors_of;
use crate::topology::row_of;
use vstd::prelude::*;

verus! {

/// One for `true`, nothing for `false`.
pub open spec fn one_if(condition: bool) -> int {
    if condition {
        1
    } else {
        0
    }
}

/// Column `x`, row `y` lies inside the grid and its cell lives. `alive`
/// holds one flag per cell, row by row.
pub open spec fn lives_at(width: int, height: int, alive: Seq<bool>, x: int, y: int) -> bool {
    in_grid(width, height, x, y) && alive[cell_index(width, x, y)]
}

/// The number of live cells among the eight places around column `x`,
/// row `y`. A place outside the grid counts as dead.
pub open spec fn live_neighbors(width: int, height: int, alive: Seq<bool>, x: int, y: int) -> int {
    one_if(lives_at(width, height, alive, x - 1, y - 1)) + one_if(
        lives_at(width, height, alive, x, y - 1),
    ) + one_if(lives_at(width, height, alive, x + 1, y - 1)) + one_if(
        lives_at(width, height, alive, x - 1, y),
    ) + one_if(lives_at(width, height, alive, x + 1, y)) + one_if(
        lives_at(width, height, alive, x - 1, y + 1),
    ) + one_if(lives_at(width, height, alive, x, y + 1)) + one_if(
        lives_at(width, height, alive, x + 1, y + 1),
    )
}

/// The number of entries of `indices` at which `alive` holds `true`.
pub open spec fn live_count_at(indices: Seq<usize>, alive: Seq<bool>) -> int
    decreases indices.len(),
{
    if indices.len() == 0 {
        0
    } else {
        live_count_at(indices.drop_last(), alive) + one_if(alive[indices.last() as int])
    }
}

/// The number of `true` entries of `flags`.
pub open spec fn count_true(flags: Seq<bool>) -> int
    decreases flags.len(),
{
    if flags.len() == 0 {
        0
    } else {
        count_true(flags.drop_last()) + one_if(flags.last())
    }
}

/// One flag per cell: whether the cell lives.
pub open spec fn alive_flags(cells: Seq<CellView>) -> Seq<bool> {
    Seq::new(cells.len(), |i: int| cells[i].alive)
}

/// A count over a list of indices is between nothing and the list's length.
pub proof fn lemma_live_count_bounds(indices: Seq<usize>, alive: Seq<bool>)
    ensures
        0 <= live_count_at(indices, alive) <= indices.len(),
    decreases indices.len(),
{
    if indices.len() > 0 {
        lemma_live_count_bounds(indices.drop_last(), alive);
    }
}

/// Counting over two lists joined is counting over each and adding up.
pub proof fn lemma_live_count_concat(first: Seq<usize>, second: Seq<usize>, alive: Seq<bool>)
    ensures
        live_count_at(first + second, alive) == live_count_at(first, alive) + live_count_at(
            second,
            alive,
        ),
    decreases second.len(),
{
    if second.len() == 0 {
        assert(first + second =~= first);
    } else {
        assert((first + second).drop_last() =~= first + second.drop_last());
        lemma_live_count_concat(first, second.drop_last(), alive);
    }
}

/// Counting over the one place `neighbor_at` names tells whether a cell
/// lives there.
proof fn lemma_live_count_place(width: int, height: int, alive: Seq<bool>, x: int, y: int)
    requires
        width * height <= usize::MAX,
    ensures
        live_count_at(neighbor_at(width, height, x, y), alive) == one_if(
            lives_at(width, height, alive, x, y),
        ),
{
    let place = neighbor_at(width, height, x, y);
    if in_grid(width, height, x, y) {
        lemma_cell_index_bounds(width, height, x, y);
        assert(place.drop_last() =~= Seq::<usize>::empty());
        assert(place.last() == cell_index(width, x, y) as usize);
        assert(live_count_at(place.drop_last(), alive) == 0);
    }
}

/// Counting the live cells over a cell's list of neighbours gives the
/// number of live cells around it.
pub proof fn lemma_live_count_neighbors(width: int, height: int, alive: Seq<bool>, x: int, y: int)
    requires
        width * height <= usize::MAX,
    ensures
        live_count_at(neighbors_of(width, height, x, y), alive) == live_neighbors(
            width,
            height,
            alive,
            x,
            y,
        ),
{
    let west = neighbor_at(width, height, x - 1, y);
    let north_west = west + neighbor_at(width, height, x - 1, y - 1);
    let north = north_west + neighbor_at(width, height, x, y - 1);
    let north_east = north + neighbor_at(width, height, x + 1, y - 1);
    let east = north_east + neighbor_at(width, height, x + 1, y);
    let south_east = east + neighbor_at(width, height, x + 1, y + 1);
    let south = south_east + neighbor_at(width, height, x, y + 1);
    lemma_live_count_place(width, height, alive, x - 1, y);
    lemma_live_count_place(width, height, alive, x - 1, y - 1);
    lemma_live_count_place(width, height, alive, x, y - 1);
    lemma_live_count_place(width, height, alive, x + 1, y - 1);
    lemma_live_count_place(width, height, alive, x + 1, y);
    lemma_live_count_place(width, height, alive, x + 1, y + 1);
    lemma_live_count_place(width, height, alive, x, y + 1);
    lemma_live_count_place(width, height, alive, x - 1, y + 1);
    lemma_live_count_concat(west, neighbor_at(width, height, x - 1, y - 1), alive);
    lemma_live_count_concat(north_west, neighbor_at(width, height, x, y - 1), alive);
    lemma_live_count_concat(north, neighbor_at(width, height, x + 1, y - 1), alive);
    lemma_live_count_concat(north_east, neighbor_at(width, height, x + 1, y), alive);
    lemma_live_count_concat(east, neighbor_at(width, height, x + 1, y + 1), alive);
    lemma_live_count_concat(south_east, neighbor_at(width, height, x, y + 1), alive);
    lemma_live_count_concat(south, neighbor_at(width, height, x - 1, y + 1), alive);
}

/// What a grid is, as plain values.
pub struct GridView {
    /// The number of columns.
    pub width: int,
    /// The number of rows.
    pub height: int,
    /// The number of generations since the cells were last seeded.
    pub generation: int,
    /// The cells, row by row.
    pub cells: Seq<CellView>,
}

impl GridView {
    /// One flag per cell, row by row: whether the cell lives.
    pub open spec fn alive(self) -> Seq<bool> {
        alive_flags(self.cells)
    }

    /// The grid has a cell for every place, every cell is settled, and
    /// every cell knows exactly the cells around it.
    pub open spec fn wf(self) -> bool {
        &&& 1 <= self.width
        &&& 1 <= self.height
        &&& self.width * self.height <= usize::MAX
        &&& 0 <= self.generation
        &&& self.cells.len() == self.width * self.height
        &&& forall|i: int|
            0 <= i < self.cells.len() ==> (#[trigger] self.cells[i]).settled()
                && self.cells[i].neighbors == neighbors_of(
                self.width,
                self.height,
                column_of(self.width, i),
                row_of(self.width, i),
            )
    }

    /// The grid of the given size in which nothing lives yet.
    pub open spec fn blank(width: int, height: int) -> GridView {
        GridView {
            width,
            height,
            generation: 0,
            cells: Seq::new(
                (width * height) as nat,
                |i: int|
                    CellView {
                        alive: false,
                        current: false,
                        next: false,
                        neighbors: neighbors_of(
                            width,
                            height,
                            column_of(width, i),
                            row_of(width, i),
                        ),
                    },
            ),
        }
    }

    /// Whether the cell with the given index lives in the next generation.
    pub open spec fn lives_next(self, index: int) -> bool {
        next_state_of(
            self.cells[index].alive,
            live_neighbors(
                self.width,
                self.height,
                self.alive(),
                column_of(self.width, index),
                row_of(self.width, index),
            ),
        )
    }

    /// The next generation: every cell goes by the rule, counting its live
    /// neighbours in this generation.
    pub open spec fn stepped(self) -> GridView {
        GridView {
            width: self.width,
            height: self.height,
            generation: self.generation + 1,
            cells: Seq::new(
                self.cells.len(),
                |i: int| self.cells[i].with_state(self.lives_next(i)),
            ),
        }
    }

    /// The grid after `count` generations.
    pub open spec fn after(self, count: nat) -> GridView
        decreases count,
    {
        if count == 0 {
            self
        } else {
            self.after((count - 1) as nat).stepped()
        }
    }

    /// The grid with every cell dead and the generations counted anew.
    pub open spec fn cleared(self) -> GridView {
        GridView {
            width: self.width,
            height: self.height,
            generation: 0,
            cells: Seq::new(self.cells.len(), |i: int| self.cells[i].with_state(false)),
        }
    }

    /// The grid seeded anew: cell `i` lives exactly where there is a draw
    /// for it and `draws[i]` is `true`, and the generations are counted
    /// anew.
    pub open spec fn seeded(self, draws: Seq<bool>) -> GridView {
        GridView {
            width: self.width,
            height: self.height,
            generation: 0,
            cells: Seq::new(
                self.cells.len(),
                |i: int| self.cells[i].with_state(i < draws.len() && draws[i]),
            ),
        }
    }
}

} // verus!
