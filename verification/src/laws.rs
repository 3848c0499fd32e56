//! What holds of every grid, proved from the model in [`crate::board`].

use crate::board::live_neighbors;
use crate::board::lives_at;
use crate::board::GridView;
use crate::topology::cell_index;
use crate::topology::column_of;
use crate::topology::in_grid;
use crate::topology::lemma_cell_index_bounds;
use crate::topology::lemma_cell_index_inverse;
use crate::topology::lemma_index_coordinates;
use crate::topology::lemma_neighbor_count;
use crate::topology::lemma_neighbors_symmetric;
use crate::topology::on_corner;
use crate::topology::on_edge;
use crate::topology::row_of;
use vstd::prelude::*;

verus! {

/// In a grid of at least two columns and two rows the cell at a corner
/// has exactly three neighbours, any other cell on the edge exactly five
/// and a cell in the interior exactly eight.
pub proof fn lemma_grid_neighbor_counts(grid: GridView, x: int, y: int)
    requires
        grid.wf(),
        2 <= grid.width,
        2 <= grid.height,
        in_grid(grid.width, grid.height, x, y),
    ensures
        on_corner(grid.width, grid.height, x, y) ==> grid.cells[cell_index(
            grid.width,
            x,
            y,
        )].neighbors.len() == 3,
        on_edge(grid.width, grid.height, x, y) && !on_corner(grid.width, grid.height, x, y)
            ==> grid.cells[cell_index(grid.width, x, y)].neighbors.len() == 5,
        !on_edge(grid.width, grid.height, x, y) ==> grid.cells[cell_index(
            grid.width,
            x,
            y,
        )].neighbors.len() == 8,
{
    lemma_cell_index_bounds(grid.width, grid.height, x, y);
    lemma_cell_index_inverse(grid.width, x, y);
    lemma_neighbor_count(grid.width, grid.height, x, y);
}

/// Neighbourhood is mutual: cell `b` is among the neighbours of cell `a`
/// exactly where `a` is among the neighbours of `b`.
pub proof fn lemma_grid_neighbors_mutual(grid: GridView, a: int, b: int)
    requires
        grid.wf(),
        0 <= a < grid.cells.len(),
        0 <= b < grid.cells.len(),
    ensures
        grid.cells[a].neighbors.contains(b as usize) <==> grid.cells[b].neighbors.contains(
            a as usize,
        ),
{
    lemma_neighbors_symmetric(grid.width, grid.height, a, b);
}

/// A live cell without a live neighbour is dead in the next generation.
pub proof fn lemma_lonely_cell_dies(grid: GridView, index: int)
    requires
        grid.wf(),
        0 <= index < grid.cells.len(),
        grid.cells[index].alive,
        live_neighbors(
            grid.width,
            grid.height,
            grid.alive(),
            column_of(grid.width, index),
            row_of(grid.width, index),
        ) == 0,
    ensures
        !grid.stepped().cells[index].alive,
{
}

/// Where exactly one cell of the grid lives, nothing lives in the next
/// generation.
pub proof fn lemma_single_cell_dies_out(grid: GridView, index: int)
    requires
        grid.wf(),
        0 <= index < grid.cells.len(),
        forall|i: int| 0 <= i < grid.cells.len() ==> (#[trigger] grid.cells[i]).alive == (i == index),
    ensures
        forall|i: int| 0 <= i < grid.cells.len() ==> !(#[trigger] grid.stepped().cells[i]).alive,
{
    let w = grid.width;
    let h = grid.height;
    assert forall|i: int| 0 <= i < grid.cells.len() implies !(#[trigger] grid.stepped().cells[i]).alive by {
        let x = column_of(w, i);
        let y = row_of(w, i);
        lemma_index_coordinates(w, h, i);
        lemma_lives_only_at(grid, index, x - 1, y - 1);
        lemma_lives_only_at(grid, index, x, y - 1);
        lemma_lives_only_at(grid, index, x + 1, y - 1);
        lemma_lives_only_at(grid, index, x - 1, y);
        lemma_lives_only_at(grid, index, x + 1, y);
        lemma_lives_only_at(grid, index, x - 1, y + 1);
        lemma_lives_only_at(grid, index, x, y + 1);
        lemma_lives_only_at(grid, index, x + 1, y + 1);
    }
}

/// Where only the cell `index` lives, a place holds a live cell exactly
/// where it is the place of that cell.
proof fn lemma_lives_only_at(grid: GridView, index: int, x: int, y: int)
    requires
        grid.wf(),
        0 <= index < grid.cells.len(),
        forall|i: int| 0 <= i < grid.cells.len() ==> (#[trigger] grid.cells[i]).alive == (i == index),
    ensures
        lives_at(grid.width, grid.height, grid.alive(), x, y) <==> in_grid(
            grid.width,
            grid.height,
            x,
            y,
        ) && x == column_of(grid.width, index) && y == row_of(grid.width, index),
{
    lemma_index_coordinates(grid.width, grid.height, index);
    if in_grid(grid.width, grid.height, x, y) {
        lemma_cell_index_bounds(grid.width, grid.height, x, y);
        lemma_cell_index_inverse(grid.width, x, y);
        assert(grid.alive()[cell_index(grid.width, x, y)] == grid.cells[cell_index(
            grid.width,
            x,
            y,
        )].alive);
    }
}

/// After a reset every cell is dead and no generation has passed,
/// whatever the grid was before; a second reset changes nothing.
pub proof fn lemma_cleared(grid: GridView)
    ensures
        grid.cleared().generation == 0,
        grid.cleared().cells.len() == grid.cells.len(),
        forall|i: int| 0 <= i < grid.cells.len() ==> !(#[trigger] grid.cleared().cells[i]).alive,
        grid.cleared().cleared() == grid.cleared(),
        grid.wf() ==> grid.cleared().wf(),
{
    assert(grid.cleared().cleared().cells =~= grid.cleared().cells);
}

/// Seeding with draws that are all `false` leaves every cell dead, as a
/// reset does.
pub proof fn lemma_seeded_with_no_draw(grid: GridView, draws: Seq<bool>)
    requires
        forall|i: int| 0 <= i < draws.len() ==> !draws[i],
    ensures
        grid.seeded(draws) == grid.cleared(),
        forall|i: int| 0 <= i < grid.cells.len() ==> !(#[trigger] grid.seeded(draws).cells[i]).alive,
{
    assert(grid.seeded(draws).cells =~= grid.cleared().cells);
}

/// Seeding with one draw per cell, all of them `true`, makes every cell
/// alive.
pub proof fn lemma_seeded_with_every_draw(grid: GridView, draws: Seq<bool>)
    requires
        draws.len() >= grid.cells.len(),
        forall|i: int| 0 <= i < draws.len() ==> draws[i],
    ensures
        forall|i: int| 0 <= i < grid.cells.len() ==> (#[trigger] grid.seeded(draws).cells[i]).alive,
{
}

/// A step, a reset and a seeding each leave a well-formed grid well
/// formed, with the cells' neighbours as they were.
pub proof fn lemma_wf_kept(grid: GridView, draws: Seq<bool>)
    requires
        grid.wf(),
    ensures
        grid.stepped().wf(),
        grid.cleared().wf(),
        grid.seeded(draws).wf(),
{
}

/// The generations that follow are determined by the cells alone: two
/// grids of the same size whose cells agree have the same cells after any
/// number of steps, and each has counted exactly that many generations
/// more.
pub proof fn lemma_generations_determined(first: GridView, second: GridView, count: nat)
    requires
        first.width == second.width,
        first.height == second.height,
        first.cells == second.cells,
    ensures
        first.after(count).width == second.after(count).width == first.width,
        first.after(count).height == second.after(count).height == first.height,
        first.after(count).cells == second.after(count).cells,
        first.after(count).generation == first.generation + count,
        second.after(count).generation == second.generation + count,
    decreases count,
{
    if count > 0 {
        let before = (count - 1) as nat;
        lemma_generations_determined(first, second, before);
        assert(first.after(before).stepped().cells =~= second.after(before).stepped().cells);
    }
}

} // verus!
