//! The neighbourhood of every cell of a finite grid.
//!
//! Cells are numbered row by row: the cell in column `x` and row `y` of a
//! grid that is `width` cells wide has the index `x + y * width`. A cell's
//! neighbours are the up to eight cells around it that lie inside the grid;
//! nothing wraps around the edges.

use vstd::arithmetic::div_mod::lemma_fundamental_div_mod;
use vstd::arithmetic::div_mod::lemma_fundamental_div_mod_converse;
use vstd::arithmetic::div_mod::lemma_mod_bound;
use vstd::prelude::*;
use vstd::seq_lib::lemma_seq_concat_contains_all_elements;

verus! {

/// Column `x`, row `y` lies inside a grid of `width` by `height` cells.
pub open spec fn in_grid(width: int, height: int, x: int, y: int) -> bool {
    0 <= x < width && 0 <= y < height
}

/// The index of the cell in column `x` and row `y`.
pub open spec fn cell_index(width: int, x: int, y: int) -> int {
    x + y * width
}

/// The column of the cell with the given index.
pub open spec fn column_of(width: int, index: int) -> int {
    index % width
}

/// The row of the cell with the given index.
pub open spec fn row_of(width: int, index: int) -> int {
    index / width
}

/// The two cells are different and at most one column and one row apart.
pub open spec fn adjacent(ax: int, ay: int, bx: int, by: int) -> bool {
    -1 <= ax - bx <= 1 && -1 <= ay - by <= 1 && !(ax == bx && ay == by)
}

/// The index of column `x`, row `y` as a list of its own: empty where the
/// place lies outside the grid.
pub open spec fn neighbor_at(width: int, height: int, x: int, y: int) -> Seq<usize> {
    if in_grid(width, height, x, y) {
        seq![cell_index(width, x, y) as usize]
    } else {
        Seq::empty()
    }
}

/// The indices of the cells around column `x`, row `y`, in the order in
/// which a cell keeps them: west, north-west, north, north-east, east,
/// south-east, south, south-west.
pub open spec fn neighbors_of(width: int, height: int, x: int, y: int) -> Seq<usize> {
    neighbor_at(width, height, x - 1, y) + neighbor_at(width, height, x - 1, y - 1)
        + neighbor_at(width, height, x, y - 1) + neighbor_at(width, height, x + 1, y - 1)
        + neighbor_at(width, height, x + 1, y) + neighbor_at(width, height, x + 1, y + 1)
        + neighbor_at(width, height, x, y + 1) + neighbor_at(width, height, x - 1, y + 1)
}

/// A place inside the grid has an index below the number of cells.
pub proof fn lemma_cell_index_bounds(width: int, height: int, x: int, y: int)
    requires
        in_grid(width, height, x, y),
    ensures
        0 <= cell_index(width, x, y) < width * height,
{
    assert(0 <= y * width && y * width + width <= width * height) by (nonlinear_arith)
        requires
            0 <= y < height,
            0 < width,
    ;
}

/// Column and row are recovered from the index.
pub proof fn lemma_cell_index_inverse(width: int, x: int, y: int)
    requires
        0 <= x < width,
    ensures
        column_of(width, cell_index(width, x, y)) == x,
        row_of(width, cell_index(width, x, y)) == y,
{
    lemma_fundamental_div_mod_converse(cell_index(width, x, y), width, y, x);
}

/// Every index below the number of cells is the index of exactly the place
/// that `column_of` and `row_of` give, and that place lies inside the grid.
pub proof fn lemma_index_coordinates(width: int, height: int, index: int)
    requires
        0 < width,
        0 <= index < width * height,
    ensures
        in_grid(width, height, column_of(width, index), row_of(width, index)),
        cell_index(width, column_of(width, index), row_of(width, index)) == index,
{
    let x = index % width;
    let y = index / width;
    lemma_fundamental_div_mod(index, width);
    lemma_mod_bound(index, width);
    assert(0 <= y < height && y * width == width * y) by (nonlinear_arith)
        requires
            index == width * y + x,
            0 <= x < width,
            0 <= index < width * height,
    ;
}

/// Every neighbour of a place inside the grid is the index of a cell.
pub proof fn lemma_neighbors_in_range(width: int, height: int, x: int, y: int)
    requires
        in_grid(width, height, x, y),
        width * height <= usize::MAX,
    ensures
        neighbors_of(width, height, x, y).len() <= 8,
        forall|k: int|
            0 <= k < neighbors_of(width, height, x, y).len() ==> (#[trigger] neighbors_of(
                width,
                height,
                x,
                y,
            )[k]) < width * height,
{
    lemma_place_index_fits(width, height, x - 1, y);
    lemma_place_index_fits(width, height, x - 1, y - 1);
    lemma_place_index_fits(width, height, x, y - 1);
    lemma_place_index_fits(width, height, x + 1, y - 1);
    lemma_place_index_fits(width, height, x + 1, y);
    lemma_place_index_fits(width, height, x + 1, y + 1);
    lemma_place_index_fits(width, height, x, y + 1);
    lemma_place_index_fits(width, height, x - 1, y + 1);
}

/// What `neighbor_at` holds, where the number of cells fits a `usize`.
proof fn lemma_place_index_fits(width: int, height: int, x: int, y: int)
    requires
        width * height <= usize::MAX,
    ensures
        in_grid(width, height, x, y) ==> neighbor_at(width, height, x, y) == seq![
            cell_index(width, x, y) as usize,
        ] && cell_index(width, x, y) as usize == cell_index(width, x, y) && 0 <= cell_index(
            width,
            x,
            y,
        ) < width * height,
        !in_grid(width, height, x, y) ==> neighbor_at(width, height, x, y) == Seq::<usize>::empty(),
{
    if in_grid(width, height, x, y) {
        lemma_cell_index_bounds(width, height, x, y);
    }
}

/// The place is one of the four corners of the grid.
pub open spec fn on_corner(width: int, height: int, x: int, y: int) -> bool {
    (x == 0 || x == width - 1) && (y == 0 || y == height - 1)
}

/// The place lies in the first or last column or row of the grid.
pub open spec fn on_edge(width: int, height: int, x: int, y: int) -> bool {
    x == 0 || x == width - 1 || y == 0 || y == height - 1
}

/// In a grid of at least two columns and two rows a corner cell has three
/// neighbours, any other cell on the edge has five, and a cell in the
/// interior has eight.
pub proof fn lemma_neighbor_count(width: int, height: int, x: int, y: int)
    requires
        2 <= width,
        2 <= height,
        in_grid(width, height, x, y),
    ensures
        on_corner(width, height, x, y) ==> neighbors_of(width, height, x, y).len() == 3,
        on_edge(width, height, x, y) && !on_corner(width, height, x, y) ==> neighbors_of(
            width,
            height,
            x,
            y,
        ).len() == 5,
        !on_edge(width, height, x, y) ==> neighbors_of(width, height, x, y).len() == 8,
{
}

/// The neighbours of a cell are exactly the cells adjacent to it.
pub proof fn lemma_neighbor_membership(width: int, height: int, x: int, y: int, index: int)
    requires
        in_grid(width, height, x, y),
        width * height <= usize::MAX,
        0 <= index < width * height,
    ensures
        neighbors_of(width, height, x, y).contains(index as usize) <==> adjacent(
            x,
            y,
            column_of(width, index),
            row_of(width, index),
        ),
{
    broadcast use lemma_seq_concat_contains_all_elements;

    lemma_index_coordinates(width, height, index);
    lemma_place_holds(width, height, x - 1, y, index);
    lemma_place_holds(width, height, x - 1, y - 1, index);
    lemma_place_holds(width, height, x, y - 1, index);
    lemma_place_holds(width, height, x + 1, y - 1, index);
    lemma_place_holds(width, height, x + 1, y, index);
    lemma_place_holds(width, height, x + 1, y + 1, index);
    lemma_place_holds(width, height, x, y + 1, index);
    lemma_place_holds(width, height, x - 1, y + 1, index);
}

/// `neighbor_at` holds an index exactly where it is the index of that place.
proof fn lemma_place_holds(width: int, height: int, x: int, y: int, index: int)
    requires
        0 < width,
        width * height <= usize::MAX,
        0 <= index < width * height,
    ensures
        neighbor_at(width, height, x, y).contains(index as usize) <==> in_grid(width, height, x, y)
            && column_of(width, index) == x && row_of(width, index) == y,
{
    lemma_place_index_fits(width, height, x, y);
    lemma_index_coordinates(width, height, index);
    if in_grid(width, height, x, y) {
        lemma_cell_index_inverse(width, x, y);
        let place = neighbor_at(width, height, x, y);
        assert(place[0] == cell_index(width, x, y) as usize);
    }
}

/// Being a neighbour is mutual: one cell is among the neighbours of
/// another exactly where the other is among its own.
pub proof fn lemma_neighbors_symmetric(width: int, height: int, a: int, b: int)
    requires
        0 < width,
        width * height <= usize::MAX,
        0 <= a < width * height,
        0 <= b < width * height,
    ensures
        neighbors_of(width, height, column_of(width, a), row_of(width, a)).contains(b as usize)
            <==> neighbors_of(width, height, column_of(width, b), row_of(width, b)).contains(
            a as usize,
        ),
{
    lemma_index_coordinates(width, height, a);
    lemma_index_coordinates(width, height, b);
    lemma_neighbor_membership(width, height, column_of(width, a), row_of(width, a), b);
    lemma_neighbor_membership(width, height, column_of(width, b), row_of(width, b), a);
}

/// The indices of the cells around column `x`, row `y` of a grid of
/// `x_cells` by `y_cells` cells: west first, then clockwise.
pub fn get_neighbor_indices_for_cell(x: u32, y: u32, x_cells: u32, y_cells: u32) -> (neighbor_idxs:
    Vec<usize>)
    requires
        x < x_cells,
        y < y_cells,
        x_cells * y_cells <= usize::MAX,
    ensures
        neighbor_idxs@ == neighbors_of(x_cells as int, y_cells as int, x as int, y as int),
{
    let ghost w = x_cells as int;
    let ghost h = y_cells as int;
    let ghost cx = x as int;
    let ghost cy = y as int;
    let mut neighbor_idxs: Vec<usize> = Vec::new();

    let width = x_cells as usize;
    let column = x as usize;
    let row = y as usize;
    let has_left = x > 0;
    let has_right = x + 1 < x_cells;
    let has_top = y > 0;
    let has_bottom = y + 1 < y_cells;

    proof {
        lemma_place_index_fits(w, h, cx - 1, cy);
        lemma_place_index_fits(w, h, cx - 1, cy - 1);
        lemma_place_index_fits(w, h, cx, cy - 1);
        lemma_place_index_fits(w, h, cx + 1, cy - 1);
        lemma_place_index_fits(w, h, cx + 1, cy);
        lemma_place_index_fits(w, h, cx + 1, cy + 1);
        lemma_place_index_fits(w, h, cx, cy + 1);
        lemma_place_index_fits(w, h, cx - 1, cy + 1);
    }

    if has_left {
        neighbor_idxs.push(column - 1 + row * width);
    }
    let ghost west = neighbor_at(w, h, cx - 1, cy);
    assert(neighbor_idxs@ =~= west);

    if has_left && has_top {
        neighbor_idxs.push(column - 1 + (row - 1) * width);
    }
    let ghost north_west = west + neighbor_at(w, h, cx - 1, cy - 1);
    assert(neighbor_idxs@ =~= north_west);

    if has_top {
        neighbor_idxs.push(column + (row - 1) * width);
    }
    let ghost north = north_west + neighbor_at(w, h, cx, cy - 1);
    assert(neighbor_idxs@ =~= north);

    if has_right && has_top {
        neighbor_idxs.push(column + 1 + (row - 1) * width);
    }
    let ghost north_east = north + neighbor_at(w, h, cx + 1, cy - 1);
    assert(neighbor_idxs@ =~= north_east);

    if has_right {
        neighbor_idxs.push(column + 1 + row * width);
    }
    let ghost east = north_east + neighbor_at(w, h, cx + 1, cy);
    assert(neighbor_idxs@ =~= east);

    if has_right && has_bottom {
        neighbor_idxs.push(column + 1 + (row + 1) * width);
    }
    let ghost south_east = east + neighbor_at(w, h, cx + 1, cy + 1);
    assert(neighbor_idxs@ =~= south_east);

    if has_bottom {
        neighbor_idxs.push(column + (row + 1) * width);
    }
    let ghost south = south_east + neighbor_at(w, h, cx, cy + 1);
    assert(neighbor_idxs@ =~= south);

    if has_left && has_bottom {
        neighbor_idxs.push(column - 1 + (row + 1) * width);
    }
    assert(neighbor_idxs@ =~= south + neighbor_at(w, h, cx - 1, cy + 1));

    neighbor_idxs
}

} // verus!
