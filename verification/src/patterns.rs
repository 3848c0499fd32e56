//! Two classic patterns: the blinker, which turns back and forth, and the
//! glider, which travels.

use crate::board::lives_at;
use crate::board::one_if;
use crate::board::GridView;
use crate::cell::next_state_of;
use crate::topology::cell_index;
use crate::topology::column_of;
use crate::topology::in_grid;
use crate::topology::lemma_cell_index_bounds;
use crate::topology::lemma_cell_index_inverse;
use crate::topology::lemma_index_coordinates;
use crate::topology::row_of;
use vstd::prelude::*;

verus! {

/// The live cells of the grid are exactly the cells at the places of
/// `shape`.
pub open spec fn shows(grid: GridView, shape: spec_fn(int, int) -> bool) -> bool {
    forall|i: int|
        0 <= i < grid.cells.len() ==> (#[trigger] grid.cells[i]).alive == shape(
            column_of(grid.width, i),
            row_of(grid.width, i),
        )
}

/// Column `x`, row `y` lies inside the grid and belongs to `shape`.
pub open spec fn covers(
    width: int,
    height: int,
    shape: spec_fn(int, int) -> bool,
    x: int,
    y: int,
) -> bool {
    in_grid(width, height, x, y) && shape(x, y)
}

/// The number of places of `shape` inside the grid among the eight places
/// around column `x`, row `y`.
pub open spec fn shape_around(
    width: int,
    height: int,
    shape: spec_fn(int, int) -> bool,
    x: int,
    y: int,
) -> int {
    one_if(covers(width, height, shape, x - 1, y - 1)) + one_if(
        covers(width, height, shape, x, y - 1),
    ) + one_if(covers(width, height, shape, x + 1, y - 1)) + one_if(
        covers(width, height, shape, x - 1, y),
    ) + one_if(covers(width, height, shape, x + 1, y)) + one_if(
        covers(width, height, shape, x - 1, y + 1),
    ) + one_if(covers(width, height, shape, x, y + 1)) + one_if(
        covers(width, height, shape, x + 1, y + 1),
    )
}

/// The shape of the next generation: the rule, applied to a shape.
pub open spec fn shape_next(
    width: int,
    height: int,
    shape: spec_fn(int, int) -> bool,
    x: int,
    y: int,
) -> bool {
    next_state_of(shape(x, y), shape_around(width, height, shape, x, y))
}

/// Where a grid shows a shape, a place holds a live cell exactly where it
/// lies inside the grid and belongs to the shape.
proof fn lemma_shown_place(grid: GridView, shape: spec_fn(int, int) -> bool, x: int, y: int)
    requires
        grid.wf(),
        shows(grid, shape),
    ensures
        lives_at(grid.width, grid.height, grid.alive(), x, y) == covers(
            grid.width,
            grid.height,
            shape,
            x,
            y,
        ),
{
    if in_grid(grid.width, grid.height, x, y) {
        let index = cell_index(grid.width, x, y);
        lemma_cell_index_bounds(grid.width, grid.height, x, y);
        lemma_cell_index_inverse(grid.width, x, y);
        assert(grid.alive()[index] == grid.cells[index].alive);
    }
}

/// Where a grid shows a shape, its next generation shows what the rule
/// makes of that shape.
pub proof fn lemma_step_of_shape(grid: GridView, shape: spec_fn(int, int) -> bool)
    requires
        grid.wf(),
        shows(grid, shape),
    ensures
        grid.stepped().wf(),
        shows(
            grid.stepped(),
            |x: int, y: int| shape_next(grid.width, grid.height, shape, x, y),
        ),
{
    let next = |x: int, y: int| shape_next(grid.width, grid.height, shape, x, y);
    assert forall|i: int| 0 <= i < grid.cells.len() implies (#[trigger] grid.stepped().cells[i]).alive
        == next(column_of(grid.width, i), row_of(grid.width, i)) by {
        let x = column_of(grid.width, i);
        let y = row_of(grid.width, i);
        lemma_index_coordinates(grid.width, grid.height, i);
        lemma_shown_place(grid, shape, x, y);
        lemma_shown_place(grid, shape, x - 1, y - 1);
        lemma_shown_place(grid, shape, x, y - 1);
        lemma_shown_place(grid, shape, x + 1, y - 1);
        lemma_shown_place(grid, shape, x - 1, y);
        lemma_shown_place(grid, shape, x + 1, y);
        lemma_shown_place(grid, shape, x - 1, y + 1);
        lemma_shown_place(grid, shape, x, y + 1);
        lemma_shown_place(grid, shape, x + 1, y + 1);
    }
}

/// Two shapes that agree inside the grid are shown by the same grids.
pub proof fn lemma_shows_same(
    grid: GridView,
    first: spec_fn(int, int) -> bool,
    second: spec_fn(int, int) -> bool,
)
    requires
        grid.wf(),
        shows(grid, first),
        forall|x: int, y: int|
            in_grid(grid.width, grid.height, x, y) ==> #[trigger] first(x, y) == second(x, y),
    ensures
        shows(grid, second),
{
    assert forall|i: int| 0 <= i < grid.cells.len() implies (#[trigger] grid.cells[i]).alive
        == second(column_of(grid.width, i), row_of(grid.width, i)) by {
        lemma_index_coordinates(grid.width, grid.height, i);
    }
}

/// Three cells in a row, the middle one in column `x0`, row `y0`.
pub open spec fn blinker_row(x0: int, y0: int) -> spec_fn(int, int) -> bool {
    |x: int, y: int| y == y0 && x0 - 1 <= x <= x0 + 1
}

/// Three cells in a column, the middle one in column `x0`, row `y0`.
pub open spec fn blinker_column(x0: int, y0: int) -> spec_fn(int, int) -> bool {
    |x: int, y: int| x == x0 && y0 - 1 <= y <= y0 + 1
}

/// A blinker that lies in a row stands in a column one generation later,
/// wherever the three by three cells around its middle lie inside the
/// grid and nothing else lives.
pub proof fn lemma_blinker_row_turns(grid: GridView, x0: int, y0: int)
    requires
        grid.wf(),
        in_grid(grid.width, grid.height, x0 - 1, y0 - 1),
        in_grid(grid.width, grid.height, x0 + 1, y0 + 1),
        shows(grid, blinker_row(x0, y0)),
    ensures
        grid.stepped().wf(),
        shows(grid.stepped(), blinker_column(x0, y0)),
{
    let w = grid.width;
    let h = grid.height;
    let shape = blinker_row(x0, y0);
    lemma_step_of_shape(grid, shape);
    let next = |x: int, y: int| shape_next(w, h, shape, x, y);
    assert forall|x: int, y: int| in_grid(w, h, x, y) implies #[trigger] next(x, y)
        == blinker_column(x0, y0)(x, y) by {
        assert(next(x, y) == shape_next(w, h, shape, x, y));
    }
    lemma_shows_same(grid.stepped(), next, blinker_column(x0, y0));
}

/// A blinker that stands in a column lies in a row one generation later.
pub proof fn lemma_blinker_column_turns(grid: GridView, x0: int, y0: int)
    requires
        grid.wf(),
        in_grid(grid.width, grid.height, x0 - 1, y0 - 1),
        in_grid(grid.width, grid.height, x0 + 1, y0 + 1),
        shows(grid, blinker_column(x0, y0)),
    ensures
        grid.stepped().wf(),
        shows(grid.stepped(), blinker_row(x0, y0)),
{
    let w = grid.width;
    let h = grid.height;
    let shape = blinker_column(x0, y0);
    lemma_step_of_shape(grid, shape);
    let next = |x: int, y: int| shape_next(w, h, shape, x, y);
    assert forall|x: int, y: int| in_grid(w, h, x, y) implies #[trigger] next(x, y) == blinker_row(
        x0,
        y0,
    )(x, y) by {
        assert(next(x, y) == shape_next(w, h, shape, x, y));
    }
    lemma_shows_same(grid.stepped(), next, blinker_row(x0, y0));
}

/// A blinker is back where it was after two generations: every cell is as
/// it was, and two generations more are counted.
pub proof fn lemma_blinker_returns(grid: GridView, x0: int, y0: int)
    requires
        grid.wf(),
        in_grid(grid.width, grid.height, x0 - 1, y0 - 1),
        in_grid(grid.width, grid.height, x0 + 1, y0 + 1),
        shows(grid, blinker_row(x0, y0)),
    ensures
        grid.after(2).cells == grid.cells,
        grid.after(2).generation == grid.generation + 2,
{
    lemma_blinker_row_turns(grid, x0, y0);
    lemma_blinker_column_turns(grid.stepped(), x0, y0);
    reveal_with_fuel(GridView::after, 3);
    let twice = grid.stepped().stepped();
    assert(grid.after(2) == twice);
    assert forall|i: int| 0 <= i < grid.cells.len() implies twice.cells[i] == grid.cells[i] by {
        assert(twice.cells[i].alive == grid.cells[i].alive);
        assert(grid.cells[i].settled());
        assert(twice.cells[i].settled());
    }
    assert(twice.cells =~= grid.cells);
}

/// A glider that heads down and to the right. Its five cells lie in the
/// three by three places of which column `x0`, row `y0` is the upper left.
pub open spec fn glider(x0: int, y0: int) -> spec_fn(int, int) -> bool {
    |x: int, y: int|
        (x == x0 + 1 && y == y0) || (x == x0 + 2 && y == y0 + 1) || (x0 <= x <= x0 + 2 && y == y0
            + 2)
}

/// The glider one generation on.
pub open spec fn glider_after_one(x0: int, y0: int) -> spec_fn(int, int) -> bool {
    |x: int, y: int|
        (x == x0 && y == y0 + 1) || (x == x0 + 2 && y == y0 + 1) || (x0 + 1 <= x <= x0 + 2 && y
            == y0 + 2) || (x == x0 + 1 && y == y0 + 3)
}

/// The glider two generations on.
pub open spec fn glider_after_two(x0: int, y0: int) -> spec_fn(int, int) -> bool {
    |x: int, y: int|
        (x == x0 + 2 && y == y0 + 1) || (x == x0 && y == y0 + 2) || (x == x0 + 2 && y == y0 + 2)
            || (x0 + 1 <= x <= x0 + 2 && y == y0 + 3)
}

/// The glider three generations on.
pub open spec fn glider_after_three(x0: int, y0: int) -> spec_fn(int, int) -> bool {
    |x: int, y: int|
        (x == x0 + 1 && y == y0 + 1) || (x0 + 2 <= x <= x0 + 3 && y == y0 + 2) || (x0 + 1 <= x
            <= x0 + 2 && y == y0 + 3)
}

/// One generation of a glider, from its first form to its second.
proof fn lemma_glider_first_step(grid: GridView, x0: int, y0: int)
    requires
        grid.wf(),
        in_grid(grid.width, grid.height, x0, y0),
        in_grid(grid.width, grid.height, x0 + 3, y0 + 3),
        shows(grid, glider(x0, y0)),
    ensures
        grid.stepped().wf(),
        shows(grid.stepped(), glider_after_one(x0, y0)),
{
    let w = grid.width;
    let h = grid.height;
    let shape = glider(x0, y0);
    lemma_step_of_shape(grid, shape);
    let next = |x: int, y: int| shape_next(w, h, shape, x, y);
    assert forall|x: int, y: int| in_grid(w, h, x, y) implies #[trigger] next(x, y)
        == glider_after_one(x0, y0)(x, y) by {
        assert(next(x, y) == shape_next(w, h, shape, x, y));
    }
    lemma_shows_same(grid.stepped(), next, glider_after_one(x0, y0));
}

/// One generation of a glider, from its second form to its third.
proof fn lemma_glider_second_step(grid: GridView, x0: int, y0: int)
    requires
        grid.wf(),
        in_grid(grid.width, grid.height, x0, y0),
        in_grid(grid.width, grid.height, x0 + 3, y0 + 3),
        shows(grid, glider_after_one(x0, y0)),
    ensures
        grid.stepped().wf(),
        shows(grid.stepped(), glider_after_two(x0, y0)),
{
    let w = grid.width;
    let h = grid.height;
    let shape = glider_after_one(x0, y0);
    lemma_step_of_shape(grid, shape);
    let next = |x: int, y: int| shape_next(w, h, shape, x, y);
    assert forall|x: int, y: int| in_grid(w, h, x, y) implies #[trigger] next(x, y)
        == glider_after_two(x0, y0)(x, y) by {
        assert(next(x, y) == shape_next(w, h, shape, x, y));
    }
    lemma_shows_same(grid.stepped(), next, glider_after_two(x0, y0));
}

/// One generation of a glider, from its third form to its fourth.
proof fn lemma_glider_third_step(grid: GridView, x0: int, y0: int)
    requires
        grid.wf(),
        in_grid(grid.width, grid.height, x0, y0),
        in_grid(grid.width, grid.height, x0 + 3, y0 + 3),
        shows(grid, glider_after_two(x0, y0)),
    ensures
        grid.stepped().wf(),
        shows(grid.stepped(), glider_after_three(x0, y0)),
{
    let w = grid.width;
    let h = grid.height;
    let shape = glider_after_two(x0, y0);
    lemma_step_of_shape(grid, shape);
    let next = |x: int, y: int| shape_next(w, h, shape, x, y);
    assert forall|x: int, y: int| in_grid(w, h, x, y) implies #[trigger] next(x, y)
        == glider_after_three(x0, y0)(x, y) by {
        assert(next(x, y) == shape_next(w, h, shape, x, y));
    }
    lemma_shows_same(grid.stepped(), next, glider_after_three(x0, y0));
}

/// One generation of a glider, from its fourth form to its first, one
/// column to the right and one row down.
proof fn lemma_glider_fourth_step(grid: GridView, x0: int, y0: int)
    requires
        grid.wf(),
        in_grid(grid.width, grid.height, x0, y0),
        in_grid(grid.width, grid.height, x0 + 3, y0 + 3),
        shows(grid, glider_after_three(x0, y0)),
    ensures
        grid.stepped().wf(),
        shows(grid.stepped(), glider(x0 + 1, y0 + 1)),
{
    let w = grid.width;
    let h = grid.height;
    let shape = glider_after_three(x0, y0);
    lemma_step_of_shape(grid, shape);
    let next = |x: int, y: int| shape_next(w, h, shape, x, y);
    assert forall|x: int, y: int| in_grid(w, h, x, y) implies #[trigger] next(x, y) == glider(
        x0 + 1,
        y0 + 1,
    )(x, y) by {
        assert(next(x, y) == shape_next(w, h, shape, x, y));
    }
    lemma_shows_same(grid.stepped(), next, glider(x0 + 1, y0 + 1));
}

/// A glider has moved one column to the right and one row down after four
/// generations, wherever the four by four places from column `x0`, row
/// `y0` on lie inside the grid and nothing else lives.
pub proof fn lemma_glider_travels(grid: GridView, x0: int, y0: int)
    requires
        grid.wf(),
        in_grid(grid.width, grid.height, x0, y0),
        in_grid(grid.width, grid.height, x0 + 3, y0 + 3),
        shows(grid, glider(x0, y0)),
    ensures
        grid.after(4).wf(),
        shows(grid.after(4), glider(x0 + 1, y0 + 1)),
        grid.after(4).generation == grid.generation + 4,
{
    let one = grid.stepped();
    let two = one.stepped();
    let three = two.stepped();
    lemma_glider_first_step(grid, x0, y0);
    lemma_glider_second_step(one, x0, y0);
    lemma_glider_third_step(two, x0, y0);
    lemma_glider_fourth_step(three, x0, y0);
    reveal_with_fuel(GridView::after, 5);
    assert(grid.after(4) == three.stepped());
}

} // verus!
