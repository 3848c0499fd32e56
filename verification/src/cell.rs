//! A single cell: its visible state, its staged next state and the indices
//! of the cells around it.

use vstd::prelude::*;

verus! {

/// The transition rule: a live cell stays alive with two or three live
/// neighbours, a dead cell comes alive with exactly three.
pub open spec fn next_state_of(alive: bool, live_neighbors: int) -> bool {
    if alive {
        live_neighbors == 2 || live_neighbors == 3
    } else {
        live_neighbors == 3
    }
}

/// What a cell is, as plain values.
pub struct CellView {
    /// The state that a renderer shows.
    pub alive: bool,
    /// The committed state of this generation.
    pub current: bool,
    /// The staged state of the next generation.
    pub next: bool,
    /// Flat indices of the neighbouring cells.
    pub neighbors: Seq<usize>,
}

impl CellView {
    /// No transition is pending and the visible state is the committed one.
    pub open spec fn settled(self) -> bool {
        self.alive == self.current && self.current == self.next
    }

    /// The cell forced to `live` in all three of its states.
    pub open spec fn with_state(self, live: bool) -> CellView {
        CellView { alive: live, current: live, next: live, neighbors: self.neighbors }
    }

    /// The cell after staging its next state from a count of live neighbours.
    pub open spec fn staged(self, live_neighbors: int) -> CellView {
        CellView { next: next_state_of(self.current, live_neighbors), ..self }
    }

    /// The cell after committing its staged state.
    pub open spec fn committed(self) -> CellView {
        if self.next != self.current {
            self.with_state(self.next)
        } else {
            self
        }
    }
}

/// A cell of the grid.
pub struct LifeCell {
    alive: bool,
    neighbor_indices: Vec<usize>,
    current_state: bool,
    next_state: bool,
}

impl View for LifeCell {
    type V = CellView;

    closed spec fn view(&self) -> CellView {
        CellView {
            alive: self.alive,
            current: self.current_state,
            next: self.next_state,
            neighbors: self.neighbor_indices@,
        }
    }
}

/// The cells of a list as plain values, in the list's order.
pub open spec fn cell_views(cells: Seq<LifeCell>) -> Seq<CellView> {
    Seq::new(cells.len(), |i: int| cells[i]@)
}

impl LifeCell {
    /// A settled cell without neighbours.
    pub fn new(alive: bool) -> (cell: LifeCell)
        ensures
            cell@ == (CellView { alive, current: alive, next: alive, neighbors: Seq::empty() }),
    {
        LifeCell { alive, neighbor_indices: Vec::new(), current_state: alive, next_state: alive }
    }

    fn set_state(&mut self, live: bool)
        ensures
            final(self)@ == old(self)@.with_state(live),
    {
        self.alive = live;
        self.current_state = live;
        self.next_state = live;
    }

    /// Forces the cell alive, with no staging.
    pub fn make_live(&mut self)
        ensures
            final(self)@ == old(self)@.with_state(true),
    {
        self.set_state(true);
    }

    /// Forces the cell dead, with no staging.
    pub fn make_dead(&mut self)
        ensures
            final(self)@ == old(self)@.with_state(false),
    {
        self.set_state(false);
    }

    /// The state that a renderer shows.
    pub fn is_alive(&self) -> (alive: bool)
        ensures
            alive == self@.alive,
    {
        self.alive
    }

    fn needs_update(&self) -> (pending: bool)
        ensures
            pending == (self@.next != self@.current),
    {
        self.next_state != self.current_state
    }

    /// The indices of the neighbouring cells.
    pub fn get_neighbor_indices(&self) -> (indices: &Vec<usize>)
        ensures
            indices@ == self@.neighbors,
    {
        &self.neighbor_indices
    }

    /// Gives the cell its list of neighbours.
    pub fn set_neighbor_indices(&mut self, indices: Vec<usize>)
        ensures
            final(self)@ == (CellView { neighbors: indices@, ..old(self)@ }),
    {
        self.neighbor_indices = indices;
    }

    /// Stages the next state from the number of live neighbours; the
    /// committed and the visible state stay as they are.
    pub fn prepare_update(&mut self, live_neighbors: u8)
        ensures
            final(self)@ == old(self)@.staged(live_neighbors as int),
    {
        self.next_state = (self.current_state && live_neighbors == 2) || live_neighbors == 3;
    }

    /// Commits the staged state, if it differs from the committed one.
    pub fn update(&mut self)
        ensures
            final(self)@ == old(self)@.committed(),
    {
        if self.needs_update() {
            if self.next_state {
                self.make_live();
            } else {
                self.make_dead();
            }
        }
    }
}

} // verus!
