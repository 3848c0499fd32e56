use game_of_life::census::get_num_alive;
use game_of_life::grid::Grid;
use rand::Rng;

fn alive_flags(grid: &Grid) -> Vec<bool> {
    grid.cells().iter().map(|cell| cell.is_alive()).collect()
}

fn neighbor_lists(grid: &Grid) -> Vec<Vec<usize>> {
    grid.cells().iter().map(|cell| cell.get_neighbor_indices().clone()).collect()
}

#[test]
fn reset_kills_every_cell_and_restarts_the_count() {
    let mut grid = Grid::new(5, 5);
    let mut draws = vec![false; 25];
    draws[11] = true;
    draws[12] = true;
    draws[13] = true;
    grid.randomize(&draws);
    grid.update();
    grid.update();
    grid.update();
    assert_eq!(grid.generation(), 3);
    assert_eq!(get_num_alive(grid.cells()), 3);
    grid.reset();
    assert_eq!(grid.generation(), 0);
    assert_eq!(alive_flags(&grid), vec![false; 25]);
}

#[test]
fn reset_twice_is_reset_once() {
    let mut grid = Grid::new(4, 6);
    grid.randomize(&vec![true; 24]);
    grid.update();
    grid.reset();
    let flags = alive_flags(&grid);
    let generation = grid.generation();
    let lists = neighbor_lists(&grid);
    grid.reset();
    assert_eq!(alive_flags(&grid), flags);
    assert_eq!(grid.generation(), generation);
    assert_eq!(neighbor_lists(&grid), lists);
    assert_eq!(flags, vec![false; 24]);
    assert_eq!(generation, 0);
}

#[test]
fn reset_of_a_new_grid_changes_nothing() {
    let mut grid = Grid::new(3, 2);
    grid.reset();
    assert_eq!(grid.generation(), 0);
    assert_eq!(alive_flags(&grid), vec![false; 6]);
    assert_eq!(grid.width(), 3);
    assert_eq!(grid.height(), 2);
}

#[test]
fn reset_keeps_the_neighbors() {
    let mut grid = Grid::new(5, 4);
    let lists = neighbor_lists(&grid);
    grid.randomize(&vec![true; 20]);
    assert_eq!(neighbor_lists(&grid), lists);
    grid.update();
    assert_eq!(neighbor_lists(&grid), lists);
    grid.reset();
    assert_eq!(neighbor_lists(&grid), lists);
}

#[test]
fn reset_clears_what_update_would_have_used() {
    let mut grid = Grid::new(5, 5);
    let mut draws = vec![false; 25];
    draws[11] = true;
    draws[12] = true;
    draws[13] = true;
    grid.randomize(&draws);
    grid.reset();
    grid.update();
    assert_eq!(get_num_alive(grid.cells()), 0);
    assert_eq!(grid.generation(), 1);
}

#[test]
fn randomize_with_no_live_draw_leaves_all_dead() {
    let mut grid = Grid::new(6, 6);
    grid.randomize(&vec![true; 36]);
    grid.randomize(&vec![false; 36]);
    assert_eq!(get_num_alive(grid.cells()), 0);
    assert_eq!(grid.generation(), 0);
}

#[test]
fn randomize_with_every_draw_live_makes_all_alive() {
    let mut grid = Grid::new(6, 6);
    grid.randomize(&vec![true; 36]);
    assert_eq!(get_num_alive(grid.cells()), 36);
    assert!(grid.cells().iter().all(|cell| cell.is_alive()));
    assert_eq!(grid.generation(), 0);
}

#[test]
fn randomize_sets_each_cell_from_its_own_draw() {
    let draws = vec![true, false, false, true, true, false];
    let mut grid = Grid::new(3, 2);
    grid.randomize(&draws);
    assert_eq!(alive_flags(&grid), draws);
}

#[test]
fn randomize_starts_from_a_reset() {
    let mut grid = Grid::new(3, 2);
    grid.randomize(&vec![true, true, true, false, false, false]);
    grid.update();
    assert_eq!(grid.generation(), 1);
    grid.randomize(&vec![false, false, false, false, false, true]);
    assert_eq!(grid.generation(), 0);
    assert_eq!(alive_flags(&grid), vec![false, false, false, false, false, true]);
}

#[test]
fn randomize_with_too_few_draws_leaves_the_rest_dead() {
    let mut grid = Grid::new(3, 2);
    grid.randomize(&vec![true; 6]);
    grid.randomize(&vec![true, true]);
    assert_eq!(alive_flags(&grid), vec![true, true, false, false, false, false]);
    grid.randomize(&vec![]);
    assert_eq!(alive_flags(&grid), vec![false; 6]);
}

#[test]
fn randomize_ignores_draws_beyond_the_last_cell() {
    let mut grid = Grid::new(2, 2);
    grid.randomize(&vec![false, true, false, true, true, true, true]);
    assert_eq!(alive_flags(&grid), vec![false, true, false, true]);
}

#[test]
fn full_grid_after_one_generation() {
    // Every cell alive: only the corners, with three live neighbours,
    // survive.
    let mut grid = Grid::new(4, 4);
    grid.randomize(&vec![true; 16]);
    grid.update();
    let mut expected = vec![false; 16];
    for corner in [0, 3, 12, 15] {
        expected[corner] = true;
    }
    assert_eq!(alive_flags(&grid), expected);
}

/// One draw per cell: a uniform value in [0, 1) that is at most the
/// probability.
fn draw_cells(count: usize, live_probability: f64) -> Vec<bool> {
    let mut rng = rand::thread_rng();
    (0..count).map(|_| rng.gen::<f64>() <= live_probability).collect()
}

#[test]
fn random_draws_with_probability_one_make_all_alive() {
    let mut grid = Grid::new(400, 400);
    grid.randomize(&draw_cells(160_000, 1.0));
    assert_eq!(get_num_alive(grid.cells()), 160_000);
}

#[test]
fn random_draws_with_probability_zero_leave_all_dead() {
    let mut grid = Grid::new(400, 400);
    grid.randomize(&vec![true; 160_000]);
    grid.randomize(&draw_cells(160_000, 0.0));
    assert_eq!(get_num_alive(grid.cells()), 0);
}

#[test]
fn random_draws_give_about_the_probability() {
    for live_probability in [0.1f64, 0.5, 0.9] {
        let mut grid = Grid::new(400, 400);
        grid.randomize(&draw_cells(160_000, live_probability));
        let fraction = get_num_alive(grid.cells()) as f64 / 160_000.0;
        assert!(
            (fraction - live_probability).abs() < 0.02,
            "{} alive for probability {}",
            fraction,
            live_probability
        );
    }
}

#[test]
fn large_random_grid_advances() {
    let mut grid = Grid::new(400, 400);
    grid.randomize(&draw_cells(160_000, 0.5));
    let before: Vec<bool> = alive_flags(&grid);
    assert_eq!(grid.update(), 1);
    assert_eq!(grid.cells().len(), 160_000);
    assert_ne!(alive_flags(&grid), before);
    assert_eq!(grid.update(), 2);
}
