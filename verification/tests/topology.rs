use game_of_life::grid::Grid;
use game_of_life::topology::get_neighbor_indices_for_cell;

fn is_corner(x: u32, y: u32, w: u32, h: u32) -> bool {
    (x == 0 || x == w - 1) && (y == 0 || y == h - 1)
}

fn is_edge(x: u32, y: u32, w: u32, h: u32) -> bool {
    x == 0 || x == w - 1 || y == 0 || y == h - 1
}

#[test]
fn corner_neighbors_in_order() {
    assert_eq!(get_neighbor_indices_for_cell(0, 0, 3, 3), vec![1, 4, 3]);
    assert_eq!(get_neighbor_indices_for_cell(2, 0, 3, 3), vec![1, 5, 4]);
    assert_eq!(get_neighbor_indices_for_cell(0, 2, 3, 3), vec![3, 4, 7]);
    assert_eq!(get_neighbor_indices_for_cell(2, 2, 3, 3), vec![7, 4, 5]);
}

#[test]
fn edge_neighbors_in_order() {
    assert_eq!(get_neighbor_indices_for_cell(1, 0, 3, 3), vec![0, 2, 5, 4, 3]);
    assert_eq!(get_neighbor_indices_for_cell(0, 1, 3, 3), vec![0, 1, 4, 7, 6]);
    assert_eq!(get_neighbor_indices_for_cell(2, 1, 3, 3), vec![4, 1, 2, 8, 7]);
    assert_eq!(get_neighbor_indices_for_cell(1, 2, 3, 3), vec![6, 3, 4, 5, 8]);
}

#[test]
fn interior_neighbors_in_order() {
    assert_eq!(get_neighbor_indices_for_cell(1, 1, 3, 3), vec![3, 0, 1, 2, 5, 8, 7, 6]);
    assert_eq!(
        get_neighbor_indices_for_cell(2, 1, 5, 4),
        vec![6, 1, 2, 3, 8, 13, 12, 11]
    );
}

#[test]
fn index_is_column_plus_row_times_width() {
    // In a grid 4 wide and 3 high, column 3 of row 1 has the index 7; its
    // neighbours lie in columns 2 and 3 only, since nothing wraps around.
    assert_eq!(get_neighbor_indices_for_cell(3, 1, 4, 3), vec![6, 2, 3, 11, 10]);
}

#[test]
fn single_cell_grid_has_no_neighbors() {
    assert_eq!(get_neighbor_indices_for_cell(0, 0, 1, 1), Vec::<usize>::new());
}

#[test]
fn single_row_and_single_column() {
    assert_eq!(get_neighbor_indices_for_cell(0, 0, 3, 1), vec![1]);
    assert_eq!(get_neighbor_indices_for_cell(1, 0, 3, 1), vec![0, 2]);
    assert_eq!(get_neighbor_indices_for_cell(2, 0, 3, 1), vec![1]);
    assert_eq!(get_neighbor_indices_for_cell(0, 0, 1, 3), vec![1]);
    assert_eq!(get_neighbor_indices_for_cell(0, 1, 1, 3), vec![0, 2]);
    assert_eq!(get_neighbor_indices_for_cell(0, 2, 1, 3), vec![1]);
}

#[test]
fn neighbor_counts_by_position() {
    for (w, h) in [(2u32, 2u32), (2, 5), (5, 2), (3, 3), (6, 4), (10, 10)] {
        for y in 0..h {
            for x in 0..w {
                let count = get_neighbor_indices_for_cell(x, y, w, h).len();
                let expected = if is_corner(x, y, w, h) {
                    3
                } else if is_edge(x, y, w, h) {
                    5
                } else {
                    8
                };
                assert_eq!(count, expected, "{}x{} at ({}, {})", w, h, x, y);
            }
        }
    }
}

#[test]
fn neighbors_are_mutual_and_distinct() {
    for (w, h) in [(1u32, 1u32), (1, 4), (4, 1), (2, 2), (3, 5), (7, 6)] {
        let lists: Vec<Vec<usize>> = (0..w * h)
            .map(|i| get_neighbor_indices_for_cell(i % w, i / w, w, h))
            .collect();
        for (a, list) in lists.iter().enumerate() {
            for (k, b) in list.iter().enumerate() {
                assert!(*b < (w * h) as usize);
                assert_ne!(*b, a);
                assert!(lists[*b].contains(&a), "{}x{}: {} and {}", w, h, a, b);
                assert!(!list[..k].contains(b));
            }
        }
    }
}

#[test]
fn grid_cells_hold_their_neighbors() {
    let grid = Grid::new(4, 3);
    let cells = grid.cells();
    assert_eq!(cells.len(), 12);
    for y in 0..3u32 {
        for x in 0..4u32 {
            let index = (x + y * 4) as usize;
            assert_eq!(
                cells[index].get_neighbor_indices(),
                &get_neighbor_indices_for_cell(x, y, 4, 3)
            );
        }
    }
    assert_eq!(cells[0].get_neighbor_indices(), &vec![1, 5, 4]);
    assert_eq!(cells[5].get_neighbor_indices(), &vec![4, 0, 1, 2, 6, 10, 9, 8]);
    assert_eq!(cells[11].get_neighbor_indices(), &vec![10, 6, 7]);
}

#[test]
fn wide_grid_indices_do_not_overflow() {
    let w = 70_000u32;
    let h = 70_000u32;
    if (w as u64) * (h as u64) <= usize::MAX as u64 {
        let last = get_neighbor_indices_for_cell(w - 1, h - 1, w, h);
        let n = (w as usize) * (h as usize);
        assert_eq!(last, vec![n - 2, n - 2 - w as usize, n - 1 - w as usize]);
    }
}
