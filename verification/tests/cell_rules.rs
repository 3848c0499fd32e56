use game_of_life::cell::LifeCell;

#[test]
fn new_cell_is_settled_and_has_no_neighbors() {
    let dead = LifeCell::new(false);
    assert!(!dead.is_alive());
    assert!(dead.get_neighbor_indices().is_empty());
    let live = LifeCell::new(true);
    assert!(live.is_alive());
    assert!(live.get_neighbor_indices().is_empty());
}

#[test]
fn make_live_and_make_dead_take_effect_at_once() {
    let mut cell = LifeCell::new(false);
    cell.make_live();
    assert!(cell.is_alive());
    cell.make_live();
    assert!(cell.is_alive());
    cell.make_dead();
    assert!(!cell.is_alive());
    cell.make_dead();
    assert!(!cell.is_alive());
}

#[test]
fn forced_state_clears_a_staged_transition() {
    let mut cell = LifeCell::new(false);
    cell.prepare_update(3);
    cell.make_dead();
    cell.update();
    assert!(!cell.is_alive());

    let mut cell = LifeCell::new(true);
    cell.prepare_update(0);
    cell.make_live();
    cell.update();
    assert!(cell.is_alive());
}

#[test]
fn prepare_update_alone_changes_nothing_visible() {
    let mut cell = LifeCell::new(false);
    cell.prepare_update(3);
    assert!(!cell.is_alive());
    let mut cell = LifeCell::new(true);
    cell.prepare_update(0);
    assert!(cell.is_alive());
}

#[test]
fn live_cell_survives_with_two_or_three_neighbors_only() {
    let expected = [false, false, true, true, false, false, false, false, false];
    for (count, survives) in expected.iter().enumerate() {
        let mut cell = LifeCell::new(true);
        cell.prepare_update(count as u8);
        cell.update();
        assert_eq!(cell.is_alive(), *survives, "live cell, {} live neighbours", count);
    }
}

#[test]
fn dead_cell_comes_alive_with_three_neighbors_only() {
    let expected = [false, false, false, true, false, false, false, false, false];
    for (count, born) in expected.iter().enumerate() {
        let mut cell = LifeCell::new(false);
        cell.prepare_update(count as u8);
        cell.update();
        assert_eq!(cell.is_alive(), *born, "dead cell, {} live neighbours", count);
    }
}

#[test]
fn counts_above_eight_follow_the_rule() {
    let mut cell = LifeCell::new(true);
    cell.prepare_update(255);
    cell.update();
    assert!(!cell.is_alive());
    let mut cell = LifeCell::new(false);
    cell.prepare_update(9);
    cell.update();
    assert!(!cell.is_alive());
}

#[test]
fn last_staging_wins() {
    let mut cell = LifeCell::new(false);
    cell.prepare_update(3);
    cell.prepare_update(2);
    cell.update();
    assert!(!cell.is_alive());

    let mut cell = LifeCell::new(true);
    cell.prepare_update(1);
    cell.prepare_update(2);
    cell.update();
    assert!(cell.is_alive());
}

#[test]
fn update_without_staging_is_a_no_op() {
    let mut cell = LifeCell::new(true);
    cell.update();
    assert!(cell.is_alive());
    let mut cell = LifeCell::new(false);
    cell.update();
    assert!(!cell.is_alive());
}

#[test]
fn update_commits_once() {
    let mut cell = LifeCell::new(false);
    cell.prepare_update(3);
    cell.update();
    assert!(cell.is_alive());
    cell.update();
    assert!(cell.is_alive());
}

#[test]
fn set_neighbor_indices_keeps_the_state() {
    let mut cell = LifeCell::new(true);
    cell.set_neighbor_indices(vec![4, 0, 7]);
    assert_eq!(cell.get_neighbor_indices(), &vec![4, 0, 7]);
    assert!(cell.is_alive());
    cell.make_dead();
    assert_eq!(cell.get_neighbor_indices(), &vec![4, 0, 7]);
    cell.prepare_update(3);
    cell.update();
    assert_eq!(cell.get_neighbor_indices(), &vec![4, 0, 7]);
    assert!(cell.is_alive());
}
