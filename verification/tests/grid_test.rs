use conway::config::BoundaryType;
use conway::grid::Grid;

#[test]
fn test_new_grid() {
    let grid = Grid::new(10, 10, BoundaryType::Wrap);
    assert_eq!(grid.dimensions(), (10, 10));
    assert_eq!(grid.count_alive(), 0);
}

#[test]
fn test_set_and_get() {
    let mut grid = Grid::new(10, 10, BoundaryType::Wrap);

    // All cells should be dead initially
    for y in 0..10 {
        for x in 0..10 {
            assert!(!grid.get(x, y));
        }
    }

    // Set some cells to alive
    grid.set(1, 1, true);
    grid.set(2, 2, true);
    grid.set(3, 3, true);

    // Verify those cells are alive
    assert!(grid.get(1, 1));
    assert!(grid.get(2, 2));
    assert!(grid.get(3, 3));

    // Count how many cells are alive
    assert_eq!(grid.count_alive(), 3);
}

#[test]
fn test_toggle() {
    let mut grid = Grid::new(10, 10, BoundaryType::Wrap);

    // Toggle a cell to alive
    grid.toggle(5, 5);
    assert!(grid.get(5, 5));

    // Toggle it back to dead
    grid.toggle(5, 5);
    assert!(!grid.get(5, 5));
}

#[test]
fn test_clear() {
    let mut grid = Grid::new(10, 10, BoundaryType::Wrap);

    // Set some cells to alive
    grid.set(1, 1, true);
    grid.set(2, 2, true);
    grid.set(3, 3, true);

    // Clear the grid
    grid.clear();

    // All cells should be dead
    for y in 0..10 {
        for x in 0..10 {
            assert!(!grid.get(x, y));
        }
    }

    assert_eq!(grid.count_alive(), 0);
}

#[test]
fn test_count_neighbors_wrap() {
    let mut grid = Grid::new(10, 10, BoundaryType::Wrap);

    // Set up a pattern:
    // 1 1 0
    // 0 X 0
    // 0 0 1
    grid.set(0, 0, true);
    grid.set(1, 0, true);
    grid.set(2, 2, true);

    // The cell at (1, 1) should have 3 neighbors
    assert_eq!(grid.count_neighbors(1, 1), 3);
}

#[test]
fn test_count_neighbors_fixed() {
    let mut grid = Grid::new(10, 10, BoundaryType::Fixed);

    // Set up a pattern at the corner:
    // X 1
    // 1 1
    grid.set(1, 0, true);
    grid.set(0, 1, true);
    grid.set(1, 1, true);

    // The cell at (0, 0) should have 3 neighbors
    assert_eq!(grid.count_neighbors(0, 0), 3);
}

#[test]
fn test_update_rules() {
    let mut grid = Grid::new(10, 10, BoundaryType::Wrap);

    // Set up a blinker pattern:
    // 0 0 0
    // 1 1 1
    // 0 0 0
    grid.set(1, 1, true);
    grid.set(2, 1, true);
    grid.set(3, 1, true);

    // After one update, it should transform to:
    // 0 1 0
    // 0 1 0
    // 0 1 0
    grid.update();

    assert!(!grid.get(1, 1));
    assert!(grid.get(2, 0));
    assert!(grid.get(2, 1));
    assert!(grid.get(2, 2));
    assert!(!grid.get(3, 1));

    // After another update, it should go back to horizontal
    grid.update();

    assert!(grid.get(1, 1));
    assert!(grid.get(2, 1));
    assert!(grid.get(3, 1));
    assert!(!grid.get(2, 0));
    assert!(!grid.get(2, 2));
}

#[test]
fn test_get_out_of_range_is_dead() {
    let mut grid = Grid::new(8, 6, BoundaryType::Wrap);
    grid.set(7, 5, true);
    assert!(!grid.get(8, 0));
    assert!(!grid.get(0, 6));
    assert!(!grid.get(100, 100));
    // and out-of-range writes are silent no-ops
    grid.set(8, 0, true);
    grid.toggle(0, 6);
    assert_eq!(grid.count_alive(), 1);
}

#[test]
fn test_wrap_edge_neighbor_counted() {
    // Under Wrap, (0, 0) counts a live cell at (width - 1, 0).
    let mut grid = Grid::new(10, 10, BoundaryType::Wrap);
    grid.set(9, 0, true);
    assert_eq!(grid.count_neighbors(0, 0), 1);

    // Under Fixed, it does not.
    let mut fixed = Grid::new(10, 10, BoundaryType::Fixed);
    fixed.set(9, 0, true);
    assert_eq!(fixed.count_neighbors(0, 0), 0);
}

#[test]
fn test_fixed_corner_max_three_neighbors() {
    // A corner cell under Fixed can see at most its three in-board
    // neighbours, even on a fully live board.
    let mut grid = Grid::new(10, 10, BoundaryType::Fixed);
    grid.randomize(1000);
    assert_eq!(grid.count_alive(), 100);
    assert_eq!(grid.count_neighbors(0, 0), 3);
}

#[test]
fn test_block_still_life() {
    // A lone 2x2 block is unchanged by an update.
    let mut grid = Grid::new(12, 12, BoundaryType::Wrap);
    grid.set(5, 5, true);
    grid.set(6, 5, true);
    grid.set(5, 6, true);
    grid.set(6, 6, true);
    grid.update();
    for y in 0..12 {
        for x in 0..12 {
            let expected = (x == 5 || x == 6) && (y == 5 || y == 6);
            assert_eq!(grid.get(x, y), expected);
        }
    }
}

#[test]
fn test_extinction_is_absorbing() {
    let mut grid = Grid::new(10, 10, BoundaryType::Wrap);
    // A lone cell dies of underpopulation; from then on the board stays
    // empty.
    grid.set(4, 4, true);
    grid.update();
    assert_eq!(grid.count_alive(), 0);
    for _ in 0..5 {
        grid.update();
        assert_eq!(grid.count_alive(), 0);
    }
}

#[test]
fn test_update_determinism() {
    // Two boards restored from the same saved state step to identical
    // successor states.
    let mut grid = Grid::new(20, 17, BoundaryType::Wrap);
    grid.randomize(400);
    let bytes = grid.to_bytes();

    let mut a = Grid::new(20, 17, BoundaryType::Wrap);
    let mut b = Grid::new(20, 17, BoundaryType::Wrap);
    a.from_bytes(&bytes).unwrap();
    b.from_bytes(&bytes).unwrap();
    a.update();
    b.update();
    for y in 0..17 {
        for x in 0..20 {
            assert_eq!(a.get(x, y), b.get(x, y));
        }
    }
}

#[test]
fn test_randomize_extremes() {
    let mut grid = Grid::new(9, 7, BoundaryType::Fixed);
    grid.randomize(1000);
    assert_eq!(grid.count_alive(), 63);
    grid.randomize(0);
    assert_eq!(grid.count_alive(), 0);
}

#[test]
fn test_place_glider() {
    let mut grid = Grid::new(10, 10, BoundaryType::Wrap);
    grid.set(2, 2, true); // inside the box: evicted by placement
    grid.place_glider(1, 1);
    assert_eq!(grid.count_alive(), 5);
    assert!(grid.get(2, 1));
    assert!(grid.get(3, 2));
    assert!(grid.get(1, 3));
    assert!(grid.get(2, 3));
    assert!(grid.get(3, 3));
    // out-of-range placement is a no-op
    let before = grid.count_alive();
    grid.place_glider(9, 9);
    assert_eq!(grid.count_alive(), before);
}
