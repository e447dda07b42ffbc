use conway::config::BoundaryType;
use conway::grid::Grid;
use conway::patterns::PatternLibrary;

#[test]
fn test_get_all_patterns() {
    let patterns = PatternLibrary::get_all_patterns();
    assert_eq!(patterns.len(), 10);
    let names: Vec<&str> = patterns.iter().map(|p| p.name.as_str()).collect();
    assert_eq!(
        names,
        vec![
            "Glider",
            "Blinker",
            "Toad",
            "Beacon",
            "Pulsar",
            "Glider Gun",
            "LWSS",
            "R-pentomino",
            "Diehard",
            "Acorn"
        ]
    );
}

#[test]
fn test_get_by_name_ignores_case() {
    let p = PatternLibrary::get_by_name("gLiDeR").unwrap();
    assert_eq!(p.name, "Glider");
    assert_eq!(p.cells, vec![(1, 0), (2, 1), (0, 2), (1, 2), (2, 2)]);
    let p = PatternLibrary::get_by_name("lwss").unwrap();
    assert_eq!(p.name, "LWSS");
    assert!(PatternLibrary::get_by_name("no such pattern").is_none());
}

#[test]
fn test_pattern_shapes() {
    let blinker = PatternLibrary::blinker();
    assert_eq!((blinker.width, blinker.height), (3, 3));
    assert_eq!(blinker.cells, vec![(1, 0), (1, 1), (1, 2)]);
    let pulsar = PatternLibrary::pulsar();
    assert_eq!((pulsar.width, pulsar.height), (13, 13));
    assert_eq!(pulsar.cells.len(), 48);
    let gun = PatternLibrary::glider_gun();
    assert_eq!((gun.width, gun.height), (36, 9));
    assert_eq!(gun.cells.len(), 36);
}

#[test]
fn test_place_clears_box_then_sets() {
    let mut grid = Grid::new(20, 20, BoundaryType::Wrap);
    // pre-existing content inside and outside the placement box
    grid.set(5, 5, true);
    grid.set(0, 0, true);
    let blinker = PatternLibrary::blinker();
    blinker.place(&mut grid, 4, 4);
    // the box was evicted, then the offsets were set
    assert!(!grid.get(4, 4));
    assert!(grid.get(5, 4));
    assert!(grid.get(5, 5));
    assert!(grid.get(5, 6));
    assert_eq!(grid.count_alive(), 4); // 3 blinker cells + (0, 0)
    assert!(grid.get(0, 0));
}

#[test]
fn test_place_near_edge_truncates() {
    // Offsets that fall off the board are skipped silently.
    let mut grid = Grid::new(10, 10, BoundaryType::Wrap);
    let glider = PatternLibrary::glider();
    glider.place(&mut grid, 8, 8);
    // of the five offsets only (8+1, 8+0) lands on the board
    assert_eq!(grid.count_alive(), 1);
    assert!(grid.get(9, 8));
}
