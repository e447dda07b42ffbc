use conway::config::BoundaryType;
use conway::grid::Grid;
use conway::persist::GridError;

#[test]
fn test_round_trip_randomized() {
    // Serializing and loading back into a board of identical dimensions
    // reproduces the exact cell-by-cell state.
    let mut original = Grid::new(70, 33, BoundaryType::Wrap);
    original.randomize(500);
    let bytes = original.to_bytes();
    assert_eq!(bytes.len(), 8 + 8 * 2 * 33);

    let mut restored = Grid::new(70, 33, BoundaryType::Wrap);
    assert_eq!(restored.from_bytes(&bytes), Ok(()));
    for y in 0..33 {
        for x in 0..70 {
            assert_eq!(restored.get(x, y), original.get(x, y));
        }
    }
    assert_eq!(restored.count_alive(), original.count_alive());
}

#[test]
fn test_header_layout() {
    let grid = Grid::new(70, 33, BoundaryType::Fixed);
    let bytes = grid.to_bytes();
    assert_eq!(&bytes[0..4], &70u32.to_le_bytes());
    assert_eq!(&bytes[4..8], &33u32.to_le_bytes());
}

#[test]
fn test_dimension_mismatch_is_rejected() {
    let original = Grid::new(10, 10, BoundaryType::Wrap);
    let bytes = original.to_bytes();
    let mut target = Grid::new(10, 12, BoundaryType::Wrap);
    target.set(3, 3, true);
    let r = target.from_bytes(&bytes);
    assert_eq!(
        r,
        Err(GridError::WrongDimensions { file_width: 10, file_height: 10, width: 10, height: 12 })
    );
    // the failed load left the board untouched
    assert!(target.get(3, 3));
    assert_eq!(target.count_alive(), 1);
}

#[test]
fn test_truncated_image_is_rejected() {
    let mut original = Grid::new(10, 10, BoundaryType::Wrap);
    original.randomize(500);
    let bytes = original.to_bytes();

    let mut target = Grid::new(10, 10, BoundaryType::Wrap);
    // too short even for the header
    let r = target.from_bytes(&bytes[0..4]);
    assert_eq!(r, Err(GridError::TooShort { needed: 8, len: 4 }));
    // header fits, the cell words do not
    let r = target.from_bytes(&bytes[0..20]);
    assert_eq!(r, Err(GridError::TooShort { needed: 8 + 8 * 10, len: 20 }));
    assert_eq!(target.count_alive(), 0);
}
