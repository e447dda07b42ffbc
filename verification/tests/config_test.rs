use conway::config::{BoundaryType, CellTheme, ColorTheme};

#[test]
fn test_boundary_from_string() {
    assert_eq!(BoundaryType::from_string("fixed"), BoundaryType::Fixed);
    assert_eq!(BoundaryType::from_string("FIXED"), BoundaryType::Fixed);
    assert_eq!(BoundaryType::from_string("Fixed"), BoundaryType::Fixed);
    assert_eq!(BoundaryType::from_string("wrap"), BoundaryType::Wrap);
    assert_eq!(BoundaryType::from_string("anything"), BoundaryType::Wrap);
    assert_eq!(BoundaryType::from_string(""), BoundaryType::Wrap);
}

#[test]
fn test_cell_theme_from_string() {
    assert_eq!(CellTheme::from_string("classic"), CellTheme::Classic);
    assert_eq!(CellTheme::from_string("CLASSIC"), CellTheme::Classic);
    assert_eq!(CellTheme::from_string("Dot"), CellTheme::Dot);
    assert_eq!(CellTheme::from_string("block"), CellTheme::Block);
    assert_eq!(CellTheme::from_string("whatever"), CellTheme::Block);
}

#[test]
fn test_cell_theme_glyphs() {
    assert_eq!(CellTheme::Classic.alive_cell(), "O");
    assert_eq!(CellTheme::Block.alive_cell(), "█");
    assert_eq!(CellTheme::Dot.alive_cell(), "•");
    assert_eq!(CellTheme::Classic.dead_cell(), " ");
    assert_eq!(CellTheme::Block.dead_cell(), " ");
    assert_eq!(CellTheme::Dot.dead_cell(), " ");
}

#[test]
fn test_color_theme_from_string() {
    assert_eq!(ColorTheme::from_string("blue"), ColorTheme::Blue);
    assert_eq!(ColorTheme::from_string("Rainbow"), ColorTheme::Rainbow);
    assert_eq!(ColorTheme::from_string("green"), ColorTheme::Green);
    assert_eq!(ColorTheme::from_string("unknown"), ColorTheme::Green);
}
