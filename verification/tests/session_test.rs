use conway::config::BoundaryType;
use conway::game::{generate_custom_pattern, Game, GameState};
use conway::patterns::PatternLibrary;
use conway::tutorial::Tutorial;
use conway::viewport::Viewport;

#[test]
fn test_game_session() {
    let mut game = Game::new(20, 15, 60, BoundaryType::Wrap);
    assert_eq!(game.get_grid_dimensions(), (20, 15));
    assert_eq!(game.generation, 0);
    assert_eq!(game.speed, 5);
    assert!(matches!(game.state, GameState::Paused));

    let blinker = PatternLibrary::blinker();
    game.initialize_with_pattern(&blinker, 9, 7);
    assert_eq!(game.grid.count_alive(), 3);

    game.step();
    assert_eq!(game.generation, 1);
    assert_eq!(game.grid.count_alive(), 3);
    assert!(game.grid.get(9, 8));
    assert!(game.grid.get(10, 8));
    assert!(game.grid.get(11, 8));
}

#[test]
fn test_generate_custom_pattern_keeps_dimensions() {
    let mut game = Game::new(40, 40, 60, BoundaryType::Wrap);
    generate_custom_pattern(&mut game, 4);
    assert_eq!(game.get_grid_dimensions(), (40, 40));
    assert_eq!(game.generation, 0);
}

#[test]
fn test_generate_random_pattern_board() {
    let grid = conway::game::generate_random_pattern(30, 20, 3);
    assert_eq!(grid.dimensions(), (30, 20));
    // patterns wider than the board still seed something in-bounds
    let tiny = conway::game::generate_random_pattern(2, 2, 5);
    assert_eq!(tiny.dimensions(), (2, 2));
}

#[test]
fn test_tutorial_walkthrough() {
    let mut t = Tutorial::new();
    assert_eq!(t.steps.len(), 8);
    assert_eq!(t.current_step, 0);
    assert_eq!(t.current_step().title, "Introduction to Conway's Game of Life");
    assert!(t.verify_outcome()); // no expected outcome on the first step

    // an out-of-range choice is refused
    assert!(!t.next_step(5));
    assert_eq!(t.current_step, 0);

    // follow the single branch to the rules step
    assert!(t.next_step(0));
    assert_eq!(t.current_step, 1);
    assert_eq!(t.current_step().title, "The Rules");
    assert_eq!(t.grid().count_alive(), 0);

    // the first action draws the three-cell row
    assert!(t.execute_actions(0));
    assert_eq!(t.grid().count_alive(), 3);
    assert!(t.grid().get(9, 9));
    assert!(t.grid().get(10, 9));
    assert!(t.grid().get(11, 9));

    // the wait action advances one generation: the row turns vertical
    assert!(t.execute_actions(2));
    assert!(t.grid().get(10, 8));
    assert!(t.grid().get(10, 9));
    assert!(t.grid().get(10, 10));

    // an action index past the list is refused
    assert!(!t.execute_actions(100));

    // the board can be edited directly
    t.grid_mut().toggle(0, 0);
    assert!(t.grid().get(0, 0));
}

#[test]
fn test_viewport_navigation() {
    let mut v = Viewport::new(100, 50);
    assert_eq!(v.get_cursor_pos(), (50, 25));

    v.move_cursor(-1, 2);
    assert_eq!(v.get_cursor_pos(), (49, 27));

    // the cursor stops at the board's edge
    v.move_cursor(-1000, 0);
    assert_eq!(v.get_cursor_pos(), (49, 27));
    v.move_cursor(0, -27);
    assert_eq!(v.get_cursor_pos(), (49, 0));

    // zooming in re-centres the viewport on the cursor
    v.zoom_by(1);
    assert_eq!(v.zoom, 2);
    assert_eq!(v.viewport_x, 49 - 25);
    assert_eq!(v.viewport_y, 0);

    // zoom is clamped
    v.zoom_by(100);
    assert_eq!(v.zoom, 10);
    v.zoom_by(-100);
    assert_eq!(v.zoom, 1);

    // at zoom 2 the 50-wide window can pan
    v.zoom_by(1);
    assert_eq!(v.viewport_x, 24);
    v.pan_viewport(5, 0);
    assert_eq!(v.viewport_x, 29);
    // a pan that would push the window off the board is refused
    v.pan_viewport(-1000, 0);
    assert_eq!(v.viewport_x, 29);

    v.reset_view();
    assert_eq!((v.zoom, v.viewport_x, v.viewport_y), (1, 0, 0));
}
