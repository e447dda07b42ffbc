use conway::analyzer::{FormationCounts, PatternAnalyzer, PatternType};
use conway::config::BoundaryType;
use conway::grid::Grid;
use conway::patterns::{Pattern, PatternLibrary};

#[test]
fn test_glider_is_a_spaceship() {
    // The glider on a 50x50 wrapped board is classified as a spaceship of
    // period 4 moving one cell down and one cell right per period.
    let analyzer = PatternAnalyzer::new(60, (50, 50), BoundaryType::Wrap);
    let glider = PatternLibrary::glider();
    let stats = analyzer.analyze_pattern(&glider, 24, 24);
    assert_eq!(
        stats.pattern_type,
        PatternType::SpaceshipPattern { period: 4, displacement: (1, 1) }
    );
    assert_eq!(stats.initial_population, 5);
    assert_eq!(stats.final_population, 5);
    assert_eq!(stats.name, "Glider");
}

#[test]
fn test_blinker_is_an_oscillator() {
    let analyzer = PatternAnalyzer::new(50, (20, 20), BoundaryType::Wrap);
    let blinker = PatternLibrary::blinker();
    let stats = analyzer.analyze_pattern(&blinker, 9, 9);
    assert_eq!(
        stats.pattern_type,
        PatternType::StablePattern {
            generations_to_stabilize: 0,
            oscillator_period: Some(2),
            final_population: 3,
        }
    );
    assert_eq!(stats.generations_analyzed, 2);
}

#[test]
fn test_block_is_a_still_life() {
    let analyzer = PatternAnalyzer::new(50, (20, 20), BoundaryType::Wrap);
    let block = Pattern {
        name: "Block".to_owned(),
        description: "A 2x2 still life".to_owned(),
        width: 2,
        height: 2,
        cells: vec![(0, 0), (1, 0), (0, 1), (1, 1)],
    };
    let stats = analyzer.analyze_pattern(&block, 9, 9);
    assert_eq!(
        stats.pattern_type,
        PatternType::StablePattern {
            generations_to_stabilize: 0,
            oscillator_period: None,
            final_population: 4,
        }
    );
    // The final board holds exactly one recognizable block.
    assert_eq!(stats.stable_formations, FormationCounts { blocks: 1, blinkers: 0 });
}

#[test]
fn test_lone_cell_goes_extinct() {
    let analyzer = PatternAnalyzer::new(50, (20, 20), BoundaryType::Wrap);
    let dot = Pattern {
        name: "Dot".to_owned(),
        description: "A single live cell".to_owned(),
        width: 1,
        height: 1,
        cells: vec![(0, 0)],
    };
    let stats = analyzer.analyze_pattern(&dot, 10, 10);
    assert_eq!(
        stats.pattern_type,
        PatternType::ExtinctPattern { generations_to_extinction: 1 }
    );
    assert_eq!(stats.population_history, vec![1, 0]);
    assert_eq!(stats.final_population, 0);
}

#[test]
fn test_r_pentomino_explodes() {
    // The R-pentomino keeps growing: by generation 51 its population has
    // reached 45 from 5, which the analyzer reports as explosive growth.
    let analyzer = PatternAnalyzer::new(100, (70, 70), BoundaryType::Wrap);
    let pattern = PatternLibrary::r_pentomino();
    let stats = analyzer.analyze_pattern(&pattern, 34, 34);
    assert_eq!(
        stats.pattern_type,
        PatternType::ExplodingPattern { population_gain: 40, generations: 51 }
    );
}

#[test]
fn test_budget_exhaustion_is_unknown() {
    // Three generations are not enough to classify the R-pentomino.
    let analyzer = PatternAnalyzer::new(3, (40, 40), BoundaryType::Wrap);
    let pattern = PatternLibrary::r_pentomino();
    let stats = analyzer.analyze_pattern(&pattern, 19, 19);
    assert_eq!(stats.pattern_type, PatternType::Unknown);
    assert_eq!(stats.generations_analyzed, 3);
    assert_eq!(stats.population_history.len(), 4);
}

#[test]
fn test_max_population_bookkeeping() {
    // The recorded maximum is the true maximum of the history and its
    // generation is the first to attain it.
    let analyzer = PatternAnalyzer::new(30, (40, 40), BoundaryType::Wrap);
    let pattern = PatternLibrary::r_pentomino();
    let stats = analyzer.analyze_pattern(&pattern, 19, 19);
    assert_eq!(stats.population_history.len(), 31);
    assert_eq!(stats.initial_population, 5);
    assert_eq!(stats.max_population, 46);
    assert_eq!(stats.generation_of_max, 24);
    assert_eq!(stats.final_population, 27);
    let true_max = *stats.population_history.iter().max().unwrap();
    assert_eq!(stats.max_population, true_max);
    let first = stats
        .population_history
        .iter()
        .position(|&p| p == true_max)
        .unwrap();
    assert_eq!(stats.generation_of_max, first);
}

#[test]
fn test_identify_stable_formations() {
    let analyzer = PatternAnalyzer::new(10, (20, 20), BoundaryType::Wrap);
    let mut grid = Grid::new(20, 20, BoundaryType::Wrap);
    // one block
    grid.set(3, 3, true);
    grid.set(4, 3, true);
    grid.set(3, 4, true);
    grid.set(4, 4, true);
    // one horizontal blinker row, isolated
    grid.set(10, 10, true);
    grid.set(11, 10, true);
    grid.set(12, 10, true);
    let counts = analyzer.identify_stable_formations(&grid);
    assert_eq!(counts, FormationCounts { blocks: 1, blinkers: 1 });
}

#[test]
fn test_find_pattern_center() {
    let analyzer = PatternAnalyzer::new(10, (20, 20), BoundaryType::Wrap);
    let mut grid = Grid::new(20, 20, BoundaryType::Wrap);
    // empty board: the geometric centre
    assert_eq!(analyzer.find_pattern_center(&grid), (10, 10));
    grid.set(2, 4, true);
    grid.set(6, 8, true);
    // integer-averaged centroid
    assert_eq!(analyzer.find_pattern_center(&grid), (4, 6));
}

#[test]
fn test_compare_patterns() {
    let analyzer = PatternAnalyzer::new(50, (20, 20), BoundaryType::Wrap);
    let patterns = vec![
        (PatternLibrary::blinker(), 9usize, 9usize),
        (PatternLibrary::glider(), 5, 5),
    ];
    let results = analyzer.compare_patterns(&patterns);
    assert_eq!(results.len(), 2);
    assert_eq!(results[0].name, "Blinker");
    assert_eq!(results[1].name, "Glider");
}

#[test]
fn test_hash_grid_tracks_state() {
    let analyzer = PatternAnalyzer::new(10, (16, 16), BoundaryType::Wrap);
    let mut a = Grid::new(16, 16, BoundaryType::Wrap);
    let mut b = Grid::new(16, 16, BoundaryType::Wrap);
    assert_eq!(analyzer.hash_grid(&a), analyzer.hash_grid(&b));
    a.set(5, 5, true);
    assert_ne!(analyzer.hash_grid(&a), analyzer.hash_grid(&b));
    b.set(5, 5, true);
    assert_eq!(analyzer.hash_grid(&a), analyzer.hash_grid(&b));
}
