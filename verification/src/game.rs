//! The interactive session's simulation state: a board, the run/pause
//! state, the speed setting and the generation counter. The terminal loop
//! around it lives outside the library.

use vstd::prelude::*;

use crate::config::BoundaryType;
use crate::grid::{Grid, is_next, same_shape};
use crate::patterns::{Pattern, PatternLibrary};
use crate::rng::{fresh_rng, rand_below};

verus! {

/// Whether the simulation is advancing or paused.
#[derive(Clone, Copy, Debug, PartialEq, Eq, Structural)]
pub enum GameState {
    Running,
    Paused,
}

/// A running session's simulation state.
pub struct Game {
    pub grid: Grid,
    pub state: GameState,
    pub speed: usize,
    pub generation: usize,
    pub max_fps: u64,
}

impl Game {
    pub open spec fn wf(&self) -> bool {
        self.grid.wf()
    }

    pub fn new(width: usize, height: usize, max_fps: u64, boundary: BoundaryType) -> (g: Game)
        requires
            1 <= width,
            1 <= height,
            width + 63 <= usize::MAX,
            ((width + 63) / 64) * height * 64 <= usize::MAX,
        ensures
            g.wf(),
            g.grid.width == width,
            g.grid.height == height,
            g.grid.boundary == boundary,
            g.grid.padded(),
            forall|x: int, y: int| g.grid.in_range(x, y) ==> !g.grid.cell(x, y),
            g.state == GameState::Paused,
            g.speed == 5,
            g.generation == 0,
            g.max_fps == max_fps,
    {
        Game {
            grid: Grid::new(width, height, boundary),
            state: GameState::Paused,
            speed: 5,
            generation: 0,
            max_fps,
        }
    }

    /// Places a predefined pattern onto the session's board.
    pub fn initialize_with_pattern(&mut self, pattern: &Pattern, x: usize, y: usize)
        requires
            old(self).wf(),
            pattern.wf(),
            x + pattern.width <= usize::MAX,
            y + pattern.height <= usize::MAX,
        ensures
            final(self).wf(),
            same_shape(old(self).grid, final(self).grid),
            old(self).grid.padded() ==> final(self).grid.padded(),
            final(self).state == old(self).state,
            final(self).speed == old(self).speed,
            final(self).generation == old(self).generation,
            final(self).max_fps == old(self).max_fps,
            forall|i: int, j: int|
                final(self).grid.in_range(i, j) ==> final(self).grid.cell(i, j) == (
                if pattern.covers(x as int, y as int, i, j) {
                    true
                } else if x <= i < x + pattern.width && y <= j < y + pattern.height {
                    false
                } else {
                    old(self).grid.cell(i, j)
                }),
    {
        pattern.place(&mut self.grid, x, y);
    }

    /// The board's dimensions.
    pub fn get_grid_dimensions(&self) -> (d: (usize, usize))
        ensures
            d == (self.grid.width, self.grid.height),
    {
        self.grid.dimensions()
    }

    /// Advances the session one generation and counts it.
    pub fn step(&mut self)
        requires
            old(self).wf(),
            old(self).generation < usize::MAX,
        ensures
            final(self).wf(),
            is_next(old(self).grid, final(self).grid),
            final(self).generation == old(self).generation + 1,
            final(self).state == old(self).state,
            final(self).speed == old(self).speed,
            final(self).max_fps == old(self).max_fps,
    {
        self.grid.update();
        self.generation = self.generation + 1;
    }
}

/// Seeds a fresh wrapped board with `complexity` randomly chosen library
/// patterns at randomly chosen positions, then advances it ten generations
/// to let the mixture develop.
pub fn generate_random_pattern(width: usize, height: usize, complexity: usize) -> (g: Grid)
    requires
        1 <= width,
        1 <= height,
        width + 63 <= usize::MAX,
        ((width + 63) / 64) * height * 64 <= usize::MAX,
    ensures
        g.wf(),
        g.padded(),
        g.width == width,
        g.height == height,
        g.boundary == BoundaryType::Wrap,
{
    let mut grid = Grid::new(width, height, BoundaryType::Wrap);
    let mut rng = fresh_rng();
    let patterns = PatternLibrary::get_all_patterns();

    let mut k: usize = 0;
    while k < complexity
        invariant
            grid.wf(),
            grid.padded(),
            grid.width == width,
            grid.height == height,
            grid.boundary == BoundaryType::Wrap,
            patterns@.len() == 10,
            forall|q: int| 0 <= q < patterns@.len() ==> (#[trigger] patterns@[q]).wf(),
        decreases complexity - k,
    {
        let pattern_idx = rand_below(&mut rng, patterns.len());
        let pattern = &patterns[pattern_idx];

        let max_x = if width > pattern.width {
            width - pattern.width
        } else {
            0
        };
        let max_y = if height > pattern.height {
            height - pattern.height
        } else {
            0
        };
        let x = if max_x > 0 {
            rand_below(&mut rng, max_x)
        } else {
            0
        };
        let y = if max_y > 0 {
            rand_below(&mut rng, max_y)
        } else {
            0
        };
        pattern.place(&mut grid, x, y);
        k += 1;
    }

    let mut step: usize = 0;
    while step < 10
        invariant
            grid.wf(),
            grid.padded(),
            grid.width == width,
            grid.height == height,
            grid.boundary == BoundaryType::Wrap,
        decreases 10 - step,
    {
        grid.update();
        step += 1;
    }

    grid
}

/// Seeds a session with `complexity` randomly chosen library patterns at
/// randomly chosen positions.
pub fn generate_custom_pattern(game: &mut Game, complexity: usize)
    requires
        old(game).wf(),
    ensures
        final(game).wf(),
        same_shape(old(game).grid, final(game).grid),
        old(game).grid.padded() ==> final(game).grid.padded(),
        final(game).state == old(game).state,
        final(game).generation == old(game).generation,
{
    let mut rng = fresh_rng();
    let patterns = PatternLibrary::get_all_patterns();
    let (width, height) = game.get_grid_dimensions();
    let mut k: usize = 0;
    while k < complexity
        invariant
            game.wf(),
            same_shape(old(game).grid, game.grid),
            old(game).grid.padded() ==> game.grid.padded(),
            game.state == old(game).state,
            game.generation == old(game).generation,
            width == game.grid.width,
            height == game.grid.height,
            patterns@.len() == 10,
            forall|q: int| 0 <= q < patterns@.len() ==> (#[trigger] patterns@[q]).wf(),
        decreases complexity - k,
    {
        let pattern_idx = rand_below(&mut rng, patterns.len());
        let pattern = &patterns[pattern_idx];
        let max_x = if width > pattern.width {
            width - pattern.width
        } else {
            0
        };
        let max_y = if height > pattern.height {
            height - pattern.height
        } else {
            0
        };
        let x = if max_x > 0 {
            rand_below(&mut rng, max_x)
        } else {
            0
        };
        let y = if max_y > 0 {
            rand_below(&mut rng, max_y)
        } else {
            0
        };
        game.initialize_with_pattern(pattern, x, y);
        k += 1;
    }
}

} // verus!
