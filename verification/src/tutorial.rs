//! The interactive walk-through of the simulator: a fixed script of steps,
//! each with a board configuration, a list of actions to perform, and an
//! optional expected outcome to check. The pacing and key handling around
//! it live outside the library.

use vstd::prelude::*;

use crate::config::BoundaryType;
use crate::grid::{Grid, same_shape};
use crate::patterns::Pattern;

verus! {

/// One step of the walk-through.
pub struct TutorialStep {
    pub title: String,
    pub description: String,
    pub grid_config: GridConfig,
    pub actions: Vec<Action>,
    pub expected_outcome: Option<Outcome>,
    pub next_steps: Vec<usize>,
}

/// The board a step starts from: dimensions, seed patterns and boundary.
pub struct GridConfig {
    pub width: usize,
    pub height: usize,
    pub initial_patterns: Vec<(Pattern, usize, usize)>,
    pub boundary: BoundaryType,
}

/// What a step does to the board.
pub enum Action {
    /// Advance the given number of generations.
    Wait(usize),
    /// Set the listed cells to the given state.
    SetCells(Vec<(usize, usize)>, bool),
    /// Advance until the population stops changing, with a safety limit.
    RunUntilStable,
    /// Draw attention to a phenomenon; no effect on the board.
    Observe(String),
    /// Wait for the user; handled by the front end.
    UserInput(UserInputType),
}

/// The kinds of input a step may wait for.
pub enum UserInputType {
    AnyKey,
    SpecificKey(char),
    Position,
}

/// What a step expects to hold afterwards.
pub struct Outcome {
    pub description: String,
    pub grid_state: Option<Vec<((usize, usize), bool)>>,
    pub stable_after: Option<usize>,
    pub oscillator_period: Option<usize>,
}

/// A step's board configuration can actually be built on this machine, and
/// its seed patterns can be placed.
pub open spec fn config_wf(c: GridConfig) -> bool {
    &&& 1 <= c.width
    &&& 1 <= c.height
    &&& c.width + 63 <= usize::MAX
    &&& ((c.width + 63) / 64) * c.height * 64 <= usize::MAX
    &&& forall|t: int|
        0 <= t < c.initial_patterns@.len() ==> {
            &&& (#[trigger] c.initial_patterns@[t]).0.wf()
            &&& c.initial_patterns@[t].1 + c.initial_patterns@[t].0.width <= usize::MAX
            &&& c.initial_patterns@[t].2 + c.initial_patterns@[t].0.height <= usize::MAX
        }
}

/// A step is well formed for a script of `n` steps.
pub open spec fn step_wf(s: TutorialStep, n: int) -> bool {
    &&& config_wf(s.grid_config)
    &&& forall|t: int| 0 <= t < s.next_steps@.len() ==> (#[trigger] s.next_steps@[t]) < n
}

/// Every step of the script is well formed.
pub open spec fn steps_wf(steps: Seq<TutorialStep>) -> bool {
    forall|k: int| 0 <= k < steps.len() ==> step_wf(#[trigger] steps[k], steps.len() as int)
}

/// The walk-through: the script, the current position in it, and the board.
pub struct Tutorial {
    pub steps: Vec<TutorialStep>,
    pub current_step: usize,
    pub grid: Grid,
}

/// Whether the current step's expected board state, if any, holds.
pub open spec fn outcome_met(t: Tutorial) -> bool {
    match t.steps@[t.current_step as int].expected_outcome {
        Option::None => true,
        Option::Some(o) => match o.grid_state {
            Option::None => true,
            Option::Some(entries) => forall|k: int|
                0 <= k < entries@.len() ==> t.grid.alive(
                    (#[trigger] entries@[k]).0.0 as int,
                    entries@[k].0.1 as int,
                ) == entries@[k].1,
        },
    }
}

impl Tutorial {
    /// Well-formedness: a valid position in a well-formed script, and a
    /// board matching the current step's configuration.
    pub open spec fn wf(&self) -> bool {
        &&& steps_wf(self.steps@)
        &&& self.current_step < self.steps@.len()
        &&& self.grid.wf()
        &&& self.grid.padded()
        &&& self.grid.width == self.steps@[self.current_step as int].grid_config.width
        &&& self.grid.height == self.steps@[self.current_step as int].grid_config.height
        &&& self.grid.boundary == self.steps@[self.current_step as int].grid_config.boundary
    }

    pub fn new() -> (t: Tutorial)
        ensures
            t.wf(),
            t.current_step == 0,
            t.steps@.len() == 8,
    {
        let steps = Self::create_tutorial_steps();
        let grid = Self::build_step_grid(&steps, 0);
        Tutorial { steps, current_step: 0, grid }
    }

    /// A fresh board for step `idx`: the step's dimensions and boundary,
    /// with its seed patterns placed in order.
    fn build_step_grid(steps: &Vec<TutorialStep>, idx: usize) -> (g: Grid)
        requires
            steps_wf(steps@),
            idx < steps@.len(),
        ensures
            g.wf(),
            g.padded(),
            g.width == steps@[idx as int].grid_config.width,
            g.height == steps@[idx as int].grid_config.height,
            g.boundary == steps@[idx as int].grid_config.boundary,
    {
        let config = &steps[idx].grid_config;
        let mut grid = Grid::new(config.width, config.height, config.boundary);
        let n = config.initial_patterns.len();
        let mut k: usize = 0;
        while k < n
            invariant
                steps_wf(steps@),
                idx < steps@.len(),
                config == &steps@[idx as int].grid_config,
                n == config.initial_patterns@.len(),
                k <= n,
                grid.wf(),
                grid.padded(),
                grid.width == config.width,
                grid.height == config.height,
                grid.boundary == config.boundary,
            decreases n - k,
        {
            let entry = &config.initial_patterns[k];
            entry.0.place(&mut grid, entry.1, entry.2);
            k += 1;
        }
        grid
    }

    /// The step the walk-through currently stands on.
    pub fn current_step(&self) -> (s: &TutorialStep)
        requires
            self.wf(),
        ensures
            *s == self.steps@[self.current_step as int],
    {
        &self.steps[self.current_step]
    }

    /// Follows the chosen branch to the next step and rebuilds the board
    /// for it; reports whether the choice existed.
    pub fn next_step(&mut self, choice: usize) -> (r: bool)
        requires
            old(self).wf(),
        ensures
            final(self).wf(),
            final(self).steps == old(self).steps,
            r == (choice < old(self).steps@[old(self).current_step as int].next_steps@.len()),
            r ==> final(self).current_step == old(self).steps@[old(self).current_step as int]
                .next_steps@[choice as int],
            !r ==> *final(self) == *old(self),
    {
        let cs = self.current_step;
        if choice >= self.steps[cs].next_steps.len() {
            return false;
        }
        let target = self.steps[cs].next_steps[choice];
        self.current_step = target;
        self.grid = Self::build_step_grid(&self.steps, target);
        true
    }

    /// The board, for display.
    pub fn grid(&self) -> (g: &Grid)
        ensures
            *g == self.grid,
    {
        &self.grid
    }

    /// The board, for editing.
    pub fn grid_mut(&mut self) -> (g: &mut Grid)
        ensures
            *g == old(self).grid,
            final(self).steps == old(self).steps,
            final(self).current_step == old(self).current_step,
            final(self).grid == *final(g),
    {
        &mut self.grid
    }

    /// Performs the current step's action at `action_index` on the board:
    /// waiting advances generations, cell lists are written, and
    /// run-until-stable advances until the population repeats or a safety
    /// limit is reached. Reports whether the index named an action.
    pub fn execute_actions(&mut self, action_index: usize) -> (r: bool)
        requires
            old(self).wf(),
        ensures
            final(self).wf(),
            final(self).steps == old(self).steps,
            final(self).current_step == old(self).current_step,
            same_shape(old(self).grid, final(self).grid),
            r == (action_index < old(self).steps@[old(self).current_step as int].actions@.len()),
    {
        let cs = self.current_step;
        if action_index >= self.steps[cs].actions.len() {
            return false;
        }
        let grid = &mut self.grid;
        let step = &self.steps[cs];
        match &step.actions[action_index] {
            Action::Wait(generations) => {
                let n = *generations;
                let mut g: usize = 0;
                while g < n
                    invariant
                        grid.wf(),
                        grid.padded(),
                        same_shape(old(self).grid, *grid),
                        g <= n,
                    decreases n - g,
                {
                    grid.update();
                    g += 1;
                }
            },
            Action::SetCells(cells, state) => {
                let st = *state;
                let n = cells.len();
                let mut k: usize = 0;
                while k < n
                    invariant
                        grid.wf(),
                        grid.padded(),
                        same_shape(old(self).grid, *grid),
                        n == cells@.len(),
                        k <= n,
                    decreases n - k,
                {
                    let cell = cells[k];
                    grid.set(cell.0, cell.1, st);
                    k += 1;
                }
            },
            Action::RunUntilStable => {
                let mut prev_count = grid.count_alive();
                let mut generations: usize = 0;
                let mut settled = false;
                while generations < 1000 && !settled
                    invariant
                        grid.wf(),
                        grid.padded(),
                        same_shape(old(self).grid, *grid),
                        generations <= 1000,
                    decreases 1000 - generations + (if settled {
                        0int
                    } else {
                        1int
                    }),
                {
                    grid.update();
                    let current = grid.count_alive();
                    if current == prev_count {
                        settled = true;
                    } else {
                        prev_count = current;
                        generations += 1;
                    }
                }
            },
            Action::Observe(_) => {},
            Action::UserInput(_) => {},
        }
        true
    }

    /// Whether the current step's expected board state, if any, holds.
    pub fn verify_outcome(&self) -> (r: bool)
        requires
            self.wf(),
        ensures
            r == outcome_met(*self),
    {
        let step = &self.steps[self.current_step];
        match &step.expected_outcome {
            Option::None => true,
            Option::Some(o) => {
                match &o.grid_state {
                    Option::None => true,
                    Option::Some(entries) => {
                        let n = entries.len();
                        let mut k: usize = 0;
                        while k < n
                            invariant
                                self.wf(),
                                step == &self.steps@[self.current_step as int],
                                step.expected_outcome is Some,
                                o == step.expected_outcome->Some_0,
                                o.grid_state is Some,
                                entries@ == o.grid_state->Some_0@,
                                n == entries@.len(),
                                k <= n,
                                forall|j: int|
                                    0 <= j < k ==> self.grid.alive(
                                        (#[trigger] entries@[j]).0.0 as int,
                                        entries@[j].0.1 as int,
                                    ) == entries@[j].1,
                            decreases n - k,
                        {
                            let entry = entries[k];
                            if self.grid.get(entry.0.0, entry.0.1) != entry.1 {
                                proof {
                                    let cs = self.current_step as int;
                                    let oc = self.steps@[cs].expected_outcome->Some_0;
                                    assert(*step == self.steps@[cs]);
                                    assert(step.expected_outcome is Some);
                                    assert(self.steps@[cs].expected_outcome is Some);
                                    assert(oc.grid_state is Some);
                                    assert(oc.grid_state->Some_0@ == entries@);
                                    assert(entry == oc.grid_state->Some_0@[k as int]);
                                    assert(self.grid.alive(entry.0.0 as int, entry.0.1 as int)
                                        != entry.1);
                                    assert(!outcome_met(*self));
                                }
                                return false;
                            }
                            k += 1;
                        }
                        true
                    },
                }
            },
        }
    }


    /// The fixed script of the walk-through.
    pub fn create_tutorial_steps() -> (steps: Vec<TutorialStep>)
        ensures
            steps@.len() == 8,
            steps_wf(steps@),
            forall|k: int|
                0 <= k < steps@.len() ==> (#[trigger] steps@[k]).grid_config.initial_patterns@.len()
                    == 0,
    {
        let mut steps: Vec<TutorialStep> = Vec::new();
        let mut actions_0: Vec<Action> = Vec::new();
        actions_0.push(Action::UserInput(UserInputType::AnyKey));
        let mut next_0: Vec<usize> = Vec::new();
        next_0.push(1);
        steps.push(TutorialStep {
            title: "Introduction to Conway's Game of Life".to_owned(),
            description: "Conway's Game of Life is a cellular automaton devised by mathematician John Conway in 1970. It consists of a grid of cells, each of which can be alive or dead. The grid evolves according to simple rules based on the state of neighboring cells.".to_owned(),
            grid_config: GridConfig {
                width: 20,
                height: 20,
                initial_patterns: Vec::new(),
                boundary: BoundaryType::Wrap,
            },
            actions: actions_0,
            expected_outcome: Option::None,
            next_steps: next_0,
        });
        let mut actions_1: Vec<Action> = Vec::new();
        let mut cs: Vec<(usize, usize)> = Vec::new();
        cs.push((9, 9));
        cs.push((10, 9));
        cs.push((11, 9));
        actions_1.push(Action::SetCells(cs, true));
        actions_1.push(Action::UserInput(UserInputType::AnyKey));
        actions_1.push(Action::Wait(1));
        actions_1.push(Action::Observe("Notice how the pattern changes from a horizontal line to a vertical line".to_owned()));
        actions_1.push(Action::Wait(1));
        actions_1.push(Action::Observe("The pattern oscillates between these two states - this is called a 'blinker'".to_owned()));
        let mut next_1: Vec<usize> = Vec::new();
        next_1.push(2);
        steps.push(TutorialStep {
            title: "The Rules".to_owned(),
            description: "The rules of the Game of Life are simple:\n1. Any live cell with fewer than two live neighbors dies (underpopulation)\n2. Any live cell with two or three live neighbors lives on\n3. Any live cell with more than three live neighbors dies (overpopulation)\n4. Any dead cell with exactly three live neighbors becomes alive (reproduction)".to_owned(),
            grid_config: GridConfig {
                width: 20,
                height: 20,
                initial_patterns: Vec::new(),
                boundary: BoundaryType::Wrap,
            },
            actions: actions_1,
            expected_outcome: Option::Some(Outcome {
                description:
                    "The blinker pattern oscillates between horizontal and vertical orientations.".to_owned(),
                grid_state: Option::None,
                stable_after: Option::None,
                oscillator_period: Option::Some(2),
            }),
            next_steps: next_1,
        });
        let mut actions_2: Vec<Action> = Vec::new();
        let mut cs: Vec<(usize, usize)> = Vec::new();
        cs.push((5, 5));
        cs.push((5, 6));
        cs.push((6, 5));
        cs.push((6, 6));
        actions_2.push(Action::SetCells(cs, true));
        actions_2.push(Action::Observe("This is a 'block', the simplest still life".to_owned()));
        let mut cs: Vec<(usize, usize)> = Vec::new();
        cs.push((15, 5));
        cs.push((16, 4));
        cs.push((17, 4));
        cs.push((18, 5));
        cs.push((17, 6));
        cs.push((16, 6));
        actions_2.push(Action::SetCells(cs, true));
        actions_2.push(Action::Observe("This is a 'beehive', another common still life".to_owned()));
        let mut cs: Vec<(usize, usize)> = Vec::new();
        cs.push((25, 5));
        cs.push((26, 4));
        cs.push((27, 4));
        cs.push((28, 5));
        cs.push((27, 6));
        cs.push((26, 6));
        cs.push((27, 7));
        actions_2.push(Action::SetCells(cs, true));
        actions_2.push(Action::Observe("This is a 'loaf', another stable pattern".to_owned()));
        actions_2.push(Action::Wait(5));
        actions_2.push(Action::Observe("Notice that none of these patterns change over time".to_owned()));
        let mut next_2: Vec<usize> = Vec::new();
        next_2.push(3);
        steps.push(TutorialStep {
            title: "Still Lifes".to_owned(),
            description: "Still lifes are patterns that do not change from one generation to the next. They are stable configurations where each live cell has exactly 2 or 3 live neighbors.".to_owned(),
            grid_config: GridConfig {
                width: 30,
                height: 20,
                initial_patterns: Vec::new(),
                boundary: BoundaryType::Wrap,
            },
            actions: actions_2,
            expected_outcome: Option::Some(Outcome {
                description: "The still life patterns remain unchanged.".to_owned(),
                grid_state: Option::None,
                stable_after: Option::Some(1),
                oscillator_period: Option::None,
            }),
            next_steps: next_2,
        });
        let mut actions_3: Vec<Action> = Vec::new();
        let mut cs: Vec<(usize, usize)> = Vec::new();
        cs.push((5, 5));
        cs.push((6, 5));
        cs.push((7, 5));
        actions_3.push(Action::SetCells(cs, true));
        actions_3.push(Action::Observe("The 'blinker' oscillates with period 2".to_owned()));
        let mut cs: Vec<(usize, usize)> = Vec::new();
        cs.push((15, 5));
        cs.push((16, 5));
        cs.push((17, 5));
        cs.push((14, 6));
        cs.push((15, 6));
        cs.push((16, 6));
        actions_3.push(Action::SetCells(cs, true));
        actions_3.push(Action::Observe("The 'toad' also oscillates with period 2".to_owned()));
        let mut cs: Vec<(usize, usize)> = Vec::new();
        cs.push((25, 5));
        cs.push((26, 5));
        cs.push((25, 6));
        cs.push((28, 7));
        cs.push((29, 8));
        cs.push((28, 8));
        actions_3.push(Action::SetCells(cs, true));
        actions_3.push(Action::Observe("The 'beacon' oscillates with period 2 as well".to_owned()));
        let mut cs: Vec<(usize, usize)> = Vec::new();
        cs.push((32, 2));
        cs.push((33, 2));
        cs.push((34, 2));
        cs.push((38, 2));
        cs.push((39, 2));
        cs.push((40, 2));
        cs.push((30, 4));
        cs.push((35, 4));
        cs.push((37, 4));
        cs.push((42, 4));
        cs.push((30, 5));
        cs.push((35, 5));
        cs.push((37, 5));
        cs.push((42, 5));
        cs.push((30, 6));
        cs.push((35, 6));
        cs.push((37, 6));
        cs.push((42, 6));
        cs.push((32, 7));
        cs.push((33, 7));
        cs.push((34, 7));
        cs.push((38, 7));
        cs.push((39, 7));
        cs.push((40, 7));
        cs.push((32, 9));
        cs.push((33, 9));
        cs.push((34, 9));
        cs.push((38, 9));
        cs.push((39, 9));
        cs.push((40, 9));
        cs.push((30, 10));
        cs.push((35, 10));
        cs.push((37, 10));
        cs.push((42, 10));
        cs.push((30, 11));
        cs.push((35, 11));
        cs.push((37, 11));
        cs.push((42, 11));
        cs.push((30, 12));
        cs.push((35, 12));
        cs.push((37, 12));
        cs.push((42, 12));
        cs.push((32, 14));
        cs.push((33, 14));
        cs.push((34, 14));
        cs.push((38, 14));
        cs.push((39, 14));
        cs.push((40, 14));
        actions_3.push(Action::SetCells(cs, true));
        actions_3.push(Action::Observe("The 'pulsar' is a larger oscillator with period 3".to_owned()));
        actions_3.push(Action::Wait(10));
        actions_3.push(Action::Observe("Watch as these patterns cycle through their states".to_owned()));
        let mut next_3: Vec<usize> = Vec::new();
        next_3.push(4);
        steps.push(TutorialStep {
            title: "Oscillators".to_owned(),
            description: "Oscillators are patterns that cycle through a fixed sequence of states, eventually returning to their initial configuration.".to_owned(),
            grid_config: GridConfig {
                width: 40,
                height: 20,
                initial_patterns: Vec::new(),
                boundary: BoundaryType::Wrap,
            },
            actions: actions_3,
            expected_outcome: Option::None,
            next_steps: next_3,
        });
        let mut actions_4: Vec<Action> = Vec::new();
        let mut cs: Vec<(usize, usize)> = Vec::new();
        cs.push((5, 5));
        cs.push((6, 6));
        cs.push((7, 6));
        cs.push((5, 7));
        cs.push((6, 7));
        actions_4.push(Action::SetCells(cs, true));
        actions_4.push(Action::Observe("This is a 'glider', the smallest spaceship".to_owned()));
        let mut cs: Vec<(usize, usize)> = Vec::new();
        cs.push((15, 5));
        cs.push((18, 5));
        cs.push((14, 6));
        cs.push((14, 7));
        cs.push((18, 7));
        cs.push((14, 8));
        cs.push((15, 8));
        cs.push((16, 8));
        cs.push((17, 8));
        actions_4.push(Action::SetCells(cs, true));
        actions_4.push(Action::Observe("This is a 'lightweight spaceship' (LWSS)".to_owned()));
        actions_4.push(Action::Wait(20));
        actions_4.push(Action::Observe("Watch as these patterns move across the grid".to_owned()));
        let mut next_4: Vec<usize> = Vec::new();
        next_4.push(5);
        steps.push(TutorialStep {
            title: "Spaceships".to_owned(),
            description: "Spaceships are patterns that translate across the grid, returning to their original shape but in a different location.".to_owned(),
            grid_config: GridConfig {
                width: 40,
                height: 20,
                initial_patterns: Vec::new(),
                boundary: BoundaryType::Wrap,
            },
            actions: actions_4,
            expected_outcome: Option::None,
            next_steps: next_4,
        });
        let mut actions_5: Vec<Action> = Vec::new();
        let mut cs: Vec<(usize, usize)> = Vec::new();
        cs.push((20, 15));
        cs.push((21, 15));
        cs.push((19, 16));
        cs.push((20, 16));
        cs.push((20, 17));
        actions_5.push(Action::SetCells(cs, true));
        actions_5.push(Action::Observe("This is the 'R-pentomino', which takes 1103 generations to stabilize".to_owned()));
        actions_5.push(Action::Wait(50));
        actions_5.push(Action::Observe("The R-pentomino produces a complex pattern that evolves for many generations".to_owned()));
        let mut next_5: Vec<usize> = Vec::new();
        next_5.push(6);
        steps.push(TutorialStep {
            title: "Methuselahs".to_owned(),
            description: "Methuselahs are small patterns that take a long time to stabilize, often creating complex structures in the process.".to_owned(),
            grid_config: GridConfig {
                width: 40,
                height: 30,
                initial_patterns: Vec::new(),
                boundary: BoundaryType::Wrap,
            },
            actions: actions_5,
            expected_outcome: Option::None,
            next_steps: next_5,
        });
        let mut actions_6: Vec<Action> = Vec::new();
        let mut cs: Vec<(usize, usize)> = Vec::new();
        cs.push((25, 5));
        cs.push((23, 6));
        cs.push((25, 6));
        cs.push((13, 7));
        cs.push((14, 7));
        cs.push((21, 7));
        cs.push((22, 7));
        cs.push((35, 7));
        cs.push((36, 7));
        cs.push((12, 8));
        cs.push((16, 8));
        cs.push((21, 8));
        cs.push((22, 8));
        cs.push((35, 8));
        cs.push((36, 8));
        cs.push((1, 9));
        cs.push((2, 9));
        cs.push((11, 9));
        cs.push((17, 9));
        cs.push((21, 9));
        cs.push((22, 9));
        cs.push((1, 10));
        cs.push((2, 10));
        cs.push((11, 10));
        cs.push((15, 10));
        cs.push((17, 10));
        cs.push((18, 10));
        cs.push((23, 10));
        cs.push((25, 10));
        cs.push((11, 11));
        cs.push((17, 11));
        cs.push((25, 11));
        cs.push((12, 12));
        cs.push((16, 12));
        cs.push((13, 13));
        cs.push((14, 13));
        actions_6.push(Action::SetCells(cs, true));
        actions_6.push(Action::Observe("This is the 'Gosper Glider Gun', which emits a glider every 30 generations".to_owned()));
        actions_6.push(Action::Wait(100));
        actions_6.push(Action::Observe("Watch as the gun produces a stream of gliders".to_owned()));
        let mut next_6: Vec<usize> = Vec::new();
        next_6.push(7);
        steps.push(TutorialStep {
            title: "Guns and Puffers".to_owned(),
            description: "Guns are patterns that periodically emit spaceships. Puffers are moving patterns that leave debris behind them.".to_owned(),
            grid_config: GridConfig {
                width: 50,
                height: 30,
                initial_patterns: Vec::new(),
                boundary: BoundaryType::Wrap,
            },
            actions: actions_6,
            expected_outcome: Option::None,
            next_steps: next_6,
        });
        let mut actions_7: Vec<Action> = Vec::new();
        actions_7.push(Action::UserInput(UserInputType::AnyKey));
        let mut next_7: Vec<usize> = Vec::new();
        next_7.push(0);
        steps.push(TutorialStep {
            title: "Conclusion".to_owned(),
            description: "You've now seen the basic patterns and behaviors in Conway's Game of Life. Despite its simple rules, the Game of Life is Turing complete, meaning it can simulate any computer algorithm. Explore more by creating your own patterns or searching for famous discoveries!".to_owned(),
            grid_config: GridConfig {
                width: 40,
                height: 20,
                initial_patterns: Vec::new(),
                boundary: BoundaryType::Wrap,
            },
            actions: actions_7,
            expected_outcome: Option::None,
            next_steps: next_7,
        });
        steps
    }
}

} // verus!
