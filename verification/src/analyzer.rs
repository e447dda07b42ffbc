//! The pattern analyzer: it seeds a board with a pattern, advances it
//! generation by generation, tracks population and centroid trajectories,
//! and classifies the long-run behaviour it observes.

use vstd::prelude::*;
use vstd::arithmetic::div_mod::{
    lemma_fundamental_div_mod, lemma_fundamental_div_mod_converse, lemma_mod_bound,
};

use crate::config::BoundaryType;
use crate::grid::{Grid, is_next};
use crate::patterns::Pattern;

verus! {

/// The life-cycle classification of a pattern.
///
/// An exploding pattern's average growth rate is the fraction
/// `population_gain / generations`; a spaceship's speed follows from its
/// displacement and period.
#[derive(Debug, PartialEq)]
pub enum PatternType {
    /// The pattern died out completely.
    ExtinctPattern { generations_to_extinction: usize },
    /// The pattern settled into still lifes (no period) or an oscillator.
    StablePattern {
        generations_to_stabilize: usize,
        oscillator_period: Option<usize>,
        final_population: usize,
    },
    /// The pattern kept growing.
    ExplodingPattern { population_gain: usize, generations: usize },
    /// The pattern translates across the board with a fixed period.
    SpaceshipPattern { period: usize, displacement: (isize, isize) },
    /// A pattern that periodically emits another classifiable pattern.
    PatternEmitter { period: usize, emitted_pattern_type: Box<PatternType> },
    /// No classification was reached within the generation budget.
    Unknown,
}

/// How many of each recognizable stable formation the final board holds.
#[derive(Clone, Copy, Debug, PartialEq, Eq, Structural)]
pub struct FormationCounts {
    pub blocks: usize,
    pub blinkers: usize,
}

/// Statistics gathered while a pattern's evolution was analyzed.
#[derive(Debug)]
pub struct PatternStats {
    pub name: String,
    pub initial_population: usize,
    pub max_population: usize,
    pub generation_of_max: usize,
    pub final_population: usize,
    pub generations_analyzed: usize,
    pub pattern_type: PatternType,
    pub stable_formations: FormationCounts,
    pub population_history: Vec<usize>,
}

impl PatternStats {
    pub fn new(name: &str, initial_population: usize) -> (s: Self)
        ensures
            s.name@ == name@,
            s.initial_population == initial_population,
            s.max_population == initial_population,
            s.generation_of_max == 0,
            s.final_population == initial_population,
            s.generations_analyzed == 0,
            s.pattern_type == PatternType::Unknown,
            s.stable_formations == (FormationCounts { blocks: 0, blinkers: 0 }),
            s.population_history@ == seq![initial_population],
    {
        let mut history: Vec<usize> = Vec::new();
        history.push(initial_population);
        proof {
            assert(history@ =~= seq![initial_population]);
        }
        PatternStats {
            name: name.to_owned(),
            initial_population,
            max_population: initial_population,
            generation_of_max: 0,
            final_population: initial_population,
            generations_analyzed: 0,
            pattern_type: PatternType::Unknown,
            stable_formations: FormationCounts { blocks: 0, blinkers: 0 },
            population_history: history,
        }
    }
}

/// Drives boards of one configured size and boundary through analyses.
pub struct PatternAnalyzer {
    pub max_generations: usize,
    pub grid_size: (usize, usize),
    pub boundary: BoundaryType,
}

/// One step of the state hash: fold one cell into the accumulator
/// (xor-then-multiply, with a wrapping multiply).
pub open spec fn hash_cell(h: u64, b: bool) -> u64 {
    (((h ^ (if b {
        1u64
    } else {
        0u64
    })) as u128) * 0x100000001b3u128) as u64
}

/// The state hash folded over the first `n` cells in row-major order.
pub open spec fn spec_hash_upto(g: Grid, n: int) -> u64
    decreases n,
{
    if n <= 0 {
        0xcbf29ce484222325u64
    } else {
        hash_cell(spec_hash_upto(g, n - 1), g.alive((n - 1) % (g.width as int), (n - 1) / (g.width as int)))
    }
}

/// A deterministic, non-cryptographic hash of the full board state: a
/// function of every cell's value, used for cycle detection. Distinct
/// boards may collide; a collision would misreport a cycle.
pub open spec fn spec_grid_hash(g: Grid) -> u64 {
    spec_hash_upto(g, g.width * g.height)
}

/// The number of live cells of row `y` among columns `0 .. ux`.
pub open spec fn row_live_upto(g: Grid, y: int, ux: int) -> nat
    decreases ux,
{
    if ux <= 0 {
        0
    } else {
        row_live_upto(g, y, ux - 1) + (if g.alive(ux - 1, y) {
            1nat
        } else {
            0nat
        })
    }
}

/// The sum of the column indices of row `y`'s live cells among `0 .. ux`.
pub open spec fn row_sumx_upto(g: Grid, y: int, ux: int) -> nat
    decreases ux,
{
    if ux <= 0 {
        0
    } else {
        row_sumx_upto(g, y, ux - 1) + (if g.alive(ux - 1, y) {
            (ux - 1) as nat
        } else {
            0nat
        })
    }
}

/// The number of live cells in rows `0 .. uy`.
pub open spec fn live_upto(g: Grid, uy: int) -> nat
    decreases uy,
{
    if uy <= 0 {
        0
    } else {
        live_upto(g, uy - 1) + row_live_upto(g, uy - 1, g.width as int)
    }
}

/// The sum of the column indices of all live cells in rows `0 .. uy`.
pub open spec fn sumx_upto(g: Grid, uy: int) -> nat
    decreases uy,
{
    if uy <= 0 {
        0
    } else {
        sumx_upto(g, uy - 1) + row_sumx_upto(g, uy - 1, g.width as int)
    }
}

/// The sum of the row indices of all live cells in rows `0 .. uy`.
pub open spec fn sumy_upto(g: Grid, uy: int) -> nat
    decreases uy,
{
    if uy <= 0 {
        0
    } else {
        sumy_upto(g, uy - 1) + ((uy - 1) as nat) * row_live_upto(g, uy - 1, g.width as int)
    }
}

/// The centroid of the live cells, by integer division; the board's centre
/// when no cell is live.
pub open spec fn spec_centroid(g: Grid) -> (int, int) {
    let cnt = live_upto(g, g.height as int);
    if cnt == 0 {
        ((g.width as int) / 2, (g.height as int) / 2)
    } else {
        (
            (sumx_upto(g, g.height as int) as int) / (cnt as int),
            (sumy_upto(g, g.height as int) as int) / (cnt as int),
        )
    }
}

/// The centroid history as mathematical coordinate pairs.
pub open spec fn centers_int(cs: Seq<(usize, usize)>) -> Seq<(int, int)> {
    Seq::new(cs.len(), |i: int| (cs[i].0 as int, cs[i].1 as int))
}

/// The population was constant through the last ten recorded generations.
pub open spec fn pops_stable_last10(pops: Seq<usize>) -> bool {
    forall|i: int| pops.len() - 10 <= i < pops.len() - 1 ==> #[trigger] pops[i] == pops[i + 1]
}

/// How many centroid samples `0, p, 2p, …` a history of `len` entries has.
pub open spec fn num_samples(len: int, p: int) -> int
    recommends
        1 <= p,
{
    1 + (len - 1) / p
}

/// The centroid displacement between consecutive samples `i` and `i + 1` at
/// sampling period `p`.
pub open spec fn displacement_of(cs: Seq<(int, int)>, p: int, i: int) -> (int, int) {
    (cs[(i + 1) * p].0 - cs[i * p].0, cs[(i + 1) * p].1 - cs[i * p].1)
}

/// Sampling the centroid every `p` generations shows one constant
/// displacement (at least two samples exist).
pub open spec fn period_consistent(cs: Seq<(int, int)>, p: int) -> bool {
    &&& num_samples(cs.len() as int, p) >= 2
    &&& forall|i: int|
        0 <= i < num_samples(cs.len() as int, p) - 1 ==> #[trigger] displacement_of(cs, p, i)
            == displacement_of(cs, p, 0)
}

/// The sample indices used for pair `i` at period `p` stay inside the
/// history.
proof fn lemma_sample_index(len: int, p: int, i: int)
    requires
        1 <= p,
        1 <= len,
        0 <= i < num_samples(len, p) - 1,
    ensures
        0 <= i * p,
        (i + 1) * p <= len - 1,
{
    lemma_fundamental_div_mod(len - 1, p);
    lemma_mod_bound(len - 1, p);
    assert((i + 1) * p <= ((len - 1) / p) * p) by (nonlinear_arith)
        requires
            i + 1 <= (len - 1) / p,
            0 < p,
    ;
    assert(((len - 1) / p) * p <= len - 1) by (nonlinear_arith)
        requires
            len - 1 == p * ((len - 1) / p) + (len - 1) % p,
            0 <= (len - 1) % p,
    ;
    assert(0 <= i * p) by (nonlinear_arith)
        requires
            0 <= i,
            0 < p,
    ;
}

/// The displacement between samples `i` and `i + 1` at period `p`.
fn sample_disp(centers: &Vec<(usize, usize)>, p: usize, i: usize) -> (d: (isize, isize))
    requires
        1 <= p,
        1 <= centers@.len() <= usize::MAX,
        forall|k: int|
            0 <= k < centers@.len() ==> (#[trigger] centers@[k]).0 <= isize::MAX
                && centers@[k].1 <= isize::MAX,
        0 <= i < num_samples(centers@.len() as int, p as int) - 1,
    ensures
        (d.0 as int, d.1 as int) == displacement_of(centers_int(centers@), p as int, i as int),
{
    proof {
        lemma_sample_index(centers@.len() as int, p as int, i as int);
        assert(i * p <= (i + 1) * p && i + 1 <= (i + 1) * p) by (nonlinear_arith)
            requires
                0 <= i,
                1 <= p,
        ;
        assert(centers@[(i * p) as int].0 <= isize::MAX && centers@[(i * p) as int].1
            <= isize::MAX);
        assert(centers@[((i + 1) * p) as int].0 <= isize::MAX && centers@[((i + 1) * p) as int].1
            <= isize::MAX);
    }
    let a = centers[i * p];
    let b = centers[(i + 1) * p];
    let dx = (b.0 as i128) - (a.0 as i128);
    let dy = (b.1 as i128) - (a.1 as i128);
    (dx as isize, dy as isize)
}

/// Looks for translating motion: with the population constant over the last
/// ten generations, the smallest period from 2 to 10 whose centroid samples
/// all share one displacement is reported with that displacement.
pub fn detect_spaceship(
    center_history: &Vec<(usize, usize)>,
    population_history: &Vec<usize>,
) -> (r: Option<(usize, (isize, isize))>)
    requires
        center_history@.len() == population_history@.len(),
        forall|k: int|
            0 <= k < center_history@.len() ==> (#[trigger] center_history@[k]).0 <= isize::MAX
                && center_history@[k].1 <= isize::MAX,
    ensures
        match r {
            Some(pd) => {
                &&& 2 <= pd.0 <= 10
                &&& center_history@.len() >= 10
                &&& pops_stable_last10(population_history@)
                &&& period_consistent(centers_int(center_history@), pd.0 as int)
                &&& (pd.1.0 as int, pd.1.1 as int) == displacement_of(
                    centers_int(center_history@),
                    pd.0 as int,
                    0,
                )
                &&& forall|q: int|
                    2 <= q < pd.0 ==> !period_consistent(centers_int(center_history@), q)
            },
            None => {
                ||| center_history@.len() < 10
                ||| !pops_stable_last10(population_history@)
                ||| forall|q: int|
                    2 <= q <= 10 ==> !period_consistent(centers_int(center_history@), q)
            },
        },
{
    let len = center_history.len();
    if len < 10 {
        return None;
    }
    let mut i: usize = len - 10;
    while i < len - 1
        invariant
            10 <= len == population_history@.len(),
            len - 10 <= i <= len - 1,
            forall|j: int| len - 10 <= j < i ==> #[trigger] population_history@[j]
                == population_history@[j + 1],
        decreases len - 1 - i,
    {
        if population_history[i] != population_history[i + 1] {
            return None;
        }
        i += 1;
    }
    let ghost ci = centers_int(center_history@);
    let mut p: usize = 2;
    while p <= 10
        invariant
            2 <= p <= 11,
            10 <= len == center_history@.len() == population_history@.len(),
            pops_stable_last10(population_history@),
            ci == centers_int(center_history@),
            forall|k: int|
                0 <= k < center_history@.len() ==> (#[trigger] center_history@[k]).0 <= isize::MAX
                    && center_history@[k].1 <= isize::MAX,
            forall|q: int| 2 <= q < p ==> !period_consistent(ci, q),
        decreases 11 - p,
    {
        if len > p {
            proof {
                assert((len - 1) / (p as int) >= 1) by (nonlinear_arith)
                    requires
                        len - 1 >= p,
                        0 < p,
                ;
                assert((len - 1) / (p as int) <= len - 1) by (nonlinear_arith)
                    requires
                        1 <= len - 1,
                        0 < p,
                ;
            }
            let ns = 1 + (len - 1) / p;
            let d0 = sample_disp(center_history, p, 0);
            let mut all_same = true;
            let mut s: usize = 1;
            while s < ns - 1 && all_same
                invariant
                    2 <= p <= 10,
                    10 <= len == center_history@.len(),
                    ci == centers_int(center_history@),
                    forall|k: int|
                        0 <= k < center_history@.len() ==> (#[trigger] center_history@[k]).0
                            <= isize::MAX && center_history@[k].1 <= isize::MAX,
                    ns == num_samples(len as int, p as int),
                    2 <= ns,
                    1 <= s <= ns - 1,
                    (d0.0 as int, d0.1 as int) == displacement_of(ci, p as int, 0),
                    all_same ==> forall|j: int|
                        0 <= j < s ==> #[trigger] displacement_of(ci, p as int, j)
                            == displacement_of(ci, p as int, 0),
                    !all_same ==> !period_consistent(ci, p as int),
                decreases ns - 1 - s,
            {
                let di = sample_disp(center_history, p, s);
                if di.0 != d0.0 || di.1 != d0.1 {
                    all_same = false;
                    proof {
                        assert(displacement_of(ci, p as int, s as int) != displacement_of(
                            ci,
                            p as int,
                            0,
                        ));
                    }
                }
                s += 1;
            }
            if all_same {
                proof {
                    assert(period_consistent(ci, p as int));
                }
                return Some((p, d0));
            }
        } else {
            proof {
                lemma_fundamental_div_mod_converse(len - 1, p as int, 0, len - 1);
                assert(num_samples(len as int, p as int) == 1 + (len - 1) / (p as int));
                assert(!period_consistent(ci, p as int));
            }
        }
        p += 1;
    }
    None
}

/// The scanner's block test: a 2-by-2 all-live square anchored at `(x, y)`.
pub open spec fn is_block_at(g: Grid, x: int, y: int) -> bool {
    &&& x < g.width - 1
    &&& y < g.height - 1
    &&& g.alive(x, y)
    &&& g.alive(x + 1, y)
    &&& g.alive(x, y + 1)
    &&& g.alive(x + 1, y + 1)
}

/// The scanner's blinker test: three live cells in a row anchored at
/// `(x, y)`, with the three cells above and below all dead.
pub open spec fn is_blinker_at(g: Grid, x: int, y: int) -> bool {
    &&& x < g.width - 2
    &&& g.alive(x, y)
    &&& g.alive(x + 1, y)
    &&& g.alive(x + 2, y)
    &&& !g.alive(x, y - 1)
    &&& !g.alive(x + 1, y - 1)
    &&& !g.alive(x + 2, y - 1)
    &&& !g.alive(x, y + 1)
    &&& !g.alive(x + 1, y + 1)
    &&& !g.alive(x + 2, y + 1)
}

/// Blocks found in row `y` at anchors `1 .. ux`.
pub open spec fn row_blocks_upto(g: Grid, y: int, ux: int) -> nat
    decreases ux,
{
    if ux <= 1 {
        0
    } else {
        row_blocks_upto(g, y, ux - 1) + (if is_block_at(g, ux - 1, y) {
            1nat
        } else {
            0nat
        })
    }
}

/// Blinkers found in row `y` at anchors `1 .. ux`; an anchor that already
/// matched a block is not retested.
pub open spec fn row_blinkers_upto(g: Grid, y: int, ux: int) -> nat
    decreases ux,
{
    if ux <= 1 {
        0
    } else {
        row_blinkers_upto(g, y, ux - 1) + (if !is_block_at(g, ux - 1, y) && is_blinker_at(
            g,
            ux - 1,
            y,
        ) {
            1nat
        } else {
            0nat
        })
    }
}

/// Blocks found in rows `1 .. uy` over the full scanned anchor range.
pub open spec fn blocks_upto(g: Grid, uy: int) -> nat
    decreases uy,
{
    if uy <= 1 {
        0
    } else {
        blocks_upto(g, uy - 1) + row_blocks_upto(g, uy - 1, g.width - 2)
    }
}

/// Blinkers found in rows `1 .. uy` over the full scanned anchor range.
pub open spec fn blinkers_upto(g: Grid, uy: int) -> nat
    decreases uy,
{
    if uy <= 1 {
        0
    } else {
        blinkers_upto(g, uy - 1) + row_blinkers_upto(g, uy - 1, g.width - 2)
    }
}

/// How many blocks the scanner finds on the whole board.
pub open spec fn spec_block_count(g: Grid) -> nat {
    blocks_upto(g, g.height - 2)
}

/// How many blinkers the scanner finds on the whole board.
pub open spec fn spec_blinker_count(g: Grid) -> nat {
    blinkers_upto(g, g.height - 2)
}

/// On a board under three columns wide the scanner finds nothing.
proof fn lemma_counts_zero_narrow(g: Grid, uy: int)
    requires
        g.width < 3,
    ensures
        blocks_upto(g, uy) == 0,
        blinkers_upto(g, uy) == 0,
    decreases uy,
{
    if uy > 1 {
        lemma_counts_zero_narrow(g, uy - 1);
    }
}

/// The board a fresh analysis starts from: the analyzer's configuration,
/// clear padding, and exactly the placed pattern live.
pub open spec fn seeded_ok(a: PatternAnalyzer, p: Pattern, x: int, y: int, g0: Grid) -> bool {
    &&& a.board_ok(g0)
    &&& g0.padded()
    &&& forall|i: int, j: int| g0.in_range(i, j) ==> g0.cell(i, j) == p.covers(x, y, i, j)
}

/// A run of the simulation: the seeded board followed, step by step, by
/// each successor generation.
pub open spec fn traj_ok(a: PatternAnalyzer, p: Pattern, x: int, y: int, traj: Seq<Grid>) -> bool {
    &&& traj.len() >= 1
    &&& seeded_ok(a, p, x, y, traj[0])
    &&& forall|i: int| 0 <= i < traj.len() - 1 ==> is_next(traj[i], #[trigger] traj[i + 1])
    &&& forall|i: int| 0 <= i < traj.len() ==> a.board_ok(#[trigger] traj[i]) && traj[i].padded()
}

/// The population history records each trajectory state's population.
pub open spec fn history_matches(traj: Seq<Grid>, pops: Seq<usize>) -> bool {
    &&& pops.len() == traj.len()
    &&& forall|i: int| 0 <= i < traj.len() ==> pops[i] == (#[trigger] traj[i]).grid_pop()
}

/// The centroid of each trajectory state.
pub open spec fn traj_centers(traj: Seq<Grid>) -> Seq<(int, int)> {
    Seq::new(traj.len(), |i: int| spec_centroid(traj[i]))
}

/// The recorded formation counts are the scanner's counts on a board.
pub open spec fn formations_ok(g: Grid, fc: FormationCounts) -> bool {
    &&& fc.blocks == spec_block_count(g)
    &&& fc.blinkers == spec_blinker_count(g)
}

/// The extinction rule fires at generation `g`: the population is zero.
pub open spec fn fires_extinct(pops: Seq<usize>, g: int) -> bool {
    pops[g] == 0
}

/// The cycle rule fires at generation `g`: the state hash equals an
/// earlier generation's state hash.
pub open spec fn fires_stable(traj: Seq<Grid>, g: int) -> bool {
    exists|i: int| 0 <= i < g && spec_grid_hash(#[trigger] traj[i]) == spec_grid_hash(traj[g])
}

/// The spaceship rule fires at generation `g`: more than ten centroid
/// generations exist, the population held constant through the last ten,
/// and some period from 2 to 10 shows one constant centroid displacement.
pub open spec fn fires_spaceship(traj: Seq<Grid>, pops: Seq<usize>, g: int) -> bool {
    &&& g >= 10
    &&& pops_stable_last10(pops.take(g + 1))
    &&& exists|p: int|
        2 <= p <= 10 && #[trigger] period_consistent(traj_centers(traj).take(g + 1), p)
}

/// The explosion rule fires at generation `g`: past generation 50 the
/// population more than doubled and the average growth exceeds a tenth of
/// a cell per generation.
pub open spec fn fires_explosion(pops: Seq<usize>, g: int) -> bool {
    &&& g > 50
    &&& pops[g] > 2 * pops[0]
    &&& 10 * (pops[g] - pops[0]) > g
}

/// Some stopping rule fires at generation `g`.
pub open spec fn fires_any(traj: Seq<Grid>, pops: Seq<usize>, g: int) -> bool {
    ||| fires_extinct(pops, g)
    ||| fires_stable(traj, g)
    ||| fires_spaceship(traj, pops, g)
    ||| fires_explosion(pops, g)
}

/// No stopping rule fires at any generation before `g`.
pub open spec fn no_rule_fired_before(traj: Seq<Grid>, pops: Seq<usize>, g: int) -> bool {
    forall|i: int| 1 <= i < g ==> !fires_any(traj, pops, i)
}

/// Whether a rule fires at a generation depends only on the trajectory and
/// history up to that generation, so appending one more state changes
/// nothing earlier.
proof fn lemma_fires_prefix_stable(
    prev_traj: Seq<Grid>,
    traj: Seq<Grid>,
    prev_pops: Seq<usize>,
    pops: Seq<usize>,
    i: int,
)
    requires
        prev_traj.len() == prev_pops.len(),
        traj.len() == prev_traj.len() + 1,
        pops.len() == prev_pops.len() + 1,
        forall|j: int| 0 <= j < prev_traj.len() ==> traj[j] == #[trigger] prev_traj[j],
        forall|j: int| 0 <= j < prev_pops.len() ==> pops[j] == #[trigger] prev_pops[j],
        1 <= i < prev_pops.len(),
    ensures
        fires_any(traj, pops, i) == fires_any(prev_traj, prev_pops, i),
{
    assert(pops.take(i + 1) =~= prev_pops.take(i + 1));
    assert(traj_centers(traj).take(i + 1) =~= traj_centers(prev_traj).take(i + 1));
    if fires_stable(traj, i) {
        let j = choose|j: int|
            0 <= j < i && spec_grid_hash(#[trigger] traj[j]) == spec_grid_hash(traj[i]);
        assert(spec_grid_hash(prev_traj[j]) == spec_grid_hash(prev_traj[i]));
        assert(fires_stable(prev_traj, i));
    }
    if fires_stable(prev_traj, i) {
        let j = choose|j: int|
            0 <= j < i && spec_grid_hash(#[trigger] prev_traj[j]) == spec_grid_hash(prev_traj[i]);
        assert(spec_grid_hash(traj[j]) == spec_grid_hash(traj[i]));
        assert(fires_stable(traj, i));
    }
    if fires_spaceship(traj, pops, i) {
        let p = choose|p: int|
            2 <= p <= 10 && #[trigger] period_consistent(traj_centers(traj).take(i + 1), p);
        assert(period_consistent(traj_centers(prev_traj).take(i + 1), p));
        assert(fires_spaceship(prev_traj, prev_pops, i));
    }
    if fires_spaceship(prev_traj, prev_pops, i) {
        let p = choose|p: int|
            2 <= p <= 10 && #[trigger] period_consistent(traj_centers(prev_traj).take(i + 1), p);
        assert(period_consistent(traj_centers(traj).take(i + 1), p));
        assert(fires_spaceship(traj, pops, i));
    }
}

/// What each classification asserts about the observed trajectory.
///
/// Stability is detected through the state hash, so a hash collision
/// between distinct boards would be reported as a cycle; the hash equities
/// below state exactly that evidence. Beyond its own evidence, each
/// classification also rules out every stopping rule that takes
/// precedence, and every stopping rule at every earlier generation, so the
/// classifier is obliged to stop at the first rule that fires; `Unknown`
/// means no rule fired within the budget.
pub open spec fn classification_ok(
    a: PatternAnalyzer,
    traj: Seq<Grid>,
    pops: Seq<usize>,
    t: PatternType,
) -> bool {
    let gcount = traj.len() - 1;
    match t {
        PatternType::ExtinctPattern { generations_to_extinction: g } => {
            &&& 1 <= g
            &&& g == gcount
            &&& pops[g as int] == 0
            &&& forall|i: int| 1 <= i < g ==> pops[i] != 0
            &&& no_rule_fired_before(traj, pops, gcount)
        },
        PatternType::StablePattern {
            generations_to_stabilize: s,
            oscillator_period: op,
            final_population: fp,
        } => {
            match op {
                None => {
                    &&& gcount >= 1
                    &&& s == gcount - 1
                    &&& spec_grid_hash(traj[gcount - 1]) == spec_grid_hash(traj[gcount])
                    &&& forall|i: int|
                        0 <= i < gcount - 1 ==> spec_grid_hash(#[trigger] traj[i])
                            != spec_grid_hash(traj[gcount])
                    &&& fp == pops[gcount as int]
                    &&& pops[gcount as int] != 0
                    &&& no_rule_fired_before(traj, pops, gcount)
                },
                Some(per) => {
                    &&& 2 <= per
                    &&& s + per == gcount
                    &&& spec_grid_hash(traj[s as int]) == spec_grid_hash(traj[gcount])
                    &&& forall|i: int|
                        0 <= i < s ==> spec_grid_hash(#[trigger] traj[i]) != spec_grid_hash(
                            traj[gcount],
                        )
                    &&& fp == pops[gcount as int]
                    &&& pops[gcount as int] != 0
                    &&& no_rule_fired_before(traj, pops, gcount)
                },
            }
        },
        PatternType::ExplodingPattern { population_gain: gain, generations: gens } => {
            &&& gens == gcount
            &&& gens > 50
            &&& pops[gens as int] > 2 * pops[0]
            &&& gain == pops[gens as int] - pops[0]
            &&& 10 * gain > gens
            &&& !fires_stable(traj, gcount)
            &&& !fires_spaceship(traj, pops, gcount)
            &&& no_rule_fired_before(traj, pops, gcount)
        },
        PatternType::SpaceshipPattern { period: per, displacement: d } => {
            &&& 2 <= per <= 10
            &&& traj.len() > 10
            &&& pops_stable_last10(pops)
            &&& period_consistent(traj_centers(traj), per as int)
            &&& (d.0 as int, d.1 as int) == displacement_of(traj_centers(traj), per as int, 0)
            &&& forall|q: int| 2 <= q < per ==> !period_consistent(traj_centers(traj), q)
            &&& pops[gcount as int] != 0
            &&& !fires_stable(traj, gcount)
            &&& no_rule_fired_before(traj, pops, gcount)
        },
        PatternType::PatternEmitter { .. } => false,
        PatternType::Unknown => {
            &&& gcount == a.max_generations
            &&& no_rule_fired_before(traj, pops, gcount + 1)
        },
    }
}

/// The maximum-population bookkeeping: the recorded maximum is the true
/// maximum of the history and its generation is the first to attain it.
pub open spec fn max_ok(pops: Seq<usize>, maxp: usize, gmax: usize) -> bool {
    &&& gmax < pops.len()
    &&& pops[gmax as int] == maxp
    &&& forall|i: int| 0 <= i < pops.len() ==> #[trigger] pops[i] <= maxp
    &&& forall|i: int| 0 <= i < gmax ==> #[trigger] pops[i] < maxp
}

/// Everything an analysis promises: faithful bookkeeping over the
/// population history, and a trajectory of the simulation that witnesses
/// the classification.
pub open spec fn analysis_ok(
    a: PatternAnalyzer,
    p: Pattern,
    x: int,
    y: int,
    stats: PatternStats,
) -> bool {
    &&& stats.name@ == p.name@
    &&& 1 <= stats.population_history@.len() <= a.max_generations + 1
    &&& stats.generations_analyzed == stats.population_history@.len() - 1
    &&& stats.initial_population == stats.population_history@[0]
    &&& stats.final_population == stats.population_history@.last()
    &&& max_ok(stats.population_history@, stats.max_population, stats.generation_of_max)
    &&& (!(stats.pattern_type matches PatternType::StablePattern { .. })
        ==> stats.stable_formations == (FormationCounts { blocks: 0, blinkers: 0 }))
    &&& exists|traj: Seq<Grid>|
        {
            &&& #[trigger] traj_ok(a, p, x, y, traj)
            &&& history_matches(traj, stats.population_history@)
            &&& classification_ok(a, traj, stats.population_history@, stats.pattern_type)
            &&& ((stats.pattern_type matches PatternType::StablePattern { .. })
                ==> formations_ok(traj.last(), stats.stable_formations))
        }
}

/// The first position holding `h`, if any.
fn find_first_hash(hashes: &Vec<u64>, h: u64) -> (r: Option<usize>)
    ensures
        match r {
            Some(i) => i < hashes@.len() && hashes@[i as int] == h && forall|j: int|
                0 <= j < i ==> hashes@[j] != h,
            None => forall|j: int| 0 <= j < hashes@.len() ==> hashes@[j] != h,
        },
{
    let n = hashes.len();
    let mut i: usize = 0;
    while i < n
        invariant
            n == hashes@.len(),
            i <= n,
            forall|j: int| 0 <= j < i ==> hashes@[j] != h,
        decreases n - i,
    {
        if hashes[i] == h {
            return Some(i);
        }
        i += 1;
    }
    None
}

impl PatternAnalyzer {
    /// Well-formedness: positive board dimensions that a board of this
    /// machine can hold, with coordinates that fit a signed displacement.
    pub open spec fn wf(&self) -> bool {
        &&& 1 <= self.grid_size.0
        &&& 1 <= self.grid_size.1
        &&& self.grid_size.0 + 63 <= usize::MAX
        &&& ((self.grid_size.0 + 63) / 64) * self.grid_size.1 * 64 <= usize::MAX
        &&& self.grid_size.0 <= isize::MAX
        &&& self.grid_size.1 <= isize::MAX
        &&& self.max_generations < usize::MAX
    }

    /// A board freshly made for this analyzer's configuration.
    pub open spec fn board_ok(&self, g: Grid) -> bool {
        &&& g.wf()
        &&& g.width == self.grid_size.0
        &&& g.height == self.grid_size.1
        &&& g.boundary == self.boundary
    }

    pub fn new(max_generations: usize, grid_size: (usize, usize), boundary: BoundaryType) -> (a:
        Self)
        requires
            1 <= grid_size.0,
            1 <= grid_size.1,
            grid_size.0 + 63 <= usize::MAX,
            ((grid_size.0 + 63) / 64) * grid_size.1 * 64 <= usize::MAX,
            grid_size.0 <= isize::MAX,
            grid_size.1 <= isize::MAX,
            max_generations < usize::MAX,
        ensures
            a.max_generations == max_generations,
            a.grid_size == grid_size,
            a.boundary == boundary,
            a.wf(),
    {
        PatternAnalyzer { max_generations, grid_size, boundary }
    }

    /// Hashes the full board state for cycle detection.
    pub fn hash_grid(&self, grid: &Grid) -> (h: u64)
        requires
            self.wf(),
            self.board_ok(*grid),
        ensures
            h == spec_grid_hash(*grid),
    {
        let width = grid.width;
        let height = grid.height;
        let mut h: u64 = 0xcbf29ce484222325;
        let mut y: usize = 0;
        while y < height
            invariant
                self.wf(),
                self.board_ok(*grid),
                width == grid.width,
                height == grid.height,
                y <= height,
                h == spec_hash_upto(*grid, y * width),
            decreases height - y,
        {
            let mut x: usize = 0;
            while x < width
                invariant
                    self.wf(),
                    self.board_ok(*grid),
                    width == grid.width,
                    height == grid.height,
                    y < height,
                    x <= width,
                    h == spec_hash_upto(*grid, y * width + x),
                decreases width - x,
            {
                proof {
                    assert(y * width + x < height * width) by (nonlinear_arith)
                        requires
                            0 <= x < width,
                            0 <= y < height,
                    ;
                }
                let b = grid.get(x, y);
                let xored = h ^ (if b {
                    1u64
                } else {
                    0u64
                });
                let prod: u128 = (xored as u128) * 0x100000001b3u128;
                h = #[verifier::truncate] (prod as u64);
                proof {
                    let n = y * width + x + 1;
                    lemma_fundamental_div_mod_converse(n - 1, width as int, y as int, x as int);
                    assert((n - 1) % (width as int) == x && (n - 1) / (width as int) == y);
                    assert(h == spec_hash_upto(*grid, n));
                }
                x += 1;
            }
            proof {
                assert((y + 1) * width == y * width + width) by (nonlinear_arith);
            }
            y += 1;
        }
        proof {
            assert(height * width == width * height) by (nonlinear_arith);
        }
        h
    }

    /// The centroid of the board's live cells: the integer-averaged
    /// coordinates, or the board's centre when the board is empty.
    pub fn find_pattern_center(&self, grid: &Grid) -> (c: (usize, usize))
        requires
            self.wf(),
            self.board_ok(*grid),
        ensures
            c.0 == spec_centroid(*grid).0,
            c.1 == spec_centroid(*grid).1,
            c.0 < grid.width,
            c.1 < grid.height,
    {
        let width = grid.width;
        let height = grid.height;
        let mut sum_x: u128 = 0;
        let mut sum_y: u128 = 0;
        let mut count: u128 = 0;
        let mut y: usize = 0;
        while y < height
            invariant
                self.wf(),
                self.board_ok(*grid),
                width == grid.width,
                height == grid.height,
                y <= height,
                count == live_upto(*grid, y as int),
                sum_x == sumx_upto(*grid, y as int),
                sum_y == sumy_upto(*grid, y as int),
                sum_x <= (width - 1) * count,
                sum_y <= (height - 1) * count,
                count <= y * width,
            decreases height - y,
        {
            let mut x: usize = 0;
            while x < width
                invariant
                    self.wf(),
                    self.board_ok(*grid),
                    width == grid.width,
                    height == grid.height,
                    y < height,
                    x <= width,
                    count == live_upto(*grid, y as int) + row_live_upto(*grid, y as int, x as int),
                    sum_x == sumx_upto(*grid, y as int) + row_sumx_upto(*grid, y as int, x as int),
                    sum_y == sumy_upto(*grid, y as int) + (y as int) * row_live_upto(
                        *grid,
                        y as int,
                        x as int,
                    ),
                    sum_x <= (width - 1) * count,
                    sum_y <= (height - 1) * count,
                    count <= y * width + x,
                decreases width - x,
            {
                if grid.get(x, y) {
                    proof {
                        assert(count + 1 <= y * width + x + 1);
                        assert(y * width + x < height * width) by (nonlinear_arith)
                            requires
                                0 <= x < width,
                                0 <= y < height,
                        ;
                        assert(height * width <= usize::MAX) by (nonlinear_arith)
                            requires
                                width <= grid.stride * 64,
                                grid.stride * grid.height * 64 <= usize::MAX,
                                width == grid.width,
                                height == grid.height,
                                grid.cells@.len() == grid.stride * grid.height,
                                grid.cells@.len() * 64 <= usize::MAX,
                                0 < height,
                                0 < width,
                        ;
                        assert(sum_x + x <= (width - 1) * (count + 1)) by (nonlinear_arith)
                            requires
                                sum_x <= (width - 1) * count,
                                0 <= x < width,
                                0 <= count,
                        ;
                        assert(sum_y + y <= (height - 1) * (count + 1)) by (nonlinear_arith)
                            requires
                                sum_y <= (height - 1) * count,
                                0 <= y < height,
                                0 <= count,
                        ;
                        assert(count <= usize::MAX);
                        assert(usize::MAX <= 0xffff_ffff_ffff_ffff);
                        assert(sum_x + x < u128::MAX && sum_y + y < u128::MAX) by (
                        nonlinear_arith)
                            requires
                                sum_x <= (width - 1) * count,
                                sum_y <= (height - 1) * count,
                                0 <= x < width,
                                0 <= y < height,
                                0 <= count <= 0xffff_ffff_ffff_ffff,
                                0 < width <= 0xffff_ffff_ffff_ffff,
                                0 < height <= 0xffff_ffff_ffff_ffff,
                        ;
                        let rl = row_live_upto(*grid, y as int, x as int);
                        assert((y as int) * (rl + 1) == (y as int) * rl + y) by (nonlinear_arith);
                    }
                    sum_x = sum_x + (x as u128);
                    sum_y = sum_y + (y as u128);
                    count = count + 1;
                }
                x += 1;
            }
            proof {
                assert((y + 1) * width == y * width + width) by (nonlinear_arith);
            }
            y += 1;
        }
        if count == 0 {
            (width / 2, height / 2)
        } else {
            proof {
                vstd::arithmetic::div_mod::lemma_div_is_ordered(
                    sum_x as int,
                    ((width - 1) * count) as int,
                    count as int,
                );
                vstd::arithmetic::div_mod::lemma_div_by_multiple(
                    (width - 1) as int,
                    count as int,
                );
                vstd::arithmetic::div_mod::lemma_div_is_ordered(
                    sum_y as int,
                    ((height - 1) * count) as int,
                    count as int,
                );
                vstd::arithmetic::div_mod::lemma_div_by_multiple(
                    (height - 1) as int,
                    count as int,
                );
            }
            let cx = sum_x / count;
            let cy = sum_y / count;
            (cx as usize, cy as usize)
        }
    }

    /// Scans the board for recognizable stable formations: blocks, and
    /// blinkers in their horizontal phase; at each anchor a block match
    /// takes precedence over a blinker match.
    pub fn identify_stable_formations(&self, grid: &Grid) -> (fc: FormationCounts)
        requires
            self.wf(),
            self.board_ok(*grid),
        ensures
            fc.blocks == spec_block_count(*grid),
            fc.blinkers == spec_blinker_count(*grid),
    {
        let width = grid.width;
        let height = grid.height;
        if width < 3 || height < 3 {
            proof {
                if width < 3 {
                    lemma_counts_zero_narrow(*grid, height - 2);
                }
            }
            return FormationCounts { blocks: 0, blinkers: 0 };
        }
        proof {
            assert(height * width <= usize::MAX) by (nonlinear_arith)
                requires
                    width <= grid.stride * 64,
                    grid.cells@.len() == grid.stride * grid.height,
                    grid.cells@.len() * 64 <= usize::MAX,
                    width == grid.width,
                    height == grid.height,
                    0 < height,
                    0 < width,
            ;
        }
        let mut blocks: usize = 0;
        let mut blinkers: usize = 0;
        let mut y: usize = 1;
        while y < height - 2
            invariant
                self.wf(),
                self.board_ok(*grid),
                width == grid.width,
                height == grid.height,
                3 <= width,
                3 <= height,
                height * width <= usize::MAX,
                1 <= y <= height - 2,
                blocks == blocks_upto(*grid, y as int),
                blinkers == blinkers_upto(*grid, y as int),
                blocks <= y * width,
                blinkers <= y * width,
            decreases height - 2 - y,
        {
            let mut x: usize = 1;
            while x < width - 2
                invariant
                    self.wf(),
                    self.board_ok(*grid),
                    width == grid.width,
                    height == grid.height,
                    3 <= width,
                    3 <= height,
                    height * width <= usize::MAX,
                    1 <= y <= height - 3,
                    1 <= x <= width - 2,
                    blocks == blocks_upto(*grid, y as int) + row_blocks_upto(
                        *grid,
                        y as int,
                        x as int,
                    ),
                    blinkers == blinkers_upto(*grid, y as int) + row_blinkers_upto(
                        *grid,
                        y as int,
                        x as int,
                    ),
                    blocks <= y * width + x,
                    blinkers <= y * width + x,
                decreases width - 2 - x,
            {
                proof {
                    assert(y * width + x + 1 <= height * width) by (nonlinear_arith)
                        requires
                            1 <= y <= height - 3,
                            1 <= x <= width - 2,
                            3 <= width,
                            3 <= height,
                    ;
                }
                let is_block = grid.get(x, y) && grid.get(x + 1, y) && grid.get(x, y + 1)
                    && grid.get(x + 1, y + 1);
                if is_block {
                    blocks = blocks + 1;
                } else {
                    let is_blink = grid.get(x, y) && grid.get(x + 1, y) && grid.get(x + 2, y)
                        && !grid.get(x, y - 1) && !grid.get(x + 1, y - 1) && !grid.get(
                        x + 2,
                        y - 1,
                    ) && !grid.get(x, y + 1) && !grid.get(x + 1, y + 1) && !grid.get(x + 2, y + 1);
                    if is_blink {
                        blinkers = blinkers + 1;
                    }
                }
                x += 1;
            }
            proof {
                assert((y + 1) * width == y * width + width) by (nonlinear_arith);
            }
            y += 1;
        }
        FormationCounts { blocks, blinkers }
    }

    /// Runs the pattern, placed at `(x, y)` on a fresh board, through up to
    /// `max_generations` generation steps, and classifies its behaviour:
    /// extinction, stability (by state-hash cycle detection), translating
    /// motion, explosive growth, or none of these within the budget.
    pub fn analyze_pattern(&self, pattern: &Pattern, x: usize, y: usize) -> (stats: PatternStats)
        requires
            self.wf(),
            pattern.wf(),
            x + pattern.width <= usize::MAX,
            y + pattern.height <= usize::MAX,
        ensures
            analysis_ok(*self, *pattern, x as int, y as int, stats),
    {
        let mut grid = Grid::new(self.grid_size.0, self.grid_size.1, self.boundary);
        let ghost fresh = grid;
        pattern.place(&mut grid, x, y);
        proof {
            assert forall|i: int, j: int| grid.in_range(i, j) implies grid.cell(i, j)
                == pattern.covers(x as int, y as int, i, j) by {
                assert(!fresh.cell(i, j));
            }
        }
        let initial_population = grid.count_alive();
        let mut pops: Vec<usize> = Vec::new();
        pops.push(initial_population);
        let mut maxp = initial_population;
        let mut gmax: usize = 0;
        let mut centers: Vec<(usize, usize)> = Vec::new();
        centers.push(self.find_pattern_center(&grid));
        let mut hashes: Vec<u64> = Vec::new();
        hashes.push(self.hash_grid(&grid));
        let mut classification = PatternType::Unknown;
        let mut decided = false;
        let ghost mut traj: Seq<Grid> = seq![grid];
        proof {
            assert(traj_ok(*self, *pattern, x as int, y as int, traj));
            assert(centers_int(centers@) =~= traj_centers(traj));
        }
        let mut gen: usize = 1;
        while gen <= self.max_generations && !decided
            invariant
                self.wf(),
                pattern.wf(),
                self.board_ok(grid),
                grid.padded(),
                1 <= gen <= self.max_generations + 1,
                traj.len() == gen,
                pops@.len() == gen,
                centers@.len() == gen,
                traj_ok(*self, *pattern, x as int, y as int, traj),
                history_matches(traj, pops@),
                traj.last() == grid,
                centers_int(centers@) == traj_centers(traj),
                forall|k: int|
                    0 <= k < centers@.len() ==> (#[trigger] centers@[k]).0 < grid.width
                        && centers@[k].1 < grid.height,
                max_ok(pops@, maxp, gmax),
                pops@[0] == initial_population,
                !decided ==> hashes@.len() == gen,
                !decided ==> (forall|i: int|
                    0 <= i < gen ==> #[trigger] hashes@[i] == spec_grid_hash(traj[i])),
                !decided ==> (forall|i: int| 1 <= i < gen ==> pops@[i] != 0),
                !decided ==> no_rule_fired_before(traj, pops@, gen as int),
                !decided ==> classification == PatternType::Unknown,
                decided ==> classification_ok(*self, traj, pops@, classification),
            decreases self.max_generations + 1 - gen,
        {
            let ghost prev_traj = traj;
            grid.update();
            proof {
                traj = traj.push(grid);
                assert forall|i: int| 0 <= i < traj.len() - 1 implies is_next(
                    traj[i],
                    #[trigger] traj[i + 1],
                ) by {
                    if i < traj.len() - 2 {
                        assert(traj[i] == prev_traj[i] && traj[i + 1] == prev_traj[i + 1]);
                    } else {
                        assert(traj[i] == prev_traj.last() && traj[i + 1] == grid);
                    }
                }
            }
            let population = grid.count_alive();
            let ghost prev_pops = pops@;
            pops.push(population);
            if population > maxp {
                maxp = population;
                gmax = gen;
            }
            let c = self.find_pattern_center(&grid);
            let ghost prev_centers = centers@;
            centers.push(c);
            proof {
                assert forall|i: int| 0 <= i < centers@.len() implies centers_int(centers@)[i]
                    == traj_centers(traj)[i] by {
                    if i < centers@.len() - 1 {
                        assert(centers@[i] == prev_centers[i]);
                        assert(traj[i] == prev_traj[i]);
                        assert(centers_int(prev_centers)[i] == traj_centers(prev_traj)[i]);
                    } else {
                        assert(centers@[i] == c);
                        assert(traj[i] == grid);
                        assert(c.0 as int == spec_centroid(grid).0);
                        assert(c.1 as int == spec_centroid(grid).1);
                    }
                }
                assert(centers_int(centers@) =~= traj_centers(traj));
            }
            proof {
                assert forall|j: int|
                    0 <= j < prev_traj.len() implies traj[j] == #[trigger] prev_traj[j] by {}
                assert forall|j: int|
                    0 <= j < prev_pops.len() implies pops@[j] == #[trigger] prev_pops[j] by {}
                assert forall|i: int| 1 <= i < gen implies !fires_any(traj, pops@, i) by {
                    lemma_fires_prefix_stable(prev_traj, traj, prev_pops, pops@, i);
                }
                assert(no_rule_fired_before(traj, pops@, gen as int));
            }
            if population == 0 {
                classification = PatternType::ExtinctPattern { generations_to_extinction: gen };
                decided = true;
                proof {
                    assert(classification_ok(*self, traj, pops@, classification));
                }
            } else {
                let h = self.hash_grid(&grid);
                match find_first_hash(&hashes, h) {
                    Some(prev) => {
                        proof {
                            let gidx = gen as int;
                            assert(traj[gidx] == grid);
                            assert forall|i: int| 0 <= i < prev implies spec_grid_hash(
                                #[trigger] traj[i],
                            ) != spec_grid_hash(traj[gidx]) by {
                                assert(hashes@[i] != h);
                                assert(hashes@[i] == spec_grid_hash(prev_traj[i]));
                                assert(traj[i] == prev_traj[i]);
                            }
                            assert(hashes@[prev as int] == spec_grid_hash(prev_traj[prev as int]));
                            assert(traj[prev as int] == prev_traj[prev as int]);
                            assert(spec_grid_hash(traj[prev as int]) == spec_grid_hash(
                                traj[gidx],
                            ));
                        }
                        let period = gen - prev;
                        if period == 1 {
                            classification = PatternType::StablePattern {
                                generations_to_stabilize: gen - 1,
                                oscillator_period: None,
                                final_population: population,
                            };
                        } else {
                            classification = PatternType::StablePattern {
                                generations_to_stabilize: prev,
                                oscillator_period: Some(period),
                                final_population: population,
                            };
                        }
                        decided = true;
                        proof {
                            assert(classification_ok(*self, traj, pops@, classification));
                        }
                    },
                    None => {
                        proof {
                            let gi = gen as int;
                            assert(traj[gi] == grid);
                            assert forall|i: int| 0 <= i < gi implies spec_grid_hash(
                                #[trigger] traj[i],
                            ) != spec_grid_hash(traj[gi]) by {
                                assert(hashes@[i] != h);
                                assert(hashes@[i] == spec_grid_hash(prev_traj[i]));
                                assert(traj[i] == prev_traj[i]);
                            }
                            assert(!fires_stable(traj, gi));
                        }
                        let mut ship: Option<(usize, (isize, isize))> = None;
                        if centers.len() > 10 {
                            ship = detect_spaceship(&centers, &pops);
                        }
                        match ship {
                            Some(pd) => {
                                classification = PatternType::SpaceshipPattern {
                                    period: pd.0,
                                    displacement: pd.1,
                                };
                                decided = true;
                                proof {
                                    assert(classification_ok(*self, traj, pops@, classification));
                                }
                            },
                            None => {},
                        }
                        proof {
                            let gi = gen as int;
                            if !decided {
                                assert(pops@.take(gi + 1) =~= pops@);
                                assert(traj_centers(traj).take(gi + 1) =~= traj_centers(traj));
                                if fires_spaceship(traj, pops@, gi) {
                                    assert(gi >= 10);
                                    assert(centers@.len() > 10);
                                    assert(pops_stable_last10(pops@));
                                    let p = choose|p: int|
                                        2 <= p <= 10 && #[trigger] period_consistent(
                                            traj_centers(traj).take(gi + 1),
                                            p,
                                        );
                                    assert(period_consistent(centers_int(centers@), p));
                                    assert(false);
                                }
                                assert(!fires_spaceship(traj, pops@, gi));
                            }
                        }
                        if !decided && gen > 50 {
                            if (population as u128) > 2 * (initial_population as u128) {
                                let gain = population - initial_population;
                                if 10 * (gain as u128) > (gen as u128) {
                                    classification = PatternType::ExplodingPattern {
                                        population_gain: gain,
                                        generations: gen,
                                    };
                                    decided = true;
                                    proof {
                                        assert(classification_ok(
                                            *self,
                                            traj,
                                            pops@,
                                            classification,
                                        ));
                                    }
                                }
                            }
                        }
                        if !decided {
                            hashes.push(h);
                            proof {
                                let gi = gen as int;
                                assert(!fires_extinct(pops@, gi));
                                assert(!fires_explosion(pops@, gi));
                                assert(!fires_any(traj, pops@, gi));
                                assert forall|i: int| 1 <= i < gi + 1 implies !fires_any(
                                    traj,
                                    pops@,
                                    i,
                                ) by {}
                            }
                        }
                    },
                }
            }
            gen += 1;
        }
        let final_population = pops[pops.len() - 1];
        let generations_analyzed = pops.len() - 1;
        let is_stable = matches!(classification, PatternType::StablePattern { .. });
        let formations = if is_stable {
            self.identify_stable_formations(&grid)
        } else {
            FormationCounts { blocks: 0, blinkers: 0 }
        };
        let stats = PatternStats {
            name: pattern.name.clone(),
            initial_population,
            max_population: maxp,
            generation_of_max: gmax,
            final_population,
            generations_analyzed,
            pattern_type: classification,
            stable_formations: formations,
            population_history: pops,
        };
        proof {
            if !decided {
                assert(traj.len() - 1 == self.max_generations);
            }
            assert(traj_ok(*self, *pattern, x as int, y as int, traj));
            assert(history_matches(traj, stats.population_history@));
            assert(classification_ok(
                *self,
                traj,
                stats.population_history@,
                stats.pattern_type,
            ));
        }
        stats
    }

    /// Analyzes several placed patterns in turn.
    pub fn compare_patterns(&self, patterns: &Vec<(Pattern, usize, usize)>) -> (r: Vec<
        PatternStats,
    >)
        requires
            self.wf(),
            forall|k: int|
                0 <= k < patterns@.len() ==> {
                    &&& (#[trigger] patterns@[k]).0.wf()
                    &&& patterns@[k].1 + patterns@[k].0.width <= usize::MAX
                    &&& patterns@[k].2 + patterns@[k].0.height <= usize::MAX
                },
        ensures
            r@.len() == patterns@.len(),
            forall|k: int|
                0 <= k < patterns@.len() ==> analysis_ok(
                    *self,
                    (#[trigger] patterns@[k]).0,
                    patterns@[k].1 as int,
                    patterns@[k].2 as int,
                    r@[k],
                ),
    {
        let mut r: Vec<PatternStats> = Vec::new();
        let n = patterns.len();
        let mut k: usize = 0;
        while k < n
            invariant
                self.wf(),
                n == patterns@.len(),
                k <= n,
                r@.len() == k,
                forall|q: int|
                    0 <= q < patterns@.len() ==> {
                        &&& (#[trigger] patterns@[q]).0.wf()
                        &&& patterns@[q].1 + patterns@[q].0.width <= usize::MAX
                        &&& patterns@[q].2 + patterns@[q].0.height <= usize::MAX
                    },
                forall|q: int|
                    0 <= q < k ==> analysis_ok(
                        *self,
                        (#[trigger] patterns@[q]).0,
                        patterns@[q].1 as int,
                        patterns@[q].2 as int,
                        r@[q],
                    ),
            decreases n - k,
        {
            let entry = &patterns[k];
            let stats = self.analyze_pattern(&entry.0, entry.1, entry.2);
            r.push(stats);
            k += 1;
        }
        r
    }
}

} // verus!
