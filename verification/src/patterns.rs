//! The pattern library: named seed patterns as lists of live-cell offsets
//! inside a bounding box, and their placement onto a board, which first
//! clears the box and then sets the offsets live.

use vstd::prelude::*;

use crate::grid::{Grid, same_shape};
use crate::text::{eq_fold, str_eq_ignore_case};

verus! {

/// A named pattern: a bounding box and the offsets of its live cells.
pub struct Pattern {
    pub name: String,
    pub description: String,
    pub width: usize,
    pub height: usize,
    pub cells: Vec<(usize, usize)>,
}

impl Pattern {
    /// Every listed offset lies inside the bounding box.
    pub open spec fn wf(&self) -> bool {
        forall|k: int|
            0 <= k < self.cells@.len() ==> (#[trigger] self.cells@[k]).0 < self.width
                && self.cells@[k].1 < self.height
    }

    /// Whether one of the first `k` offsets, placed at `(x, y)`, lands on
    /// `(i, j)`.
    pub open spec fn covers_upto(&self, x: int, y: int, i: int, j: int, k: int) -> bool {
        exists|t: int|
            0 <= t < k && x + (#[trigger] self.cells@[t]).0 == i && y + self.cells@[t].1 == j
    }

    /// Whether the pattern, placed at `(x, y)`, makes `(i, j)` live.
    pub open spec fn covers(&self, x: int, y: int, i: int, j: int) -> bool {
        self.covers_upto(x, y, i, j, self.cells@.len() as int)
    }

    /// Places the pattern with its bounding box anchored at `(x, y)`: the
    /// box is cleared first, then the offsets are set live; anything that
    /// falls off the board is skipped silently.
    pub fn place(&self, grid: &mut Grid, x: usize, y: usize)
        requires
            old(grid).wf(),
            self.wf(),
            x + self.width <= usize::MAX,
            y + self.height <= usize::MAX,
        ensures
            final(grid).wf(),
            same_shape(*old(grid), *final(grid)),
            old(grid).padded() ==> final(grid).padded(),
            forall|i: int, j: int|
                final(grid).in_range(i, j) ==> final(grid).cell(i, j) == (if self.covers(
                    x as int,
                    y as int,
                    i,
                    j,
                ) {
                    true
                } else if x <= i < x + self.width && y <= j < y + self.height {
                    false
                } else {
                    old(grid).cell(i, j)
                }),
    {
        grid.clear_box(x, y, self.width, self.height);
        let ghost cleared = *grid;
        let n = self.cells.len();
        let mut k: usize = 0;
        while k < n
            invariant
                grid.wf(),
                self.wf(),
                same_shape(cleared, *grid),
                cleared.padded() ==> grid.padded(),
                x + self.width <= usize::MAX,
                y + self.height <= usize::MAX,
                n == self.cells@.len(),
                k <= n,
                forall|i: int, j: int|
                    grid.in_range(i, j) ==> grid.cell(i, j) == (if self.covers_upto(
                        x as int,
                        y as int,
                        i,
                        j,
                        k as int,
                    ) {
                        true
                    } else {
                        cleared.cell(i, j)
                    }),
            decreases n - k,
        {
            let (px, py) = self.cells[k];
            let ghost pre = *grid;
            grid.set(x + px, y + py, true);
            proof {
                let xi = x as int;
                let yi = y as int;
                assert forall|i: int, j: int| grid.in_range(i, j) implies grid.cell(i, j) == (
                if self.covers_upto(xi, yi, i, j, k + 1) {
                    true
                } else {
                    cleared.cell(i, j)
                }) by {
                    if i == xi + px && j == yi + py {
                        assert(self.cells@[k as int] == (px, py));
                        assert(self.covers_upto(xi, yi, i, j, k + 1));
                    } else {
                        assert(grid.cell(i, j) == pre.cell(i, j));
                        if self.covers_upto(xi, yi, i, j, k + 1) && !self.covers_upto(
                            xi,
                            yi,
                            i,
                            j,
                            k as int,
                        ) {
                            let t = choose|t: int|
                                0 <= t < k + 1 && xi + (#[trigger] self.cells@[t]).0 == i && yi
                                    + self.cells@[t].1 == j;
                            assert(t == k);
                            assert(false);
                        }
                    }
                }
            }
            k += 1;
        }
    }
}

/// The built-in collection of well-known patterns.
pub struct PatternLibrary;


/// The live-cell offsets of the Glider pattern.
pub open spec fn glider_offsets() -> Seq<(usize, usize)> {
    seq![(1usize, 0usize), (2, 1), (0, 2), (1, 2), (2, 2)]
}


/// The live-cell offsets of the Blinker pattern.
pub open spec fn blinker_offsets() -> Seq<(usize, usize)> {
    seq![(1usize, 0usize), (1, 1), (1, 2)]
}


/// The live-cell offsets of the Toad pattern.
pub open spec fn toad_offsets() -> Seq<(usize, usize)> {
    seq![(1usize, 0usize), (2, 0), (3, 0), (0, 1), (1, 1), (2, 1)]
}


/// The live-cell offsets of the Beacon pattern.
pub open spec fn beacon_offsets() -> Seq<(usize, usize)> {
    seq![(0usize, 0usize), (1, 0), (0, 1), (3, 2), (2, 3), (3, 3)]
}


/// The live-cell offsets of the Pulsar pattern.
pub open spec fn pulsar_offsets() -> Seq<(usize, usize)> {
    seq![(2usize, 0usize), (3, 0), (4, 0), (8, 0), (9, 0), (10, 0), (0, 2), (5, 2), (7, 2), (12, 2), (0, 3), (5, 3), (7, 3), (12, 3), (0, 4), (5, 4), (7, 4), (12, 4), (2, 5), (3, 5), (4, 5), (8, 5), (9, 5), (10, 5), (2, 7), (3, 7), (4, 7), (8, 7), (9, 7), (10, 7), (0, 8), (5, 8), (7, 8), (12, 8), (0, 9), (5, 9), (7, 9), (12, 9), (0, 10), (5, 10), (7, 10), (12, 10), (2, 12), (3, 12), (4, 12), (8, 12), (9, 12), (10, 12)]
}


/// The live-cell offsets of the Glider Gun pattern.
pub open spec fn glider_gun_offsets() -> Seq<(usize, usize)> {
    seq![(24usize, 0usize), (22, 1), (24, 1), (12, 2), (13, 2), (20, 2), (21, 2), (34, 2), (35, 2), (11, 3), (15, 3), (20, 3), (21, 3), (34, 3), (35, 3), (0, 4), (1, 4), (10, 4), (16, 4), (20, 4), (21, 4), (0, 5), (1, 5), (10, 5), (14, 5), (16, 5), (17, 5), (22, 5), (24, 5), (10, 6), (16, 6), (24, 6), (11, 7), (15, 7), (12, 8), (13, 8)]
}


/// The live-cell offsets of the LWSS pattern.
pub open spec fn lightweight_spaceship_offsets() -> Seq<(usize, usize)> {
    seq![(1usize, 0usize), (4, 0), (0, 1), (0, 2), (4, 2), (0, 3), (1, 3), (2, 3), (3, 3)]
}


/// The live-cell offsets of the R-pentomino pattern.
pub open spec fn r_pentomino_offsets() -> Seq<(usize, usize)> {
    seq![(1usize, 0usize), (2, 0), (0, 1), (1, 1), (1, 2)]
}


/// The live-cell offsets of the Diehard pattern.
pub open spec fn diehard_offsets() -> Seq<(usize, usize)> {
    seq![(6usize, 0usize), (0, 1), (1, 1), (1, 2), (5, 2), (6, 2), (7, 2)]
}


/// The live-cell offsets of the Acorn pattern.
pub open spec fn acorn_offsets() -> Seq<(usize, usize)> {
    seq![(1usize, 0usize), (3, 1), (0, 2), (1, 2), (4, 2), (5, 2), (6, 2)]
}

impl PatternLibrary {

    pub fn glider() -> (p: Pattern)
        ensures
            p.wf(),
            p.name@ == "Glider"@,
            p.width == 3,
            p.height == 3,
            p.cells@ == glider_offsets(),
    {
        let mut cells: Vec<(usize, usize)> = Vec::new();
        cells.push((1, 0));
        cells.push((2, 1));
        cells.push((0, 2));
        cells.push((1, 2));
        cells.push((2, 2));
        let p = Pattern {
            name: "Glider".to_owned(),
            description: "The smallest, most common spaceship".to_owned(),
            width: 3,
            height: 3,
            cells,
        };
        proof {
            assert(p.cells@ =~= glider_offsets());
        }
        p
    }


    pub fn blinker() -> (p: Pattern)
        ensures
            p.wf(),
            p.name@ == "Blinker"@,
            p.width == 3,
            p.height == 3,
            p.cells@ == blinker_offsets(),
    {
        let mut cells: Vec<(usize, usize)> = Vec::new();
        cells.push((1, 0));
        cells.push((1, 1));
        cells.push((1, 2));
        let p = Pattern {
            name: "Blinker".to_owned(),
            description: "The smallest oscillator with period 2".to_owned(),
            width: 3,
            height: 3,
            cells,
        };
        proof {
            assert(p.cells@ =~= blinker_offsets());
        }
        p
    }


    pub fn toad() -> (p: Pattern)
        ensures
            p.wf(),
            p.name@ == "Toad"@,
            p.width == 4,
            p.height == 2,
            p.cells@ == toad_offsets(),
    {
        let mut cells: Vec<(usize, usize)> = Vec::new();
        cells.push((1, 0));
        cells.push((2, 0));
        cells.push((3, 0));
        cells.push((0, 1));
        cells.push((1, 1));
        cells.push((2, 1));
        let p = Pattern {
            name: "Toad".to_owned(),
            description: "A period 2 oscillator".to_owned(),
            width: 4,
            height: 2,
            cells,
        };
        proof {
            assert(p.cells@ =~= toad_offsets());
        }
        p
    }


    pub fn beacon() -> (p: Pattern)
        ensures
            p.wf(),
            p.name@ == "Beacon"@,
            p.width == 4,
            p.height == 4,
            p.cells@ == beacon_offsets(),
    {
        let mut cells: Vec<(usize, usize)> = Vec::new();
        cells.push((0, 0));
        cells.push((1, 0));
        cells.push((0, 1));
        cells.push((3, 2));
        cells.push((2, 3));
        cells.push((3, 3));
        let p = Pattern {
            name: "Beacon".to_owned(),
            description: "A period 2 oscillator".to_owned(),
            width: 4,
            height: 4,
            cells,
        };
        proof {
            assert(p.cells@ =~= beacon_offsets());
        }
        p
    }


    pub fn pulsar() -> (p: Pattern)
        ensures
            p.wf(),
            p.name@ == "Pulsar"@,
            p.width == 13,
            p.height == 13,
            p.cells@ == pulsar_offsets(),
    {
        let mut cells: Vec<(usize, usize)> = Vec::new();
        cells.push((2, 0));
        cells.push((3, 0));
        cells.push((4, 0));
        cells.push((8, 0));
        cells.push((9, 0));
        cells.push((10, 0));
        cells.push((0, 2));
        cells.push((5, 2));
        cells.push((7, 2));
        cells.push((12, 2));
        cells.push((0, 3));
        cells.push((5, 3));
        cells.push((7, 3));
        cells.push((12, 3));
        cells.push((0, 4));
        cells.push((5, 4));
        cells.push((7, 4));
        cells.push((12, 4));
        cells.push((2, 5));
        cells.push((3, 5));
        cells.push((4, 5));
        cells.push((8, 5));
        cells.push((9, 5));
        cells.push((10, 5));
        cells.push((2, 7));
        cells.push((3, 7));
        cells.push((4, 7));
        cells.push((8, 7));
        cells.push((9, 7));
        cells.push((10, 7));
        cells.push((0, 8));
        cells.push((5, 8));
        cells.push((7, 8));
        cells.push((12, 8));
        cells.push((0, 9));
        cells.push((5, 9));
        cells.push((7, 9));
        cells.push((12, 9));
        cells.push((0, 10));
        cells.push((5, 10));
        cells.push((7, 10));
        cells.push((12, 10));
        cells.push((2, 12));
        cells.push((3, 12));
        cells.push((4, 12));
        cells.push((8, 12));
        cells.push((9, 12));
        cells.push((10, 12));
        let p = Pattern {
            name: "Pulsar".to_owned(),
            description: "A period 3 oscillator".to_owned(),
            width: 13,
            height: 13,
            cells,
        };
        proof {
            assert(p.cells@ =~= pulsar_offsets());
        }
        p
    }


    pub fn glider_gun() -> (p: Pattern)
        ensures
            p.wf(),
            p.name@ == "Glider Gun"@,
            p.width == 36,
            p.height == 9,
            p.cells@ == glider_gun_offsets(),
    {
        let mut cells: Vec<(usize, usize)> = Vec::new();
        cells.push((24, 0));
        cells.push((22, 1));
        cells.push((24, 1));
        cells.push((12, 2));
        cells.push((13, 2));
        cells.push((20, 2));
        cells.push((21, 2));
        cells.push((34, 2));
        cells.push((35, 2));
        cells.push((11, 3));
        cells.push((15, 3));
        cells.push((20, 3));
        cells.push((21, 3));
        cells.push((34, 3));
        cells.push((35, 3));
        cells.push((0, 4));
        cells.push((1, 4));
        cells.push((10, 4));
        cells.push((16, 4));
        cells.push((20, 4));
        cells.push((21, 4));
        cells.push((0, 5));
        cells.push((1, 5));
        cells.push((10, 5));
        cells.push((14, 5));
        cells.push((16, 5));
        cells.push((17, 5));
        cells.push((22, 5));
        cells.push((24, 5));
        cells.push((10, 6));
        cells.push((16, 6));
        cells.push((24, 6));
        cells.push((11, 7));
        cells.push((15, 7));
        cells.push((12, 8));
        cells.push((13, 8));
        let p = Pattern {
            name: "Glider Gun".to_owned(),
            description: "Gosper's Glider Gun - produces gliders periodically".to_owned(),
            width: 36,
            height: 9,
            cells,
        };
        proof {
            assert(p.cells@ =~= glider_gun_offsets());
        }
        p
    }


    pub fn lightweight_spaceship() -> (p: Pattern)
        ensures
            p.wf(),
            p.name@ == "LWSS"@,
            p.width == 5,
            p.height == 4,
            p.cells@ == lightweight_spaceship_offsets(),
    {
        let mut cells: Vec<(usize, usize)> = Vec::new();
        cells.push((1, 0));
        cells.push((4, 0));
        cells.push((0, 1));
        cells.push((0, 2));
        cells.push((4, 2));
        cells.push((0, 3));
        cells.push((1, 3));
        cells.push((2, 3));
        cells.push((3, 3));
        let p = Pattern {
            name: "LWSS".to_owned(),
            description: "Lightweight Spaceship - moves across the grid".to_owned(),
            width: 5,
            height: 4,
            cells,
        };
        proof {
            assert(p.cells@ =~= lightweight_spaceship_offsets());
        }
        p
    }


    pub fn r_pentomino() -> (p: Pattern)
        ensures
            p.wf(),
            p.name@ == "R-pentomino"@,
            p.width == 3,
            p.height == 3,
            p.cells@ == r_pentomino_offsets(),
    {
        let mut cells: Vec<(usize, usize)> = Vec::new();
        cells.push((1, 0));
        cells.push((2, 0));
        cells.push((0, 1));
        cells.push((1, 1));
        cells.push((1, 2));
        let p = Pattern {
            name: "R-pentomino".to_owned(),
            description: "A methuselah that evolves for many generations".to_owned(),
            width: 3,
            height: 3,
            cells,
        };
        proof {
            assert(p.cells@ =~= r_pentomino_offsets());
        }
        p
    }


    pub fn diehard() -> (p: Pattern)
        ensures
            p.wf(),
            p.name@ == "Diehard"@,
            p.width == 8,
            p.height == 3,
            p.cells@ == diehard_offsets(),
    {
        let mut cells: Vec<(usize, usize)> = Vec::new();
        cells.push((6, 0));
        cells.push((0, 1));
        cells.push((1, 1));
        cells.push((1, 2));
        cells.push((5, 2));
        cells.push((6, 2));
        cells.push((7, 2));
        let p = Pattern {
            name: "Diehard".to_owned(),
            description: "A methuselah that vanishes after 130 generations".to_owned(),
            width: 8,
            height: 3,
            cells,
        };
        proof {
            assert(p.cells@ =~= diehard_offsets());
        }
        p
    }


    pub fn acorn() -> (p: Pattern)
        ensures
            p.wf(),
            p.name@ == "Acorn"@,
            p.width == 7,
            p.height == 3,
            p.cells@ == acorn_offsets(),
    {
        let mut cells: Vec<(usize, usize)> = Vec::new();
        cells.push((1, 0));
        cells.push((3, 1));
        cells.push((0, 2));
        cells.push((1, 2));
        cells.push((4, 2));
        cells.push((5, 2));
        cells.push((6, 2));
        let p = Pattern {
            name: "Acorn".to_owned(),
            description: "A methuselah that evolves for thousands of generations".to_owned(),
            width: 7,
            height: 3,
            cells,
        };
        proof {
            assert(p.cells@ =~= acorn_offsets());
        }
        p
    }


    /// Every library pattern, in a fixed order.
    pub fn get_all_patterns() -> (r: Vec<Pattern>)
        ensures
            r@.len() == 10,
            forall|k: int| 0 <= k < r@.len() ==> (#[trigger] r@[k]).wf(),
            r@[0].name@ == "Glider"@ && r@[0].wf() && r@[0].cells@ == glider_offsets() && r@[0].width == 3 && r@[0].height == 3,
            r@[1].name@ == "Blinker"@ && r@[1].wf() && r@[1].cells@ == blinker_offsets() && r@[1].width == 3 && r@[1].height == 3,
            r@[2].name@ == "Toad"@ && r@[2].wf() && r@[2].cells@ == toad_offsets() && r@[2].width == 4 && r@[2].height == 2,
            r@[3].name@ == "Beacon"@ && r@[3].wf() && r@[3].cells@ == beacon_offsets() && r@[3].width == 4 && r@[3].height == 4,
            r@[4].name@ == "Pulsar"@ && r@[4].wf() && r@[4].cells@ == pulsar_offsets() && r@[4].width == 13 && r@[4].height == 13,
            r@[5].name@ == "Glider Gun"@ && r@[5].wf() && r@[5].cells@ == glider_gun_offsets() && r@[5].width == 36 && r@[5].height == 9,
            r@[6].name@ == "LWSS"@ && r@[6].wf() && r@[6].cells@ == lightweight_spaceship_offsets() && r@[6].width == 5 && r@[6].height == 4,
            r@[7].name@ == "R-pentomino"@ && r@[7].wf() && r@[7].cells@ == r_pentomino_offsets() && r@[7].width == 3 && r@[7].height == 3,
            r@[8].name@ == "Diehard"@ && r@[8].wf() && r@[8].cells@ == diehard_offsets() && r@[8].width == 8 && r@[8].height == 3,
            r@[9].name@ == "Acorn"@ && r@[9].wf() && r@[9].cells@ == acorn_offsets() && r@[9].width == 7 && r@[9].height == 3,
    {
        let mut r: Vec<Pattern> = Vec::new();
        r.push(Self::glider());
        r.push(Self::blinker());
        r.push(Self::toad());
        r.push(Self::beacon());
        r.push(Self::pulsar());
        r.push(Self::glider_gun());
        r.push(Self::lightweight_spaceship());
        r.push(Self::r_pentomino());
        r.push(Self::diehard());
        r.push(Self::acorn());
        r
    }


    /// Looks a pattern up by name, ignoring ASCII case; the first library
    /// entry whose name matches is returned.
    pub fn get_by_name(name: &str) -> (r: Option<Pattern>)
        ensures
            match r {
                Some(p) => p.wf() && eq_fold(p.name@, name@),
                None => forall|q: int|
                    0 <= q < library_names().len() ==> !eq_fold(name@, #[trigger] library_names()[q]),
            },
            (forall|q: int|
                0 <= q < library_names().len() ==> !eq_fold(name@, #[trigger] library_names()[q]))
                ==> r is None,
            eq_fold(name@, "Glider"@) && (forall|q: int| 0 <= q < 0 ==> !eq_fold(name@, #[trigger] library_names()[q])) ==> (r matches Some(p) && p.name@ == "Glider"@ && p.cells@ == glider_offsets() && p.width == 3 && p.height == 3),
            eq_fold(name@, "Blinker"@) && (forall|q: int| 0 <= q < 1 ==> !eq_fold(name@, #[trigger] library_names()[q])) ==> (r matches Some(p) && p.name@ == "Blinker"@ && p.cells@ == blinker_offsets() && p.width == 3 && p.height == 3),
            eq_fold(name@, "Toad"@) && (forall|q: int| 0 <= q < 2 ==> !eq_fold(name@, #[trigger] library_names()[q])) ==> (r matches Some(p) && p.name@ == "Toad"@ && p.cells@ == toad_offsets() && p.width == 4 && p.height == 2),
            eq_fold(name@, "Beacon"@) && (forall|q: int| 0 <= q < 3 ==> !eq_fold(name@, #[trigger] library_names()[q])) ==> (r matches Some(p) && p.name@ == "Beacon"@ && p.cells@ == beacon_offsets() && p.width == 4 && p.height == 4),
            eq_fold(name@, "Pulsar"@) && (forall|q: int| 0 <= q < 4 ==> !eq_fold(name@, #[trigger] library_names()[q])) ==> (r matches Some(p) && p.name@ == "Pulsar"@ && p.cells@ == pulsar_offsets() && p.width == 13 && p.height == 13),
            eq_fold(name@, "Glider Gun"@) && (forall|q: int| 0 <= q < 5 ==> !eq_fold(name@, #[trigger] library_names()[q])) ==> (r matches Some(p) && p.name@ == "Glider Gun"@ && p.cells@ == glider_gun_offsets() && p.width == 36 && p.height == 9),
            eq_fold(name@, "LWSS"@) && (forall|q: int| 0 <= q < 6 ==> !eq_fold(name@, #[trigger] library_names()[q])) ==> (r matches Some(p) && p.name@ == "LWSS"@ && p.cells@ == lightweight_spaceship_offsets() && p.width == 5 && p.height == 4),
            eq_fold(name@, "R-pentomino"@) && (forall|q: int| 0 <= q < 7 ==> !eq_fold(name@, #[trigger] library_names()[q])) ==> (r matches Some(p) && p.name@ == "R-pentomino"@ && p.cells@ == r_pentomino_offsets() && p.width == 3 && p.height == 3),
            eq_fold(name@, "Diehard"@) && (forall|q: int| 0 <= q < 8 ==> !eq_fold(name@, #[trigger] library_names()[q])) ==> (r matches Some(p) && p.name@ == "Diehard"@ && p.cells@ == diehard_offsets() && p.width == 8 && p.height == 3),
            eq_fold(name@, "Acorn"@) && (forall|q: int| 0 <= q < 9 ==> !eq_fold(name@, #[trigger] library_names()[q])) ==> (r matches Some(p) && p.name@ == "Acorn"@ && p.cells@ == acorn_offsets() && p.width == 7 && p.height == 3),
    {
        proof {
            assert(library_names()[0] == "Glider"@);
            assert(library_names()[1] == "Blinker"@);
            assert(library_names()[2] == "Toad"@);
            assert(library_names()[3] == "Beacon"@);
            assert(library_names()[4] == "Pulsar"@);
            assert(library_names()[5] == "Glider Gun"@);
            assert(library_names()[6] == "LWSS"@);
            assert(library_names()[7] == "R-pentomino"@);
            assert(library_names()[8] == "Diehard"@);
            assert(library_names()[9] == "Acorn"@);
        }
        if str_eq_ignore_case(name, "Glider") {
            return Some(Self::glider());
        }
        if str_eq_ignore_case(name, "Blinker") {
            return Some(Self::blinker());
        }
        if str_eq_ignore_case(name, "Toad") {
            return Some(Self::toad());
        }
        if str_eq_ignore_case(name, "Beacon") {
            return Some(Self::beacon());
        }
        if str_eq_ignore_case(name, "Pulsar") {
            return Some(Self::pulsar());
        }
        if str_eq_ignore_case(name, "Glider Gun") {
            return Some(Self::glider_gun());
        }
        if str_eq_ignore_case(name, "LWSS") {
            return Some(Self::lightweight_spaceship());
        }
        if str_eq_ignore_case(name, "R-pentomino") {
            return Some(Self::r_pentomino());
        }
        if str_eq_ignore_case(name, "Diehard") {
            return Some(Self::diehard());
        }
        if str_eq_ignore_case(name, "Acorn") {
            return Some(Self::acorn());
        }
        None
    }
}


/// The names of the library patterns, in library order.
pub open spec fn library_names() -> Seq<Seq<char>> {
    seq!["Glider"@, "Blinker"@, "Toad"@, "Beacon"@, "Pulsar"@, "Glider Gun"@, "LWSS"@, "R-pentomino"@, "Diehard"@, "Acorn"@]
}

} // verus!
