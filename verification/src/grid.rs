//! The bit-packed cell store: a fixed-size board holding one bit per cell,
//! 64 cells to a word, with tolerant indexing and a choice of boundary
//! policy for neighbour lookups.

use vstd::prelude::*;
use vstd::arithmetic::div_mod::{
    lemma_fundamental_div_mod, lemma_small_mod, lemma_mod_self_0, lemma_mod_add_multiples_vanish,
};
use vstd::arithmetic::power2::{pow2, lemma2_to64, lemma2_to64_rest};

use rayon::iter::{IntoParallelIterator, ParallelIterator};

use crate::config::BoundaryType;
use crate::rng::{fresh_rng, rand_below};

verus! {

/// Bit `i` of the word `w`, with bit 0 the least significant.
pub open spec fn bit64(w: u64, i: u64) -> bool {
    (w >> i) & 1 == 1
}

/// The number of set bits in `w`.
pub open spec fn popcnt64(w: u64) -> nat
    decreases w,
{
    if w == 0 {
        0
    } else {
        popcnt64(w / 2) + (w % 2) as nat
    }
}

/// The number of set bits across a sequence of words.
pub open spec fn pop_total(ws: Seq<u64>) -> nat
    decreases ws.len(),
{
    if ws.len() == 0 {
        0
    } else {
        pop_total(ws.drop_last()) + popcnt64(ws.last())
    }
}

/// Relies on `u64::count_ones`: it returns the number of ones in the
/// binary representation of its argument.
pub assume_specification[ u64::count_ones ](w: u64) -> (r: u32)
    ensures
        r == popcnt64(w),
;

pub proof fn lemma_bit_or(w: u64, i: u64, j: u64)
    by (bit_vector)
    requires
        i < 64,
        j < 64,
    ensures
        bit64(w | (1u64 << i), j) == (i == j || bit64(w, j)),
{
}

pub proof fn lemma_bit_andnot(w: u64, i: u64, j: u64)
    by (bit_vector)
    requires
        i < 64,
        j < 64,
    ensures
        bit64(w & !(1u64 << i), j) == (i != j && bit64(w, j)),
{
}

pub proof fn lemma_bit_xor(w: u64, i: u64, j: u64)
    by (bit_vector)
    requires
        i < 64,
        j < 64,
    ensures
        i == j ==> bit64(w ^ (1u64 << i), j) == !bit64(w, j),
        i != j ==> bit64(w ^ (1u64 << i), j) == bit64(w, j),
{
}

pub proof fn lemma_bit_test(w: u64, i: u64)
    by (bit_vector)
    requires
        i < 64,
    ensures
        ((w & (1u64 << i)) != 0) == bit64(w, i),
{
}

pub proof fn lemma_bit_zero(j: u64)
    by (bit_vector)
    requires
        j < 64,
    ensures
        !bit64(0u64, j),
{
}

/// Two words whose 64 bits agree are the same word.
pub proof fn lemma_word_eq(a: u64, b: u64)
    requires
        forall|j: u64| j < 64 ==> bit64(a, j) == bit64(b, j),
    ensures
        a == b,
{
    if a != b {
        let d = a ^ b;
        assert(d != 0) by (bit_vector)
            requires
                a != b,
                d == a ^ b,
        ;
        vstd::std_specs::bits::axiom_u64_trailing_zeros(d);
        let j = vstd::std_specs::bits::u64_trailing_zeros(d) as u64;
        assert(j < 64 && (d >> j) & 1u64 == 1u64);
        assert(bit64(a, j) != bit64(b, j)) by (bit_vector)
            requires
                j < 64,
                d == a ^ b,
                (d >> j) & 1u64 == 1u64,
        ;
    }
}

pub proof fn lemma_popcnt_zero(w: u64)
    ensures
        (popcnt64(w) == 0) == (w == 0),
    decreases w,
{
    if w != 0 {
        if w % 2 == 0 {
            lemma_popcnt_zero(w / 2);
        }
    }
}

proof fn lemma_popcnt_pow(w: u64, k: nat)
    requires
        w < pow2(k),
    ensures
        popcnt64(w) <= k,
    decreases k,
{
    if w != 0 {
        lemma2_to64();
        if k == 0 {
            assert(pow2(0) == 1);
        } else {
            assert(pow2(k) == 2 * pow2((k - 1) as nat)) by {
                vstd::arithmetic::power2::lemma_pow2_unfold(k);
            }
            lemma_popcnt_pow(w / 2, (k - 1) as nat);
        }
    }
}

pub proof fn lemma_popcnt_le_64(w: u64)
    ensures
        popcnt64(w) <= 64,
{
    lemma2_to64_rest();
    assert(w < pow2(64));
    lemma_popcnt_pow(w, 64);
}

pub proof fn lemma_pop_total_zero(ws: Seq<u64>)
    requires
        pop_total(ws) == 0,
    ensures
        forall|i: int| 0 <= i < ws.len() ==> ws[i] == 0u64,
    decreases ws.len(),
{
    if ws.len() > 0 {
        lemma_pop_total_zero(ws.drop_last());
        lemma_popcnt_zero(ws.last());
        assert forall|i: int| 0 <= i < ws.len() implies ws[i] == 0u64 by {
            if i < ws.len() - 1 {
                assert(ws.drop_last()[i] == 0u64);
            }
        }
    }
}

/// The cells of one board state agree with those of another wherever both are
/// in range, except possibly at `(x, y)`.
pub open spec fn cells_eq_except(a: Grid, b: Grid, x: int, y: int) -> bool {
    forall|i: int, j: int|
        a.in_range(i, j) && !(i == x && j == y) ==> a.cell(i, j) == b.cell(i, j)
}

/// Two boards have the same dimensions, word layout and boundary policy.
pub open spec fn same_shape(a: Grid, b: Grid) -> bool {
    &&& a.width == b.width
    &&& a.height == b.height
    &&& a.stride == b.stride
    &&& a.boundary == b.boundary
}

pub struct Grid {
    pub width: usize,
    pub height: usize,
    pub stride: usize,
    pub cells: Vec<u64>,
    pub boundary: BoundaryType,
}

impl Grid {
    /// Well-formedness: positive dimensions, the stride covering the width,
    /// exactly one word per stride slot, and a total bit count that fits the
    /// machine's address space.
    pub open spec fn wf(self) -> bool {
        &&& 1 <= self.width
        &&& 1 <= self.height
        &&& self.stride == (self.width + 63) / 64
        &&& self.cells@.len() == self.stride * self.height
        &&& self.cells@.len() * 64 <= usize::MAX
    }

    pub open spec fn in_range(self, x: int, y: int) -> bool {
        0 <= x < self.width && 0 <= y < self.height
    }

    /// The stored bit for the cell at `(x, y)`; meaningful when `(x, y)` is
    /// in range.
    pub open spec fn cell(self, x: int, y: int) -> bool {
        bit64(self.cells@[y * self.stride + x / 64], (x % 64) as u64)
    }

    /// The tolerant reading: out-of-range coordinates read as dead.
    pub open spec fn alive(self, x: int, y: int) -> bool {
        self.in_range(x, y) && self.cell(x, y)
    }

    /// The word bits beyond `width` in each row are clear, so the stored
    /// bits are exactly the live cells.
    pub open spec fn padded(self) -> bool {
        forall|y: int, b: int|
            0 <= y < self.height && self.width <= b < self.stride * 64 ==> !self.cell(b, y)
    }

    /// The total number of stored set bits; under `padded` this is the
    /// number of live cells.
    pub open spec fn grid_pop(self) -> nat {
        pop_total(self.cells@)
    }

    /// The word index and bit index used for the cell at `(x, y)` stay inside
    /// the cell array.
    pub proof fn lemma_cell_index(self, x: int, y: int)
        requires
            self.wf(),
            0 <= x < self.stride * 64,
            0 <= y < self.height,
        ensures
            0 <= x / 64 < self.stride,
            0 <= x % 64 < 64,
            0 <= y * self.stride + x / 64 < self.cells@.len(),
    {
        assert(0 <= x / 64 < self.stride && 0 <= x % 64 < 64) by (nonlinear_arith)
            requires
                0 <= x < self.stride * 64,
        ;
        assert(0 <= y * self.stride + x / 64 < self.stride * self.height) by (nonlinear_arith)
            requires
                0 <= x / 64 < self.stride,
                0 <= y < self.height,
        ;
    }

    /// A cell inside the width is inside the stride's bit span.
    pub proof fn lemma_width_le_bits(self)
        requires
            self.wf(),
        ensures
            self.width <= self.stride * 64,
    {
        lemma_fundamental_div_mod(self.width + 63, 64);
    }

    /// Distinct in-span cell positions use either distinct words or distinct
    /// bits of the same word.
    pub proof fn lemma_cell_distinct(self, x1: int, y1: int, x2: int, y2: int)
        requires
            self.wf(),
            0 <= x1 < self.stride * 64,
            0 <= y1 < self.height,
            0 <= x2 < self.stride * 64,
            0 <= y2 < self.height,
            !(x1 == x2 && y1 == y2),
        ensures
            y1 * self.stride + x1 / 64 != y2 * self.stride + x2 / 64 || x1 % 64 != x2 % 64,
    {
        self.lemma_cell_index(x1, y1);
        self.lemma_cell_index(x2, y2);
        let s = self.stride as int;
        if y1 * s + x1 / 64 == y2 * s + x2 / 64 && x1 % 64 == x2 % 64 {
            assert(y1 == y2 && x1 / 64 == x2 / 64) by (nonlinear_arith)
                requires
                    y1 * s + x1 / 64 == y2 * s + x2 / 64,
                    0 <= x1 / 64 < s,
                    0 <= x2 / 64 < s,
                    0 <= y1,
                    0 <= y2,
            ;
            lemma_fundamental_div_mod(x1, 64);
            lemma_fundamental_div_mod(x2, 64);
            assert(x1 == x2);
        }
    }

    pub fn new(width: usize, height: usize, boundary: BoundaryType) -> (g: Grid)
        requires
            1 <= width,
            1 <= height,
            width + 63 <= usize::MAX,
            ((width + 63) / 64) * height * 64 <= usize::MAX,
        ensures
            g.wf(),
            g.width == width,
            g.height == height,
            g.boundary == boundary,
            forall|x: int, y: int| g.in_range(x, y) ==> !g.cell(x, y),
            g.padded(),
            g.grid_pop() == 0,
    {
        let stride = (width + 63) / 64;
        proof {
            assert(stride * height <= stride * height * 64) by (nonlinear_arith)
                requires
                    0 <= stride,
                    0 <= height,
            ;
        }
        let n = stride * height;
        let mut cells: Vec<u64> = Vec::new();
        let mut k: usize = 0;
        while k < n
            invariant
                k <= n,
                cells@.len() == k,
                forall|i: int| 0 <= i < k ==> cells@[i] == 0u64,
                pop_total(cells@) == 0,
            decreases n - k,
        {
            let ghost pre = cells@;
            cells.push(0u64);
            proof {
                assert(cells@.drop_last() =~= pre);
                assert(pop_total(cells@) == 0);
            }
            k += 1;
        }
        let g = Grid { width, height, stride, cells, boundary };
        proof {
            g.lemma_width_le_bits();
            assert forall|x: int, y: int|
                0 <= y < g.height && 0 <= x < g.stride * 64 implies !g.cell(x, y) by {
                g.lemma_cell_index(x, y);
                lemma_bit_zero((x % 64) as u64);
            }
        }
        g
    }

    /// The board's width and height.
    pub fn dimensions(&self) -> (d: (usize, usize))
        ensures
            d == (self.width, self.height),
    {
        (self.width, self.height)
    }

    /// Reads the cell at `(x, y)`: dead when the coordinates fall off the
    /// board, the stored bit otherwise.
    pub fn get(&self, x: usize, y: usize) -> (r: bool)
        requires
            self.wf(),
        ensures
            r == self.alive(x as int, y as int),
    {
        if x >= self.width || y >= self.height {
            return false;
        }
        proof {
            self.lemma_width_le_bits();
            self.lemma_cell_index(x as int, y as int);
        }
        let bit_index: usize = x % 64;
        let chunk_index: usize = (y * self.stride) + (x / 64);
        if chunk_index >= self.cells.len() {
            return false;
        }
        proof {
            lemma_bit_test(self.cells@[chunk_index as int], bit_index as u64);
        }
        (self.cells[chunk_index] & (1u64 << (bit_index as u64))) != 0
    }

    /// Writes the cell at `(x, y)`; a silent no-op when the coordinates fall
    /// off the board.
    pub fn set(&mut self, x: usize, y: usize, state: bool)
        requires
            old(self).wf(),
        ensures
            final(self).wf(),
            same_shape(*old(self), *final(self)),
            old(self).in_range(x as int, y as int) ==> {
                &&& final(self).cell(x as int, y as int) == state
                &&& cells_eq_except(*old(self), *final(self), x as int, y as int)
                &&& (old(self).padded() ==> final(self).padded())
            },
            !old(self).in_range(x as int, y as int) ==> *final(self) == *old(self),
    {
        if x >= self.width || y >= self.height {
            return;
        }
        proof {
            self.lemma_width_le_bits();
            self.lemma_cell_index(x as int, y as int);
        }
        let bit_index: usize = x % 64;
        let chunk_index: usize = (y * self.stride) + (x / 64);
        if chunk_index >= self.cells.len() {
            return;
        }
        let old_word = self.cells[chunk_index];
        let new_word = if state {
            old_word | (1u64 << (bit_index as u64))
        } else {
            old_word & !(1u64 << (bit_index as u64))
        };
        self.cells.set(chunk_index, new_word);
        proof {
            let g0 = *old(self);
            let g1 = *self;
            let xi = x as int;
            let yi = y as int;
            if state {
                lemma_bit_or(old_word, (xi % 64) as u64, (xi % 64) as u64);
            } else {
                lemma_bit_andnot(old_word, (xi % 64) as u64, (xi % 64) as u64);
            }
            assert forall|i: int, j: int|
                g0.in_range(i, j) && !(i == xi && j == yi) implies g0.cell(i, j) == g1.cell(
                i,
                j,
            ) by {
                g0.lemma_width_le_bits();
                g0.lemma_cell_index(i, j);
                g0.lemma_cell_distinct(i, j, xi, yi);
                if j * g0.stride + i / 64 == chunk_index {
                    if state {
                        lemma_bit_or(old_word, (xi % 64) as u64, (i % 64) as u64);
                    } else {
                        lemma_bit_andnot(old_word, (xi % 64) as u64, (i % 64) as u64);
                    }
                }
            }
            if g0.padded() {
                assert forall|j: int, b: int|
                    0 <= j < g1.height && g1.width <= b < g1.stride * 64 implies !g1.cell(
                    b,
                    j,
                ) by {
                    g0.lemma_cell_index(b, j);
                    g0.lemma_cell_distinct(b, j, xi, yi);
                    assert(!g0.cell(b, j));
                    if j * g0.stride + b / 64 == chunk_index {
                        if state {
                            lemma_bit_or(old_word, (xi % 64) as u64, (b % 64) as u64);
                        } else {
                            lemma_bit_andnot(old_word, (xi % 64) as u64, (b % 64) as u64);
                        }
                    }
                }
            }
        }
    }

    /// Flips the cell at `(x, y)`; a silent no-op when the coordinates fall
    /// off the board.
    pub fn toggle(&mut self, x: usize, y: usize)
        requires
            old(self).wf(),
        ensures
            final(self).wf(),
            same_shape(*old(self), *final(self)),
            old(self).in_range(x as int, y as int) ==> {
                &&& final(self).cell(x as int, y as int) == !old(self).cell(x as int, y as int)
                &&& cells_eq_except(*old(self), *final(self), x as int, y as int)
                &&& (old(self).padded() ==> final(self).padded())
            },
            !old(self).in_range(x as int, y as int) ==> *final(self) == *old(self),
    {
        if x >= self.width || y >= self.height {
            return;
        }
        proof {
            self.lemma_width_le_bits();
            self.lemma_cell_index(x as int, y as int);
        }
        let bit_index: usize = x % 64;
        let chunk_index: usize = (y * self.stride) + (x / 64);
        if chunk_index >= self.cells.len() {
            return;
        }
        let old_word = self.cells[chunk_index];
        let new_word = old_word ^ (1u64 << (bit_index as u64));
        self.cells.set(chunk_index, new_word);
        proof {
            let g0 = *old(self);
            let g1 = *self;
            let xi = x as int;
            let yi = y as int;
            lemma_bit_xor(old_word, (xi % 64) as u64, (xi % 64) as u64);
            assert forall|i: int, j: int|
                g0.in_range(i, j) && !(i == xi && j == yi) implies g0.cell(i, j) == g1.cell(
                i,
                j,
            ) by {
                g0.lemma_width_le_bits();
                g0.lemma_cell_index(i, j);
                g0.lemma_cell_distinct(i, j, xi, yi);
                if j * g0.stride + i / 64 == chunk_index {
                    lemma_bit_xor(old_word, (xi % 64) as u64, (i % 64) as u64);
                }
            }
            if g0.padded() {
                assert forall|j: int, b: int|
                    0 <= j < g1.height && g1.width <= b < g1.stride * 64 implies !g1.cell(
                    b,
                    j,
                ) by {
                    g0.lemma_cell_index(b, j);
                    g0.lemma_cell_distinct(b, j, xi, yi);
                    assert(!g0.cell(b, j));
                    if j * g0.stride + b / 64 == chunk_index {
                        lemma_bit_xor(old_word, (xi % 64) as u64, (b % 64) as u64);
                    }
                }
            }
        }
    }

    /// Kills every cell.
    pub fn clear(&mut self)
        requires
            old(self).wf(),
        ensures
            final(self).wf(),
            same_shape(*old(self), *final(self)),
            forall|x: int, y: int| final(self).in_range(x, y) ==> !final(self).cell(x, y),
            final(self).padded(),
            final(self).grid_pop() == 0,
    {
        let n = self.cells.len();
        let mut k: usize = 0;
        while k < n
            invariant
                old(self).wf(),
                self.width == old(self).width,
                self.height == old(self).height,
                self.stride == old(self).stride,
                self.boundary == old(self).boundary,
                n == self.cells@.len(),
                self.cells@.len() == old(self).cells@.len(),
                k <= n,
                forall|i: int| 0 <= i < k ==> self.cells@[i] == 0u64,
            decreases n - k,
        {
            self.cells.set(k, 0u64);
            k += 1;
        }
        proof {
            let g = *self;
            g.lemma_width_le_bits();
            assert forall|x: int, y: int|
                0 <= y < g.height && 0 <= x < g.stride * 64 implies !g.cell(x, y) by {
                g.lemma_cell_index(x, y);
                lemma_bit_zero((x % 64) as u64);
            }
            lemma_all_zero_pop_total(g.cells@);
        }
    }

    /// Counts the live cells by summing the set bits of every word; on a
    /// padded board this is exactly the population.
    pub fn count_alive(&self) -> (n: usize)
        requires
            self.wf(),
        ensures
            n == self.grid_pop(),
    {
        let mut total: usize = 0;
        let mut k: usize = 0;
        let len = self.cells.len();
        while k < len
            invariant
                self.wf(),
                len == self.cells@.len(),
                k <= len,
                total == pop_total(self.cells@.take(k as int)),
                total <= 64 * k,
            decreases len - k,
        {
            let w = self.cells[k];
            let c = w.count_ones();
            proof {
                lemma_popcnt_le_64(w);
                assert(self.cells@.take(k + 1).drop_last() =~= self.cells@.take(k as int));
                assert(self.cells@.take(k + 1).last() == w);
            }
            total = total + (c as usize);
            k += 1;
        }
        proof {
            assert(self.cells@.take(len as int) =~= self.cells@);
        }
        total
    }
}

/// The survival rule: a live cell stays live with two or three live
/// neighbours, a dead cell comes alive with exactly three, everything else
/// is dead next generation.
pub open spec fn life_rule(alive: bool, n: nat) -> bool {
    if alive {
        n == 2 || n == 3
    } else {
        n == 3
    }
}

/// `next` is the generation after `prev`: same board, and every cell holds
/// the survival rule applied to `prev`'s frozen state.
pub open spec fn is_next(prev: Grid, next: Grid) -> bool {
    &&& same_shape(prev, next)
    &&& next.wf()
    &&& next.padded()
    &&& forall|x: int, y: int|
        next.in_range(x, y) ==> next.cell(x, y) == life_rule(
            prev.cell(x, y),
            prev.neighbor_count_spec(x, y),
        )
}

/// The bit for column `b` in a row of packed words.
pub open spec fn row_bit(row: Seq<u64>, b: int) -> bool {
    bit64(row[b / 64], (b % 64) as u64)
}

/// One word of the successor generation of row `y`, for every cell of the
/// row: the survival rule's bits, and clear padding.
pub open spec fn row_ok(g: Grid, y: int, row: Seq<u64>) -> bool {
    &&& row.len() == g.stride
    &&& forall|x: int|
        0 <= x < g.width ==> row_bit(row, x) == life_rule(
            g.cell(x, y),
            g.neighbor_count_spec(x, y),
        )
    &&& forall|b: int| g.width <= b < g.stride * 64 ==> !row_bit(row, b)
}

/// Distinct bit positions within a row land on distinct words or distinct
/// bits.
proof fn lemma_rowpos_distinct(b: int, x: int)
    requires
        0 <= b,
        0 <= x,
        b != x,
    ensures
        b / 64 != x / 64 || b % 64 != x % 64,
{
    if b / 64 == x / 64 && b % 64 == x % 64 {
        lemma_fundamental_div_mod(b, 64);
        lemma_fundamental_div_mod(x, 64);
    }
}

/// Steps a coordinate by `d` modulo `m`.
fn wrap_offset(v: usize, d: i64, m: usize) -> (r: usize)
    requires
        v < m,
        -1 <= d <= 1,
    ensures
        r == (v + d) % (m as int),
        r < m,
{
    proof {
        if d < 0 && v == 0 {
            lemma_mod_add_multiples_vanish(-1, m as int);
            lemma_small_mod((m - 1) as nat, m as nat);
        } else if d < 0 {
            lemma_small_mod((v - 1) as nat, m as nat);
        } else if d > 0 && v + 1 == m {
            lemma_mod_self_0(m as int);
        } else if d > 0 {
            lemma_small_mod((v + 1) as nat, m as nat);
        } else {
            lemma_small_mod(v as nat, m as nat);
        }
    }
    if d < 0 {
        if v == 0 {
            m - 1
        } else {
            v - 1
        }
    } else if d > 0 {
        if v + 1 == m {
            0
        } else {
            v + 1
        }
    } else {
        v
    }
}

impl Grid {
    /// Whether the Moore neighbour of `(x, y)` in direction `(dx, dy)` is
    /// live, under this board's boundary policy.
    pub open spec fn nbr_alive(self, x: int, y: int, dx: int, dy: int) -> bool {
        match self.boundary {
            BoundaryType::Wrap => self.cell(
                (x + dx) % (self.width as int),
                (y + dy) % (self.height as int),
            ),
            BoundaryType::Fixed => 0 <= x + dx < self.width && 0 <= y + dy < self.height
                && self.cell(x + dx, y + dy),
        }
    }

    pub open spec fn nbr_ind(self, x: int, y: int, dx: int, dy: int) -> nat {
        if self.nbr_alive(x, y, dx, dy) {
            1
        } else {
            0
        }
    }

    /// The number of live cells among the eight Moore neighbours of `(x, y)`.
    pub open spec fn neighbor_count_spec(self, x: int, y: int) -> nat {
        self.nbr_ind(x, y, -1, -1) + self.nbr_ind(x, y, 0, -1) + self.nbr_ind(x, y, 1, -1)
            + self.nbr_ind(x, y, -1, 0) + self.nbr_ind(x, y, 1, 0) + self.nbr_ind(x, y, -1, 1)
            + self.nbr_ind(x, y, 0, 1) + self.nbr_ind(x, y, 1, 1)
    }

    fn neighbor_live(&self, x: usize, y: usize, dx: i64, dy: i64) -> (r: bool)
        requires
            self.wf(),
            x < self.width,
            y < self.height,
            -1 <= dx <= 1,
            -1 <= dy <= 1,
        ensures
            r == self.nbr_alive(x as int, y as int, dx as int, dy as int),
    {
        match self.boundary {
            BoundaryType::Wrap => {
                let nx = wrap_offset(x, dx, self.width);
                let ny = wrap_offset(y, dy, self.height);
                self.get(nx, ny)
            },
            BoundaryType::Fixed => {
                if dx < 0 && x == 0 {
                    return false;
                }
                if dx > 0 && x + 1 == self.width {
                    return false;
                }
                if dy < 0 && y == 0 {
                    return false;
                }
                if dy > 0 && y + 1 == self.height {
                    return false;
                }
                let nx = if dx < 0 {
                    x - 1
                } else if dx > 0 {
                    x + 1
                } else {
                    x
                };
                let ny = if dy < 0 {
                    y - 1
                } else if dy > 0 {
                    y + 1
                } else {
                    y
                };
                self.get(nx, ny)
            },
        }
    }

    /// Counts the live Moore neighbours of the cell at `(x, y)` under this
    /// board's boundary policy.
    pub fn count_neighbors(&self, x: usize, y: usize) -> (n: u8)
        requires
            self.wf(),
            x < self.width,
            y < self.height,
        ensures
            n == self.neighbor_count_spec(x as int, y as int),
            n <= 8,
    {
        let mut count: u8 = 0;
        if self.neighbor_live(x, y, -1, -1) {
            count += 1;
        }
        if self.neighbor_live(x, y, 0, -1) {
            count += 1;
        }
        if self.neighbor_live(x, y, 1, -1) {
            count += 1;
        }
        if self.neighbor_live(x, y, -1, 0) {
            count += 1;
        }
        if self.neighbor_live(x, y, 1, 0) {
            count += 1;
        }
        if self.neighbor_live(x, y, -1, 1) {
            count += 1;
        }
        if self.neighbor_live(x, y, 0, 1) {
            count += 1;
        }
        if self.neighbor_live(x, y, 1, 1) {
            count += 1;
        }
        count
    }

    /// Computes the successor words of row `y` from the frozen current state.
    pub fn next_row(&self, y: usize) -> (row: Vec<u64>)
        requires
            self.wf(),
            y < self.height,
        ensures
            row_ok(*self, y as int, row@),
    {
        let mut row: Vec<u64> = Vec::new();
        let mut k: usize = 0;
        while k < self.stride
            invariant
                k <= self.stride,
                row@.len() == k,
                forall|i: int| 0 <= i < k ==> row@[i] == 0u64,
            decreases self.stride - k,
        {
            row.push(0u64);
            k += 1;
        }
        proof {
            self.lemma_width_le_bits();
            assert forall|b: int| 0 <= b < self.stride * 64 implies !row_bit(row@, b) by {
                self.lemma_cell_index(b, y as int);
                lemma_bit_zero((b % 64) as u64);
            }
        }
        let mut x: usize = 0;
        while x < self.width
            invariant
                self.wf(),
                y < self.height,
                x <= self.width,
                row@.len() == self.stride,
                forall|i: int|
                    0 <= i < x ==> row_bit(row@, i) == life_rule(
                        self.cell(i, y as int),
                        self.neighbor_count_spec(i, y as int),
                    ),
                forall|b: int| x <= b < self.stride * 64 ==> !row_bit(row@, b),
            decreases self.width - x,
        {
            proof {
                self.lemma_width_le_bits();
                self.lemma_cell_index(x as int, y as int);
            }
            let neighbors = self.count_neighbors(x, y);
            let alive = self.get(x, y);
            let will_be_alive = if alive {
                neighbors == 2 || neighbors == 3
            } else {
                neighbors == 3
            };
            if will_be_alive {
                let wi = x / 64;
                let old_word = row[wi];
                let new_word = old_word | (1u64 << ((x % 64) as u64));
                let ghost pre = row@;
                row.set(wi, new_word);
                proof {
                    let xi = x as int;
                    lemma_bit_or(old_word, (xi % 64) as u64, (xi % 64) as u64);
                    assert forall|i: int| 0 <= i < xi implies row_bit(row@, i) == life_rule(
                        self.cell(i, y as int),
                        self.neighbor_count_spec(i, y as int),
                    ) by {
                        self.lemma_cell_index(i, y as int);
                        lemma_rowpos_distinct(i, xi);
                        if i / 64 == wi {
                            lemma_bit_or(old_word, (xi % 64) as u64, (i % 64) as u64);
                        }
                        assert(row_bit(pre, i) == life_rule(
                            self.cell(i, y as int),
                            self.neighbor_count_spec(i, y as int),
                        ));
                    }
                    assert forall|b: int|
                        xi + 1 <= b < self.stride * 64 implies !row_bit(row@, b) by {
                        self.lemma_cell_index(b, y as int);
                        lemma_rowpos_distinct(b, xi);
                        if b / 64 == wi {
                            lemma_bit_or(old_word, (xi % 64) as u64, (b % 64) as u64);
                        }
                        assert(!row_bit(pre, b));
                    }
                }
            }
            x += 1;
        }
        row
    }

    /// Relies on rayon's `ParallelIterator::map` and `collect`: collecting a
    /// mapped indexed parallel iterator into a `Vec` yields exactly the
    /// mapped results, in index order. The closure only calls the verified
    /// `next_row`, whose contract gives `row_ok` for each row.
    #[verifier::external_body]
    fn par_next_rows(&self) -> (rows: Vec<Vec<u64>>)
        requires
            self.wf(),
        ensures
            rows@.len() == self.height,
            forall|y: int| 0 <= y < self.height ==> row_ok(*self, y, rows@[y]@),
    {
        (0..self.height).into_par_iter().map(|y| self.next_row(y)).collect()
    }

    /// Advances the board one generation: every cell's successor is computed
    /// from the frozen current state (per-row work fans out to a thread
    /// pool), and only then does the new array replace the old one.
    pub fn update(&mut self)
        requires
            old(self).wf(),
        ensures
            final(self).wf(),
            is_next(*old(self), *final(self)),
    {
        let rows = self.par_next_rows();
        let mut new_cells: Vec<u64> = Vec::new();
        let height = self.height;
        let stride = self.stride;
        let mut y: usize = 0;
        while y < height
            invariant
                *self == *old(self),
                self.wf(),
                height == self.height,
                stride == self.stride,
                rows@.len() == self.height,
                forall|yy: int| 0 <= yy < self.height ==> row_ok(*self, yy, rows@[yy]@),
                y <= height,
                new_cells@.len() == y * stride,
                forall|yy: int, wx: int|
                    0 <= yy < y && 0 <= wx < stride ==> new_cells@[yy * stride + wx]
                        == rows@[yy]@[wx],
            decreases height - y,
        {
            let row = &rows[y];
            let mut wx: usize = 0;
            while wx < stride
                invariant
                    *self == *old(self),
                    self.wf(),
                    height == self.height,
                    stride == self.stride,
                    rows@.len() == self.height,
                    forall|yy: int| 0 <= yy < self.height ==> row_ok(*self, yy, rows@[yy]@),
                    y < height,
                    row == rows@[y as int],
                    wx <= stride,
                    new_cells@.len() == y * stride + wx,
                    forall|yy: int, wxx: int|
                        0 <= yy < y && 0 <= wxx < stride ==> new_cells@[yy * stride + wxx]
                            == rows@[yy]@[wxx],
                    forall|wxx: int|
                        0 <= wxx < wx ==> new_cells@[y * stride + wxx] == rows@[y as int]@[wxx],
                decreases stride - wx,
            {
                proof {
                    assert(row@.len() == stride);
                    assert(y * stride + wx < (y + 1) * stride <= height * stride) by (
                    nonlinear_arith)
                        requires
                            0 <= wx < stride,
                            0 <= y < height,
                    ;
                    assert(height * stride == self.cells@.len()) by (nonlinear_arith)
                        requires
                            self.cells@.len() == self.stride * self.height,
                            height == self.height,
                            stride == self.stride,
                    ;
                }
                new_cells.push(row[wx]);
                proof {
                    assert forall|yy: int, wxx: int|
                        0 <= yy < y && 0 <= wxx < stride implies new_cells@[yy * stride + wxx]
                        == rows@[yy]@[wxx] by {
                        assert(yy * stride + wxx < y * stride) by (nonlinear_arith)
                            requires
                                0 <= yy < y,
                                0 <= wxx < stride,
                        ;
                    }
                }
                wx += 1;
            }
            proof {
                assert((y + 1) * stride == y * stride + stride) by (nonlinear_arith);
            }
            y += 1;
        }
        self.cells = new_cells;
        proof {
            let g0 = *old(self);
            let g1 = *self;
            assert(g1.cells@.len() == g1.stride * g1.height) by (nonlinear_arith)
                requires
                    g1.cells@.len() == height * stride,
                    height == g1.height,
                    stride == g1.stride,
            ;
            g0.lemma_width_le_bits();
            assert forall|x: int, yy: int|
                0 <= yy < g1.height && 0 <= x < g1.stride * 64 implies g1.cell(x, yy) == row_bit(
                rows@[yy]@,
                x,
            ) by {
                g0.lemma_cell_index(x, yy);
                assert(g1.cells@[yy * stride + x / 64] == rows@[yy]@[x / 64]);
            }
            assert forall|x: int, yy: int| g1.in_range(x, yy) implies g1.cell(x, yy) == life_rule(
                g0.cell(x, yy),
                g0.neighbor_count_spec(x, yy),
            ) by {
                assert(row_ok(g0, yy, rows@[yy]@));
            }
            assert forall|yy: int, b: int|
                0 <= yy < g1.height && g1.width <= b < g1.stride * 64 implies !g1.cell(b, yy) by {
                assert(row_ok(g0, yy, rows@[yy]@));
            }
        }
    }
    /// Kills every cell of the `w` by `h` box anchored at `(x, y)`; parts of
    /// the box that fall off the board are skipped.
    pub fn clear_box(&mut self, x: usize, y: usize, w: usize, h: usize)
        requires
            old(self).wf(),
            x + w <= usize::MAX,
            y + h <= usize::MAX,
        ensures
            final(self).wf(),
            same_shape(*old(self), *final(self)),
            old(self).padded() ==> final(self).padded(),
            forall|i: int, j: int|
                final(self).in_range(i, j) ==> final(self).cell(i, j) == (if x <= i < x + w && y
                    <= j < y + h {
                    false
                } else {
                    old(self).cell(i, j)
                }),
    {
        let mut dy: usize = 0;
        while dy < h
            invariant
                self.wf(),
                same_shape(*old(self), *self),
                old(self).padded() ==> self.padded(),
                x + w <= usize::MAX,
                y + h <= usize::MAX,
                dy <= h,
                forall|i: int, j: int|
                    self.in_range(i, j) ==> self.cell(i, j) == (if x <= i < x + w && y <= j < y
                        + dy {
                        false
                    } else {
                        old(self).cell(i, j)
                    }),
            decreases h - dy,
        {
            let mut dx: usize = 0;
            while dx < w
                invariant
                    self.wf(),
                    same_shape(*old(self), *self),
                    old(self).padded() ==> self.padded(),
                    x + w <= usize::MAX,
                    y + h <= usize::MAX,
                    dy < h,
                    dx <= w,
                    forall|i: int, j: int|
                        self.in_range(i, j) ==> self.cell(i, j) == (if (x <= i < x + w && y <= j
                            < y + dy) || (j == y + dy && x <= i < x + dx) {
                            false
                        } else {
                            old(self).cell(i, j)
                        }),
                decreases w - dx,
            {
                self.set(x + dx, y + dy, false);
                dx += 1;
            }
            dy += 1;
        }
    }

    /// Fills the board with random cells; each cell is drawn independently,
    /// live when the draw falls below `density_permille` out of 1000.
    pub fn randomize(&mut self, density_permille: u32)
        requires
            old(self).wf(),
        ensures
            final(self).wf(),
            same_shape(*old(self), *final(self)),
            old(self).padded() ==> final(self).padded(),
            density_permille == 0 ==> forall|i: int, j: int|
                final(self).in_range(i, j) ==> !final(self).cell(i, j),
            density_permille >= 1000 ==> forall|i: int, j: int|
                final(self).in_range(i, j) ==> final(self).cell(i, j),
    {
        let mut rng = fresh_rng();
        let mut y: usize = 0;
        while y < self.height
            invariant
                self.wf(),
                same_shape(*old(self), *self),
                old(self).padded() ==> self.padded(),
                y <= self.height,
                density_permille == 0 ==> forall|i: int, j: int|
                    self.in_range(i, j) && j < y ==> !self.cell(i, j),
                density_permille >= 1000 ==> forall|i: int, j: int|
                    self.in_range(i, j) && j < y ==> self.cell(i, j),
            decreases self.height - y,
        {
            let mut x: usize = 0;
            while x < self.width
                invariant
                    self.wf(),
                    same_shape(*old(self), *self),
                    old(self).padded() ==> self.padded(),
                    y < self.height,
                    x <= self.width,
                    density_permille == 0 ==> forall|i: int, j: int|
                        self.in_range(i, j) && (j < y || (j == y && i < x)) ==> !self.cell(i, j),
                    density_permille >= 1000 ==> forall|i: int, j: int|
                        self.in_range(i, j) && (j < y || (j == y && i < x)) ==> self.cell(i, j),
                decreases self.width - x,
            {
                let draw = rand_below(&mut rng, 1000);
                let alive = draw < density_permille as usize;
                self.set(x, y, alive);
                x += 1;
            }
            y += 1;
        }
    }

    /// Whether `(dx, dy)` is one of the five live offsets of the glider.
    pub open spec fn glider_offset(dx: int, dy: int) -> bool {
        (dx == 1 && dy == 0) || (dx == 2 && dy == 1) || (dx == 0 && dy == 2) || (dx == 1 && dy
            == 2) || (dx == 2 && dy == 2)
    }

    /// Places a glider whose 3 by 3 bounding box is anchored at `(x, y)`,
    /// clearing that box first; a silent no-op when the box does not fit.
    pub fn place_glider(&mut self, x: usize, y: usize)
        requires
            old(self).wf(),
        ensures
            final(self).wf(),
            same_shape(*old(self), *final(self)),
            old(self).padded() ==> final(self).padded(),
            x + 2 >= old(self).width || y + 2 >= old(self).height ==> *final(self) == *old(self),
            x + 2 < old(self).width && y + 2 < old(self).height ==> forall|i: int, j: int|
                final(self).in_range(i, j) ==> final(self).cell(i, j) == (if x <= i < x + 3 && y
                    <= j < y + 3 {
                    Self::glider_offset(i - x, j - y)
                } else {
                    old(self).cell(i, j)
                }),
    {
        if self.width < 3 || self.height < 3 || x >= self.width - 2 || y >= self.height - 2 {
            return;
        }
        self.clear_box(x, y, 3, 3);
        self.set(x + 1, y, true);
        self.set(x + 2, y + 1, true);
        self.set(x, y + 2, true);
        self.set(x + 1, y + 2, true);
        self.set(x + 2, y + 2, true);
    }

    /// Fills the 4 by 4 box anchored at `(x, y)` with random cells; a silent
    /// no-op when the box does not fit, and cells outside the box are kept.
    pub fn place_random_pattern(&mut self, x: usize, y: usize)
        requires
            old(self).wf(),
        ensures
            final(self).wf(),
            same_shape(*old(self), *final(self)),
            old(self).padded() ==> final(self).padded(),
            x + 3 >= old(self).width || y + 3 >= old(self).height ==> *final(self) == *old(self),
            forall|i: int, j: int|
                final(self).in_range(i, j) && !(x <= i < x + 4 && y <= j < y + 4)
                    ==> final(self).cell(i, j) == old(self).cell(i, j),
    {
        if self.width < 4 || self.height < 4 || x >= self.width - 3 || y >= self.height - 3 {
            return;
        }
        let mut rng = fresh_rng();
        let mut dy: usize = 0;
        while dy < 4
            invariant
                self.wf(),
                same_shape(*old(self), *self),
                old(self).padded() ==> self.padded(),
                dy <= 4,
                x + 4 <= usize::MAX,
                y + 4 <= usize::MAX,
                forall|i: int, j: int|
                    self.in_range(i, j) && !(x <= i < x + 4 && y <= j < y + 4) ==> self.cell(i, j)
                        == old(self).cell(i, j),
            decreases 4 - dy,
        {
            let mut dx: usize = 0;
            while dx < 4
                invariant
                    self.wf(),
                    same_shape(*old(self), *self),
                    old(self).padded() ==> self.padded(),
                    dy < 4,
                    dx <= 4,
                    x + 4 <= usize::MAX,
                    y + 4 <= usize::MAX,
                    forall|i: int, j: int|
                        self.in_range(i, j) && !(x <= i < x + 4 && y <= j < y + 4) ==> self.cell(
                            i,
                            j,
                        ) == old(self).cell(i, j),
                decreases 4 - dx,
            {
                let draw = rand_below(&mut rng, 1000);
                let alive = draw < 400;
                self.set(x + dx, y + dy, alive);
                dx += 1;
            }
            dy += 1;
        }
    }
}

/// A sequence of all-zero words holds no set bits.
pub proof fn lemma_all_zero_pop_total(ws: Seq<u64>)
    requires
        forall|i: int| 0 <= i < ws.len() ==> ws[i] == 0u64,
    ensures
        pop_total(ws) == 0,
    decreases ws.len(),
{
    if ws.len() > 0 {
        lemma_all_zero_pop_total(ws.drop_last());
        lemma_popcnt_zero(ws.last());
    }
}

} // verus!
