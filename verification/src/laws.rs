//! Laws of the simulation engine: the generation step is deterministic, an
//! empty board stays empty, a lone block is a still life, the blinker
//! oscillates with period two, the boundary policies count edge neighbours
//! as stated, and the stored population is exactly the number of live
//! cells.

use vstd::prelude::*;
use vstd::arithmetic::div_mod::{
    lemma_fundamental_div_mod, lemma_fundamental_div_mod_converse, lemma_mod_bound,
    lemma_small_mod, lemma_mod_add_multiples_vanish,
};

use crate::analyzer::{live_upto, row_live_upto};
use crate::config::BoundaryType;
use crate::grid::{
    Grid, bit64, popcnt64, pop_total, is_next, same_shape, life_rule, lemma_word_eq,
    lemma_bit_zero, lemma_pop_total_zero, lemma_all_zero_pop_total,
};

verus! {

/// The number of set bits of `w` among positions `0 .. k`.
pub open spec fn count_bits(w: u64, k: int) -> nat
    decreases k,
{
    if k <= 0 {
        0
    } else {
        count_bits(w, k - 1) + (if bit64(w, (k - 1) as u64) {
            1nat
        } else {
            0nat
        })
    }
}

/// Splitting off bit zero: the set bits among positions `0 .. k` are bit
/// zero plus the set bits of the shifted word among `0 .. k - 1`.
proof fn lemma_count_bits_shift(w: u64, k: int)
    requires
        1 <= k <= 64,
    ensures
        count_bits(w, k) == (if bit64(w, 0) {
            1nat
        } else {
            0nat
        }) + count_bits(w / 2, k - 1),
    decreases k,
{
    if k == 1 {
        assert(count_bits(w, 0) == 0);
        assert(count_bits(w / 2, 0) == 0);
    } else {
        lemma_count_bits_shift(w, k - 1);
        let j = (k - 2) as u64;
        assert(bit64(w / 2, j) == bit64(w, (j + 1) as u64)) by (bit_vector)
            requires
                j < 63,
        ;
        assert((j + 1) as u64 == (k - 1) as u64);
        assert(j == (k - 2) as u64);
        assert(count_bits(w, k) == count_bits(w, k - 1) + (if bit64(w, (k - 1) as u64) {
            1nat
        } else {
            0nat
        }));
        assert(count_bits(w / 2, k - 1) == count_bits(w / 2, k - 2) + (if bit64(
            w / 2,
            (k - 2) as u64,
        ) {
            1nat
        } else {
            0nat
        }));
    }
}

/// A word's population count is the number of its 64 set bit positions.
proof fn lemma_popcnt_is_count_bits(w: u64)
    ensures
        popcnt64(w) == count_bits(w, 64),
    decreases w,
{
    if w == 0 {
        assert forall|k: int| 0 <= k <= 64 implies count_bits(0u64, k) == 0 by {
            lemma_count_bits_zero(k);
        }
    } else {
        lemma_popcnt_is_count_bits(w / 2);
        assert(bit64(w, 0) == (w % 2 == 1)) by (bit_vector);
        assert(!bit64(w / 2, 63)) by (bit_vector);
        lemma_count_bits_shift(w, 64);
        assert(count_bits(w / 2, 64) == count_bits(w / 2, 63));
    }
}

proof fn lemma_count_bits_zero(k: int)
    requires
        k <= 64,
    ensures
        count_bits(0u64, k) == 0,
    decreases k,
{
    if k > 0 {
        lemma_count_bits_zero(k - 1);
        lemma_bit_zero((k - 1) as u64);
    }
}

/// Counting a word's bit prefix counts the row's live cells it stores.
proof fn lemma_word_live(g: Grid, y: int, wx: int, k: int)
    requires
        g.wf(),
        g.padded(),
        0 <= y < g.height,
        0 <= wx < g.stride,
        0 <= k <= 64,
    ensures
        row_live_upto(g, y, wx * 64 + k) == row_live_upto(g, y, wx * 64) + count_bits(
            g.cells@[y * g.stride + wx],
            k,
        ),
    decreases k,
{
    if k > 0 {
        lemma_word_live(g, y, wx, k - 1);
        let col = wx * 64 + (k - 1);
        assert(0 <= col < g.stride * 64) by (nonlinear_arith)
            requires
                0 <= wx < g.stride,
                0 <= k - 1 < 64,
                col == wx * 64 + (k - 1),
        ;
        g.lemma_width_le_bits();
        g.lemma_cell_index(col, y);
        lemma_fundamental_div_mod_converse(col, 64, wx, k - 1);
        assert(col / 64 == wx && col % 64 == k - 1);
        if col < g.width {
            assert(g.alive(col, y) == bit64(g.cells@[y * g.stride + wx], (k - 1) as u64));
        } else {
            assert(!g.cell(col, y));
            assert(!g.alive(col, y));
            assert(!bit64(g.cells@[y * g.stride + wx], (k - 1) as u64));
        }
    }
}

/// The summed population counts of the first `upto_wx` words of row `y`.
pub open spec fn row_words_pop(g: Grid, y: int, upto_wx: int) -> nat
    decreases upto_wx,
{
    if upto_wx <= 0 {
        0
    } else {
        row_words_pop(g, y, upto_wx - 1) + popcnt64(g.cells@[y * g.stride + (upto_wx - 1)])
    }
}

/// The summed population counts of a row's word prefix count the row's
/// live cells.
proof fn lemma_row_pop(g: Grid, y: int, upto_wx: int)
    requires
        g.wf(),
        g.padded(),
        0 <= y < g.height,
        0 <= upto_wx <= g.stride,
    ensures
        row_live_upto(g, y, upto_wx * 64) == row_words_pop(g, y, upto_wx),
    decreases upto_wx,
{
    if upto_wx > 0 {
        lemma_row_pop(g, y, upto_wx - 1);
        lemma_word_live(g, y, upto_wx - 1, 64);
        lemma_popcnt_is_count_bits(g.cells@[y * g.stride + (upto_wx - 1)]);
        assert((upto_wx - 1) * 64 + 64 == upto_wx * 64) by (nonlinear_arith);
    }
}

/// A row has no live cells beyond the board's width.
proof fn lemma_row_live_beyond(g: Grid, y: int, ux: int)
    requires
        g.wf(),
        0 <= y,
        g.width <= ux,
    ensures
        row_live_upto(g, y, ux) == row_live_upto(g, y, g.width as int),
    decreases ux,
{
    if ux > g.width {
        lemma_row_live_beyond(g, y, ux - 1);
        assert(!g.alive(ux - 1, y));
    }
}

/// The summed population counts of a prefix of the word array.
pub open spec fn pop_upto(ws: Seq<u64>, k: int) -> nat
    decreases k,
{
    if k <= 0 {
        0
    } else {
        pop_upto(ws, k - 1) + popcnt64(ws[k - 1])
    }
}

proof fn lemma_pop_upto_prefix(a: Seq<u64>, b: Seq<u64>, k: int)
    requires
        0 <= k <= a.len(),
        a.len() <= b.len(),
        forall|i: int| 0 <= i < a.len() ==> a[i] == b[i],
    ensures
        pop_upto(a, k) == pop_upto(b, k),
    decreases k,
{
    if k > 0 {
        lemma_pop_upto_prefix(a, b, k - 1);
    }
}

proof fn lemma_pop_total_is_upto(ws: Seq<u64>)
    ensures
        pop_total(ws) == pop_upto(ws, ws.len() as int),
    decreases ws.len(),
{
    if ws.len() > 0 {
        lemma_pop_total_is_upto(ws.drop_last());
        lemma_pop_upto_prefix(ws.drop_last(), ws, ws.len() - 1);
    }
}

/// The word-array prefix of a row block sums that row's word populations.
proof fn lemma_pop_row_block(g: Grid, y: int, j: int)
    requires
        g.wf(),
        0 <= y < g.height,
        0 <= j <= g.stride,
    ensures
        pop_upto(g.cells@, y * g.stride + j) == pop_upto(g.cells@, y * g.stride) + row_words_pop(
            g,
            y,
            j,
        ),
    decreases j,
{
    if j > 0 {
        lemma_pop_row_block(g, y, j - 1);
    }
}

/// The summed population counts of the first `uy` row blocks count the
/// live cells of those rows.
proof fn lemma_pop_live(g: Grid, uy: int)
    requires
        g.wf(),
        g.padded(),
        0 <= uy <= g.height,
    ensures
        pop_upto(g.cells@, uy * g.stride) == live_upto(g, uy),
    decreases uy,
{
    if uy == 0 {
        assert(uy * g.stride == 0) by (nonlinear_arith)
            requires
                uy == 0,
        ;
        assert(pop_upto(g.cells@, 0) == 0);
        assert(live_upto(g, 0) == 0);
    } else {
        lemma_pop_live(g, uy - 1);
        lemma_pop_row_block(g, uy - 1, g.stride as int);
        lemma_row_pop(g, uy - 1, g.stride as int);
        g.lemma_width_le_bits();
        lemma_row_live_beyond(g, uy - 1, (g.stride as int) * 64);
        assert((uy - 1) * g.stride + g.stride == uy * g.stride) by (nonlinear_arith);
        assert(live_upto(g, uy) == live_upto(g, uy - 1) + row_live_upto(g, uy - 1, g.width as int));
        assert(pop_upto(g.cells@, uy * g.stride) == pop_upto(g.cells@, (uy - 1) * g.stride)
            + row_words_pop(g, uy - 1, g.stride as int));
        assert(row_live_upto(g, uy - 1, (g.stride as int) * 64) == row_words_pop(
            g,
            uy - 1,
            g.stride as int,
        ));
    }
}

/// On a padded board the stored population — what `count_alive` returns —
/// is exactly the number of live cells.
pub proof fn lemma_population_is_live_cells(g: Grid)
    requires
        g.wf(),
        g.padded(),
    ensures
        g.grid_pop() == live_upto(g, g.height as int),
{
    lemma_pop_total_is_upto(g.cells@);
    lemma_pop_live(g, g.height as int);
    assert(g.height * g.stride == g.stride * g.height) by (nonlinear_arith);
}

/// Decomposes a word index into its row and its word-in-row position.
proof fn lemma_word_index_decompose(g: Grid, widx: int)
    requires
        g.wf(),
        0 <= widx < g.cells@.len(),
    ensures
        0 <= widx / (g.stride as int) < g.height,
        0 <= widx % (g.stride as int) < g.stride,
        (widx / (g.stride as int)) * (g.stride as int) + widx % (g.stride as int) == widx,
{
    let s = g.stride as int;
    lemma_fundamental_div_mod(widx, s);
    lemma_mod_bound(widx, s);
    assert(widx / s < g.height) by (nonlinear_arith)
        requires
            widx < s * g.height,
            widx == s * (widx / s) + widx % s,
            0 <= widx % s < s,
            0 < s,
    ;
    assert(0 <= widx / s) by (nonlinear_arith)
        requires
            0 <= widx,
            widx == s * (widx / s) + widx % s,
            0 <= widx % s < s,
            0 < s,
    ;
}

/// Bit `j` of the word at `widx` stores the cell in that word's row at
/// column `(widx % stride) * 64 + j`.
proof fn lemma_word_bit_is_cell(g: Grid, widx: int, j: u64)
    requires
        g.wf(),
        0 <= widx < g.cells@.len(),
        j < 64,
    ensures
        0 <= widx / (g.stride as int) < g.height,
        0 <= (widx % (g.stride as int)) * 64 + j < g.stride * 64,
        bit64(g.cells@[widx], j) == g.cell(
            (widx % (g.stride as int)) * 64 + j,
            widx / (g.stride as int),
        ),
{
    let s = g.stride as int;
    lemma_word_index_decompose(g, widx);
    let y = widx / s;
    let wx = widx % s;
    let x = wx * 64 + j;
    assert(0 <= x < s * 64) by (nonlinear_arith)
        requires
            0 <= wx < s,
            0 <= j < 64,
            x == wx * 64 + j,
    ;
    lemma_fundamental_div_mod_converse(x, 64, wx, j as int);
    assert(x / 64 == wx && x % 64 == j);
    assert(y * s + x / 64 == widx);
}

/// Determinism of the generation step: two successors of one board agree
/// word for word (and so cell for cell).
pub proof fn lemma_update_deterministic(a: Grid, b: Grid, c: Grid)
    requires
        a.wf(),
        is_next(a, b),
        is_next(a, c),
    ensures
        same_shape(b, c),
        b.cells@ == c.cells@,
{
    assert(b.cells@.len() == c.cells@.len());
    assert forall|widx: int| 0 <= widx < b.cells@.len() implies b.cells@[widx] == c.cells@[widx] by {
        assert forall|j: u64| j < 64 implies bit64(b.cells@[widx], j) == bit64(
            c.cells@[widx],
            j,
        ) by {
            lemma_word_bit_is_cell(b, widx, j);
            lemma_word_bit_is_cell(c, widx, j);
            let s = b.stride as int;
            let x = (widx % s) * 64 + j;
            let y = widx / s;
            if x < b.width {
                assert(b.cell(x, y) == life_rule(a.cell(x, y), a.neighbor_count_spec(x, y)));
                assert(c.cell(x, y) == life_rule(a.cell(x, y), a.neighbor_count_spec(x, y)));
            } else {
                assert(!b.cell(x, y));
                assert(!c.cell(x, y));
            }
        }
        lemma_word_eq(b.cells@[widx], c.cells@[widx]);
    }
    assert(b.cells@ =~= c.cells@);
}

/// A board whose in-range cells are all dead and whose padding is clear
/// stores only zero words.
proof fn lemma_dead_grid_words(g: Grid)
    requires
        g.wf(),
        g.padded(),
        forall|x: int, y: int| g.in_range(x, y) ==> !g.cell(x, y),
    ensures
        forall|i: int| 0 <= i < g.cells@.len() ==> g.cells@[i] == 0u64,
{
    assert forall|i: int| 0 <= i < g.cells@.len() implies g.cells@[i] == 0u64 by {
        assert forall|j: u64| j < 64 implies bit64(g.cells@[i], j) == bit64(0u64, j) by {
            lemma_word_bit_is_cell(g, i, j);
            lemma_bit_zero(j);
        }
        lemma_word_eq(g.cells@[i], 0u64);
    }
}

/// Extinction is absorbing: once the population is zero, the next
/// generation's population is zero as well.
pub proof fn lemma_extinction_absorbing(a: Grid, b: Grid)
    requires
        a.wf(),
        a.grid_pop() == 0,
        is_next(a, b),
    ensures
        b.grid_pop() == 0,
{
    lemma_pop_total_zero(a.cells@);
    assert forall|x: int, y: int| 0 <= y < a.height && 0 <= x < a.stride * 64 implies !a.cell(
        x,
        y,
    ) by {
        a.lemma_cell_index(x, y);
        lemma_bit_zero((x % 64) as u64);
    }
    assert forall|x: int, y: int| b.in_range(x, y) implies !b.cell(x, y) by {
        a.lemma_width_le_bits();
        assert(a.neighbor_count_spec(x, y) == 0) by {
            assert forall|dx: int, dy: int|
                -1 <= dx <= 1 && -1 <= dy <= 1 implies !a.nbr_alive(x, y, dx, dy) by {
                match a.boundary {
                    BoundaryType::Wrap => {
                        lemma_mod_bound(x + dx, a.width as int);
                        lemma_mod_bound(y + dy, a.height as int);
                    },
                    BoundaryType::Fixed => {},
                }
            }
        }
        assert(b.cell(x, y) == life_rule(a.cell(x, y), a.neighbor_count_spec(x, y)));
    }
    lemma_dead_grid_words(b);
    lemma_all_zero_pop_total(b.cells@);
}

/// A coordinate one step out of `[0, m)` folded back into range.
pub open spec fn wrap1(v: int, m: int) -> int {
    if v < 0 {
        v + m
    } else if v >= m {
        v - m
    } else {
        v
    }
}

proof fn lemma_wrap_range(v: int, m: int)
    requires
        0 < m,
        -1 <= v <= m,
    ensures
        v % m == wrap1(v, m),
        0 <= wrap1(v, m) < m,
{
    if v < 0 {
        lemma_mod_add_multiples_vanish(v, m);
        lemma_small_mod((v + m) as nat, m as nat);
    } else if v >= m {
        lemma_mod_add_multiples_vanish(v - m, m);
        lemma_small_mod((v - m) as nat, m as nat);
    } else {
        lemma_small_mod(v as nat, m as nat);
    }
}

/// Whether `(i, j)` lies in the `w` by `h` box anchored at `(bx, by)`.
pub open spec fn in_box(bx: int, by: int, w: int, h: int, i: int, j: int) -> bool {
    bx <= i < bx + w && by <= j < by + h
}

/// On a board that holds exactly one live box, clear of the edge by one dead
/// ring, a cell's neighbour in direction `(dx, dy)` is live exactly when the
/// unwrapped neighbour coordinate lies in the box — under either boundary.
proof fn lemma_box_nbr(
    g: Grid,
    bx: int,
    by: int,
    w: int,
    h: int,
    i: int,
    j: int,
    dx: int,
    dy: int,
)
    requires
        g.wf(),
        1 <= w,
        1 <= h,
        1 <= bx,
        1 <= by,
        bx + w + 1 <= g.width,
        by + h + 1 <= g.height,
        forall|a: int, b: int| g.in_range(a, b) ==> g.cell(a, b) == in_box(bx, by, w, h, a, b),
        g.in_range(i, j),
        -1 <= dx <= 1,
        -1 <= dy <= 1,
    ensures
        g.nbr_alive(i, j, dx, dy) == in_box(bx, by, w, h, i + dx, j + dy),
{
    match g.boundary {
        BoundaryType::Wrap => {
            lemma_wrap_range(i + dx, g.width as int);
            lemma_wrap_range(j + dy, g.height as int);
            let nx = wrap1(i + dx, g.width as int);
            let ny = wrap1(j + dy, g.height as int);
            assert(g.cell(nx, ny) == in_box(bx, by, w, h, nx, ny));
        },
        BoundaryType::Fixed => {},
    }
}

/// Still-life invariance of the block: a board holding exactly one 2 by 2
/// live block, clear of the edge by a dead ring, is unchanged by a
/// generation step.
pub proof fn lemma_block_still_life(g: Grid, h: Grid, bx: int, by: int)
    requires
        g.wf(),
        is_next(g, h),
        1 <= bx,
        1 <= by,
        bx + 3 <= g.width,
        by + 3 <= g.height,
        forall|i: int, j: int| g.in_range(i, j) ==> g.cell(i, j) == in_box(bx, by, 2, 2, i, j),
    ensures
        forall|i: int, j: int| h.in_range(i, j) ==> h.cell(i, j) == g.cell(i, j),
{
    assert forall|i: int, j: int| h.in_range(i, j) implies h.cell(i, j) == g.cell(i, j) by {
        lemma_box_nbr(g, bx, by, 2, 2, i, j, -1, -1);
        lemma_box_nbr(g, bx, by, 2, 2, i, j, 0, -1);
        lemma_box_nbr(g, bx, by, 2, 2, i, j, 1, -1);
        lemma_box_nbr(g, bx, by, 2, 2, i, j, -1, 0);
        lemma_box_nbr(g, bx, by, 2, 2, i, j, 1, 0);
        lemma_box_nbr(g, bx, by, 2, 2, i, j, -1, 1);
        lemma_box_nbr(g, bx, by, 2, 2, i, j, 0, 1);
        lemma_box_nbr(g, bx, by, 2, 2, i, j, 1, 1);
        assert(h.cell(i, j) == life_rule(g.cell(i, j), g.neighbor_count_spec(i, j)));
        assert(g.cell(i, j) == in_box(bx, by, 2, 2, i, j));
    }
}

/// One step of the blinker: a lone horizontal 3-cell row, clear of the edge,
/// becomes the lone vertical 3-cell column through its middle cell.
pub proof fn lemma_blinker_step_horizontal(g: Grid, h: Grid, bx: int, by: int)
    requires
        g.wf(),
        is_next(g, h),
        1 <= bx,
        1 <= by,
        bx + 4 <= g.width,
        by + 2 <= g.height,
        forall|i: int, j: int| g.in_range(i, j) ==> g.cell(i, j) == in_box(bx, by, 3, 1, i, j),
    ensures
        forall|i: int, j: int|
            h.in_range(i, j) ==> h.cell(i, j) == in_box(bx + 1, by - 1, 1, 3, i, j),
{
    assert forall|i: int, j: int| h.in_range(i, j) implies h.cell(i, j) == in_box(
        bx + 1,
        by - 1,
        1,
        3,
        i,
        j,
    ) by {
        lemma_box_nbr(g, bx, by, 3, 1, i, j, -1, -1);
        lemma_box_nbr(g, bx, by, 3, 1, i, j, 0, -1);
        lemma_box_nbr(g, bx, by, 3, 1, i, j, 1, -1);
        lemma_box_nbr(g, bx, by, 3, 1, i, j, -1, 0);
        lemma_box_nbr(g, bx, by, 3, 1, i, j, 1, 0);
        lemma_box_nbr(g, bx, by, 3, 1, i, j, -1, 1);
        lemma_box_nbr(g, bx, by, 3, 1, i, j, 0, 1);
        lemma_box_nbr(g, bx, by, 3, 1, i, j, 1, 1);
        assert(h.cell(i, j) == life_rule(g.cell(i, j), g.neighbor_count_spec(i, j)));
        assert(g.cell(i, j) == in_box(bx, by, 3, 1, i, j));
    }
}

/// One step of the blinker, the other phase: a lone vertical 3-cell column,
/// clear of the edge, becomes the lone horizontal 3-cell row through its
/// middle cell.
pub proof fn lemma_blinker_step_vertical(g: Grid, h: Grid, cx: int, cy: int)
    requires
        g.wf(),
        is_next(g, h),
        1 <= cx,
        1 <= cy,
        cx + 2 <= g.width,
        cy + 4 <= g.height,
        forall|i: int, j: int| g.in_range(i, j) ==> g.cell(i, j) == in_box(cx, cy, 1, 3, i, j),
    ensures
        forall|i: int, j: int|
            h.in_range(i, j) ==> h.cell(i, j) == in_box(cx - 1, cy + 1, 3, 1, i, j),
{
    assert forall|i: int, j: int| h.in_range(i, j) implies h.cell(i, j) == in_box(
        cx - 1,
        cy + 1,
        3,
        1,
        i,
        j,
    ) by {
        lemma_box_nbr(g, cx, cy, 1, 3, i, j, -1, -1);
        lemma_box_nbr(g, cx, cy, 1, 3, i, j, 0, -1);
        lemma_box_nbr(g, cx, cy, 1, 3, i, j, 1, -1);
        lemma_box_nbr(g, cx, cy, 1, 3, i, j, -1, 0);
        lemma_box_nbr(g, cx, cy, 1, 3, i, j, 1, 0);
        lemma_box_nbr(g, cx, cy, 1, 3, i, j, -1, 1);
        lemma_box_nbr(g, cx, cy, 1, 3, i, j, 0, 1);
        lemma_box_nbr(g, cx, cy, 1, 3, i, j, 1, 1);
        assert(h.cell(i, j) == life_rule(g.cell(i, j), g.neighbor_count_spec(i, j)));
        assert(g.cell(i, j) == in_box(cx, cy, 1, 3, i, j));
    }
}

/// The blinker has period two: from a lone horizontal 3-cell row, clear of
/// the edge, two generation steps lead back to the starting board.
pub proof fn lemma_blinker_period_two(g: Grid, h: Grid, k: Grid, bx: int, by: int)
    requires
        g.wf(),
        is_next(g, h),
        is_next(h, k),
        1 <= bx,
        2 <= by,
        bx + 4 <= g.width,
        by + 3 <= g.height,
        forall|i: int, j: int| g.in_range(i, j) ==> g.cell(i, j) == in_box(bx, by, 3, 1, i, j),
    ensures
        forall|i: int, j: int| k.in_range(i, j) ==> k.cell(i, j) == g.cell(i, j),
{
    lemma_blinker_step_horizontal(g, h, bx, by);
    lemma_blinker_step_vertical(h, k, bx + 1, by - 1);
    assert forall|i: int, j: int| k.in_range(i, j) implies k.cell(i, j) == g.cell(i, j) by {
        assert(k.cell(i, j) == in_box(bx, by, 3, 1, i, j));
        assert(g.cell(i, j) == in_box(bx, by, 3, 1, i, j));
    }
}

/// Under the wrap boundary the western neighbour of `(0, 0)` is the cell at
/// `(width - 1, 0)`, so a live cell there is counted.
pub proof fn lemma_wrap_edge_neighbor(g: Grid)
    requires
        g.wf(),
        g.boundary == BoundaryType::Wrap,
    ensures
        g.nbr_alive(0, 0, -1, 0) == g.cell(g.width - 1, 0),
        g.cell(g.width - 1, 0) ==> g.neighbor_count_spec(0, 0) >= 1,
{
    lemma_mod_add_multiples_vanish(-1, g.width as int);
    lemma_small_mod((g.width - 1) as nat, g.width as nat);
    lemma_small_mod(0, g.height as nat);
}

/// Under the fixed boundary `(0, 0)` has no western neighbour: a live cell
/// at `(width - 1, 0)` is not counted, and the corner sees at most its
/// three in-board neighbours.
pub proof fn lemma_fixed_corner_bound(g: Grid)
    requires
        g.wf(),
        g.boundary == BoundaryType::Fixed,
    ensures
        !g.nbr_alive(0, 0, -1, 0),
        g.neighbor_count_spec(0, 0) == g.nbr_ind(0, 0, 1, 0) + g.nbr_ind(0, 0, 0, 1) + g.nbr_ind(
            0,
            0,
            1,
            1,
        ),
        g.neighbor_count_spec(0, 0) <= 3,
{
}

} // verus!
