//! What holds of every grid: fixed points, the blinker, the corners, and
//! that a step is a function of the generation it starts from.

use crate::grid::{Cell, Grid};
use crate::moore::{lemma_pattern_step, lemma_row_col, life, pattern};
use crate::rule::{lemma_alive_neighbours_unrolled, GridView};
use vstd::prelude::*;

verus! {

/// A step keeps the size of the grid and the number of its cells.
pub proof fn lemma_step_keeps_size(g: GridView)
    requires
        g.wf(),
    ensures
        g.step().size == g.size,
        g.step().cells.len() == g.cells.len(),
        g.step().wf(),
{
}

/// A grid without a live cell is a fixed point of the step.
pub proof fn lemma_empty_is_fixed(g: GridView)
    requires
        forall|i: int| 0 <= i < g.cells.len() ==> g.cells[i] == Cell::Empty,
    ensures
        g.step() == g,
{
    assert forall|i: int| 0 <= i < g.cells.len() implies g.next_cell(i) == g.cells[i] by {
        lemma_alive_neighbours_unrolled(g, i);
    }
    assert(g.step().cells =~= g.cells);
}

/// The empty grid of any size is a fixed point of the step.
pub proof fn lemma_empty_grid_is_fixed(size: nat)
    ensures
        GridView::empty(size).step() == GridView::empty(size),
{
    lemma_empty_is_fixed(GridView::empty(size));
}

/// The cells of a block of two by two, whose upper left cell is in row `row`
/// and column `col`.
pub open spec fn block(row: int, col: int) -> spec_fn(int, int) -> bool {
    |r: int, c: int| (r == row || r == row + 1) && (c == col || c == col + 1)
}

/// A block of two by two live cells that lies on the grid and touches
/// neither the first nor the last column is a fixed point of the step. Every
/// block away from all four edges is such a block.
pub proof fn lemma_block_is_fixed(size: nat, row: int, col: int)
    requires
        0 <= row,
        row + 1 < size,
        1 <= col,
        col + 1 < size - 1,
    ensures
        pattern(size, block(row, col)).step() == pattern(size, block(row, col)),
{
    let alive = block(row, col);
    lemma_pattern_step(size, alive);
    assert forall|i: int| 0 <= i < size * size implies #[trigger] pattern(
        size,
        life(size, alive),
    ).cells[i] == pattern(size, alive).cells[i] by {
        lemma_cell_of(size as int, i);
    }
    assert(pattern(size, life(size, alive)).cells =~= pattern(size, alive).cells);
}

/// The cells of a blinker that lies flat: three in row `row`, the middle one
/// in column `col`.
pub open spec fn blinker_flat(row: int, col: int) -> spec_fn(int, int) -> bool {
    |r: int, c: int| r == row && col - 1 <= c <= col + 1
}

/// The cells of a blinker that stands upright: three in column `col`, the
/// middle one in row `row`.
pub open spec fn blinker_upright(row: int, col: int) -> spec_fn(int, int) -> bool {
    |r: int, c: int| c == col && row - 1 <= r <= row + 1
}

/// A flat blinker with no cell on an edge of the grid stands upright after
/// one step and lies flat again after two.
pub proof fn lemma_blinker_oscillates(size: nat, row: int, col: int)
    requires
        1 <= row < size - 1,
        1 <= col - 1,
        col + 1 < size - 1,
    ensures
        pattern(size, blinker_flat(row, col)).step() == pattern(size, blinker_upright(row, col)),
        pattern(size, blinker_upright(row, col)).step() == pattern(size, blinker_flat(row, col)),
        pattern(size, blinker_flat(row, col)).step().step() == pattern(
            size,
            blinker_flat(row, col),
        ),
{
    let flat = blinker_flat(row, col);
    let upright = blinker_upright(row, col);
    lemma_pattern_step(size, flat);
    lemma_pattern_step(size, upright);
    assert forall|i: int| 0 <= i < size * size implies #[trigger] pattern(
        size,
        life(size, flat),
    ).cells[i] == pattern(size, upright).cells[i] by {
        lemma_cell_of(size as int, i);
    }
    assert(pattern(size, life(size, flat)).cells =~= pattern(size, upright).cells);
    assert forall|i: int| 0 <= i < size * size implies #[trigger] pattern(
        size,
        life(size, upright),
    ).cells[i] == pattern(size, flat).cells[i] by {
        lemma_cell_of(size as int, i);
    }
    assert(pattern(size, life(size, upright)).cells =~= pattern(size, flat).cells);
}

/// The neighbour count of a cell is at most the number of its candidates,
/// and no cell has more than eight.
pub proof fn lemma_count_within_candidates(g: GridView, i: int)
    requires
        g.wf(),
        0 <= i < g.cells.len(),
    ensures
        0 <= g.alive_neighbours(i) <= g.candidates(i) <= 8,
{
    lemma_alive_neighbours_unrolled(g, i);
}

/// The first and the last cell of a grid have fewer than eight candidates:
/// four each on a grid of side 2 or more, none on a grid of side 1.
///
/// For the first cell, index 0, the four are the indices `1`, `size - 1`,
/// `size` and `size + 1`; the offsets that lead below index 0 and the
/// offset 0 are refused. An index is accepted from 0 on: the first cell is a
/// neighbour like any other.
pub proof fn lemma_corner_candidates(g: GridView)
    requires
        g.wf(),
        g.size >= 1,
    ensures
        g.candidates(0) < 8,
        g.candidates(g.size * g.size - 1) < 8,
        g.size == 1 ==> g.candidates(0) == 0,
        g.size >= 2 ==> g.candidates(0) == 4 && g.candidates(g.size * g.size - 1) == 4,
        g.size >= 2 ==> g.accepts(0, 1) && g.accepts(0, g.size - 1) && g.accepts(0, g.size as int)
            && g.accepts(0, (g.size + 1) as int),
        g.size >= 2 ==> g.accepts(1, 0),
{
    let n = g.size as int;
    let last = n * n - 1;
    if n == 1 {
        assert(n * n == 1);
    } else {
        assert(n * n >= 2 * n) by (nonlinear_arith)
            requires
                n >= 2,
        ;
        lemma_row_col(n, 0, 0);
        lemma_row_col(n, 0, 1);
        lemma_row_col(n, 0, n - 1);
        lemma_row_col(n, 1, 0);
        lemma_row_col(n, 1, 1);
        assert(last == (n - 1) * n + (n - 1)) by (nonlinear_arith)
            requires
                last == n * n - 1,
        ;
        assert(last - n - 1 == (n - 2) * n + (n - 2)) by (nonlinear_arith)
            requires
                last == n * n - 1,
        ;
        assert(last - n == (n - 2) * n + (n - 1)) by (nonlinear_arith)
            requires
                last == n * n - 1,
        ;
        assert(last - n + 1 == (n - 1) * n + 0) by (nonlinear_arith)
            requires
                last == n * n - 1,
        ;
        assert(last - 1 == (n - 1) * n + (n - 2)) by (nonlinear_arith)
            requires
                last == n * n - 1,
        ;
        lemma_row_col(n, n - 1, n - 1);
        lemma_row_col(n, n - 2, n - 2);
        lemma_row_col(n, n - 2, n - 1);
        lemma_row_col(n, n - 1, 0);
        lemma_row_col(n, n - 1, n - 2);
    }
}

/// The step is a function of the generation it starts from: two updates
/// that start from equal generations end in equal generations, however the
/// cells were shared out among workers.
pub proof fn lemma_update_is_deterministic(a: Grid, b: Grid, a_next: Grid, b_next: Grid)
    requires
        a@ == b@,
        a_next@ == a@.step(),
        b_next@ == b@.step(),
    ensures
        a_next@ == b_next@,
{
}

/// Seeding from draws that all failed gives the empty grid, and from draws
/// that all succeeded the full one.
pub proof fn lemma_seeded_extremes(size: nat, draws: Seq<bool>)
    requires
        draws.len() == size * size,
    ensures
        (forall|i: int| 0 <= i < draws.len() ==> !draws[i]) ==> GridView::seeded(size, draws)
            == GridView::empty(size),
        (forall|i: int| 0 <= i < draws.len() ==> draws[i]) ==> GridView::seeded(size, draws)
            == GridView::full(size),
{
    if forall|i: int| 0 <= i < draws.len() ==> !draws[i] {
        assert(GridView::seeded(size, draws).cells =~= GridView::empty(size).cells);
    }
    if forall|i: int| 0 <= i < draws.len() ==> draws[i] {
        assert(GridView::seeded(size, draws).cells =~= GridView::full(size).cells);
    }
}

/// The row and the column of an index of the grid lie on the grid.
proof fn lemma_cell_of(size: int, i: int)
    requires
        0 <= size,
        0 <= i < size * size,
    ensures
        0 < size,
        0 <= i / size < size,
        0 <= i % size < size,
{
    assert(0 < size) by (nonlinear_arith)
        requires
            0 <= size,
            0 <= i < size * size,
    ;
    vstd::arithmetic::div_mod::lemma_fundamental_div_mod(i, size);
    assert(0 <= i / size < size) by (nonlinear_arith)
        requires
            0 <= i < size * size,
            i == size * (i / size) + (i % size),
            0 <= i % size < size,
    ;
}

} // verus!
