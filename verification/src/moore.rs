//! The grid in rows and columns: how the neighbour count, which is taken
//! over indices, relates to the eight cells around a cell.

use crate::grid::Cell;
use crate::rule::{lemma_alive_neighbours_unrolled, offset, GridView};
use vstd::arithmetic::div_mod::{lemma_fundamental_div_mod, lemma_fundamental_div_mod_converse};
use vstd::prelude::*;

verus! {

/// Whether row `row` and column `col` name a cell of a grid of side `size`.
pub open spec fn on_grid(size: int, row: int, col: int) -> bool {
    0 <= row < size && 0 <= col < size
}

impl GridView {
    /// Whether there is a live cell in row `row` and column `col`. Outside
    /// the grid there is none.
    pub open spec fn alive_at(self, row: int, col: int) -> bool {
        on_grid(self.size as int, row, col) && self.at(row, col) == Cell::Alive
    }

    /// 1 if there is a live cell in row `row` and column `col`, else 0.
    pub open spec fn weight_at(self, row: int, col: int) -> int {
        if self.alive_at(row, col) {
            1
        } else {
            0
        }
    }

    /// The number of live cells among the eight around row `row` and column
    /// `col`, without any wrap from one row to another.
    pub open spec fn moore_neighbours(self, row: int, col: int) -> int {
        self.weight_at(row - 1, col - 1) + self.weight_at(row - 1, col) + self.weight_at(
            row - 1,
            col + 1,
        ) + self.weight_at(row, col - 1) + self.weight_at(row, col + 1) + self.weight_at(
            row + 1,
            col - 1,
        ) + self.weight_at(row + 1, col) + self.weight_at(row + 1, col + 1)
    }

    /// No live cell lies in the first or in the last column.
    pub open spec fn border_columns_empty(self) -> bool {
        &&& forall|row: int| !#[trigger] self.alive_at(row, 0)
        &&& forall|row: int| !#[trigger] self.alive_at(row, self.size - 1)
    }
}

/// Row `row` and column `col` of a grid of side `size` lie at an index below
/// `size * size`.
pub proof fn lemma_index_in_range(size: int, row: int, col: int)
    by (nonlinear_arith)
    requires
        0 <= row < size,
        0 <= col < size,
    ensures
        0 <= row * size,
        0 <= row * size + col < size * size,
{
}

/// The index `row * size + col` with `0 <= col < size` lies in row `row` and
/// column `col`.
pub proof fn lemma_row_col(size: int, row: int, col: int)
    requires
        0 <= col < size,
    ensures
        (row * size + col) / size == row,
        (row * size + col) % size == col,
{
    lemma_fundamental_div_mod_converse(row * size + col, size, row, col);
}

/// What the offset `k`, which moves by `dr` rows and `dc` columns, adds to
/// the neighbour count of the cell in row `row` and column `col`, on a grid
/// whose border columns are empty.
proof fn lemma_counted_at(g: GridView, row: int, col: int, k: int, dr: int, dc: int)
    requires
        g.wf(),
        on_grid(g.size as int, row, col),
        g.border_columns_empty(),
        -1 <= dr <= 1,
        -1 <= dc <= 1,
        offset(g.size as int, k) == dr * g.size + dc,
    ensures
        g.counted(row * g.size + col, k) == if dr == 0 && dc == 0 {
            0
        } else {
            g.weight_at(row + dr, col + dc)
        },
{
    let n = g.size as int;
    let i = row * n + col;
    let c = g.candidate(i, k);
    let r2 = row + dr;
    let c2 = col + dc;
    lemma_index_in_range(n, row, col);
    lemma_row_col(n, row, col);
    assert(c == r2 * n + c2) by (nonlinear_arith)
        requires
            c == row * n + col + dr * n + dc,
            r2 == row + dr,
            c2 == col + dc,
    ;
    if 0 <= c2 < n {
        lemma_row_col(n, r2, c2);
        if 0 <= r2 < n {
            lemma_index_in_range(n, r2, c2);
        } else if r2 < 0 {
            assert(c < 0) by (nonlinear_arith)
                requires
                    c == r2 * n + c2,
                    r2 < 0,
                    c2 < n,
                    n > 0,
            ;
        } else {
            assert(c >= n * n) by (nonlinear_arith)
                requires
                    c == r2 * n + c2,
                    r2 >= n,
                    c2 >= 0,
                    n > 0,
            ;
        }
    } else if c2 == -1 {
        assert(c == (r2 - 1) * n + (n - 1)) by (nonlinear_arith)
            requires
                c == r2 * n + c2,
                c2 == -1,
        ;
        lemma_row_col(n, r2 - 1, n - 1);
        if g.accepts(i, c) {
            assert(!g.alive_at(r2 - 1, n - 1));
            assert(r2 - 1 >= 0) by (nonlinear_arith)
                requires
                    c == (r2 - 1) * n + (n - 1),
                    c >= 0,
                    n > 0,
            ;
        }
    } else {
        assert(c == (r2 + 1) * n + 0) by (nonlinear_arith)
            requires
                c == r2 * n + c2,
                c2 == n,
        ;
        lemma_row_col(n, r2 + 1, 0);
        if g.accepts(i, c) {
            assert(!g.alive_at(r2 + 1, 0));
            assert(r2 + 1 < n) by (nonlinear_arith)
                requires
                    c == (r2 + 1) * n + 0,
                    c < n * n,
                    n > 0,
            ;
        }
    }
}

/// On a grid whose first and last column are empty, the neighbour count of a
/// cell is the number of live cells among the eight around it.
pub proof fn lemma_moore_neighbours(g: GridView, row: int, col: int)
    requires
        g.wf(),
        on_grid(g.size as int, row, col),
        g.border_columns_empty(),
    ensures
        g.alive_neighbours(row * g.size + col) == g.moore_neighbours(row, col),
{
    let i = row * g.size + col;
    lemma_alive_neighbours_unrolled(g, i);
    lemma_counted_at(g, row, col, 0, -1, -1);
    lemma_counted_at(g, row, col, 1, -1, 0);
    lemma_counted_at(g, row, col, 2, -1, 1);
    lemma_counted_at(g, row, col, 3, 0, -1);
    lemma_counted_at(g, row, col, 4, 0, 0);
    lemma_counted_at(g, row, col, 5, 0, 1);
    lemma_counted_at(g, row, col, 6, 1, -1);
    lemma_counted_at(g, row, col, 7, 1, 0);
    lemma_counted_at(g, row, col, 8, 1, 1);
}

/// The grid of side `size` whose live cells are those that `alive` names by
/// row and column.
pub open spec fn pattern(size: nat, alive: spec_fn(int, int) -> bool) -> GridView {
    GridView {
        size,
        cells: Seq::new(
            size * size,
            |i: int|
                if alive(i / (size as int), i % (size as int)) {
                    Cell::Alive
                } else {
                    Cell::Empty
                },
        ),
    }
}

/// The number of cells among the eight around row `row` and column `col`
/// that lie on the grid and that `alive` names.
pub open spec fn named_around(size: nat, alive: spec_fn(int, int) -> bool, row: int, col: int) -> int {
    named(size, alive, row - 1, col - 1) + named(size, alive, row - 1, col) + named(
        size,
        alive,
        row - 1,
        col + 1,
    ) + named(size, alive, row, col - 1) + named(size, alive, row, col + 1) + named(
        size,
        alive,
        row + 1,
        col - 1,
    ) + named(size, alive, row + 1, col) + named(size, alive, row + 1, col + 1)
}

/// 1 if row `row` and column `col` lie on the grid and `alive` names them,
/// else 0.
pub open spec fn named(size: nat, alive: spec_fn(int, int) -> bool, row: int, col: int) -> int {
    if on_grid(size as int, row, col) && alive(row, col) {
        1
    } else {
        0
    }
}

/// The rule of the game by row and column: the cells that are alive after
/// one step from the cells that `alive` names.
pub open spec fn life(size: nat, alive: spec_fn(int, int) -> bool) -> spec_fn(int, int) -> bool {
    |row: int, col: int|
        {
            let n = named_around(size, alive, row, col);
            n == 3 || (alive(row, col) && n == 2)
        }
}

/// In a pattern, the live cells are the cells on the grid that `alive`
/// names.
pub proof fn lemma_pattern_alive_at(size: nat, alive: spec_fn(int, int) -> bool, row: int, col: int)
    ensures
        pattern(size, alive).wf(),
        pattern(size, alive).alive_at(row, col) == (on_grid(size as int, row, col) && alive(
            row,
            col,
        )),
{
    if on_grid(size as int, row, col) {
        lemma_index_in_range(size as int, row, col);
        lemma_row_col(size as int, row, col);
    }
}

/// One step of a pattern that names no cell in the first or the last column
/// is the pattern of the rule of the game by row and column.
pub proof fn lemma_pattern_step(size: nat, alive: spec_fn(int, int) -> bool)
    requires
        forall|row: int| 0 <= row < size ==> !#[trigger] alive(row, 0),
        forall|row: int| 0 <= row < size ==> !#[trigger] alive(row, size - 1),
    ensures
        pattern(size, alive).step() == pattern(size, life(size, alive)),
{
    let g = pattern(size, alive);
    let n = size as int;
    assert forall|row: int| !#[trigger] g.alive_at(row, 0) by {
        lemma_pattern_alive_at(size, alive, row, 0);
    }
    assert forall|row: int| !#[trigger] g.alive_at(row, n - 1) by {
        lemma_pattern_alive_at(size, alive, row, n - 1);
    }
    assert forall|i: int| 0 <= i < n * n implies g.next_cell(i) == pattern(
        size,
        life(size, alive),
    ).cells[i] by {
        assert(n > 0) by (nonlinear_arith)
            requires
                0 <= n,
                0 <= i < n * n,
        ;
        let row = i / n;
        let col = i % n;
        lemma_fundamental_div_mod(i, n);
        assert(0 <= row < n) by (nonlinear_arith)
            requires
                0 <= i < n * n,
                i == n * row + col,
                0 <= col < n,
        ;
        assert(i == row * n + col) by (nonlinear_arith)
            requires
                i == n * row + col,
        ;
        lemma_moore_neighbours(g, row, col);
        lemma_pattern_alive_at(size, alive, row - 1, col - 1);
        lemma_pattern_alive_at(size, alive, row - 1, col);
        lemma_pattern_alive_at(size, alive, row - 1, col + 1);
        lemma_pattern_alive_at(size, alive, row, col - 1);
        lemma_pattern_alive_at(size, alive, row, col);
        lemma_pattern_alive_at(size, alive, row, col + 1);
        lemma_pattern_alive_at(size, alive, row + 1, col - 1);
        lemma_pattern_alive_at(size, alive, row + 1, col);
        lemma_pattern_alive_at(size, alive, row + 1, col + 1);
        assert(g.alive_neighbours(i) == named_around(size, alive, row, col));
    }
    assert(g.step().cells =~= pattern(size, life(size, alive)).cells);
}

} // verus!
