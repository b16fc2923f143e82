//! The model of a generation and the transition rule.
//!
//! The cells lie row by row in one sequence, and the neighbours of a cell
//! are found by index: nine offsets are added to the index of the cell, and
//! each index so reached is a candidate. A candidate counts if it is an
//! index of the grid, is not the cell itself and lies in the row of the cell
//! or in a row next to it. For a cell away from the first and the last
//! column these are the eight cells around it. For a cell in the first
//! column the index before it, which ends the row above, and the index that
//! ends its own row count too, and likewise for a cell in the last column;
//! only a candidate two rows away is refused. Where the first and the last
//! column hold no live cell the count is that of the eight cells around, as
//! `lemma_moore_neighbours` shows.

use crate::grid::Cell;
use vstd::prelude::*;

verus! {

/// A generation: a square of `size` rows and `size` columns, stored row by
/// row, so that the cell in row `r` and column `c` has index `r * size + c`.
pub struct GridView {
    pub size: nat,
    pub cells: Seq<Cell>,
}

/// The `k`-th of the nine index offsets of a grid with `size` columns, in the
/// order `-size-1, -size, -size+1, -1, 0, 1, size-1, size, size+1`.
pub open spec fn offset(size: int, k: int) -> int {
    if k == 0 {
        -size - 1
    } else if k == 1 {
        -size
    } else if k == 2 {
        -size + 1
    } else if k == 3 {
        -1
    } else if k == 4 {
        0
    } else if k == 5 {
        1
    } else if k == 6 {
        size - 1
    } else if k == 7 {
        size
    } else {
        size + 1
    }
}

impl GridView {
    /// The number of cells is the square of the side.
    pub open spec fn wf(self) -> bool {
        self.cells.len() == self.size * self.size
    }

    /// The grid of the given size in which every cell is empty.
    pub open spec fn empty(size: nat) -> GridView {
        GridView { size, cells: Seq::new(size * size, |i: int| Cell::Empty) }
    }

    /// The grid of the given size in which every cell is alive.
    pub open spec fn full(size: nat) -> GridView {
        GridView { size, cells: Seq::new(size * size, |i: int| Cell::Alive) }
    }

    /// The grid of the given size in which cell `i` is alive exactly when
    /// `draws[i]` is true.
    pub open spec fn seeded(size: nat, draws: Seq<bool>) -> GridView {
        GridView {
            size,
            cells: Seq::new(
                draws.len(),
                |i: int|
                    if draws[i] {
                        Cell::Alive
                    } else {
                        Cell::Empty
                    },
            ),
        }
    }

    /// The cell in row `row` and column `col`.
    pub open spec fn at(self, row: int, col: int) -> Cell {
        self.cells[row * self.size + col]
    }

    /// Whether index `c` is counted as a neighbour of index `i`: `c` is an
    /// index of the grid, from 0 to the last, it is not `i` itself, and its
    /// row is the row of `i` or next to it.
    pub open spec fn accepts(self, i: int, c: int) -> bool {
        &&& 0 <= c < self.cells.len()
        &&& c != i
        &&& -1 <= c / (self.size as int) - i / (self.size as int) <= 1
    }

    /// The index that the `k`-th offset reaches from `i`.
    pub open spec fn candidate(self, i: int, k: int) -> int {
        i + offset(self.size as int, k)
    }

    /// What the `k`-th offset adds to the neighbour count of `i`: 1 if the
    /// candidate is accepted and alive, else 0.
    pub open spec fn counted(self, i: int, k: int) -> int {
        let c = self.candidate(i, k);
        if self.accepts(i, c) {
            self.cells[c].weight()
        } else {
            0
        }
    }

    /// 1 if the `k`-th offset reaches an accepted candidate from `i`, else 0.
    pub open spec fn admitted(self, i: int, k: int) -> int {
        if self.accepts(i, self.candidate(i, k)) {
            1
        } else {
            0
        }
    }

    /// The number of offsets that reach an accepted candidate from `i`: the
    /// most that the neighbour count of `i` can be.
    pub open spec fn candidates(self, i: int) -> int {
        self.admitted(i, 0) + self.admitted(i, 1) + self.admitted(i, 2) + self.admitted(i, 3)
            + self.admitted(i, 4) + self.admitted(i, 5) + self.admitted(i, 6) + self.admitted(i, 7)
            + self.admitted(i, 8)
    }

    /// The sum of `counted` over the first `k` offsets.
    pub open spec fn counted_below(self, i: int, k: nat) -> int
        decreases k,
    {
        if k == 0 {
            0
        } else {
            self.counted_below(i, (k - 1) as nat) + self.counted(i, k - 1)
        }
    }

    /// The number of live neighbours of `i`: the sum of `counted` over all
    /// nine offsets. An offset counts by itself: on a grid of size 2, where
    /// two pairs of offsets coincide, the cell they reach is counted twice.
    pub open spec fn alive_neighbours(self, i: int) -> int {
        self.counted_below(i, 9)
    }

    /// The state of cell `i` in the next generation: a live cell stays alive
    /// with 2 or 3 live neighbours, an empty cell comes alive with exactly 3,
    /// and every other cell is empty.
    pub open spec fn next_cell(self, i: int) -> Cell {
        let n = self.alive_neighbours(i);
        if self.cells[i] == Cell::Alive && (n == 2 || n == 3) {
            Cell::Alive
        } else if self.cells[i] == Cell::Empty && n == 3 {
            Cell::Alive
        } else {
            Cell::Empty
        }
    }

    /// The next generation: every cell is computed from `self` alone.
    pub open spec fn step(self) -> GridView {
        GridView { size: self.size, cells: Seq::new(self.cells.len(), |i: int| self.next_cell(i)) }
    }
}

/// The neighbour count written out: the nine contributions, one per offset.
pub proof fn lemma_alive_neighbours_unrolled(g: GridView, i: int)
    ensures
        g.alive_neighbours(i) == g.counted(i, 0) + g.counted(i, 1) + g.counted(i, 2) + g.counted(
            i,
            3,
        ) + g.counted(i, 4) + g.counted(i, 5) + g.counted(i, 6) + g.counted(i, 7) + g.counted(
            i,
            8,
        ),
{
    reveal_with_fuel(GridView::counted_below, 10);
}

} // verus!
