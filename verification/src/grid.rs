//! The grid and the operations on it.

use crate::moore::lemma_index_in_range;
use crate::parallel::fill_next_generation;
use crate::rule::{offset, GridView};
use vstd::prelude::*;

verus! {

/// The state of one cell.
#[derive(Clone, Copy, Debug, PartialEq, Eq, Structural)]
pub enum Cell {
    Empty,
    Alive,
}

impl Cell {
    /// The cell as a number, so that neighbours can be summed: 0 for an empty
    /// cell, 1 for a live one.
    pub open spec fn weight(self) -> int {
        match self {
            Cell::Empty => 0,
            Cell::Alive => 1,
        }
    }
}

/// Why a grid could not be made.
#[derive(Clone, Copy, Debug, PartialEq, Eq, Structural)]
pub enum GridError {
    /// The grid would have more cells than a vector can address.
    SizeOverflow,
    /// The number of draws handed in is not the number of cells.
    DrawCount,
}

/// The most cells a grid can have: a vector addresses at most `isize::MAX`
/// bytes, and a cell takes one.
pub open spec fn max_cells() -> int {
    isize::MAX as int
}

/// One generation of the game.
#[derive(Debug, PartialEq, Eq)]
pub struct Grid {
    size: usize,
    grid: Vec<Cell>,
    ns_directions: [i64; 9],
}

impl View for Grid {
    type V = GridView;

    closed spec fn view(&self) -> GridView {
        GridView { size: self.size as nat, cells: self.grid@ }
    }
}

impl Grid {
    #[verifier::type_invariant]
    spec fn inv(self) -> bool {
        &&& self.grid@.len() == self.size * self.size
        &&& forall|k: int| 0 <= k < 9 ==> self.ns_directions@[k] == offset(self.size as int, k)
    }

    /// A grid of `size` rows and columns, seeded from one draw per cell, in
    /// the order of the cells: a cell is alive exactly when its draw is
    /// true.
    ///
    /// Fails with `SizeOverflow` exactly when `size * size` is more than
    /// [`max_cells`], and otherwise with `DrawCount` exactly when the number
    /// of draws is not `size * size`.
    pub fn new(size: usize, draws: &[bool]) -> (r: Result<Grid, GridError>)
        ensures
            match r {
                Ok(g) => {
                    &&& size * size <= max_cells()
                    &&& draws@.len() == size * size
                    &&& g@ == GridView::seeded(size as nat, draws@)
                },
                Err(GridError::SizeOverflow) => size * size > max_cells(),
                Err(GridError::DrawCount) => {
                    &&& size * size <= max_cells()
                    &&& draws@.len() != size * size
                },
            },
    {
        let mut g = match Grid::new_empty(size) {
            Ok(g) => g,
            Err(e) => {
                return Err(e);
            },
        };
        proof {
            use_type_invariant(&g);
        }
        if draws.len() != g.grid.len() {
            return Err(GridError::DrawCount);
        }
        g.init_random(draws);
        assert(g@.cells =~= GridView::seeded(size as nat, draws@).cells);
        Ok(g)
    }

    /// Sets alive every cell whose draw is true and leaves the others as
    /// they are.
    fn init_random(&mut self, draws: &[bool])
        requires
            draws@.len() == old(self)@.cells.len(),
        ensures
            final(self)@.size == old(self)@.size,
            final(self)@.cells.len() == old(self)@.cells.len(),
            forall|i: int|
                0 <= i < draws@.len() ==> final(self)@.cells[i] == if draws@[i] {
                    Cell::Alive
                } else {
                    old(self)@.cells[i]
                },
    {
        proof {
            use_type_invariant(&*self);
        }
        let len: usize = self.grid.len();
        let mut ndx: usize = 0;
        while ndx < len
            invariant
                ndx <= len,
                len == draws@.len(),
                self.size == old(self).size,
                self.ns_directions == old(self).ns_directions,
                self.grid@.len() == len,
                old(self).grid@.len() == len,
                old(self).inv(),
                forall|i: int|
                    0 <= i < ndx ==> self.grid@[i] == if draws@[i] {
                        Cell::Alive
                    } else {
                        old(self).grid@[i]
                    },
                forall|i: int| ndx <= i < len ==> self.grid@[i] == old(self).grid@[i],
            decreases len - ndx,
        {
            if draws[ndx] {
                self.grid[ndx] = Cell::Alive;
            }
            ndx = ndx + 1;
        }
    }

    /// The number of cells of a grid of `size` rows and columns.
    ///
    /// Fails exactly when `size * size` is more than [`max_cells`].
    pub fn cell_count(size: usize) -> (r: Result<usize, GridError>)
        ensures
            match r {
                Ok(n) => size * size <= max_cells() && n == size * size,
                Err(e) => size * size > max_cells() && e == GridError::SizeOverflow,
            },
    {
        match size.checked_mul(size) {
            Some(n) => if n > isize::MAX as usize {
                Err(GridError::SizeOverflow)
            } else {
                Ok(n)
            },
            None => Err(GridError::SizeOverflow),
        }
    }

    /// A grid of `size` rows and columns in which every cell is empty.
    ///
    /// Fails exactly when `size * size` is more than [`max_cells`].
    pub fn new_empty(size: usize) -> (r: Result<Grid, GridError>)
        ensures
            match r {
                Ok(g) => size * size <= max_cells() && g@ == GridView::empty(size as nat),
                Err(e) => size * size > max_cells() && e == GridError::SizeOverflow,
            },
    {
        let cells: usize = match Grid::cell_count(size) {
            Ok(n) => n,
            Err(e) => {
                return Err(e);
            },
        };
        assert(size <= 0x1_0000_0000) by (nonlinear_arith)
            requires
                size * size <= u64::MAX,
        ;
        let size_i: i64 = size as i64;
        let ns_directions: [i64; 9] = [
            -size_i - 1,
            -size_i,
            -size_i + 1,
            -1,
            0,
            1,
            size_i - 1,
            size_i,
            size_i + 1,
        ];
        assert(forall|k: int| 0 <= k < 9 ==> ns_directions@[k] == offset(size as int, k));
        let g = Grid { size, grid: vec![Cell::Empty; cells], ns_directions };
        assert(g@.cells =~= GridView::empty(size as nat).cells);
        Ok(g)
    }

    /// The side of the grid.
    pub fn size(&self) -> (n: usize)
        ensures
            n == self@.size,
            self@.wf(),
    {
        proof {
            use_type_invariant(self);
        }
        self.size
    }

    /// The cell in row `row` and column `col`.
    pub fn read(&self, row: usize, col: usize) -> (cell: Cell)
        requires
            row < self@.size,
            col < self@.size,
        ensures
            cell == self@.at(row as int, col as int),
    {
        proof {
            use_type_invariant(self);
            lemma_index_in_range(self.size as int, row as int, col as int);
            assert(self.size * self.size == self.grid.len());
        }
        self.grid[row * self.size + col]
    }

    /// The number of live neighbours of the cell with index `ndx`.
    pub fn count_ns(&self, ndx: usize) -> (n: i32)
        requires
            ndx < self@.cells.len(),
        ensures
            n == self@.alive_neighbours(ndx as int),
            0 <= n <= 8,
    {
        proof {
            use_type_invariant(self);
        }
        let size: usize = self.size;
        let len: usize = self.grid.len();
        assert(size > 0) by (nonlinear_arith)
            requires
                ndx < size * size,
        ;
        let row: usize = ndx / size;
        let mut count: i32 = 0;
        let mut k: usize = 0;
        while k < 9
            invariant
                k <= 9,
                size == self.size,
                size > 0,
                len == self.grid@.len(),
                ndx < len,
                row == ndx / size,
                forall|j: int| 0 <= j < 9 ==> self.ns_directions@[j] == offset(size as int, j),
                count == self@.counted_below(ndx as int, k as nat),
                0 <= count <= k,
                k > 4 ==> count < k,
            decreases 9 - k,
        {
            let c: i128 = ndx as i128 + self.ns_directions[k] as i128;
            assert(c == self@.candidate(ndx as int, k as int));
            if 0 <= c && c < len as i128 && c != ndx as i128 {
                let at: usize = c as usize;
                let r: usize = at / size;
                let near: bool = if r >= row {
                    r - row <= 1
                } else {
                    row - r <= 1
                };
                if near {
                    match self.grid[at] {
                        Cell::Alive => {
                            count = count + 1;
                        },
                        Cell::Empty => {},
                    }
                }
            }
            k = k + 1;
        }
        count
    }

    /// The state that the cell with index `ndx` has in the next generation.
    pub fn next_state(&self, ndx: usize) -> (cell: Cell)
        requires
            ndx < self@.cells.len(),
        ensures
            cell == self@.next_cell(ndx as int),
    {
        proof {
            use_type_invariant(self);
        }
        let ns_count: i32 = self.count_ns(ndx);
        match self.grid[ndx] {
            Cell::Alive => if ns_count == 2 || ns_count == 3 {
                Cell::Alive
            } else {
                Cell::Empty
            },
            Cell::Empty => if ns_count == 3 {
                Cell::Alive
            } else {
                Cell::Empty
            },
        }
    }

    /// Replaces the grid by its next generation. The cells are computed in
    /// parallel, each from the old generation alone; the new generation
    /// takes the place of the old one only when all of it is there.
    pub fn update(&mut self)
        ensures
            final(self)@ == old(self)@.step(),
            final(self)@.size == old(self)@.size,
            final(self)@.wf(),
    {
        proof {
            use_type_invariant(&*self);
        }
        let mut next: Vec<Cell> = vec![Cell::Empty; self.grid.len()];
        fill_next_generation(&*self, &mut next);
        assert(next@ =~= self@.step().cells);
        self.grid = next;
    }

    /// Replaces the grid by its next generation, computing one cell after
    /// the other.
    pub fn update_single_threaded(&mut self)
        ensures
            final(self)@ == old(self)@.step(),
            final(self)@.size == old(self)@.size,
            final(self)@.wf(),
    {
        proof {
            use_type_invariant(&*self);
        }
        let len: usize = self.grid.len();
        let mut next: Vec<Cell> = vec![Cell::Empty; len];
        let mut ndx: usize = 0;
        while ndx < len
            invariant
                ndx <= len,
                len == self.grid@.len(),
                next@.len() == len,
                *self == *old(self),
                forall|i: int| 0 <= i < ndx ==> next@[i] == self@.next_cell(i),
            decreases len - ndx,
        {
            let cell = self.next_state(ndx);
            next[ndx] = cell;
            ndx = ndx + 1;
        }
        assert(next@ =~= self@.step().cells);
        self.grid = next;
    }
}

} // verus!
