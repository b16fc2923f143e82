use game_of_life::grid::{Cell, Grid, GridError};

fn cells_of(g: &Grid) -> Vec<Cell> {
    let n = g.size();
    let mut out = Vec::new();
    for row in 0..n {
        for col in 0..n {
            out.push(g.read(row, col));
        }
    }
    out
}

#[test]
fn cell_count_is_the_square_of_the_side() {
    assert_eq!(Grid::cell_count(0), Ok(0));
    assert_eq!(Grid::cell_count(1), Ok(1));
    assert_eq!(Grid::cell_count(7), Ok(49));
    assert_eq!(Grid::cell_count(50), Ok(2500));
    assert_eq!(Grid::cell_count(46341), Ok(2147488281));
}

#[test]
fn cell_count_refuses_what_does_not_fit() {
    assert_eq!(Grid::cell_count(usize::MAX), Err(GridError::SizeOverflow));
    assert_eq!(Grid::cell_count(1usize << (usize::BITS / 2)), Err(GridError::SizeOverflow));
    // The square fits in usize and is more than isize::MAX.
    let side = (1usize << (usize::BITS / 2)) - 1;
    assert!(side.checked_mul(side).unwrap() > isize::MAX as usize);
    assert_eq!(Grid::cell_count(side), Err(GridError::SizeOverflow));
}

#[test]
fn new_empty_has_the_size_asked_for() {
    for size in [0usize, 1, 2, 3, 7, 50] {
        let g = Grid::new_empty(size).unwrap();
        assert_eq!(g.size(), size);
    }
}

#[test]
fn new_empty_holds_only_empty_cells() {
    let g = Grid::new_empty(6).unwrap();
    let cells = cells_of(&g);
    assert_eq!(cells.len(), 36);
    assert!(cells.iter().all(|c| *c == Cell::Empty));
}

#[test]
fn new_empty_of_size_zero_has_no_cells() {
    let g = Grid::new_empty(0).unwrap();
    assert_eq!(g.size(), 0);
    assert!(cells_of(&g).is_empty());
}

#[test]
fn new_empty_refuses_a_side_whose_square_overflows() {
    assert_eq!(Grid::new_empty(usize::MAX), Err(GridError::SizeOverflow));
    let half = 1usize << (usize::BITS / 2);
    assert_eq!(Grid::new_empty(half), Err(GridError::SizeOverflow));
}

#[test]
fn new_empty_refuses_more_cells_than_a_vector_addresses() {
    // The least side whose square is more than isize::MAX.
    let mut side: u128 = 1;
    while side * side <= isize::MAX as u128 {
        side *= 2;
    }
    let mut low = side / 2;
    let mut high = side;
    while low + 1 < high {
        let mid = (low + high) / 2;
        if mid * mid <= isize::MAX as u128 {
            low = mid;
        } else {
            high = mid;
        }
    }
    assert!(high * high > isize::MAX as u128);
    assert!((high - 1) * (high - 1) <= isize::MAX as u128);
    assert_eq!(Grid::new_empty(high as usize), Err(GridError::SizeOverflow));
}

#[test]
fn new_sets_alive_the_cells_whose_draw_is_true() {
    let draws = [true, false, false, false, true, true, false, true, false];
    let g = Grid::new(3, &draws).unwrap();
    assert_eq!(g.size(), 3);
    let a = Cell::Alive;
    let e = Cell::Empty;
    assert_eq!(cells_of(&g), vec![a, e, e, e, a, a, e, a, e]);
}

#[test]
fn new_with_no_true_draw_is_the_empty_grid() {
    for size in [0usize, 1, 4, 9] {
        let draws = vec![false; size * size];
        assert_eq!(Grid::new(size, &draws).unwrap(), Grid::new_empty(size).unwrap());
    }
}

#[test]
fn new_with_only_true_draws_is_all_alive() {
    for size in [0usize, 1, 4, 9] {
        let draws = vec![true; size * size];
        let g = Grid::new(size, &draws).unwrap();
        let cells = cells_of(&g);
        assert_eq!(cells.len(), size * size);
        assert!(cells.iter().all(|c| *c == Cell::Alive));
    }
}

#[test]
fn new_refuses_too_few_draws() {
    assert_eq!(Grid::new(2, &[true, false, true]), Err(GridError::DrawCount));
    assert_eq!(Grid::new(1, &[]), Err(GridError::DrawCount));
}

#[test]
fn new_refuses_too_many_draws() {
    assert_eq!(Grid::new(2, &[false; 5]), Err(GridError::DrawCount));
    assert_eq!(Grid::new(0, &[true]), Err(GridError::DrawCount));
}

#[test]
fn new_reports_the_size_before_the_draws() {
    assert_eq!(Grid::new(usize::MAX, &[]), Err(GridError::SizeOverflow));
    assert_eq!(Grid::new(usize::MAX, &[true, true]), Err(GridError::SizeOverflow));
}

#[test]
fn read_goes_by_row_then_column() {
    let size = 4;
    for row in 0..size {
        for col in 0..size {
            let mut draws = vec![false; size * size];
            draws[row * size + col] = true;
            let g = Grid::new(size, &draws).unwrap();
            for r in 0..size {
                for c in 0..size {
                    let expected = if r == row && c == col { Cell::Alive } else { Cell::Empty };
                    assert_eq!(g.read(r, c), expected);
                }
            }
        }
    }
}

#[test]
fn read_tells_row_from_column() {
    // Only the cell with index 1 is alive: row 0, column 1.
    let g = Grid::new(3, &[false, true, false, false, false, false, false, false, false]).unwrap();
    assert_eq!(g.read(0, 1), Cell::Alive);
    assert_eq!(g.read(1, 0), Cell::Empty);
}
