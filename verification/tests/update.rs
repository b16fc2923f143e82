use game_of_life::grid::{Cell, Grid};

fn grid_at(size: usize, alive: &[(usize, usize)]) -> Grid {
    let mut draws = vec![false; size * size];
    for &(row, col) in alive {
        draws[row * size + col] = true;
    }
    Grid::new(size, &draws).unwrap()
}

fn scattered(size: usize, seed: u64) -> Grid {
    let mut state = seed;
    let mut draws = Vec::new();
    for _ in 0..size * size {
        state = state.wrapping_mul(6364136223846793005).wrapping_add(1442695040888963407);
        draws.push((state >> 33) % 3 == 0);
    }
    Grid::new(size, &draws).unwrap()
}

#[test]
fn update_keeps_the_size() {
    for size in [0usize, 1, 2, 3, 10, 33] {
        let mut g = scattered(size, 7);
        g.update();
        assert_eq!(g.size(), size);
        g.update_single_threaded();
        assert_eq!(g.size(), size);
    }
}

#[test]
fn the_empty_grid_stays_empty() {
    for size in [0usize, 1, 2, 5, 20] {
        let mut g = Grid::new_empty(size).unwrap();
        g.update();
        assert_eq!(g, Grid::new_empty(size).unwrap());
        g.update_single_threaded();
        assert_eq!(g, Grid::new_empty(size).unwrap());
    }
}

#[test]
fn update_of_size_zero_returns_the_empty_grid() {
    let mut g = Grid::new(0, &[]).unwrap();
    g.update();
    assert_eq!(g.size(), 0);
    assert_eq!(g, Grid::new_empty(0).unwrap());
}

#[test]
fn a_block_away_from_the_edges_stays() {
    let block = [(1, 1), (1, 2), (2, 1), (2, 2)];
    let mut g = grid_at(4, &block);
    g.update();
    assert_eq!(g, grid_at(4, &block));
    let block = [(3, 5), (3, 6), (4, 5), (4, 6)];
    let mut g = grid_at(9, &block);
    for _ in 0..5 {
        g.update();
        assert_eq!(g, grid_at(9, &block));
    }
}

#[test]
fn a_block_in_the_top_rows_stays() {
    let block = [(0, 2), (0, 3), (1, 2), (1, 3)];
    let mut g = grid_at(6, &block);
    g.update();
    assert_eq!(g, grid_at(6, &block));
}

#[test]
fn a_blinker_turns_and_turns_back() {
    let flat = [(2, 1), (2, 2), (2, 3)];
    let upright = [(1, 2), (2, 2), (3, 2)];
    let mut g = grid_at(5, &flat);
    g.update();
    assert_eq!(g, grid_at(5, &upright));
    g.update();
    assert_eq!(g, grid_at(5, &flat));
}

#[test]
fn a_blinker_in_a_large_grid_has_period_two() {
    let flat = [(7, 9), (7, 10), (7, 11)];
    let upright = [(6, 10), (7, 10), (8, 10)];
    let mut g = grid_at(16, &flat);
    for _ in 0..4 {
        g.update();
        assert_eq!(g, grid_at(16, &upright));
        g.update();
        assert_eq!(g, grid_at(16, &flat));
    }
}

#[test]
fn a_lone_cell_dies() {
    let mut g = grid_at(5, &[(2, 2)]);
    g.update();
    assert_eq!(g, Grid::new_empty(5).unwrap());
}

#[test]
fn three_cells_in_a_corner_fill_the_block() {
    // Birth on exactly three neighbours, survival on two.
    let mut g = grid_at(6, &[(2, 2), (2, 3), (3, 2)]);
    g.update();
    assert_eq!(g, grid_at(6, &[(2, 2), (2, 3), (3, 2), (3, 3)]));
}

#[test]
fn a_crowded_cell_dies() {
    // The centre of a plus has four live neighbours.
    let mut g = grid_at(7, &[(3, 3), (2, 3), (4, 3), (3, 2), (3, 4)]);
    g.update();
    assert_eq!(g.read(3, 3), Cell::Empty);
    assert_eq!(
        g,
        grid_at(7, &[(2, 2), (2, 3), (2, 4), (3, 2), (3, 4), (4, 2), (4, 3), (4, 4)])
    );
}

#[test]
fn a_glider_moves_one_cell_in_four_steps() {
    let glider = |r: usize, c: usize| {
        [(r, c + 1), (r + 1, c + 2), (r + 2, c), (r + 2, c + 1), (r + 2, c + 2)]
    };
    let mut g = grid_at(12, &glider(2, 2));
    for _ in 0..4 {
        g.update();
    }
    assert_eq!(g, grid_at(12, &glider(3, 3)));
}

#[test]
fn equal_grids_have_equal_next_generations() {
    for size in [1usize, 2, 3, 8, 31] {
        let mut a = scattered(size, 42);
        let mut b = scattered(size, 42);
        assert_eq!(a, b);
        for _ in 0..3 {
            a.update();
            b.update();
            assert_eq!(a, b);
        }
    }
}

#[test]
fn the_parallel_update_is_the_sequential_one() {
    for size in [1usize, 2, 3, 4, 9, 40, 101] {
        let mut par = scattered(size, size as u64);
        let mut seq = scattered(size, size as u64);
        for _ in 0..4 {
            par.update();
            seq.update_single_threaded();
            assert_eq!(par, seq);
        }
    }
}

#[test]
fn update_is_next_state_for_every_cell() {
    let size = 13;
    let before = scattered(size, 99);
    let mut after = scattered(size, 99);
    after.update();
    for row in 0..size {
        for col in 0..size {
            assert_eq!(after.read(row, col), before.next_state(row * size + col));
        }
    }
}

#[test]
fn a_full_grid_of_side_two_dies() {
    // Each cell counts four or five: the coinciding offsets count twice.
    let mut g = Grid::new(2, &[true; 4]).unwrap();
    g.update();
    assert_eq!(g, Grid::new_empty(2).unwrap());
}

#[test]
fn a_full_grid_of_side_three_keeps_nothing() {
    // The counts are 4, 6, 4 / 7, 8, 7 / 4, 6, 4.
    let mut g = Grid::new(3, &[true; 9]).unwrap();
    g.update();
    assert_eq!(g, Grid::new_empty(3).unwrap());
}
