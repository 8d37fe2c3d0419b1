use conways_game_of_life::cell::Cell;
use conways_game_of_life::universe::Universe;

fn seeded(width: u32, height: u32, live: &[(u32, u32)]) -> Universe {
    let mut universe = Universe::new(width, height);
    for &(row, col) in live {
        let idx = universe.get_index(row, col);
        universe.cells[idx] = Cell::Alive;
    }
    universe
}

fn live_cells(universe: &Universe) -> Vec<(u32, u32)> {
    let mut live = Vec::new();
    for row in 0..universe.height {
        for col in 0..universe.width {
            if universe.cells[universe.get_index(row, col)] == Cell::Alive {
                live.push((row, col));
            }
        }
    }
    live
}

fn neighbor_counts(universe: &Universe) -> Vec<Vec<u8>> {
    (0..universe.height)
        .map(|row| (0..universe.width).map(|col| universe.live_neighbor_count(row, col)).collect())
        .collect()
}

#[test]
fn new_universe_has_all_cells_dead() {
    let universe = Universe::new(7, 3);
    assert_eq!(universe.width, 7);
    assert_eq!(universe.height, 3);
    assert_eq!(universe.cells.len(), 21);
    assert!(universe.cells.iter().all(|&cell| cell == Cell::Dead));
}

#[test]
fn new_universe_of_one_cell() {
    let universe = Universe::new(1, 1);
    assert_eq!(universe.cells, vec![Cell::Dead]);
}

#[test]
fn new_universe_of_one_row_and_of_one_column() {
    assert_eq!(Universe::new(6, 1).cells, vec![Cell::Dead; 6]);
    assert_eq!(Universe::new(1, 6).cells, vec![Cell::Dead; 6]);
}

#[test]
fn get_index_is_row_major() {
    let universe = Universe::new(5, 4);
    assert_eq!(universe.get_index(0, 0), 0);
    assert_eq!(universe.get_index(0, 4), 4);
    assert_eq!(universe.get_index(1, 0), 5);
    assert_eq!(universe.get_index(2, 3), 13);
    assert_eq!(universe.get_index(3, 4), 19);
}

#[test]
fn get_index_reaches_every_offset_once() {
    let universe = Universe::new(3, 4);
    let mut offsets = Vec::new();
    for row in 0..4 {
        for col in 0..3 {
            offsets.push(universe.get_index(row, col));
        }
    }
    assert_eq!(offsets, (0..12).collect::<Vec<usize>>());
}

#[test]
fn get_index_is_undone_by_division_and_remainder() {
    let universe = Universe::new(7, 5);
    for row in 0..5u32 {
        for col in 0..7u32 {
            let idx = universe.get_index(row, col);
            assert_eq!(idx / 7, row as usize);
            assert_eq!(idx % 7, col as usize);
        }
    }
}

#[test]
fn get_index_does_not_overflow_on_a_long_row() {
    let universe = Universe::new(70_000, 2);
    assert_eq!(universe.get_index(1, 69_999), 139_999);
}

#[test]
fn neighbor_count_wraps_diagonally() {
    let universe = seeded(3, 3, &[(0, 0)]);
    assert_eq!(universe.live_neighbor_count(2, 2), 1);
}

#[test]
fn neighbor_count_wraps_across_each_edge() {
    let universe = seeded(4, 4, &[(0, 0)]);
    assert_eq!(
        neighbor_counts(&universe),
        vec![vec![0, 1, 0, 1], vec![1, 1, 0, 1], vec![0, 0, 0, 0], vec![1, 1, 0, 1]]
    );
}

#[test]
fn neighbor_count_leaves_out_the_cell_itself() {
    let universe = seeded(5, 5, &[(2, 2)]);
    assert_eq!(universe.live_neighbor_count(2, 2), 0);
}

#[test]
fn neighbor_count_of_a_full_universe_is_eight() {
    let mut universe = Universe::new(5, 4);
    for cell in universe.cells.iter_mut() {
        *cell = Cell::Alive;
    }
    for row in 0..4 {
        for col in 0..5 {
            assert_eq!(universe.live_neighbor_count(row, col), 8);
        }
    }
}

#[test]
fn neighbor_count_of_each_single_neighbor_is_one() {
    let around = [(1, 1), (1, 2), (1, 3), (2, 1), (2, 3), (3, 1), (3, 2), (3, 3)];
    for &position in around.iter() {
        let universe = seeded(5, 5, &[position]);
        assert_eq!(universe.live_neighbor_count(2, 2), 1);
    }
    let universe = seeded(5, 5, &around);
    assert_eq!(universe.live_neighbor_count(2, 2), 8);
}

#[test]
fn neighbor_count_on_a_single_cell_universe_counts_the_cell_five_times() {
    let dead = Universe::new(1, 1);
    assert_eq!(dead.live_neighbor_count(0, 0), 0);
    let alive = seeded(1, 1, &[(0, 0)]);
    assert_eq!(alive.live_neighbor_count(0, 0), 5);
}

#[test]
fn neighbor_count_on_a_two_by_two_universe_counts_cells_repeatedly() {
    let universe = seeded(2, 2, &[(0, 0)]);
    assert_eq!(neighbor_counts(&universe), vec![vec![0, 2], vec![2, 4]]);
    let full = seeded(2, 2, &[(0, 0), (0, 1), (1, 0), (1, 1)]);
    assert_eq!(full.live_neighbor_count(0, 0), 8);
}

#[test]
fn neighbor_count_on_a_single_row_and_on_a_single_column() {
    let row = seeded(3, 1, &[(0, 0)]);
    assert_eq!(neighbor_counts(&row), vec![vec![1, 3, 3]]);
    let column = seeded(1, 3, &[(0, 0)]);
    assert_eq!(neighbor_counts(&column), vec![vec![1], vec![3], vec![3]]);
    let pair = seeded(3, 1, &[(0, 0), (0, 1)]);
    assert_eq!(neighbor_counts(&pair), vec![vec![4, 4, 6]]);
}

#[test]
fn live_cell_without_neighbors_dies() {
    let mut universe = seeded(5, 5, &[(2, 2)]);
    universe.tick();
    assert_eq!(live_cells(&universe), vec![]);
}

#[test]
fn live_cell_with_one_neighbor_dies() {
    let mut universe = seeded(5, 5, &[(2, 2), (2, 3)]);
    universe.tick();
    assert_eq!(live_cells(&universe), vec![]);
}

#[test]
fn live_cell_with_two_neighbors_survives() {
    let mut universe = seeded(5, 5, &[(1, 1), (2, 2), (3, 3)]);
    universe.tick();
    assert_eq!(live_cells(&universe), vec![(2, 2)]);
}

#[test]
fn live_cell_with_four_neighbors_dies() {
    let mut universe = seeded(5, 5, &[(1, 2), (2, 1), (2, 2), (2, 3), (3, 2)]);
    assert_eq!(universe.live_neighbor_count(2, 2), 4);
    universe.tick();
    assert_eq!(
        live_cells(&universe),
        vec![(1, 1), (1, 2), (1, 3), (2, 1), (2, 3), (3, 1), (3, 2), (3, 3)]
    );
}

#[test]
fn dead_cell_with_three_neighbors_comes_alive() {
    let mut universe = seeded(5, 5, &[(1, 1), (1, 2), (2, 1)]);
    universe.tick();
    assert_eq!(live_cells(&universe), vec![(1, 1), (1, 2), (2, 1), (2, 2)]);
}

#[test]
fn block_is_unchanged_by_tick() {
    let block = [(1, 1), (1, 2), (2, 1), (2, 2)];
    for &(width, height) in [(4, 4), (6, 6), (3, 3), (30, 30)].iter() {
        let mut universe = seeded(width, height, &block);
        for _ in 0..3 {
            universe.tick();
            assert_eq!(live_cells(&universe), block.to_vec());
        }
    }
}

#[test]
fn block_across_the_corner_is_unchanged_by_tick() {
    let block = [(0, 0), (0, 4), (4, 0), (4, 4)];
    let mut universe = seeded(5, 5, &block);
    universe.tick();
    assert_eq!(live_cells(&universe), block.to_vec());
}

#[test]
fn blinker_toggles_and_returns_after_two_ticks() {
    let horizontal = vec![(2, 1), (2, 2), (2, 3)];
    let vertical = vec![(1, 2), (2, 2), (3, 2)];
    let mut universe = seeded(5, 5, &horizontal);
    universe.tick();
    assert_eq!(live_cells(&universe), vertical);
    universe.tick();
    assert_eq!(live_cells(&universe), horizontal);
    universe.tick();
    assert_eq!(live_cells(&universe), vertical);
}

#[test]
fn blinker_across_the_edges_toggles_and_returns() {
    let horizontal = vec![(0, 0), (0, 1), (0, 6)];
    let vertical = vec![(0, 0), (1, 0), (5, 0)];
    let mut universe = seeded(7, 6, &horizontal);
    universe.tick();
    assert_eq!(live_cells(&universe), vertical);
    universe.tick();
    assert_eq!(live_cells(&universe), horizontal);
}

#[test]
fn glider_moves_one_row_and_one_column_in_four_ticks() {
    let glider = [(1, 2), (2, 3), (3, 1), (3, 2), (3, 3)];
    let mut universe = seeded(30, 30, &glider);
    universe.tick();
    assert_eq!(live_cells(&universe), vec![(2, 1), (2, 3), (3, 2), (3, 3), (4, 2)]);
    universe.tick();
    assert_eq!(live_cells(&universe), vec![(2, 3), (3, 1), (3, 3), (4, 2), (4, 3)]);
    universe.tick();
    assert_eq!(live_cells(&universe), vec![(2, 2), (3, 3), (3, 4), (4, 2), (4, 3)]);
    universe.tick();
    assert_eq!(live_cells(&universe), vec![(2, 3), (3, 4), (4, 2), (4, 3), (4, 4)]);
}

#[test]
fn glider_wraps_around_the_edges() {
    let glider = [(0, 0), (0, 3), (0, 4), (3, 4), (4, 0)];
    let mut universe = seeded(5, 5, &glider);
    for _ in 0..4 {
        universe.tick();
    }
    assert_eq!(live_cells(&universe), vec![(0, 1), (1, 0), (1, 1), (1, 4), (4, 0)]);
}

#[test]
fn glider_returns_to_its_start_after_a_lap() {
    let glider = [(1, 2), (2, 3), (3, 1), (3, 2), (3, 3)];
    let mut universe = seeded(30, 30, &glider);
    for _ in 0..120 {
        universe.tick();
    }
    assert_eq!(live_cells(&universe), glider.to_vec());
}

#[test]
fn dead_universe_stays_dead() {
    let mut universe = Universe::new(8, 5);
    for _ in 0..3 {
        universe.tick();
        assert_eq!(universe.cells, vec![Cell::Dead; 40]);
    }
}

#[test]
fn tick_keeps_the_dimensions() {
    let mut universe = seeded(6, 4, &[(0, 0), (1, 1), (2, 2), (3, 3), (3, 5)]);
    universe.tick();
    assert_eq!(universe.width, 6);
    assert_eq!(universe.height, 4);
    assert_eq!(universe.cells.len(), 24);
}

#[test]
fn tick_on_narrow_universes() {
    let mut single = seeded(1, 1, &[(0, 0)]);
    single.tick();
    assert_eq!(single.cells, vec![Cell::Dead]);
    let mut full = seeded(2, 2, &[(0, 0), (0, 1), (1, 0), (1, 1)]);
    full.tick();
    assert_eq!(full.cells, vec![Cell::Dead; 4]);
    let mut row = seeded(3, 1, &[(0, 0), (0, 1)]);
    row.tick();
    assert_eq!(row.cells, vec![Cell::Dead; 3]);
}
