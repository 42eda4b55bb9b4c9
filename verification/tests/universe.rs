use game_of_life::universe::{default_seed, UniverseError, DEFAULT_SIZE};
use game_of_life::{Cell, Universe};

/// A universe whose live cells are those listed, as `(row, column)`.
fn pattern(width: u32, height: u32, live: &[(u32, u32)]) -> Universe {
    let universe = Universe::with_seed(width, height, |i| {
        let row = (i / width as usize) as u32;
        let column = (i % width as usize) as u32;
        if live.contains(&(row, column)) {
            Cell::Alive
        } else {
            Cell::Dead
        }
    });
    match universe {
        Ok(universe) => universe,
        Err(error) => panic!("no universe: {:?}", error),
    }
}

/// The live cells of a universe, as `(row, column)`, row by row.
fn live_set(universe: &Universe) -> Vec<(u32, u32)> {
    let mut live = Vec::new();
    for row in 0..universe.height() {
        for column in 0..universe.width() {
            if universe.cells()[universe.get_index(row, column)] == Cell::Alive {
                live.push((row, column));
            }
        }
    }
    live
}

/// The next generation of a universe, computed with signed coordinates.
fn reference_tick(universe: &Universe) -> Vec<Cell> {
    let width = universe.width() as i64;
    let height = universe.height() as i64;
    let cells = universe.cells();
    let mut next = Vec::new();
    for row in 0..height {
        for column in 0..width {
            let mut count = 0;
            for dr in [-1i64, 0, 1] {
                for dc in [-1i64, 0, 1] {
                    if dr == 0 && dc == 0 {
                        continue;
                    }
                    let r = (row + dr).rem_euclid(height);
                    let c = (column + dc).rem_euclid(width);
                    if cells[(r * width + c) as usize] == Cell::Alive {
                        count += 1;
                    }
                }
            }
            let cell = cells[(row * width + column) as usize];
            let alive = count == 3 || (cell == Cell::Alive && count == 2);
            next.push(if alive { Cell::Alive } else { Cell::Dead });
        }
    }
    next
}

#[test]
fn new_is_sixty_four_by_sixty_four() {
    let universe = Universe::new();
    assert_eq!(DEFAULT_SIZE, 64);
    assert_eq!(universe.width(), 64);
    assert_eq!(universe.height(), 64);
    assert_eq!(universe.cells().len(), 4096);
}

#[test]
fn new_holds_the_default_pattern() {
    let universe = Universe::new();
    let cells = universe.cells();
    assert_eq!(cells[0], Cell::Alive);
    assert_eq!(cells[1], Cell::Dead);
    assert_eq!(cells[2], Cell::Alive);
    assert_eq!(cells[3], Cell::Dead);
    assert_eq!(cells[7], Cell::Alive);
    assert_eq!(cells[9], Cell::Dead);
    assert_eq!(cells[21], Cell::Alive);
    assert_eq!(cells[4095], Cell::Alive);
    assert_eq!(cells[4093], Cell::Dead);
    for (i, cell) in cells.iter().enumerate() {
        let alive = i % 2 == 0 || i % 7 == 0;
        assert_eq!(*cell == Cell::Alive, alive, "cell {}", i);
    }
}

#[test]
fn default_seed_marks_multiples_of_two_and_seven() {
    assert_eq!(default_seed(0), Cell::Alive);
    assert_eq!(default_seed(1), Cell::Dead);
    assert_eq!(default_seed(7), Cell::Alive);
    assert_eq!(default_seed(14), Cell::Alive);
    assert_eq!(default_seed(15), Cell::Dead);
    assert_eq!(default_seed(49), Cell::Alive);
}

#[test]
fn with_seed_puts_seed_of_i_at_place_i() {
    let universe = Universe::with_seed(4, 3, |i| if i % 3 == 0 { Cell::Alive } else { Cell::Dead });
    let universe = match universe {
        Ok(universe) => universe,
        Err(error) => panic!("no universe: {:?}", error),
    };
    assert_eq!(universe.width(), 4);
    assert_eq!(universe.height(), 3);
    assert_eq!(universe.cells().len(), 12);
    for (i, cell) in universe.cells().iter().enumerate() {
        assert_eq!(*cell == Cell::Alive, i % 3 == 0, "cell {}", i);
    }
}

#[test]
fn zero_width_is_refused() {
    let result = Universe::with_seed(0, 3, |_| Cell::Alive);
    assert!(matches!(result, Err(UniverseError::InvalidDimensions)));
}

#[test]
fn zero_height_is_refused() {
    let result = Universe::with_seed(3, 0, |_| Cell::Alive);
    assert!(matches!(result, Err(UniverseError::InvalidDimensions)));
}

#[test]
fn zero_by_zero_is_refused() {
    let result = Universe::with_seed(0, 0, |_| Cell::Alive);
    assert!(matches!(result, Err(UniverseError::InvalidDimensions)));
}

#[test]
fn seed_is_not_called_for_refused_dimensions() {
    let result = Universe::with_seed(0, 5, |_| panic!("seed called"));
    assert!(matches!(result, Err(UniverseError::InvalidDimensions)));
}

#[test]
fn get_index_is_row_major() {
    let universe = pattern(5, 4, &[]);
    assert_eq!(universe.get_index(0, 0), 0);
    assert_eq!(universe.get_index(0, 4), 4);
    assert_eq!(universe.get_index(1, 0), 5);
    assert_eq!(universe.get_index(2, 3), 13);
    assert_eq!(universe.get_index(3, 4), 19);
}

#[test]
fn neighbour_count_of_the_origin_wraps_round_every_edge() {
    let (height, width) = (4u32, 5u32);
    let neighbours = [
        (height - 1, width - 1),
        (height - 1, 0),
        (height - 1, 1),
        (0, width - 1),
        (0, 1),
        (1, width - 1),
        (1, 0),
        (1, 1),
    ];
    for neighbour in neighbours {
        let universe = pattern(width, height, &[neighbour]);
        assert_eq!(universe.live_neighbour_count(0, 0), 1, "neighbour {:?}", neighbour);
    }
    let universe = pattern(width, height, &neighbours);
    assert_eq!(universe.live_neighbour_count(0, 0), 8);
}

#[test]
fn neighbour_count_leaves_out_the_cell_itself_and_distant_cells() {
    let universe = pattern(5, 4, &[(0, 0), (2, 2), (0, 2), (2, 0), (1, 3), (3, 3)]);
    assert_eq!(universe.live_neighbour_count(0, 0), 0);
}

#[test]
fn neighbour_count_of_the_last_cell_wraps_forward() {
    let universe = pattern(5, 4, &[(0, 0), (0, 4), (3, 0)]);
    assert_eq!(universe.live_neighbour_count(3, 4), 3);
}

#[test]
fn neighbour_count_is_at_most_eight() {
    let universe = Universe::new();
    for row in 0..universe.height() {
        for column in 0..universe.width() {
            assert!(universe.live_neighbour_count(row, column) <= 8);
        }
    }
    let full = match Universe::with_seed(6, 6, |_| Cell::Alive) {
        Ok(universe) => universe,
        Err(error) => panic!("no universe: {:?}", error),
    };
    assert_eq!(full.live_neighbour_count(3, 3), 8);
    assert_eq!(full.live_neighbour_count(0, 0), 8);
}

#[test]
fn neighbour_count_takes_coordinates_round_the_torus() {
    let universe = pattern(5, 4, &[(0, 1), (1, 0), (3, 4)]);
    assert_eq!(universe.live_neighbour_count(0, 0), 3);
    assert_eq!(universe.live_neighbour_count(4, 5), 3);
    assert_eq!(universe.live_neighbour_count(8, 10), 3);
}

#[test]
fn one_by_one_universe_counts_its_cell_eight_times() {
    let mut universe = pattern(1, 1, &[(0, 0)]);
    assert_eq!(universe.live_neighbour_count(0, 0), 8);
    universe.tick();
    assert_eq!(live_set(&universe), vec![]);
    assert_eq!(universe.live_neighbour_count(0, 0), 0);
    universe.tick();
    assert_eq!(live_set(&universe), vec![]);
}

#[test]
fn single_row_universe_counts_each_side_three_times() {
    let universe = pattern(4, 1, &[(0, 1)]);
    // The cell itself stands above and below itself.
    assert_eq!(universe.live_neighbour_count(0, 1), 2);
    assert_eq!(universe.live_neighbour_count(0, 0), 3);
    assert_eq!(universe.live_neighbour_count(0, 2), 3);
    assert_eq!(universe.live_neighbour_count(0, 3), 0);
}

#[test]
fn single_column_universe_ticks() {
    let mut universe = pattern(1, 4, &[(1, 0)]);
    assert_eq!(universe.live_neighbour_count(0, 0), 3);
    assert_eq!(universe.live_neighbour_count(1, 0), 2);
    assert_eq!(universe.live_neighbour_count(2, 0), 3);
    assert_eq!(universe.live_neighbour_count(3, 0), 0);
    universe.tick();
    assert_eq!(live_set(&universe), vec![(0, 0), (1, 0), (2, 0)]);
}

#[test]
fn tick_keeps_the_dimensions_and_the_length() {
    let mut universe = pattern(7, 3, &[(0, 0), (1, 1), (1, 2), (2, 6)]);
    for _ in 0..10 {
        assert_eq!(universe.cells().len(), 21);
        universe.tick();
        assert_eq!(universe.width(), 7);
        assert_eq!(universe.height(), 3);
        assert_eq!(universe.cells().len(), 21);
    }
    let mut universe = Universe::new();
    for _ in 0..3 {
        universe.tick();
        assert_eq!(universe.cells().len(), 4096);
    }
}

#[test]
fn block_is_a_still_life() {
    let block = [(1, 1), (1, 2), (2, 1), (2, 2)];
    let mut universe = pattern(6, 6, &block);
    for (row, column) in block {
        assert_eq!(universe.live_neighbour_count(row, column), 3);
    }
    for _ in 0..20 {
        universe.tick();
        assert_eq!(live_set(&universe), block.to_vec());
    }
}

#[test]
fn block_across_the_edges_is_a_still_life() {
    let block = vec![(0, 0), (0, 4), (3, 0), (3, 4)];
    let mut universe = pattern(5, 4, &block);
    for _ in 0..5 {
        universe.tick();
        assert_eq!(live_set(&universe), block);
    }
}

#[test]
fn block_on_the_smallest_grid_that_holds_it_still() {
    let block = vec![(0, 0), (0, 1), (1, 0), (1, 1)];
    let mut universe = pattern(3, 3, &block);
    universe.tick();
    assert_eq!(live_set(&universe), block);
}

#[test]
fn two_by_two_universe_full_of_life_dies() {
    let mut universe = pattern(2, 2, &[(0, 0), (0, 1), (1, 0), (1, 1)]);
    assert_eq!(universe.live_neighbour_count(0, 0), 8);
    universe.tick();
    assert_eq!(live_set(&universe), vec![]);
}

#[test]
fn blinker_has_period_two() {
    let upright = vec![(1, 2), (2, 2), (3, 2)];
    let flat = vec![(2, 1), (2, 2), (2, 3)];
    let mut universe = pattern(5, 5, &upright);
    universe.tick();
    assert_eq!(live_set(&universe), flat);
    universe.tick();
    assert_eq!(live_set(&universe), upright);
    universe.tick();
    assert_eq!(live_set(&universe), flat);
}

#[test]
fn blinker_on_a_four_by_four_torus() {
    let upright = vec![(0, 1), (1, 1), (2, 1)];
    let flat = vec![(1, 0), (1, 1), (1, 2)];
    let mut universe = pattern(4, 4, &upright);
    universe.tick();
    assert_eq!(live_set(&universe), flat);
    universe.tick();
    assert_eq!(live_set(&universe), upright);
}

#[test]
fn blinker_across_an_edge() {
    let flat = vec![(0, 0), (0, 1), (0, 5)];
    let upright = vec![(0, 0), (1, 0), (4, 0)];
    let mut universe = pattern(6, 5, &flat);
    universe.tick();
    assert_eq!(live_set(&universe), upright);
    universe.tick();
    assert_eq!(live_set(&universe), flat);
}

#[test]
fn full_column_on_a_three_by_three_torus_fills_the_grid_then_dies() {
    // Round a torus of three columns every dead cell sees the whole live
    // column, so all six dead cells come alive while the three live ones
    // survive on two neighbours each.
    let mut universe = pattern(3, 3, &[(0, 1), (1, 1), (2, 1)]);
    assert_eq!(universe.live_neighbour_count(0, 0), 3);
    assert_eq!(universe.live_neighbour_count(1, 0), 3);
    assert_eq!(universe.live_neighbour_count(1, 1), 2);
    universe.tick();
    assert_eq!(universe.cells().to_vec(), vec![Cell::Alive; 9]);
    universe.tick();
    assert_eq!(universe.cells().to_vec(), vec![Cell::Dead; 9]);
}

#[test]
fn tick_reads_the_current_generation_only() {
    // A glider: an update in place would already go wrong in the first row.
    let mut universe = pattern(8, 8, &[(0, 1), (1, 2), (2, 0), (2, 1), (2, 2)]);
    universe.tick();
    assert_eq!(live_set(&universe), vec![(1, 0), (1, 2), (2, 1), (2, 2), (3, 1)]);
    universe.tick();
    assert_eq!(live_set(&universe), vec![(1, 2), (2, 0), (2, 2), (3, 1), (3, 2)]);
}

#[test]
fn tick_agrees_with_signed_arithmetic() {
    let mut universe = Universe::new();
    for _ in 0..5 {
        let expected = reference_tick(&universe);
        universe.tick();
        assert_eq!(universe.cells().to_vec(), expected);
    }
    let mut state: u32 = 12345;
    let mut universe = match Universe::with_seed(11, 7, |_| Cell::Dead) {
        Ok(universe) => universe,
        Err(error) => panic!("no universe: {:?}", error),
    };
    for round in 0..4 {
        let mut bits = Vec::new();
        for _ in 0..77 {
            state = state.wrapping_mul(1664525).wrapping_add(1013904223);
            bits.push(state >> 16 & 1 == 1);
        }
        universe = match Universe::with_seed(11, 7, |i| {
            if bits[i] {
                Cell::Alive
            } else {
                Cell::Dead
            }
        }) {
            Ok(universe) => universe,
            Err(error) => panic!("no universe: {:?}", error),
        };
        let expected = reference_tick(&universe);
        universe.tick();
        assert_eq!(universe.cells().to_vec(), expected, "round {}", round);
    }
}

#[test]
fn render_of_a_small_universe() {
    let universe = pattern(3, 2, &[(0, 1), (1, 0), (1, 2)]);
    assert_eq!(universe.render(), "\u{25FB}\u{25FC}\u{25FB}\n\u{25FC}\u{25FB}\u{25FC}\n");
}

#[test]
fn render_of_a_single_cell() {
    assert_eq!(pattern(1, 1, &[]).render(), "\u{25FB}\n");
    assert_eq!(pattern(1, 1, &[(0, 0)]).render(), "\u{25FC}\n");
}

#[test]
fn render_has_one_line_for_each_row() {
    let universe = Universe::new();
    let text = universe.render();
    assert!(text.ends_with('\n'));
    assert_eq!(text.chars().count(), 64 * 65);
    assert_eq!(text.chars().filter(|c| *c == '\n').count(), 64);
    let lines: Vec<&str> = text.lines().collect();
    assert_eq!(lines.len(), 64);
    for (row, line) in lines.iter().enumerate() {
        let symbols: Vec<char> = line.chars().collect();
        assert_eq!(symbols.len(), 64);
        for (column, symbol) in symbols.iter().enumerate() {
            let cell = universe.cells()[universe.get_index(row as u32, column as u32)];
            assert_eq!(*symbol, cell.glyph());
        }
    }
}

#[test]
fn render_does_not_change_the_universe() {
    let universe = pattern(4, 4, &[(1, 1), (2, 3)]);
    let before = universe.cells().to_vec();
    let first = universe.render();
    let second = universe.render();
    assert_eq!(first, second);
    assert_eq!(universe.cells().to_vec(), before);
}

#[test]
fn render_follows_the_generations() {
    let mut universe = pattern(5, 5, &[(1, 2), (2, 2), (3, 2)]);
    let d = '\u{25FB}';
    let a = '\u{25FC}';
    let row = |cells: [char; 5]| -> String {
        let mut line: String = cells.iter().collect();
        line.push('\n');
        line
    };
    let upright = [
        row([d, d, d, d, d]),
        row([d, d, a, d, d]),
        row([d, d, a, d, d]),
        row([d, d, a, d, d]),
        row([d, d, d, d, d]),
    ]
    .concat();
    let flat = [
        row([d, d, d, d, d]),
        row([d, d, d, d, d]),
        row([d, a, a, a, d]),
        row([d, d, d, d, d]),
        row([d, d, d, d, d]),
    ]
    .concat();
    assert_eq!(universe.render(), upright);
    universe.tick();
    assert_eq!(universe.render(), flat);
    universe.tick();
    assert_eq!(universe.render(), upright);
}
