use life_grid::GridError;
use life_grid::Universe;

fn snapshot(u: &Universe) -> Vec<bool> {
    let size = u.width() as u64 * u.height() as u64;
    let mut cells = Vec::new();
    let mut i: u32 = 0;
    while (i as u64) < size {
        cells.push(u.is_alive(i));
        i += 1;
    }
    cells
}

fn index(u: &Universe, row: u32, col: u32) -> u32 {
    row * u.width() + col
}

#[test]
fn empty_universe_is_all_dead() {
    let u = Universe::new_empty(8, 6).unwrap();
    assert_eq!(u.width(), 8);
    assert_eq!(u.height(), 6);
    for i in 0..48 {
        assert!(!u.is_alive(i));
    }
    assert!(u.delta_a().is_empty());
    assert!(u.delta_d().is_empty());
}

#[test]
fn zero_dimensions_are_rejected() {
    assert!(matches!(Universe::new_empty(0, 6), Err(GridError::InvalidDimensions)));
    assert!(matches!(Universe::new_empty(8, 0), Err(GridError::InvalidDimensions)));
    assert!(Universe::new_stripe(0, 0).is_err());
    let bits = vec![false; 0];
    assert!(matches!(
        Universe::new_seeded(0, 0, &bits),
        Err(GridError::InvalidDimensions)
    ));
}

#[test]
fn stripe_seed_matches_formula() {
    let u = Universe::new_stripe(16, 4).unwrap();
    for i in 0..64u32 {
        let expected = i % 2 == 0 || i % 7 == 0;
        assert_eq!(u.is_alive(i), expected, "cell {}", i);
    }
}

#[test]
fn default_universe_is_128_stripe() {
    let u = Universe::new();
    assert_eq!(u.width(), 128);
    assert_eq!(u.height(), 128);
    assert!(u.is_alive(0));
    assert!(!u.is_alive(1));
    assert!(u.is_alive(7));
    assert!(u.is_alive(14));
    assert!(!u.is_alive(9));
}

#[test]
fn seeded_universe_reads_back_its_bits() {
    let mut bits = vec![false; 30];
    bits[0] = true;
    bits[13] = true;
    bits[29] = true;
    let u = Universe::new_seeded(6, 5, &bits).unwrap();
    for i in 0..30u32 {
        assert_eq!(u.is_alive(i), bits[i as usize]);
    }
}

#[test]
fn random_universe_uses_the_injected_source() {
    let mut bits = vec![false; 128 * 128];
    for (i, b) in bits.iter_mut().enumerate() {
        *b = i % 3 == 0;
    }
    let u = Universe::new_random(&bits);
    assert_eq!(u.width(), 128);
    assert!(u.is_alive(0));
    assert!(!u.is_alive(1));
    assert!(u.is_alive(3));
}

#[test]
fn toggle_cell_flips_and_rejects_out_of_bounds() {
    let mut u = Universe::new_empty(4, 4).unwrap();
    assert_eq!(u.toggle_cell(2, 3), Ok(()));
    assert!(u.is_alive(index(&u, 2, 3)));
    assert_eq!(u.toggle_cell(2, 3), Ok(()));
    assert!(!u.is_alive(index(&u, 2, 3)));
    assert_eq!(u.toggle_cell(4, 0), Err(GridError::OutOfBounds));
    assert_eq!(u.toggle_cell(0, 4), Err(GridError::OutOfBounds));
}

#[test]
fn set_cells_rejects_whole_batch_on_any_bad_coordinate() {
    let mut u = Universe::new_empty(4, 4).unwrap();
    let r = u.set_cells(&[(0, 0), (3, 9)]);
    assert_eq!(r, Err(GridError::OutOfBounds));
    for i in 0..16 {
        assert!(!u.is_alive(i), "grid must be unmodified");
    }
    assert_eq!(u.set_cells(&[(0, 0), (3, 3)]), Ok(()));
    assert!(u.is_alive(index(&u, 0, 0)));
    assert!(u.is_alive(index(&u, 3, 3)));
}

#[test]
fn reset_dead_clears_everything() {
    let mut u = Universe::new_stripe(8, 8).unwrap();
    u.reset_dead();
    for i in 0..64 {
        assert!(!u.is_alive(i));
    }
}

#[test]
fn reset_random_overwrites_every_cell() {
    let mut u = Universe::new_stripe(5, 5).unwrap();
    let mut bits = vec![false; 25];
    bits[7] = true;
    u.reset_random(&bits);
    for i in 0..25u32 {
        assert_eq!(u.is_alive(i), i == 7);
    }
}

#[test]
fn resize_forces_a_fresh_empty_grid() {
    let mut u = Universe::new_stripe(8, 8).unwrap();
    assert_eq!(u.set_width(5), Ok(()));
    assert_eq!(u.width(), 5);
    assert_eq!(u.height(), 8);
    for i in 0..40 {
        assert!(!u.is_alive(i));
    }
    assert!(u.delta_a().is_empty());
    assert!(u.delta_d().is_empty());
    assert_eq!(u.set_height(3), Ok(()));
    assert_eq!(u.height(), 3);
    for i in 0..15 {
        assert!(!u.is_alive(i));
    }
    assert_eq!(u.set_width(0), Err(GridError::InvalidDimensions));
    assert_eq!(u.set_height(0), Err(GridError::InvalidDimensions));
    assert_eq!(u.width(), 5);
    assert_eq!(u.height(), 3);
}

#[test]
fn dead_grid_steps_to_dead_grid_with_empty_deltas() {
    let mut u = Universe::new_empty(9, 7).unwrap();
    u.tick();
    for i in 0..63 {
        assert!(!u.is_alive(i));
    }
    assert!(u.delta_a().is_empty());
    assert!(u.delta_d().is_empty());
}

#[test]
fn block_is_a_still_life() {
    let mut u = Universe::new_empty(8, 8).unwrap();
    u.set_cells(&[(3, 3), (3, 4), (4, 3), (4, 4)]).unwrap();
    let before = snapshot(&u);
    u.tick();
    assert_eq!(snapshot(&u), before);
    assert!(u.delta_a().is_empty());
    assert!(u.delta_d().is_empty());
}

#[test]
fn blinker_has_period_two_with_inverse_deltas() {
    let mut u = Universe::new_empty(8, 8).unwrap();
    u.set_cells(&[(3, 2), (3, 3), (3, 4)]).unwrap();
    let start = snapshot(&u);
    u.tick();
    let mid = snapshot(&u);
    assert_ne!(mid, start);
    assert!(u.is_alive(index(&u, 2, 3)));
    assert!(u.is_alive(index(&u, 3, 3)));
    assert!(u.is_alive(index(&u, 4, 3)));
    assert!(!u.is_alive(index(&u, 3, 2)));
    assert!(!u.is_alive(index(&u, 3, 4)));
    let alive1 = u.delta_a().clone();
    let dead1 = u.delta_d().clone();
    assert!(!alive1.is_empty());
    assert!(!dead1.is_empty());
    u.tick();
    assert_eq!(snapshot(&u), start, "period two: back to the start");
    let alive2 = u.delta_a().clone();
    let dead2 = u.delta_d().clone();
    assert!(!alive2.is_empty());
    assert!(!dead2.is_empty());
    assert_eq!(alive2, dead1, "step two revives what step one killed");
    assert_eq!(dead2, alive1, "step two kills what step one bred");
}

#[test]
fn deltas_record_exactly_the_changed_cells_in_order() {
    let mut bits = vec![false; 36];
    for (i, b) in bits.iter_mut().enumerate() {
        *b = i % 5 == 0 || i % 11 == 3;
    }
    let mut u = Universe::new_seeded(6, 6, &bits).unwrap();
    let before = snapshot(&u);
    u.tick();
    let after = snapshot(&u);
    let alive = u.delta_a().clone();
    let dead = u.delta_d().clone();
    let mut expected_alive = Vec::new();
    let mut expected_dead = Vec::new();
    for i in 0..36usize {
        if !before[i] && after[i] {
            expected_alive.push(i as u32);
        }
        if before[i] && !after[i] {
            expected_dead.push(i as u32);
        }
    }
    assert_eq!(alive, expected_alive, "alive deltas in row-major order");
    assert_eq!(dead, expected_dead, "dead deltas in row-major order");
    for a in &alive {
        assert!(!dead.contains(a), "no index may appear in both lists");
    }
}

#[test]
fn border_pattern_evolves_like_the_shifted_interior_pattern() {
    // A blinker straddling the vertical border of an 8 x 8 torus...
    let mut edge = Universe::new_empty(8, 8).unwrap();
    edge.set_cells(&[(0, 7), (0, 0), (0, 1)]).unwrap();
    // ...and the same blinker shifted by (4, 4) into the interior.
    let mut center = Universe::new_empty(8, 8).unwrap();
    center.set_cells(&[(4, 3), (4, 4), (4, 5)]).unwrap();
    for (r, c) in [(0u32, 7u32), (0, 0), (0, 1)] {
        assert_eq!(
            edge.is_alive(index(&edge, r, c)),
            center.is_alive(index(&center, (r + 4) % 8, (c + 4) % 8))
        );
    }
    edge.tick();
    center.tick();
    for r in 0..8u32 {
        for c in 0..8u32 {
            assert_eq!(
                edge.is_alive(index(&edge, r, c)),
                center.is_alive(index(&center, (r + 4) % 8, (c + 4) % 8)),
                "cell ({}, {})",
                r,
                c
            );
        }
    }
}

#[test]
fn full_row_blinker_on_tiny_torus() {
    // On a 3 x 3 torus a horizontal blinker fills a whole row, so the
    // row wraps onto itself: every live cell keeps exactly two live
    // neighbors and survives, while both other rows see three live
    // cells each and are born.
    let mut u = Universe::new_empty(3, 3).unwrap();
    u.set_cells(&[(1, 0), (1, 1), (1, 2)]).unwrap();
    u.tick();
    for i in 0..9 {
        assert!(u.is_alive(i), "cell {} after one step", i);
    }
    assert_eq!(*u.delta_a(), vec![0, 1, 2, 6, 7, 8]);
    assert!(u.delta_d().is_empty());
    // One more step: every cell now has eight live neighbors and dies.
    u.tick();
    for i in 0..9 {
        assert!(!u.is_alive(i), "cell {} after two steps", i);
    }
    assert!(u.delta_a().is_empty());
    assert_eq!(*u.delta_d(), vec![0, 1, 2, 3, 4, 5, 6, 7, 8]);
}

#[test]
fn vertical_blinker_scenario_with_interior_room() {
    // A three-cell row segment on a 5 x 5 grid, where the row does
    // not wrap onto itself: the ends die, the center survives, and
    // the cells above and below the center are born - the horizontal
    // blinker turns into the vertical one.
    let mut u = Universe::new_empty(5, 5).unwrap();
    u.set_cells(&[(2, 1), (2, 2), (2, 3)]).unwrap();
    u.tick();
    let expected_alive = [index(&u, 1, 2), index(&u, 2, 2), index(&u, 3, 2)];
    for r in 0..5u32 {
        for c in 0..5u32 {
            let i = index(&u, r, c);
            assert_eq!(u.is_alive(i), expected_alive.contains(&i), "cell ({}, {})", r, c);
        }
    }
    assert_eq!(*u.delta_a(), vec![7, 17]);
    assert_eq!(*u.delta_d(), vec![11, 13]);
}

#[test]
fn packed_view_matches_cell_queries() {
    let mut u = Universe::new_empty(6, 4).unwrap();
    u.set_cells(&[(0, 0), (2, 5), (3, 1)]).unwrap();
    let view = u.cells();
    assert_eq!(view.len(), 24);
    for i in 0..24u32 {
        assert_eq!(view.contains(i as usize), u.is_alive(i));
    }
    assert_eq!(view.count_ones(..), 3);
}

#[test]
fn cell_states_are_distinct() {
    assert_ne!(life_grid::Cell::Dead, life_grid::Cell::Alive);
    assert_eq!(life_grid::Cell::Alive, life_grid::Cell::Alive);
}

#[test]
fn lone_cell_on_one_by_one_torus_dies() {
    // On a 1 x 1 torus every neighbor coordinate wraps back onto the
    // cell itself, so a live cell counts eight live neighbors and
    // dies of overpopulation.
    let mut u = Universe::new_empty(1, 1).unwrap();
    u.toggle_cell(0, 0).unwrap();
    assert!(u.is_alive(0));
    u.tick();
    assert!(!u.is_alive(0));
    assert!(u.delta_a().is_empty());
    assert_eq!(*u.delta_d(), vec![0]);
    u.tick();
    assert!(!u.is_alive(0));
    assert!(u.delta_d().is_empty());
}
