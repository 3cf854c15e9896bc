use life_grid::GridError;
use life_grid::Universe;

fn index(u: &Universe, row: u32, col: u32) -> u32 {
    row * u.width() + col
}

const GLIDER: [(u32, u32); 5] = [(1, 0), (2, 1), (0, 2), (1, 2), (2, 2)];

const PULSAR: [(u32, u32); 48] = [
    (1, 3), (1, 4), (1, 5), (1, 9), (1, 10), (1, 11),
    (6, 3), (6, 4), (6, 5), (6, 9), (6, 10), (6, 11),
    (8, 3), (8, 4), (8, 5), (8, 9), (8, 10), (8, 11),
    (13, 3), (13, 4), (13, 5), (13, 9), (13, 10), (13, 11),
    (3, 1), (4, 1), (5, 1), (9, 1), (10, 1), (11, 1),
    (3, 6), (4, 6), (5, 6), (9, 6), (10, 6), (11, 6),
    (3, 8), (4, 8), (5, 8), (9, 8), (10, 8), (11, 8),
    (3, 13), (4, 13), (5, 13), (9, 13), (10, 13), (11, 13),
];

#[test]
fn glider_insertion_sets_exactly_its_cells() {
    let mut u = Universe::new_empty(16, 16).unwrap();
    assert_eq!(u.insert_glider(5, 6), Ok(()));
    for r in 0..16u32 {
        for c in 0..16u32 {
            let expected = GLIDER.iter().any(|&(dr, dc)| (r, c) == (5 + dr, 6 + dc));
            assert_eq!(u.is_alive(index(&u, r, c)), expected, "cell ({}, {})", r, c);
        }
    }
}

#[test]
fn glider_insertion_on_border_is_rejected() {
    let mut u = Universe::new_empty(16, 16).unwrap();
    assert_eq!(u.insert_glider(14, 0), Err(GridError::PatternDoesNotFit));
    assert_eq!(u.insert_glider(0, 14), Err(GridError::PatternDoesNotFit));
    for i in 0..256 {
        assert!(!u.is_alive(i), "grid must be unmodified");
    }
    assert_eq!(u.insert_glider(13, 13), Ok(()));
}

#[test]
fn pulsar_insertion_sets_exactly_its_cells() {
    let mut u = Universe::new_empty(64, 64).unwrap();
    assert_eq!(u.insert_pulsar(10, 20), Ok(()));
    for r in 0..64u32 {
        for c in 0..64u32 {
            let expected = PULSAR.iter().any(|&(dr, dc)| (r, c) == (10 + dr, 20 + dc));
            assert_eq!(u.is_alive(index(&u, r, c)), expected, "cell ({}, {})", r, c);
        }
    }
}

#[test]
fn pulsar_near_the_border_is_rejected_and_grid_unchanged() {
    let mut u = Universe::new_empty(64, 64).unwrap();
    assert_eq!(u.insert_pulsar(64 - 5, 0), Err(GridError::PatternDoesNotFit));
    for i in 0..64 * 64 {
        assert!(!u.is_alive(i), "grid must be unmodified");
    }
}

#[test]
fn pulsar_has_period_three() {
    let mut u = Universe::new_empty(32, 32).unwrap();
    u.insert_pulsar(8, 8).unwrap();
    let mut start = Vec::new();
    for i in 0..(32 * 32) {
        start.push(u.is_alive(i));
    }
    u.tick();
    u.tick();
    u.tick();
    for i in 0..(32u32 * 32) {
        assert_eq!(u.is_alive(i), start[i as usize], "cell {} after three steps", i);
    }
}

#[test]
fn insert_pattern_rejects_misfit_and_applies_fit() {
    let mut u = Universe::new_empty(10, 10).unwrap();
    let pattern = vec![(0u32, 0u32), (1, 1)];
    assert_eq!(
        u.insert_pattern(&pattern, 2, 2, 9, 0),
        Err(GridError::PatternDoesNotFit)
    );
    assert_eq!(u.insert_pattern(&pattern, 2, 2, 8, 8), Ok(()));
    assert!(u.is_alive(index(&u, 8, 8)));
    assert!(u.is_alive(index(&u, 9, 9)));
    assert!(!u.is_alive(index(&u, 8, 9)));
}

#[test]
fn spaceship_universe_holds_the_ship_at_ten_ten() {
    let ship = [
        (0u32, 1u32), (0, 4), (1, 0), (2, 0), (2, 4),
        (3, 0), (3, 1), (3, 2), (3, 3),
    ];
    let u = Universe::new_spaceship();
    assert_eq!(u.width(), 64);
    assert_eq!(u.height(), 64);
    for r in 0..64u32 {
        for c in 0..64u32 {
            let expected = ship.iter().any(|&(dr, dc)| (r, c) == (10 + dr, 10 + dc));
            assert_eq!(u.is_alive(index(&u, r, c)), expected, "cell ({}, {})", r, c);
        }
    }
}

#[test]
fn spaceship_travels_west_around_the_torus() {
    // The lightweight spaceship repeats its shape every four steps,
    // two columns to the west.
    let mut u = Universe::new_spaceship();
    let mut start = Vec::new();
    for i in 0..(64 * 64) {
        start.push(u.is_alive(i));
    }
    for _ in 0..4 {
        u.tick();
    }
    for r in 0..64u32 {
        for c in 0..64u32 {
            let from = index(&u, r, (c + 2) % 64);
            assert_eq!(
                u.is_alive(index(&u, r, c)),
                start[from as usize],
                "cell ({}, {})",
                r,
                c
            );
        }
    }
}
