use walk_bg::utils::{random_walk_step, step_in_direction};

#[test]
fn each_direction_moves_one_cell() {
    assert_eq!(step_in_direction(2, 2, 5, 5, 0), (2, 1));
    assert_eq!(step_in_direction(2, 2, 5, 5, 1), (3, 2));
    assert_eq!(step_in_direction(2, 2, 5, 5, 2), (2, 3));
    assert_eq!(step_in_direction(2, 2, 5, 5, 3), (1, 2));
    assert_eq!(step_in_direction(2, 2, 5, 5, 7), (1, 2));
    assert_eq!(step_in_direction(2, 2, 5, 5, u64::MAX), (1, 2));
}

#[test]
fn edges_clamp() {
    assert_eq!(step_in_direction(0, 0, 3, 3, 0), (0, 0));
    assert_eq!(step_in_direction(0, 0, 3, 3, 3), (0, 0));
    assert_eq!(step_in_direction(2, 2, 3, 3, 1), (2, 2));
    assert_eq!(step_in_direction(2, 2, 3, 3, 2), (2, 2));
}

#[test]
fn random_steps_stay_adjacent_and_in_bounds() {
    let (w, h) = (4u32, 3u32);
    for y in 0..h {
        for x in 0..w {
            for _ in 0..20 {
                let (nx, ny) = random_walk_step(x, y, w, h);
                assert!(nx < w && ny < h);
                let d = (nx as i64 - x as i64).abs() + (ny as i64 - y as i64).abs();
                assert!(d <= 1);
            }
        }
    }
}

#[test]
fn single_cell_grid_stays_put() {
    for _ in 0..10 {
        assert_eq!(random_walk_step(0, 0, 1, 1), (0, 0));
    }
}
