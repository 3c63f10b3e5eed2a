use walk_bg::types::{Config, Grid, WalkState};

#[test]
fn new_grid_is_zeroed() {
    let g = Grid::new(4, 3);
    assert_eq!(g.get_width(), 4);
    assert_eq!(g.get_height(), 3);
    for y in 0..3 {
        for x in 0..4 {
            assert_eq!(g.get_visits(x, y), 0);
        }
    }
}

#[test]
fn visits_count_up_and_saturate() {
    let mut g = Grid::new(3, 3);
    for n in 1..=300u32 {
        g.visit(1, 2);
        assert_eq!(g.get_visits(1, 2) as u32, n.min(255));
    }
    for y in 0..3 {
        for x in 0..3 {
            if (x, y) != (1, 2) {
                assert_eq!(g.get_visits(x, y), 0);
            }
        }
    }
}

#[test]
fn visit_out_of_bounds_changes_nothing() {
    let mut g = Grid::new(2, 2);
    g.visit(0, 0);
    g.visit(2, 0);
    g.visit(0, 2);
    g.visit(u32::MAX, u32::MAX);
    assert_eq!(g.get_visits(0, 0), 1);
    assert_eq!(g.get_visits(1, 0), 0);
    assert_eq!(g.get_visits(0, 1), 0);
    assert_eq!(g.get_visits(1, 1), 0);
}

#[test]
fn reads_out_of_bounds_are_zero() {
    let mut g = Grid::new(2, 2);
    g.visit(1, 1);
    assert_eq!(g.get_visits(2, 1), 0);
    assert_eq!(g.get_visits(1, 2), 0);
    assert_eq!(g.get_visits(100, 100), 0);
}

#[test]
fn resize_drops_counts() {
    let mut g = Grid::new(2, 2);
    g.visit(0, 0);
    g.visit(1, 1);
    g.resize(5, 4);
    assert_eq!(g.get_width(), 5);
    assert_eq!(g.get_height(), 4);
    for y in 0..4 {
        for x in 0..5 {
            assert_eq!(g.get_visits(x, y), 0);
        }
    }
    g.resize(2, 2);
    assert_eq!(g.get_visits(0, 0), 0);
    assert_eq!(g.get_visits(1, 1), 0);
}

#[test]
fn empty_grid() {
    let mut g = Grid::new(0, 0);
    g.visit(0, 0);
    assert_eq!(g.get_visits(0, 0), 0);
    assert_eq!(g.get_width(), 0);
}

#[test]
fn walk_state_flags_and_position() {
    let mut w = WalkState::new(7, 5);
    assert_eq!(w.get_width(), 7);
    assert_eq!(w.get_height(), 5);
    assert_eq!(w.get_current_pos(), (0, 0));
    assert!(!w.needs_update());
    w.set_needs_update();
    w.set_needs_update();
    assert!(w.needs_update());
    w.set_pos(3, 4);
    assert_eq!(w.get_current_pos(), (3, 4));
    w.clear_update_flag();
    assert!(!w.needs_update());
}

#[test]
fn config_defaults() {
    let c = Config::default();
    assert_eq!(c.get_pixels_per_point(), 20);
    assert_eq!(c.get_dot_radius(), 2);
    assert_eq!(c.get_bg_color(), 0xff1a1a1a);
    assert_eq!(c.get_fg_color(), 0xff606060);
    assert_eq!(c.get_active_color(), 0xffff0000);
    assert!(c.connect_dots());
    assert!(c.display_active_field());
}
