use memmap2::MmapMut;
use walk_bg::presentation::{Phase, Presentation, Submission};
use walk_bg::types::Config;

fn spaced(pixels_per_point: u32) -> Config {
    Config { pixels_per_point, ..Config::default() }
}

#[test]
fn configure_then_walk_one_step() {
    let mut p = Presentation::new(spaced(50));
    assert_eq!(p.phase(), Phase::Unconfigured);
    assert_eq!(p.configure(100, 100), 40000);
    assert_eq!(p.phase(), Phase::Configured);
    assert_eq!(p.get_grid().get_width(), 3);
    assert_eq!(p.get_grid().get_height(), 3);
    assert_eq!(p.get_current_pos(), (1, 1));
    let next = p.walk();
    assert!([(1, 0), (2, 1), (1, 2), (0, 1)].contains(&next));
    assert_eq!(p.get_current_pos(), next);
    for y in 0..3 {
        for x in 0..3 {
            let expected = if (x, y) == next { 1 } else { 0 };
            assert_eq!(p.get_grid().get_visits(x, y), expected);
        }
    }
}

#[test]
fn zero_size_falls_back_to_default() {
    let mut p = Presentation::new(Config::default());
    assert_eq!(p.configure(0, 700), 1920 * 1080 * 4);
    assert_eq!((p.get_width(), p.get_height()), (1920, 1080));
    assert_eq!(p.get_grid().get_width(), 1920 / 20 + 1);
    assert_eq!(p.get_grid().get_height(), 1080 / 20 + 1);
    assert_eq!(p.get_current_pos(), (48, 27));
}

#[test]
fn nothing_to_draw_before_configure() {
    let mut p = Presentation::new(Config::default());
    assert!(!p.is_configured());
    assert_eq!(p.acquire_drawable(), None);
    assert_eq!(p.submit(), None);
    assert_eq!(p.phase(), Phase::Unconfigured);
}

#[test]
fn mapping_and_pool_are_made_once_per_size() {
    let mut p = Presentation::new(spaced(10));
    p.configure(30, 20);
    assert_eq!(p.submit(), None);
    assert_eq!(p.acquire_drawable(), Some(true));
    assert_eq!(p.acquire_drawable(), Some(false));
    let first = Submission { create_pool: true, width: 30, height: 20, stride: 120, size: 2400 };
    assert_eq!(p.submit(), Some(first));
    assert_eq!(p.phase(), Phase::Presenting);
    assert_eq!(p.submit(), Some(Submission { create_pool: false, ..first }));
    p.configure(30, 20);
    assert_eq!(p.phase(), Phase::Configured);
    assert_eq!(p.acquire_drawable(), Some(false));
    assert_eq!(p.submit(), Some(Submission { create_pool: false, ..first }));
    p.configure(40, 20);
    assert_eq!(p.acquire_drawable(), Some(true));
    assert_eq!(p.submit().map(|s| (s.create_pool, s.size)), Some((true, 3200)));
}

#[test]
fn reconfigure_drops_visits() {
    let mut p = Presentation::new(spaced(10));
    p.configure(30, 30);
    p.set_pos(0, 0);
    p.set_pos(0, 0);
    assert_eq!(p.get_grid().get_visits(0, 0), 2);
    p.configure(30, 30);
    assert_eq!(p.get_grid().get_visits(0, 0), 0);
    assert_eq!(p.get_current_pos(), (2, 2));
}

#[test]
fn paint_fills_the_mapped_store() {
    let mut p = Presentation::new(spaced(20));
    let len = p.configure(40, 40);
    let mut m = MmapMut::map_anon(len).unwrap();
    p.paint(&mut m);
    let o = (10 * 40 + 10) * 4;
    assert_eq!(&m[o..o + 4], &[0x1a, 0x1a, 0x1a, 0xff]);
    let c = (20 * 40 + 20) * 4;
    assert_eq!(&m[c..c + 4], &[0, 0, 0xff, 0xff]);
}
