use memmap2::MmapMut;
use walk_bg::draw::{buffer_len, cell_color, draw_disk, draw_dot_grid, draw_line, Bgra};
use walk_bg::types::{Config, Grid};

const INK: Bgra = Bgra { b: 1, g: 2, r: 3, a: 4 };

fn buffer(w: u32, h: u32) -> MmapMut {
    MmapMut::map_anon((w * h * 4) as usize).unwrap()
}

fn pixel(m: &MmapMut, w: u32, x: u32, y: u32) -> [u8; 4] {
    let o = ((y * w + x) * 4) as usize;
    [m[o], m[o + 1], m[o + 2], m[o + 3]]
}

fn inked(m: &MmapMut, w: u32, h: u32) -> Vec<(u32, u32)> {
    let mut v = Vec::new();
    for y in 0..h {
        for x in 0..w {
            if pixel(m, w, x, y) == [1, 2, 3, 4] {
                v.push((x, y));
            }
        }
    }
    v
}

#[test]
fn horizontal_line_has_six_pixels() {
    let mut m = buffer(10, 10);
    draw_line(&mut m, 10, 10, 0, 0, 5, 0, INK);
    assert_eq!(inked(&m, 10, 10), vec![(0, 0), (1, 0), (2, 0), (3, 0), (4, 0), (5, 0)]);
}

#[test]
fn diagonal_line_has_four_pixels() {
    let mut m = buffer(10, 10);
    draw_line(&mut m, 10, 10, 0, 0, 3, 3, INK);
    assert_eq!(inked(&m, 10, 10), vec![(0, 0), (1, 1), (2, 2), (3, 3)]);
}

#[test]
fn degenerate_line_is_one_pixel() {
    let mut m = buffer(10, 10);
    draw_line(&mut m, 10, 10, 2, 2, 2, 2, INK);
    assert_eq!(inked(&m, 10, 10), vec![(2, 2)]);
}

#[test]
fn reversed_vertical_line() {
    let mut m = buffer(10, 10);
    draw_line(&mut m, 10, 10, 4, 6, 4, 3, INK);
    assert_eq!(inked(&m, 10, 10), vec![(4, 3), (4, 4), (4, 5), (4, 6)]);
}

#[test]
fn shallow_line_is_connected() {
    let mut m = buffer(10, 10);
    draw_line(&mut m, 10, 10, 0, 0, 6, 2, INK);
    let pts = inked(&m, 10, 10);
    assert_eq!(pts.len(), 7);
    let mut xs: Vec<u32> = pts.iter().map(|p| p.0).collect();
    xs.sort();
    assert_eq!(xs, vec![0, 1, 2, 3, 4, 5, 6]);
    assert!(pts.contains(&(0, 0)) && pts.contains(&(6, 2)));
}

#[test]
fn line_is_clipped() {
    let mut m = buffer(4, 4);
    draw_line(&mut m, 4, 4, -3, 1, 6, 1, INK);
    assert_eq!(inked(&m, 4, 4), vec![(0, 1), (1, 1), (2, 1), (3, 1)]);
}

#[test]
fn disk_of_radius_two_is_clipped() {
    let mut m = buffer(10, 10);
    draw_disk(&mut m, 10, 10, 0, 0, 2, INK);
    assert_eq!(inked(&m, 10, 10), vec![(0, 0), (1, 0), (2, 0), (0, 1), (1, 1), (0, 2)]);
    let mut m = buffer(10, 10);
    draw_disk(&mut m, 10, 10, 5, 5, 2, INK);
    assert_eq!(inked(&m, 10, 10).len(), 13);
}

#[test]
fn packed_colors_unpack_little_endian() {
    assert_eq!(Bgra::from_packed(0xff1a2b3c), Bgra { b: 0x3c, g: 0x2b, r: 0x1a, a: 0xff });
}

#[test]
fn dot_colors_warm_with_visits() {
    let c = Config::default();
    assert_eq!(cell_color(&c, 0, false), Bgra { b: 0x60, g: 0x60, r: 0x60, a: 0xff });
    assert_eq!(cell_color(&c, 5, false), Bgra { b: 98, g: 148, r: 175, a: 0xff });
    assert_eq!(cell_color(&c, 10, false), Bgra { b: 100, g: 200, r: 255, a: 0xff });
    assert_eq!(cell_color(&c, 255, false), Bgra { b: 100, g: 200, r: 255, a: 0xff });
    assert_eq!(cell_color(&c, 3, true), Bgra { b: 0, g: 0, r: 0xff, a: 0xff });
    let bright = Config { fg_color: 0xffffffff, ..Config::default() };
    assert_eq!(cell_color(&bright, 1, false), Bgra { b: 239, g: 249, r: 255, a: 0xff });
}

fn in_some_dot(x: i64, y: i64, centers: &[i64], r: i64) -> bool {
    centers.iter().any(|&cx| centers.iter().any(|&cy| (x - cx).pow(2) + (y - cy).pow(2) <= r * r))
}

#[test]
fn unvisited_frame_is_background_and_dots() {
    let config = Config::default();
    let grid = Grid::new(3, 3);
    let mut m = buffer(40, 40);
    draw_dot_grid(&mut m, 40, 40, config, &grid, (100, 100));
    for y in 0..40u32 {
        for x in 0..40u32 {
            let expected = if in_some_dot(x as i64, y as i64, &[0, 20, 40], 2) {
                [0x60, 0x60, 0x60, 0xff]
            } else {
                [0x1a, 0x1a, 0x1a, 0xff]
            };
            assert_eq!(pixel(&m, 40, x, y), expected, "pixel ({x}, {y})");
        }
    }
    assert_eq!(pixel(&m, 40, 20, 20), [0x60, 0x60, 0x60, 0xff]);
    assert_eq!(pixel(&m, 40, 10, 10), [0x1a, 0x1a, 0x1a, 0xff]);
}

#[test]
fn active_cell_is_highlighted() {
    let config = Config::default();
    let grid = Grid::new(3, 3);
    let mut m = buffer(40, 40);
    draw_dot_grid(&mut m, 40, 40, config, &grid, (1, 1));
    assert_eq!(pixel(&m, 40, 20, 20), [0, 0, 0xff, 0xff]);
    assert_eq!(pixel(&m, 40, 22, 20), [0, 0, 0xff, 0xff]);
    assert_eq!(pixel(&m, 40, 0, 0), [0x60, 0x60, 0x60, 0xff]);
    let plain = Config { highlight_active: false, ..Config::default() };
    draw_dot_grid(&mut m, 40, 40, plain, &grid, (1, 1));
    assert_eq!(pixel(&m, 40, 20, 20), [0x60, 0x60, 0x60, 0xff]);
}

#[test]
fn visited_neighbours_are_joined() {
    let config = Config { highlight_active: false, ..Config::default() };
    let mut grid = Grid::new(3, 3);
    grid.visit(0, 0);
    grid.visit(1, 0);
    grid.visit(1, 0);
    grid.visit(1, 1);
    let mut m = buffer(40, 40);
    draw_dot_grid(&mut m, 40, 40, config, &grid, (5, 5));
    let edge = [0x30, 0x30, 0x30, 0xff];
    for x in 3..18 {
        assert_eq!(pixel(&m, 40, x, 0), edge, "x {x}");
    }
    for y in 3..18 {
        assert_eq!(pixel(&m, 40, 20, y), edge, "y {y}");
        assert_eq!(pixel(&m, 40, 0, y), [0x1a, 0x1a, 0x1a, 0xff]);
    }
    assert_eq!(pixel(&m, 40, 0, 0), [0x60, 0x6a, 0x6f, 0xff]);
    assert_eq!(pixel(&m, 40, 20, 0), [0x60, 0x74, 0x7f, 0xff]);
    let apart = Config { connect_dots: false, ..config };
    draw_dot_grid(&mut m, 40, 40, apart, &grid, (5, 5));
    assert_eq!(pixel(&m, 40, 10, 0), [0x1a, 0x1a, 0x1a, 0xff]);
}

#[test]
fn painting_twice_gives_the_same_bytes() {
    let config = Config::default();
    let mut grid = Grid::new(3, 3);
    grid.visit(1, 1);
    grid.visit(2, 1);
    let mut m = buffer(40, 40);
    for (i, b) in m.iter_mut().enumerate() {
        *b = i as u8;
    }
    draw_dot_grid(&mut m, 40, 40, config, &grid, (2, 1));
    let first: Vec<u8> = m.to_vec();
    draw_dot_grid(&mut m, 40, 40, config, &grid, (2, 1));
    assert_eq!(m.to_vec(), first);
    let mut fresh = buffer(40, 40);
    draw_dot_grid(&mut fresh, 40, 40, config, &grid, (2, 1));
    assert_eq!(fresh.to_vec(), first);
}

#[test]
fn buffer_len_is_mapped_length() {
    let m = buffer(7, 3);
    assert_eq!(buffer_len(&m), 84);
    let empty = MmapMut::map_anon(0).unwrap();
    assert_eq!(buffer_len(&empty), 0);
}
