//! Painting the dot grid into a mapped pixel buffer, four bytes per pixel in
//! blue, green, red, alpha order.
use crate::types::{lemma_row_major_index, Config, Grid};
use vstd::arithmetic::div_mod::{lemma_fundamental_div_mod, lemma_multiply_divide_lt};
use memmap2::MmapMut;
use vstd::prelude::*;

verus! {

#[verifier::external_type_specification]
#[verifier::external_body]
pub struct ExMmapMut(memmap2::MmapMut);

/// The bytes of a mapped region.
pub uninterp spec fn mmap_bytes(m: MmapMut) -> Seq<u8>;

/// Relies on `MmapMut`'s `Deref` to `[u8]`: `len` is the length of the mapped
/// region.
#[verifier::external_body]
fn mapped_len(m: &MmapMut) -> (r: usize)
    ensures
        r == mmap_bytes(*m).len(),
{
    m.len()
}

/// Relies on `MmapMut`'s `DerefMut` to `[u8]`: storing through an index in
/// range changes that byte and no other.
#[verifier::external_body]
fn store_byte(m: &mut MmapMut, i: usize, v: u8)
    requires
        i < mmap_bytes(*old(m)).len(),
    ensures
        mmap_bytes(*final(m)) == mmap_bytes(*old(m)).update(i as int, v),
{
    m[i] = v;
}

/// Length in bytes of a mapped buffer, as the painting functions require it.
pub fn buffer_len(m: &MmapMut) -> (r: usize)
    ensures
        r == mmap_bytes(*m).len(),
{
    mapped_len(m)
}

/// One pixel's channels in buffer order.
#[derive(Clone, Copy, PartialEq, Eq, Debug)]
pub struct Bgra {
    pub b: u8,
    pub g: u8,
    pub r: u8,
    pub a: u8,
}

/// A packed `0xAARRGGBB` color split into its bytes (little-endian order).
pub open spec fn unpack(c: u32) -> Bgra {
    Bgra {
        b: (c % 256) as u8,
        g: (c / 256 % 256) as u8,
        r: (c / 65536 % 256) as u8,
        a: (c / 16777216) as u8,
    }
}

/// Byte `k` (0 to 3) of a pixel.
pub open spec fn channel(c: Bgra, k: int) -> u8 {
    if k == 0 {
        c.b
    } else if k == 1 {
        c.g
    } else if k == 2 {
        c.r
    } else {
        c.a
    }
}

impl Bgra {
    pub fn from_packed(c: u32) -> (r: Bgra)
        ensures
            r == unpack(c),
    {
        Bgra {
            b: (c % 256) as u8,
            g: (c / 256 % 256) as u8,
            r: (c / 65536 % 256) as u8,
            a: (c / 16777216) as u8,
        }
    }

    fn channel(&self, k: usize) -> (r: u8)
        requires
            k < 4,
        ensures
            r == channel(*self, k as int),
    {
        if k == 0 {
            self.b
        } else if k == 1 {
            self.g
        } else if k == 2 {
            self.r
        } else {
            self.a
        }
    }
}

/// Channel `c` moved toward `ceiling` by `min(visits, 10)` tenths of the way,
/// rounded down.
pub open spec fn blend(c: u8, ceiling: u8, visits: u8) -> u8 {
    let k: int = if visits >= 10 {
        10
    } else {
        visits as int
    };
    ((c as int * (10 - k) + ceiling as int * k) / 10) as u8
}

/// The color of a dot with the given visit count: the foreground warmed toward
/// (255, 200, 100), or the active color where the dot is highlighted.
pub open spec fn dot_color(cfg: Config, visits: u8, highlighted: bool) -> Bgra {
    if highlighted {
        let a = unpack(cfg.active_color);
        Bgra { b: a.b, g: a.g, r: a.r, a: 255 }
    } else {
        let f = unpack(cfg.fg_color);
        Bgra { b: blend(f.b, 100, visits), g: blend(f.g, 200, visits), r: blend(f.r, 255, visits), a: 255 }
    }
}

/// Edges between visited dots: the foreground at half strength, opaque.
pub open spec fn edge_color(cfg: Config) -> Bgra {
    let f = unpack(cfg.fg_color);
    Bgra { b: (f.b / 2) as u8, g: (f.g / 2) as u8, r: (f.r / 2) as u8, a: 255 }
}

/// Pixel `(x, y)` of a `w`-wide, `h`-high buffer set to `c`; nothing happens
/// outside the buffer (or past the end of `b`).
pub open spec fn put_pixel(b: Seq<u8>, w: nat, h: nat, x: int, y: int, c: Bgra) -> Seq<u8> {
    if 0 <= x < w && 0 <= y < h && (y * w + x) * 4 + 4 <= b.len() {
        let o = (y * w + x) * 4;
        b.update(o, c.b).update(o + 1, c.g).update(o + 2, c.r).update(o + 3, c.a)
    } else {
        b
    }
}

/// Bresenham's walk from `(x, y)` toward `(x1, y1)`, plotting each point,
/// for at most `fuel` points.
pub open spec fn line_walk(
    b: Seq<u8>,
    w: nat,
    h: nat,
    x: int,
    y: int,
    x1: int,
    y1: int,
    err: int,
    dx: int,
    dy: int,
    sx: int,
    sy: int,
    c: Bgra,
    fuel: nat,
) -> Seq<u8>
    decreases fuel,
{
    if fuel == 0 {
        b
    } else {
        let b2 = put_pixel(b, w, h, x, y, c);
        if x == x1 && y == y1 {
            b2
        } else {
            let e2 = 2 * err;
            let err1 = if e2 > -dy { err - dy } else { err };
            let nx = if e2 > -dy { x + sx } else { x };
            let err2 = if e2 < dx { err1 + dx } else { err1 };
            let ny = if e2 < dx { y + sy } else { y };
            line_walk(b2, w, h, nx, ny, x1, y1, err2, dx, dy, sx, sy, c, (fuel - 1) as nat)
        }
    }
}

pub open spec fn abs_int(v: int) -> int {
    if v < 0 {
        -v
    } else {
        v
    }
}

/// The line from `(x0, y0)` to `(x1, y1)` as Bresenham rasterizes it, its
/// error term starting at `|dx| - |dy|`.
pub open spec fn line_spec(b: Seq<u8>, w: nat, h: nat, x0: int, y0: int, x1: int, y1: int, c: Bgra) -> Seq<u8> {
    let dx = abs_int(x1 - x0);
    let dy = abs_int(y1 - y0);
    let sx = if x0 < x1 { 1int } else { -1int };
    let sy = if y0 < y1 { 1int } else { -1int };
    line_walk(b, w, h, x0, y0, x1, y1, dx - dy, dx, dy, sx, sy, c, (dx + dy + 1) as nat)
}

/// The first `n` offsets `dx = -r, -r + 1, ...` of row `dy` of a disk of
/// radius `r` around `(cx, cy)`, those with `dx² + dy² <= r²` plotted.
pub open spec fn disk_row(b: Seq<u8>, w: nat, h: nat, cx: int, cy: int, r: int, dy: int, c: Bgra, n: nat) -> Seq<u8>
    decreases n,
{
    if n == 0 {
        b
    } else {
        let b1 = disk_row(b, w, h, cx, cy, r, dy, c, (n - 1) as nat);
        let dx = n - 1 - r;
        if dx * dx + dy * dy <= r * r {
            put_pixel(b1, w, h, cx + dx, cy + dy, c)
        } else {
            b1
        }
    }
}

/// The first `n` rows `dy = -r, -r + 1, ...` of that disk.
pub open spec fn disk_rows(b: Seq<u8>, w: nat, h: nat, cx: int, cy: int, r: int, c: Bgra, n: nat) -> Seq<u8>
    decreases n,
{
    if n == 0 {
        b
    } else {
        let b1 = disk_rows(b, w, h, cx, cy, r, c, (n - 1) as nat);
        disk_row(b1, w, h, cx, cy, r, n - 1 - r, c, (2 * r + 1) as nat)
    }
}

/// A filled disk of radius `r` around `(cx, cy)`, clipped to the buffer.
pub open spec fn disk_spec(b: Seq<u8>, w: nat, h: nat, cx: int, cy: int, r: int, c: Bgra) -> Seq<u8> {
    disk_rows(b, w, h, cx, cy, r, c, (2 * r + 1) as nat)
}

/// Grid columns that a `w`-pixel-wide surface holds at the given spacing.
pub open spec fn grid_dim(w: nat, spacing: nat) -> nat {
    w / spacing + 1
}

/// Cell `(gx, gy)`: its edges to visited right and lower neighbours (when
/// enabled and the cell was visited), then its dot.
pub open spec fn paint_cell(
    b: Seq<u8>,
    w: nat,
    h: nat,
    cfg: Config,
    grid: Grid,
    pos: (u32, u32),
    gx: int,
    gy: int,
) -> Seq<u8> {
    let s = cfg.pixels_per_point as int;
    let gw = grid_dim(w, s as nat);
    let gh = grid_dim(h, s as nat);
    let v = grid.count(gx, gy);
    let highlighted = gx == pos.0 && gy == pos.1 && cfg.highlight_active;
    let cx = gx * s;
    let cy = gy * s;
    let e = edge_color(cfg);
    let b1 = if cfg.connect_dots && v > 0 && gx + 1 < gw && grid.count(gx + 1, gy) > 0 {
        line_spec(b, w, h, cx, cy, cx + s, cy, e)
    } else {
        b
    };
    let b2 = if cfg.connect_dots && v > 0 && gy + 1 < gh && grid.count(gx, gy + 1) > 0 {
        line_spec(b1, w, h, cx, cy, cx, cy + s, e)
    } else {
        b1
    };
    disk_spec(b2, w, h, cx, cy, cfg.dot_radius as int, dot_color(cfg, v, highlighted))
}

/// The first `k` cells in row-major order painted.
pub open spec fn paint_cells(
    b: Seq<u8>,
    w: nat,
    h: nat,
    cfg: Config,
    grid: Grid,
    pos: (u32, u32),
    k: nat,
) -> Seq<u8>
    decreases k,
{
    if k == 0 {
        b
    } else {
        let gw = grid_dim(w, cfg.pixels_per_point as nat);
        let i = k - 1;
        paint_cell(paint_cells(b, w, h, cfg, grid, pos, i as nat), w, h, cfg, grid, pos, i % (gw as int), i / (gw as int))
    }
}

/// Every byte set to the background color.
pub open spec fn fill_spec(n: nat, c: Bgra) -> Seq<u8> {
    Seq::new(n, |i: int| channel(c, i % 4))
}

/// A whole frame painted over buffer `b`: background, then every cell.
pub open spec fn paint_spec(b: Seq<u8>, w: nat, h: nat, cfg: Config, grid: Grid, pos: (u32, u32)) -> Seq<u8> {
    let s = cfg.pixels_per_point as nat;
    paint_cells(
        fill_spec(b.len(), unpack(cfg.bg_color)),
        w,
        h,
        cfg,
        grid,
        pos,
        grid_dim(w, s) * grid_dim(h, s),
    )
}

fn set_pixel(m: &mut MmapMut, w: u32, h: u32, x: i128, y: i128, c: Bgra)
    requires
        mmap_bytes(*old(m)).len() == w as int * h as int * 4,
    ensures
        mmap_bytes(*final(m)) == put_pixel(mmap_bytes(*old(m)), w as nat, h as nat, x as int, y as int, c),
        mmap_bytes(*final(m)).len() == mmap_bytes(*old(m)).len(),
{
    if 0 <= x && x < w as i128 && 0 <= y && y < h as i128 {
        let n = mapped_len(m);
        proof {
            lemma_row_major_index(w as nat, h as nat, x as int, y as int);
        }
        let o = (y as usize * w as usize + x as usize) * 4;
        store_byte(m, o, c.b);
        store_byte(m, o + 1, c.g);
        store_byte(m, o + 2, c.r);
        store_byte(m, o + 3, c.a);
    }
}

/// Draws the line from `(x0, y0)` to `(x1, y1)` with Bresenham's algorithm,
/// dropping the points that fall outside the buffer.
pub fn draw_line(m: &mut MmapMut, w: u32, h: u32, x0: i64, y0: i64, x1: i64, y1: i64, color: Bgra)
    requires
        mmap_bytes(*old(m)).len() == w as int * h as int * 4,
    ensures
        mmap_bytes(*final(m)) == line_spec(
            mmap_bytes(*old(m)),
            w as nat,
            h as nat,
            x0 as int,
            y0 as int,
            x1 as int,
            y1 as int,
            color,
        ),
        mmap_bytes(*final(m)).len() == mmap_bytes(*old(m)).len(),
{
    let ghost b0 = mmap_bytes(*m);
    let dx: i128 = if x1 >= x0 { x1 as i128 - x0 as i128 } else { x0 as i128 - x1 as i128 };
    let dy: i128 = if y1 >= y0 { y1 as i128 - y0 as i128 } else { y0 as i128 - y1 as i128 };
    let sx: i128 = if x0 < x1 { 1 } else { -1 };
    let sy: i128 = if y0 < y1 { 1 } else { -1 };
    let mut err: i128 = dx - dy;
    let mut x: i128 = x0 as i128;
    let mut y: i128 = y0 as i128;
    let mut fuel: i128 = dx + dy + 1;
    loop
        invariant_except_break
            dx == abs_int(x1 - x0),
            dy == abs_int(y1 - y0),
            sx == (if x0 < x1 { 1int } else { -1int }),
            sy == (if y0 < y1 { 1int } else { -1int }),
            0 <= fuel <= dx + dy + 1,
            x0 - (dx + dy + 1 - fuel) <= x <= x0 + (dx + dy + 1 - fuel),
            y0 - (dx + dy + 1 - fuel) <= y <= y0 + (dx + dy + 1 - fuel),
            -2 * dy <= err <= 2 * dx,
            line_walk(mmap_bytes(*m), w as nat, h as nat, x as int, y as int, x1 as int, y1 as int,
                err as int, dx as int, dy as int, sx as int, sy as int, color, fuel as nat)
                == line_spec(b0, w as nat, h as nat, x0 as int, y0 as int, x1 as int, y1 as int, color),
        invariant
            mmap_bytes(*m).len() == w as int * h as int * 4,
        ensures
            mmap_bytes(*m) == line_spec(b0, w as nat, h as nat, x0 as int, y0 as int, x1 as int, y1 as int, color),
        decreases fuel,
    {
        if fuel == 0 {
            break;
        }
        set_pixel(m, w, h, x, y, color);
        if x == x1 as i128 && y == y1 as i128 {
            break;
        }
        let e2 = 2 * err;
        if e2 > -dy {
            err = err - dy;
            x = x + sx;
        }
        if e2 < dx {
            err = err + dx;
            y = y + sy;
        }
        fuel = fuel - 1;
    }
}

proof fn lemma_square_bound(v: int)
    requires
        -0x1_0000_0000 <= v <= 0x1_0000_0000,
    ensures
        0 <= v * v <= 0x1_0000_0000_0000_0000,
{
    assert(0 <= v * v <= 0x1_0000_0000_0000_0000) by (nonlinear_arith)
        requires
            -0x1_0000_0000 <= v <= 0x1_0000_0000,
    ;
}

/// Fills the disk of radius `r` around `(cx, cy)`, clipped to the buffer.
pub fn draw_disk(m: &mut MmapMut, w: u32, h: u32, cx: i64, cy: i64, r: u32, c: Bgra)
    requires
        mmap_bytes(*old(m)).len() == w as int * h as int * 4,
    ensures
        mmap_bytes(*final(m)) == disk_spec(mmap_bytes(*old(m)), w as nat, h as nat, cx as int, cy as int, r as int, c),
        mmap_bytes(*final(m)).len() == mmap_bytes(*old(m)).len(),
{
    let ghost b0 = mmap_bytes(*m);
    let n: u64 = 2 * r as u64 + 1;
    assert(r as int * r as int <= 0x1_0000_0000 * 0x1_0000_0000) by (nonlinear_arith)
        requires
            0 <= r <= 0x1_0000_0000,
    ;
    let rr: i128 = r as i128 * r as i128;
    let mut i: u64 = 0;
    while i < n
        invariant
            mmap_bytes(*m).len() == w as int * h as int * 4,
            n == 2 * r + 1,
            rr == r * r,
            i <= n,
            mmap_bytes(*m) == disk_rows(b0, w as nat, h as nat, cx as int, cy as int, r as int, c, i as nat),
        decreases n - i,
    {
        let dy: i128 = i as i128 - r as i128;
        let ghost row0 = mmap_bytes(*m);
        let mut j: u64 = 0;
        while j < n
            invariant
                mmap_bytes(*m).len() == w as int * h as int * 4,
                n == 2 * r + 1,
                rr == r * r,
                j <= n,
                -(r as int) <= dy <= r,
                mmap_bytes(*m) == disk_row(row0, w as nat, h as nat, cx as int, cy as int, r as int, dy as int, c, j as nat),
            decreases n - j,
        {
            let dx: i128 = j as i128 - r as i128;
            proof {
                lemma_square_bound(dx as int);
                lemma_square_bound(dy as int);
            }
            if dx * dx + dy * dy <= rr {
                set_pixel(m, w, h, cx as i128 + dx, cy as i128 + dy, c);
            }
            j = j + 1;
        }
        i = i + 1;
    }
}

fn blend_channel(c: u8, ceiling: u8, visits: u8) -> (r: u8)
    ensures
        r == blend(c, ceiling, visits),
{
    let k: u32 = if visits >= 10 { 10 } else { visits as u32 };
    assert(c as int * (10 - k) + ceiling as int * k <= 2550) by (nonlinear_arith)
        requires
            c <= 255,
            ceiling <= 255,
            0 <= k <= 10,
    ;
    assert(0 <= c as int * (10 - k) && 0 <= ceiling as int * k) by (nonlinear_arith)
        requires
            0 <= k <= 10,
    ;
    ((c as u32 * (10 - k) + ceiling as u32 * k) / 10) as u8
}

/// The color that the dot of a cell with `visits` visits is painted in.
pub fn cell_color(config: &Config, visits: u8, highlighted: bool) -> (r: Bgra)
    ensures
        r == dot_color(*config, visits, highlighted),
{
    if highlighted {
        let a = Bgra::from_packed(config.active_color);
        Bgra { b: a.b, g: a.g, r: a.r, a: 255 }
    } else {
        let f = Bgra::from_packed(config.fg_color);
        Bgra {
            b: blend_channel(f.b, 100, visits),
            g: blend_channel(f.g, 200, visits),
            r: blend_channel(f.r, 255, visits),
            a: 255,
        }
    }
}

proof fn lemma_cell_fits(w: nat, s: nat, gx: int)
    requires
        s > 0,
        0 <= gx < grid_dim(w, s),
    ensures
        0 <= gx * s <= w,
        gx * s + s <= w + s,
{
    lemma_fundamental_div_mod(w as int, s as int);
    assert(0 <= gx * s <= (w as int / s as int) * s) by (nonlinear_arith)
        requires
            0 <= gx <= w as int / s as int,
            s > 0,
    ;
}

fn draw_cell(
    m: &mut MmapMut,
    w: u32,
    h: u32,
    config: &Config,
    grid: &Grid,
    pos: (u32, u32),
    gx: u64,
    gy: u64,
    gw: u64,
    gh: u64,
)
    requires
        mmap_bytes(*old(m)).len() == w as int * h as int * 4,
        grid.wf(),
        config.pixels_per_point > 0,
        gw == grid_dim(w as nat, config.pixels_per_point as nat),
        gh == grid_dim(h as nat, config.pixels_per_point as nat),
        gx < gw,
        gy < gh,
    ensures
        mmap_bytes(*final(m)).len() == mmap_bytes(*old(m)).len(),
        mmap_bytes(*final(m)) == paint_cell(
            mmap_bytes(*old(m)),
            w as nat,
            h as nat,
            *config,
            *grid,
            pos,
            gx as int,
            gy as int,
        ),
{
    let s = config.pixels_per_point;
    proof {
        lemma_cell_fits(w as nat, s as nat, gx as int);
        lemma_cell_fits(h as nat, s as nat, gy as int);
        lemma_fundamental_div_mod(w as int, s as int);
        lemma_fundamental_div_mod(h as int, s as int);
    }
    let ghost b0 = mmap_bytes(*m);
    let v = grid.get_visits(gx as u32, gy as u32);
    let highlighted = gx == pos.0 as u64 && gy == pos.1 as u64 && config.highlight_active;
    let color = cell_color(config, v, highlighted);
    let cx = (gx * s as u64) as i64;
    let cy = (gy * s as u64) as i64;
    let f = Bgra::from_packed(config.fg_color);
    let edge = Bgra { b: f.b / 2, g: f.g / 2, r: f.r / 2, a: 255 };
    assert(edge == edge_color(*config));
    let right = config.connect_dots && v > 0 && gx + 1 < gw && grid.get_visits((gx + 1) as u32, gy as u32) > 0;
    if right {
        draw_line(m, w, h, cx, cy, cx + s as i64, cy, edge);
    }
    let ghost b1 = mmap_bytes(*m);
    assert(b1 == (if right {
        line_spec(b0, w as nat, h as nat, cx as int, cy as int, cx + s, cy as int, edge)
    } else {
        b0
    }));
    let down = config.connect_dots && v > 0 && gy + 1 < gh && grid.get_visits(gx as u32, (gy + 1) as u32) > 0;
    if down {
        draw_line(m, w, h, cx, cy, cx, cy + s as i64, edge);
    }
    draw_disk(m, w, h, cx, cy, config.dot_radius, color);
}

proof fn lemma_grid_cells_fit(w: nat, h: nat, s: nat)
    requires
        s > 0,
        w * h * 4 <= usize::MAX,
        w <= u32::MAX,
        h <= u32::MAX,
    ensures
        grid_dim(w, s) * grid_dim(h, s) <= u64::MAX,
{
    lemma_fundamental_div_mod(w as int, s as int);
    lemma_fundamental_div_mod(h as int, s as int);
    let gw = grid_dim(w, s);
    let gh = grid_dim(h, s);
    assert(w as int / s as int <= w) by (nonlinear_arith)
        requires
            w == s * (w as int / s as int) + w as int % s as int,
            0 <= w as int % s as int,
            s >= 1,
    ;
    assert(h as int / s as int <= h) by (nonlinear_arith)
        requires
            h == s * (h as int / s as int) + h as int % s as int,
            0 <= h as int % s as int,
            s >= 1,
    ;
    assert(gw * gh <= (w + 1) * (h + 1)) by (nonlinear_arith)
        requires
            0 <= gw <= w + 1,
            0 <= gh <= h + 1,
    ;
    assert((w + 1) * (h + 1) == w * h + w + h + 1) by (nonlinear_arith);
}

/// Paints one frame: the background over the whole buffer, then each cell of
/// the grid in row-major order (edges to visited neighbours when enabled, then
/// a dot colored by its visit count, or in the active color under the walker).
pub fn draw_dot_grid(
    mmap: &mut MmapMut,
    width: u32,
    height: u32,
    config: Config,
    grid: &Grid,
    current_pos: (u32, u32),
)
    requires
        mmap_bytes(*old(mmap)).len() == width as int * height as int * 4,
        config.pixels_per_point > 0,
        grid.wf(),
    ensures
        mmap_bytes(*final(mmap)) == paint_spec(
            mmap_bytes(*old(mmap)),
            width as nat,
            height as nat,
            config,
            *grid,
            current_pos,
        ),
        mmap_bytes(*final(mmap)).len() == mmap_bytes(*old(mmap)).len(),
{
    let n = mapped_len(mmap);
    let bg = Bgra::from_packed(config.bg_color);
    let mut i: usize = 0;
    while i < n
        invariant
            n == mmap_bytes(*mmap).len(),
            n == width as int * height as int * 4,
            bg == unpack(config.bg_color),
            i <= n,
            forall|k: int| 0 <= k < i ==> mmap_bytes(*mmap)[k] == channel(bg, k % 4),
        decreases n - i,
    {
        store_byte(mmap, i, bg.channel(i % 4));
        i = i + 1;
    }
    let ghost filled = fill_spec(n as nat, bg);
    assert(mmap_bytes(*mmap) =~= filled);
    let s = config.pixels_per_point;
    let gw: u64 = (width / s) as u64 + 1;
    let gh: u64 = (height / s) as u64 + 1;
    proof {
        lemma_grid_cells_fit(width as nat, height as nat, s as nat);
    }
    let total: u64 = gw * gh;
    let mut k: u64 = 0;
    while k < total
        invariant
            mmap_bytes(*mmap).len() == width as int * height as int * 4,
            config.pixels_per_point == s,
            s > 0,
            grid.wf(),
            gw == grid_dim(width as nat, s as nat),
            gh == grid_dim(height as nat, s as nat),
            total == gw * gh,
            k <= total,
            mmap_bytes(*mmap) == paint_cells(filled, width as nat, height as nat, config, *grid, current_pos, k as nat),
        decreases total - k,
    {
        proof {
            lemma_multiply_divide_lt(k as int, gw as int, gh as int);
        }
        draw_cell(mmap, width, height, &config, grid, current_pos, k % gw, k / gw, gw, gh);
        k = k + 1;
    }
}

proof fn lemma_line_walk_len(
    b: Seq<u8>,
    w: nat,
    h: nat,
    x: int,
    y: int,
    x1: int,
    y1: int,
    err: int,
    dx: int,
    dy: int,
    sx: int,
    sy: int,
    c: Bgra,
    fuel: nat,
)
    ensures
        line_walk(b, w, h, x, y, x1, y1, err, dx, dy, sx, sy, c, fuel).len() == b.len(),
    decreases fuel,
{
    if fuel > 0 && !(x == x1 && y == y1) {
        let b2 = put_pixel(b, w, h, x, y, c);
        let e2 = 2 * err;
        let err1 = if e2 > -dy { err - dy } else { err };
        let nx = if e2 > -dy { x + sx } else { x };
        let err2 = if e2 < dx { err1 + dx } else { err1 };
        let ny = if e2 < dx { y + sy } else { y };
        lemma_line_walk_len(b2, w, h, nx, ny, x1, y1, err2, dx, dy, sx, sy, c, (fuel - 1) as nat);
    }
}

proof fn lemma_line_spec_len(b: Seq<u8>, w: nat, h: nat, x0: int, y0: int, x1: int, y1: int, c: Bgra)
    ensures
        line_spec(b, w, h, x0, y0, x1, y1, c).len() == b.len(),
{
    let dx = abs_int(x1 - x0);
    let dy = abs_int(y1 - y0);
    let sx = if x0 < x1 { 1int } else { -1int };
    let sy = if y0 < y1 { 1int } else { -1int };
    lemma_line_walk_len(b, w, h, x0, y0, x1, y1, dx - dy, dx, dy, sx, sy, c, (dx + dy + 1) as nat);
}

proof fn lemma_disk_row_len(b: Seq<u8>, w: nat, h: nat, cx: int, cy: int, r: int, dy: int, c: Bgra, n: nat)
    ensures
        disk_row(b, w, h, cx, cy, r, dy, c, n).len() == b.len(),
    decreases n,
{
    if n > 0 {
        lemma_disk_row_len(b, w, h, cx, cy, r, dy, c, (n - 1) as nat);
    }
}

proof fn lemma_disk_rows_len(b: Seq<u8>, w: nat, h: nat, cx: int, cy: int, r: int, c: Bgra, n: nat)
    ensures
        disk_rows(b, w, h, cx, cy, r, c, n).len() == b.len(),
    decreases n,
{
    if n > 0 {
        lemma_disk_rows_len(b, w, h, cx, cy, r, c, (n - 1) as nat);
        let b1 = disk_rows(b, w, h, cx, cy, r, c, (n - 1) as nat);
        lemma_disk_row_len(b1, w, h, cx, cy, r, n - 1 - r, c, (2 * r + 1) as nat);
    }
}

proof fn lemma_paint_cell_len(b: Seq<u8>, w: nat, h: nat, cfg: Config, grid: Grid, pos: (u32, u32), gx: int, gy: int)
    ensures
        paint_cell(b, w, h, cfg, grid, pos, gx, gy).len() == b.len(),
{
    let s = cfg.pixels_per_point as int;
    let cx = gx * s;
    let cy = gy * s;
    let e = edge_color(cfg);
    lemma_line_spec_len(b, w, h, cx, cy, cx + s, cy, e);
    let gw = grid_dim(w, s as nat);
    let gh = grid_dim(h, s as nat);
    let v = grid.count(gx, gy);
    let b1 = if cfg.connect_dots && v > 0 && gx + 1 < gw && grid.count(gx + 1, gy) > 0 {
        line_spec(b, w, h, cx, cy, cx + s, cy, e)
    } else {
        b
    };
    lemma_line_spec_len(b1, w, h, cx, cy, cx, cy + s, e);
    let b2 = if cfg.connect_dots && v > 0 && gy + 1 < gh && grid.count(gx, gy + 1) > 0 {
        line_spec(b1, w, h, cx, cy, cx, cy + s, e)
    } else {
        b1
    };
    let highlighted = gx == pos.0 && gy == pos.1 && cfg.highlight_active;
    lemma_disk_rows_len(b2, w, h, cx, cy, cfg.dot_radius as int, dot_color(cfg, v, highlighted),
        (2 * cfg.dot_radius + 1) as nat);
}

proof fn lemma_paint_cells_len(b: Seq<u8>, w: nat, h: nat, cfg: Config, grid: Grid, pos: (u32, u32), k: nat)
    ensures
        paint_cells(b, w, h, cfg, grid, pos, k).len() == b.len(),
    decreases k,
{
    if k > 0 {
        let gw = grid_dim(w, cfg.pixels_per_point as nat);
        let i = k - 1;
        lemma_paint_cells_len(b, w, h, cfg, grid, pos, i as nat);
        lemma_paint_cell_len(paint_cells(b, w, h, cfg, grid, pos, i as nat), w, h, cfg, grid, pos,
            i % (gw as int), i / (gw as int));
    }
}

/// Painting a frame twice with the same inputs leaves the same bytes as
/// painting it once: every byte is overwritten by the background first, so
/// nothing of the earlier contents survives.
pub proof fn lemma_paint_idempotent(b: Seq<u8>, w: nat, h: nat, cfg: Config, grid: Grid, pos: (u32, u32))
    ensures
        paint_spec(paint_spec(b, w, h, cfg, grid, pos), w, h, cfg, grid, pos) == paint_spec(b, w, h, cfg, grid, pos),
{
    let s = cfg.pixels_per_point as nat;
    let bg = unpack(cfg.bg_color);
    lemma_paint_cells_len(fill_spec(b.len(), bg), w, h, cfg, grid, pos, grid_dim(w, s) * grid_dim(h, s));
    assert(fill_spec(paint_spec(b, w, h, cfg, grid, pos).len(), bg) == fill_spec(b.len(), bg));
}

proof fn lemma_line_walk_fuel(
    b: Seq<u8>,
    w: nat,
    h: nat,
    x0: int,
    y0: int,
    x1: int,
    y1: int,
    dx: int,
    dy: int,
    sx: int,
    sy: int,
    c: Bgra,
    i: int,
    j: int,
    fuel: nat,
    fuel2: nat,
)
    requires
        dx == abs_int(x1 - x0),
        dy == abs_int(y1 - y0),
        sx == (if x0 < x1 { 1int } else { -1int }),
        sy == (if y0 < y1 { 1int } else { -1int }),
        0 <= i <= dx,
        0 <= j <= dy,
        fuel >= (dx - i) + (dy - j) + 1,
        fuel2 >= fuel,
    ensures
        line_walk(b, w, h, x0 + sx * i, y0 + sy * j, x1, y1, dx - dy - i * dy + j * dx, dx, dy, sx, sy, c, fuel)
            == line_walk(b, w, h, x0 + sx * i, y0 + sy * j, x1, y1, dx - dy - i * dy + j * dx, dx, dy, sx, sy, c, fuel2),
    decreases (dx - i) + (dy - j),
{
    let x = x0 + sx * i;
    let y = y0 + sy * j;
    let err = dx - dy - i * dy + j * dx;
    if x0 < x1 {
        assert(sx * dx == dx) by (nonlinear_arith)
            requires
                sx == 1,
        ;
    } else {
        assert(sx * dx == -dx) by (nonlinear_arith)
            requires
                sx == -1,
        ;
    }
    if y0 < y1 {
        assert(sy * dy == dy) by (nonlinear_arith)
            requires
                sy == 1,
        ;
    } else {
        assert(sy * dy == -dy) by (nonlinear_arith)
            requires
                sy == -1,
        ;
    }
    assert((x == x1) == (i == dx)) by (nonlinear_arith)
        requires
            x == x0 + sx * i,
            x1 == x0 + sx * dx,
            sx == 1 || sx == -1,
    ;
    assert((y == y1) == (j == dy)) by (nonlinear_arith)
        requires
            y == y0 + sy * j,
            y1 == y0 + sy * dy,
            sy == 1 || sy == -1,
    ;
    if !(x == x1 && y == y1) {
        let b2 = put_pixel(b, w, h, x, y, c);
        let e2 = 2 * err;
        let xs = e2 > -dy;
        let ys = e2 < dx;
        if i == dx {
            assert(err <= -dy) by (nonlinear_arith)
                requires
                    err == dx - dy - i * dy + j * dx,
                    i == dx,
                    0 <= j < dy,
                    dx >= 0,
            ;
        }
        if j == dy {
            assert(err >= dx) by (nonlinear_arith)
                requires
                    err == dx - dy - i * dy + j * dx,
                    j == dy,
                    0 <= i < dx,
                    dy >= 0,
            ;
        }
        let i2 = if xs { i + 1 } else { i };
        let j2 = if ys { j + 1 } else { j };
        let err1 = if xs { err - dy } else { err };
        let err2 = if ys { err1 + dx } else { err1 };
        assert(err2 == dx - dy - i2 * dy + j2 * dx) by (nonlinear_arith)
            requires
                err == dx - dy - i * dy + j * dx,
                err1 == if xs { err - dy } else { err },
                err2 == if ys { err1 + dx } else { err1 },
                i2 == if xs { i + 1 } else { i },
                j2 == if ys { j + 1 } else { j },
        ;
        assert((if xs { x + sx } else { x }) == x0 + sx * i2) by (nonlinear_arith)
            requires
                x == x0 + sx * i,
                i2 == if xs { i + 1 } else { i },
        ;
        assert((if ys { y + sy } else { y }) == y0 + sy * j2) by (nonlinear_arith)
            requires
                y == y0 + sy * j,
                j2 == if ys { j + 1 } else { j },
        ;
        lemma_line_walk_fuel(b2, w, h, x0, y0, x1, y1, dx, dy, sx, sy, c, i2, j2, (fuel - 1) as nat,
            (fuel2 - 1) as nat);
    }
}

/// Bresenham's walk reaches its endpoint within `|dx| + |dy| + 1` points:
/// with any larger budget it draws the same line, so the budget in
/// `line_spec` never cuts a line short.
pub proof fn lemma_line_budget_suffices(
    b: Seq<u8>,
    w: nat,
    h: nat,
    x0: int,
    y0: int,
    x1: int,
    y1: int,
    c: Bgra,
    fuel: nat,
)
    requires
        fuel >= abs_int(x1 - x0) + abs_int(y1 - y0) + 1,
    ensures
        line_walk(
            b,
            w,
            h,
            x0,
            y0,
            x1,
            y1,
            abs_int(x1 - x0) - abs_int(y1 - y0),
            abs_int(x1 - x0),
            abs_int(y1 - y0),
            if x0 < x1 { 1int } else { -1int },
            if y0 < y1 { 1int } else { -1int },
            c,
            fuel,
        ) == line_spec(b, w, h, x0, y0, x1, y1, c),
{
    let dx = abs_int(x1 - x0);
    let dy = abs_int(y1 - y0);
    let sx = if x0 < x1 { 1int } else { -1int };
    let sy = if y0 < y1 { 1int } else { -1int };
    lemma_line_walk_fuel(b, w, h, x0, y0, x1, y1, dx, dy, sx, sy, c, 0, 0, (dx + dy + 1) as nat, fuel);
    assert(x0 + sx * 0 == x0 && y0 + sy * 0 == y0 && dx - dy - 0 * dy + 0 * dx == dx - dy);
}

} // verus!
