use vstd::prelude::*;

verus! {

/// Spec-level visit count of cell `(x, y)` in a row-major grid of `w` columns
/// and `h` rows; zero outside the grid.
pub open spec fn cell_count(w: nat, h: nat, s: Seq<u8>, x: int, y: int) -> u8 {
    if 0 <= x < w && 0 <= y < h {
        s[y * w + x]
    } else {
        0
    }
}

/// Spec-level effect of one visit: the counter at `(x, y)` grows by one,
/// saturating at 255; outside the grid nothing changes.
pub open spec fn visit_seq(w: nat, h: nat, s: Seq<u8>, x: int, y: int) -> Seq<u8> {
    if 0 <= x < w && 0 <= y < h {
        let i = y * w + x;
        if s[i] == 255 {
            s
        } else {
            s.update(i, (s[i] + 1) as u8)
        }
    } else {
        s
    }
}

/// `n` visits in a row at `(x, y)`.
pub open spec fn visit_seq_n(w: nat, h: nat, s: Seq<u8>, x: int, y: int, n: nat) -> Seq<u8>
    decreases n,
{
    if n == 0 {
        s
    } else {
        visit_seq(w, h, visit_seq_n(w, h, s, x, y, (n - 1) as nat), x, y)
    }
}

pub open spec fn min_int(a: int, b: int) -> int {
    if a <= b {
        a
    } else {
        b
    }
}

pub proof fn lemma_row_major_index(w: nat, h: nat, x: int, y: int)
    requires
        0 <= x < w,
        0 <= y < h,
    ensures
        0 <= y * w + x < w * h,
{
    assert(y * w + x < w * h) by (nonlinear_arith)
        requires
            0 <= x < w,
            0 <= y < h,
    ;
    assert(0 <= y * w) by (nonlinear_arith)
        requires
            0 <= y,
    ;
}

/// Visiting an in-bounds cell `n` times raises its count by `n`, capped at
/// 255, and leaves every other cell as it was; visits out of bounds change
/// nothing at all.
pub proof fn lemma_visits_saturate(w: nat, h: nat, s: Seq<u8>, x: int, y: int, n: nat)
    requires
        s.len() == w * h,
    ensures
        visit_seq_n(w, h, s, x, y, n).len() == s.len(),
        0 <= x < w && 0 <= y < h ==> cell_count(w, h, visit_seq_n(w, h, s, x, y, n), x, y) == min_int(
            cell_count(w, h, s, x, y) + n,
            255,
        ),
        forall|u: int, v: int|
            !(u == x && v == y) ==> #[trigger] cell_count(w, h, visit_seq_n(w, h, s, x, y, n), u, v)
                == cell_count(w, h, s, u, v),
        !(0 <= x < w && 0 <= y < h) ==> visit_seq_n(w, h, s, x, y, n) == s,
    decreases n,
{
    if n > 0 {
        lemma_visits_saturate(w, h, s, x, y, (n - 1) as nat);
        let prev = visit_seq_n(w, h, s, x, y, (n - 1) as nat);
        if 0 <= x < w && 0 <= y < h {
            lemma_row_major_index(w, h, x, y);
            assert forall|u: int, v: int|
                !(u == x && v == y) implies #[trigger] cell_count(w, h, visit_seq_n(w, h, s, x, y, n), u, v)
                == cell_count(w, h, s, u, v) by {
                assert(cell_count(w, h, prev, u, v) == cell_count(w, h, s, u, v));
                if 0 <= u < w && 0 <= v < h {
                    lemma_row_major_index(w, h, u, v);
                    lemma_row_major_distinct(w, x, y, u, v);
                }
            }
        }
    }
}

proof fn lemma_row_major_distinct(w: nat, x: int, y: int, u: int, v: int)
    requires
        0 <= x < w,
        0 <= u < w,
        !(u == x && v == y),
    ensures
        v * w + u != y * w + x,
{
    if v == y {
    } else if v < y {
        assert(v * w + u < y * w + x) by (nonlinear_arith)
            requires
                v < y,
                0 <= u < w,
                0 <= x,
        ;
    } else {
        assert(v * w + u > y * w + x) by (nonlinear_arith)
            requires
                v > y,
                0 <= x < w,
                0 <= u,
        ;
    }
}

/// Rendering settings. Colors are packed as `0xAARRGGBB`.
#[derive(Clone, Copy, PartialEq, Eq, Debug)]
pub struct Config {
    /// Pixels between neighbouring dots.
    pub pixels_per_point: u32,
    /// Radius of each dot in pixels.
    pub dot_radius: u32,
    pub bg_color: u32,
    pub fg_color: u32,
    /// Color of the dot under the walker.
    pub active_color: u32,
    /// Draw edges between neighbouring visited dots.
    pub connect_dots: bool,
    /// Paint the dot under the walker in the active color.
    pub highlight_active: bool,
}

impl Default for Config {
    fn default() -> (r: Config)
        ensures
            r.pixels_per_point == 20,
            r.dot_radius == 2,
            r.bg_color == 0xff1a1a1a,
            r.fg_color == 0xff606060,
            r.active_color == 0xffff0000,
            r.connect_dots,
            r.highlight_active,
    {
        Config {
            pixels_per_point: 20,
            dot_radius: 2,
            bg_color: 0xff1a1a1a,
            fg_color: 0xff606060,
            active_color: 0xffff0000,
            connect_dots: true,
            highlight_active: true,
        }
    }
}

impl Config {
    pub fn get_dot_radius(&self) -> (r: u32)
        ensures
            r == self.dot_radius,
    {
        self.dot_radius
    }

    pub fn get_bg_color(&self) -> (r: u32)
        ensures
            r == self.bg_color,
    {
        self.bg_color
    }

    pub fn get_fg_color(&self) -> (r: u32)
        ensures
            r == self.fg_color,
    {
        self.fg_color
    }

    pub fn get_pixels_per_point(&self) -> (r: u32)
        ensures
            r == self.pixels_per_point,
    {
        self.pixels_per_point
    }

    pub fn get_active_color(&self) -> (r: u32)
        ensures
            r == self.active_color,
    {
        self.active_color
    }

    pub fn connect_dots(&self) -> (r: bool)
        ensures
            r == self.connect_dots,
    {
        self.connect_dots
    }

    pub fn display_active_field(&self) -> (r: bool)
        ensures
            r == self.highlight_active,
    {
        self.highlight_active
    }
}

/// Walk position bookkeeping: the grid bounds the walk moves in, the current
/// position and a dirty flag.
pub struct WalkState {
    grid_width: u32,
    grid_height: u32,
    current_pos: (u32, u32),
    needs_update: bool,
}

impl WalkState {
    pub closed spec fn spec_width(&self) -> u32 {
        self.grid_width
    }

    pub closed spec fn spec_height(&self) -> u32 {
        self.grid_height
    }

    pub closed spec fn spec_pos(&self) -> (u32, u32) {
        self.current_pos
    }

    pub closed spec fn spec_needs_update(&self) -> bool {
        self.needs_update
    }

    pub fn new(grid_width: u32, grid_height: u32) -> (r: WalkState)
        ensures
            r.spec_width() == grid_width,
            r.spec_height() == grid_height,
            r.spec_pos() == (0u32, 0u32),
            !r.spec_needs_update(),
    {
        WalkState { grid_width, grid_height, current_pos: (0, 0), needs_update: false }
    }

    pub fn get_current_pos(&self) -> (r: (u32, u32))
        ensures
            r == self.spec_pos(),
    {
        self.current_pos
    }

    pub fn needs_update(&self) -> (r: bool)
        ensures
            r == self.spec_needs_update(),
    {
        self.needs_update
    }

    pub fn get_width(&self) -> (r: u32)
        ensures
            r == self.spec_width(),
    {
        self.grid_width
    }

    pub fn get_height(&self) -> (r: u32)
        ensures
            r == self.spec_height(),
    {
        self.grid_height
    }

    pub fn set_pos(&mut self, x: u32, y: u32)
        ensures
            final(self).spec_pos() == (x, y),
            final(self).spec_width() == old(self).spec_width(),
            final(self).spec_height() == old(self).spec_height(),
            final(self).spec_needs_update() == old(self).spec_needs_update(),
    {
        self.current_pos = (x, y);
    }

    pub fn clear_update_flag(&mut self)
        ensures
            !final(self).spec_needs_update(),
            final(self).spec_pos() == old(self).spec_pos(),
            final(self).spec_width() == old(self).spec_width(),
            final(self).spec_height() == old(self).spec_height(),
    {
        self.needs_update = false;
    }

    /// Sets the dirty flag, whatever it was before.
    pub fn set_needs_update(&mut self)
        ensures
            final(self).spec_needs_update(),
            final(self).spec_pos() == old(self).spec_pos(),
            final(self).spec_width() == old(self).spec_width(),
            final(self).spec_height() == old(self).spec_height(),
    {
        self.needs_update = true;
    }
}

/// The lattice of dots, each with a saturating 8-bit visit counter, stored
/// row by row.
pub struct Grid {
    width: u32,
    height: u32,
    visits: Vec<u8>,
}

impl Grid {
    pub closed spec fn spec_width(&self) -> nat {
        self.width as nat
    }

    pub closed spec fn spec_height(&self) -> nat {
        self.height as nat
    }

    /// The counters, row-major.
    pub closed spec fn counts(&self) -> Seq<u8> {
        self.visits@
    }

    /// Visit count of `(x, y)`, zero outside the grid.
    pub open spec fn count(&self, x: int, y: int) -> u8 {
        cell_count(self.spec_width(), self.spec_height(), self.counts(), x, y)
    }

    pub open spec fn wf(&self) -> bool {
        self.counts().len() == self.spec_width() * self.spec_height()
    }

    /// Zero-filled counters for a grid of `size` cells.
    fn zeroed(size: usize) -> (r: Vec<u8>)
        ensures
            r@.len() == size,
            forall|i: int| 0 <= i < size ==> r@[i] == 0,
    {
        let mut v: Vec<u8> = Vec::with_capacity(size);
        let mut i: usize = 0;
        while i < size
            invariant
                i <= size,
                v@.len() == i,
                forall|k: int| 0 <= k < i ==> v@[k] == 0,
            decreases size - i,
        {
            v.push(0);
            i = i + 1;
        }
        v
    }

    pub fn new(width: u32, height: u32) -> (r: Grid)
        requires
            width as nat * height as nat <= usize::MAX,
        ensures
            r.wf(),
            r.spec_width() == width,
            r.spec_height() == height,
            forall|x: int, y: int| #[trigger] r.count(x, y) == 0,
    {
        let size = (width as u64 * height as u64) as usize;
        let g = Grid { width, height, visits: Self::zeroed(size) };
        proof {
            g.lemma_zeroed_counts();
        }
        g
    }

    proof fn lemma_zeroed_counts(&self)
        requires
            self.wf(),
            forall|i: int| 0 <= i < self.counts().len() ==> self.counts()[i] == 0,
        ensures
            forall|x: int, y: int| #[trigger] self.count(x, y) == 0,
    {
        assert forall|x: int, y: int| #[trigger] self.count(x, y) == 0 by {
            if 0 <= x < self.spec_width() && 0 <= y < self.spec_height() {
                lemma_row_major_index(self.spec_width(), self.spec_height(), x, y);
            }
        }
    }

    /// Takes the new dimensions and drops every count.
    pub fn resize(&mut self, width: u32, height: u32)
        requires
            width as nat * height as nat <= usize::MAX,
        ensures
            final(self).wf(),
            final(self).spec_width() == width,
            final(self).spec_height() == height,
            forall|x: int, y: int| #[trigger] final(self).count(x, y) == 0,
    {
        let size = (width as u64 * height as u64) as usize;
        self.width = width;
        self.height = height;
        self.visits = Self::zeroed(size);
        proof {
            self.lemma_zeroed_counts();
        }
    }

    /// One visit of `(x, y)`: its counter grows by one up to 255; outside the
    /// grid nothing changes.
    pub fn visit(&mut self, x: u32, y: u32)
        requires
            old(self).wf(),
        ensures
            final(self).wf(),
            final(self).spec_width() == old(self).spec_width(),
            final(self).spec_height() == old(self).spec_height(),
            final(self).counts() == visit_seq(
                old(self).spec_width(),
                old(self).spec_height(),
                old(self).counts(),
                x as int,
                y as int,
            ),
    {
        if x < self.width && y < self.height {
            proof {
                lemma_row_major_index(self.width as nat, self.height as nat, x as int, y as int);
            }
            let n = self.visits.len();
            assert((y as int) * (self.width as int) + (x as int) < n);
            let idx = y as usize * self.width as usize + x as usize;
            let v = self.visits[idx];
            if v < 255 {
                self.visits.set(idx, v + 1);
            }
        }
    }

    /// Visit count of `(x, y)`, zero outside the grid.
    pub fn get_visits(&self, x: u32, y: u32) -> (r: u8)
        requires
            self.wf(),
        ensures
            r == self.count(x as int, y as int),
    {
        if x < self.width && y < self.height {
            proof {
                lemma_row_major_index(self.width as nat, self.height as nat, x as int, y as int);
            }
            let n = self.visits.len();
            assert((y as int) * (self.width as int) + (x as int) < n);
            let idx = y as usize * self.width as usize + x as usize;
            self.visits[idx]
        } else {
            0
        }
    }

    pub fn get_width(&self) -> (r: u32)
        ensures
            r == self.spec_width(),
    {
        self.width
    }

    pub fn get_height(&self) -> (r: u32)
        ensures
            r == self.spec_height(),
    {
        self.height
    }
}

} // verus!
