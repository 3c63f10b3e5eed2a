//! The surface's lifecycle: sizing the backing store on each configure,
//! mapping it once per size, creating the shared-memory pool once per size,
//! and the walk that each frame shows.
use crate::draw::{draw_dot_grid, grid_dim, mmap_bytes, paint_spec};
use crate::types::{visit_seq, Config, Grid};
use crate::utils::{is_unit_move, random_walk_step, step_spec};
use memmap2::MmapMut;
use vstd::arithmetic::div_mod::lemma_fundamental_div_mod;
use vstd::prelude::*;

verus! {

/// Surface size used when the compositor leaves a dimension to the client.
pub const DEFAULT_WIDTH: u32 = 1920;

pub const DEFAULT_HEIGHT: u32 = 1080;

/// Where the surface stands in its lifecycle.
#[derive(Clone, Copy, PartialEq, Eq, Debug)]
pub enum Phase {
    /// No size known yet, no backing store.
    Unconfigured,
    /// Sized; no frame handed to the compositor at this size yet.
    Configured,
    /// A frame has been submitted at the current size.
    Presenting,
}

/// What the caller must do to submit a painted frame.
#[derive(Clone, Copy, PartialEq, Eq, Debug)]
pub struct Submission {
    /// The pool and buffer over the backing store do not exist at this size
    /// yet and must be created; otherwise the existing ones are reused.
    pub create_pool: bool,
    pub width: u32,
    pub height: u32,
    /// Bytes per row.
    pub stride: usize,
    /// Bytes in the whole buffer.
    pub size: usize,
}

/// State of the presentation surface and of the walk it shows.
pub struct Presentation {
    config: Config,
    phase: Phase,
    width: u32,
    height: u32,
    grid: Grid,
    current_pos: (u32, u32),
    mapped: bool,
    pooled: bool,
}

/// The surface size that a configure event of `w` by `h` leads to.
pub open spec fn effective_size(w: u32, h: u32) -> (u32, u32) {
    if w == 0 || h == 0 {
        (DEFAULT_WIDTH, DEFAULT_HEIGHT)
    } else {
        (w, h)
    }
}

impl Presentation {
    pub closed spec fn spec_config(&self) -> Config {
        self.config
    }

    pub closed spec fn spec_phase(&self) -> Phase {
        self.phase
    }

    pub closed spec fn spec_width(&self) -> u32 {
        self.width
    }

    pub closed spec fn spec_height(&self) -> u32 {
        self.height
    }

    pub closed spec fn spec_grid(&self) -> Grid {
        self.grid
    }

    pub closed spec fn spec_pos(&self) -> (u32, u32) {
        self.current_pos
    }

    /// The backing store has been mapped at the current size.
    pub closed spec fn spec_mapped(&self) -> bool {
        self.mapped
    }

    /// The pool and buffer exist at the current size.
    pub closed spec fn spec_pooled(&self) -> bool {
        self.pooled
    }

    pub open spec fn configured(&self) -> bool {
        self.spec_phase() != Phase::Unconfigured
    }

    /// Backing store length in bytes at the current size.
    pub open spec fn store_len(&self) -> int {
        self.spec_width() as int * self.spec_height() as int * 4
    }

    pub open spec fn wf(&self) -> bool {
        let s = self.spec_config().pixels_per_point as nat;
        &&& s > 0
        &&& self.spec_grid().wf()
        &&& self.spec_pooled() ==> self.spec_mapped()
        &&& self.spec_phase() == Phase::Presenting ==> self.spec_pooled()
        &&& !self.configured() ==> !self.spec_mapped()
        &&& self.configured() ==> {
            &&& self.spec_width() > 0
            &&& self.spec_height() > 0
            &&& self.store_len() <= usize::MAX
            &&& self.spec_grid().spec_width() == grid_dim(self.spec_width() as nat, s)
            &&& self.spec_grid().spec_height() == grid_dim(self.spec_height() as nat, s)
            &&& self.spec_pos().0 < self.spec_grid().spec_width()
            &&& self.spec_pos().1 < self.spec_grid().spec_height()
        }
    }

    /// An unconfigured surface with the given settings.
    pub fn new(config: Config) -> (r: Presentation)
        requires
            config.pixels_per_point > 0,
        ensures
            r.wf(),
            r.spec_config() == config,
            r.spec_phase() == Phase::Unconfigured,
            r.spec_width() == 0,
            r.spec_height() == 0,
            r.spec_pos() == (0u32, 0u32),
            !r.spec_mapped(),
            !r.spec_pooled(),
    {
        Presentation {
            config,
            phase: Phase::Unconfigured,
            width: 0,
            height: 0,
            grid: Grid::new(0, 0),
            current_pos: (0, 0),
            mapped: false,
            pooled: false,
        }
    }

    pub fn get_config(&self) -> (r: &Config)
        ensures
            *r == self.spec_config(),
    {
        &self.config
    }

    pub fn phase(&self) -> (r: Phase)
        ensures
            r == self.spec_phase(),
    {
        self.phase
    }

    pub fn is_configured(&self) -> (r: bool)
        ensures
            r == self.configured(),
    {
        match self.phase {
            Phase::Unconfigured => false,
            _ => true,
        }
    }

    pub fn get_width(&self) -> (r: u32)
        ensures
            r == self.spec_width(),
    {
        self.width
    }

    pub fn get_height(&self) -> (r: u32)
        ensures
            r == self.spec_height(),
    {
        self.height
    }

    pub fn get_current_pos(&self) -> (r: (u32, u32))
        ensures
            r == self.spec_pos(),
    {
        self.current_pos
    }

    pub fn get_grid(&self) -> (r: &Grid)
        ensures
            *r == self.spec_grid(),
    {
        &self.grid
    }

    /// Handles a configure event: takes the new size (the default size where
    /// a dimension is zero), resizes the grid to fit it with all counts
    /// dropped, puts the walker at the grid's center and forgets the mapping
    /// and pool of an earlier, different size. Returns the length in bytes
    /// that the backing store must be given.
    pub fn configure(&mut self, width: u32, height: u32) -> (r: usize)
        requires
            old(self).wf(),
            effective_size(width, height).0 as int * effective_size(width, height).1 as int * 4
                <= usize::MAX,
            grid_dim(effective_size(width, height).0 as nat, old(self).spec_config().pixels_per_point as nat)
                <= u32::MAX,
            grid_dim(effective_size(width, height).1 as nat, old(self).spec_config().pixels_per_point as nat)
                <= u32::MAX,
        ensures
            final(self).wf(),
            final(self).spec_phase() == Phase::Configured,
            final(self).spec_config() == old(self).spec_config(),
            (final(self).spec_width(), final(self).spec_height()) == effective_size(width, height),
            r == final(self).store_len(),
            final(self).spec_grid().spec_width() == grid_dim(
                final(self).spec_width() as nat,
                old(self).spec_config().pixels_per_point as nat,
            ),
            final(self).spec_grid().spec_height() == grid_dim(
                final(self).spec_height() as nat,
                old(self).spec_config().pixels_per_point as nat,
            ),
            forall|x: int, y: int| #[trigger] final(self).spec_grid().count(x, y) == 0,
            final(self).spec_pos() == (
                (final(self).spec_grid().spec_width() / 2) as u32,
                (final(self).spec_grid().spec_height() / 2) as u32,
            ),
            final(self).spec_mapped() == (old(self).spec_mapped() && old(self).store_len() == r),
            final(self).spec_pooled() == (old(self).spec_pooled() && old(self).store_len() == r),
    {
        let (w, h) = if width == 0 || height == 0 {
            (DEFAULT_WIDTH, DEFAULT_HEIGHT)
        } else {
            (width, height)
        };
        let size = w as usize * h as usize * 4;
        if !self.is_configured() || self.width as usize * self.height as usize * 4 != size {
            self.mapped = false;
            self.pooled = false;
        }
        let s = self.config.pixels_per_point;
        proof {
            lemma_fundamental_div_mod(w as int, s as int);
            lemma_fundamental_div_mod(h as int, s as int);
            assert(w as int / s as int <= w) by (nonlinear_arith)
                requires
                    w == s * (w as int / s as int) + w as int % s as int,
                    0 <= w as int % s as int,
                    s >= 1,
            ;
            assert(h as int / s as int <= h) by (nonlinear_arith)
                requires
                    h == s * (h as int / s as int) + h as int % s as int,
                    0 <= h as int % s as int,
                    s >= 1,
            ;
            assert((w as int / s as int + 1) * (h as int / s as int + 1) <= (w + 1) * (h + 1))
                by (nonlinear_arith)
                requires
                    0 <= w as int / s as int <= w,
                    0 <= h as int / s as int <= h,
            ;
            assert((w + 1) * (h + 1) <= 2 * (w * h) + 2) by (nonlinear_arith)
                requires
                    w >= 1,
                    h >= 1,
            ;
        }
        let gw: u32 = ((w as u64 / s as u64) + 1) as u32;
        let gh: u32 = ((h as u64 / s as u64) + 1) as u32;
        self.width = w;
        self.height = h;
        self.grid.resize(gw, gh);
        self.current_pos = (gw / 2, gh / 2);
        self.phase = Phase::Configured;
        size
    }

    /// Asks for a drawable view of the backing store. `None` before the first
    /// configure; otherwise `Some(map)`, where `map` says that the store must
    /// now be mapped (the first time at this size) rather than the existing
    /// mapping reused.
    pub fn acquire_drawable(&mut self) -> (r: Option<bool>)
        requires
            old(self).wf(),
        ensures
            final(self).wf(),
            !old(self).configured() ==> r is None && *final(self) == *old(self),
            old(self).configured() ==> {
                &&& r == Some(!old(self).spec_mapped())
                &&& final(self).spec_mapped()
                &&& final(self).spec_pooled() == old(self).spec_pooled()
                &&& final(self).spec_phase() == old(self).spec_phase()
                &&& final(self).spec_config() == old(self).spec_config()
                &&& final(self).spec_width() == old(self).spec_width()
                &&& final(self).spec_height() == old(self).spec_height()
                &&& final(self).spec_grid() == old(self).spec_grid()
                &&& final(self).spec_pos() == old(self).spec_pos()
            },
    {
        if !self.is_configured() {
            return None;
        }
        let map = !self.mapped;
        self.mapped = true;
        Some(map)
    }

    /// Paints the current frame into the mapped backing store.
    pub fn paint(&self, mmap: &mut MmapMut)
        requires
            self.wf(),
            self.configured(),
            mmap_bytes(*old(mmap)).len() == self.store_len(),
        ensures
            mmap_bytes(*final(mmap)) == paint_spec(
                mmap_bytes(*old(mmap)),
                self.spec_width() as nat,
                self.spec_height() as nat,
                self.spec_config(),
                self.spec_grid(),
                self.spec_pos(),
            ),
            mmap_bytes(*final(mmap)).len() == mmap_bytes(*old(mmap)).len(),
    {
        draw_dot_grid(mmap, self.width, self.height, self.config, &self.grid, self.current_pos);
    }

    /// Hands a painted frame over: `None` unless a drawable was acquired at
    /// the current size; otherwise what to attach, damage and commit, with
    /// `create_pool` set only the first time at this size.
    pub fn submit(&mut self) -> (r: Option<Submission>)
        requires
            old(self).wf(),
        ensures
            final(self).wf(),
            !(old(self).configured() && old(self).spec_mapped()) ==> r is None && *final(self) == *old(self),
            old(self).configured() && old(self).spec_mapped() ==> {
                &&& r == Some(Submission {
                    create_pool: !old(self).spec_pooled(),
                    width: old(self).spec_width(),
                    height: old(self).spec_height(),
                    stride: (old(self).spec_width() * 4) as usize,
                    size: old(self).store_len() as usize,
                })
                &&& final(self).spec_phase() == Phase::Presenting
                &&& final(self).spec_pooled()
                &&& final(self).spec_mapped()
                &&& final(self).spec_config() == old(self).spec_config()
                &&& final(self).spec_width() == old(self).spec_width()
                &&& final(self).spec_height() == old(self).spec_height()
                &&& final(self).spec_grid() == old(self).spec_grid()
                &&& final(self).spec_pos() == old(self).spec_pos()
            },
    {
        if !self.is_configured() || !self.mapped {
            return None;
        }
        let create_pool = !self.pooled;
        self.pooled = true;
        self.phase = Phase::Presenting;
        assert(self.width as int * 4 <= self.width as int * self.height as int * 4) by (nonlinear_arith)
            requires
                self.height >= 1,
        ;
        let size = self.width as usize * self.height as usize * 4;
        Some(Submission { create_pool, width: self.width, height: self.height, stride: self.width as usize * 4, size })
    }

    /// Moves the walker to `(x, y)` and counts the visit there.
    pub fn set_pos(&mut self, x: u32, y: u32)
        requires
            old(self).wf(),
            old(self).configured(),
            x < old(self).spec_grid().spec_width(),
            y < old(self).spec_grid().spec_height(),
        ensures
            final(self).wf(),
            final(self).spec_pos() == (x, y),
            final(self).spec_grid().spec_width() == old(self).spec_grid().spec_width(),
            final(self).spec_grid().spec_height() == old(self).spec_grid().spec_height(),
            final(self).spec_grid().counts() == visit_seq(
                old(self).spec_grid().spec_width(),
                old(self).spec_grid().spec_height(),
                old(self).spec_grid().counts(),
                x as int,
                y as int,
            ),
            final(self).spec_phase() == old(self).spec_phase(),
            final(self).spec_config() == old(self).spec_config(),
            final(self).spec_width() == old(self).spec_width(),
            final(self).spec_height() == old(self).spec_height(),
            final(self).spec_mapped() == old(self).spec_mapped(),
            final(self).spec_pooled() == old(self).spec_pooled(),
    {
        self.current_pos = (x, y);
        self.grid.visit(x, y);
    }

    /// One step of the walk from the current position, in a random
    /// direction, and the visit at the cell it reaches. Returns that cell.
    pub fn walk(&mut self) -> (r: (u32, u32))
        requires
            old(self).wf(),
            old(self).configured(),
        ensures
            final(self).wf(),
            r == final(self).spec_pos(),
            exists|dir: int|
                0 <= dir < 4 && r == #[trigger] step_spec(
                    old(self).spec_pos().0,
                    old(self).spec_pos().1,
                    old(self).spec_grid().spec_width() as u32,
                    old(self).spec_grid().spec_height() as u32,
                    dir,
                ),
            is_unit_move(
                old(self).spec_pos().0,
                old(self).spec_pos().1,
                old(self).spec_grid().spec_width() as u32,
                old(self).spec_grid().spec_height() as u32,
                r,
            ),
            final(self).spec_grid().spec_width() == old(self).spec_grid().spec_width(),
            final(self).spec_grid().spec_height() == old(self).spec_grid().spec_height(),
            final(self).spec_grid().counts() == visit_seq(
                old(self).spec_grid().spec_width(),
                old(self).spec_grid().spec_height(),
                old(self).spec_grid().counts(),
                r.0 as int,
                r.1 as int,
            ),
            final(self).spec_phase() == old(self).spec_phase(),
            final(self).spec_config() == old(self).spec_config(),
            final(self).spec_width() == old(self).spec_width(),
            final(self).spec_height() == old(self).spec_height(),
            final(self).spec_mapped() == old(self).spec_mapped(),
            final(self).spec_pooled() == old(self).spec_pooled(),
    {
        let (x, y) = self.current_pos;
        let gw = self.grid.get_width();
        let gh = self.grid.get_height();
        let next = random_walk_step(x, y, gw, gh);
        proof {
            let d = choose|d: int| 0 <= d < 4 && next == step_spec(x, y, gw, gh, d);
            assert(gw == self.grid.spec_width() as u32 && gh == self.grid.spec_height() as u32);
            assert(next == step_spec(x, y, gw, gh, d));
        }
        self.set_pos(next.0, next.1);
        next
    }
}

} // verus!
