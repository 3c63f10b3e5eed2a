//! The random walk across the grid.
use std::collections::hash_map::{DefaultHasher, RandomState};
use std::hash::{BuildHasher, Hash, Hasher};
use std::time::SystemTime;
use vstd::prelude::*;

verus! {

/// Where one step in direction `dir` (0 up, 1 right, 2 down, 3 left) leads
/// from `(x, y)` on a `w` by `h` grid; the walker stays put at an edge.
pub open spec fn step_spec(x: u32, y: u32, w: u32, h: u32, dir: int) -> (u32, u32) {
    if dir == 0 {
        (x, if y == 0 { 0u32 } else { (y - 1) as u32 })
    } else if dir == 1 {
        (if x + 1 < w { (x + 1) as u32 } else { (w - 1) as u32 }, y)
    } else if dir == 2 {
        (x, if y + 1 < h { (y + 1) as u32 } else { (h - 1) as u32 })
    } else {
        (if x == 0 { 0u32 } else { (x - 1) as u32 }, y)
    }
}

/// `r` is `(x, y)` itself or one unit away from it along one axis, and lies
/// on the `w` by `h` grid.
pub open spec fn is_unit_move(x: u32, y: u32, w: u32, h: u32, r: (u32, u32)) -> bool {
    &&& r.0 < w
    &&& r.1 < h
    &&& {
        ||| r == (x, y)
        ||| r.1 == y && (r.0 == x + 1 || r.0 + 1 == x)
        ||| r.0 == x && (r.1 == y + 1 || r.1 + 1 == y)
    }
}

/// One step of the walk, in the direction that `random % 4` picks.
pub fn step_in_direction(x: u32, y: u32, width: u32, height: u32, random: u64) -> (r: (u32, u32))
    requires
        x < width,
        y < height,
    ensures
        r == step_spec(x, y, width, height, (random % 4) as int),
        is_unit_move(x, y, width, height, r),
{
    let direction = random % 4;
    if direction == 0 {
        (x, if y == 0 { 0 } else { y - 1 })
    } else if direction == 1 {
        (if x + 1 < width { x + 1 } else { width - 1 }, y)
    } else if direction == 2 {
        (x, if y + 1 < height { y + 1 } else { height - 1 })
    } else {
        (if x == 0 { 0 } else { x - 1 }, y)
    }
}

#[verifier::external_type_specification]
#[verifier::external_body]
pub struct ExSystemTime(std::time::SystemTime);

/// Relies on `RandomState::new`: a hasher builder with a per-process random
/// seed; nothing is promised of it.
#[verifier::external_body]
fn random_state() -> RandomState {
    RandomState::new()
}

/// Relies on `BuildHasher::build_hasher` for `RandomState`: a hasher seeded
/// from `state`; nothing is promised of its state.
#[verifier::external_body]
fn build_hasher(state: &RandomState) -> DefaultHasher {
    state.build_hasher()
}

/// Relies on `SystemTime::now`: the current time, which is arbitrary.
#[verifier::external_body]
fn now() -> SystemTime {
    SystemTime::now()
}

/// Relies on `Hash for SystemTime`: feeds `t` to the hasher.
#[verifier::external_body]
fn hash_time(hasher: &mut DefaultHasher, t: &SystemTime) {
    t.hash(hasher)
}

/// Relies on `Hash for u32`: feeds `v` to the hasher.
#[verifier::external_body]
fn hash_u32(hasher: &mut DefaultHasher, v: u32) {
    v.hash(hasher)
}

/// A step of the walk in a direction drawn from the clock and the position,
/// hashed with a random seed.
pub fn random_walk_step(x: u32, y: u32, width: u32, height: u32) -> (r: (u32, u32))
    requires
        x < width,
        y < height,
    ensures
        exists|dir: int| 0 <= dir < 4 && r == step_spec(x, y, width, height, dir),
        is_unit_move(x, y, width, height, r),
{
    let state = random_state();
    let mut hasher = build_hasher(&state);
    let t = now();
    hash_time(&mut hasher, &t);
    hash_u32(&mut hasher, x);
    hash_u32(&mut hasher, y);
    let random = hasher.finish();
    step_in_direction(x, y, width, height, random)
}

} // verus!
