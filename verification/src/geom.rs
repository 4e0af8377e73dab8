//! Arena geometry: fixed-point rectangles, the overlap test used for
//! collision resolution, and the arena bounds that every entity is
//! clamped into.

use vstd::prelude::*;
use crate::num::clamp_spec;

verus! {

/// Width of the arena in coordinate units (800 pixels).
pub const ARENA_W: i64 = 800_000;

/// Height of the arena in coordinate units (600 pixels).
pub const ARENA_H: i64 = 600_000;

/// Largest x coordinate a 50-pixel entity may take (750 pixels).
pub const MAX_X: i64 = 750_000;

/// Largest y coordinate a 50-pixel entity may take (550 pixels).
pub const MAX_Y: i64 = 550_000;

/// Side length of the player and enemy squares (50 pixels).
pub const ENTITY_SIZE: i64 = 50_000;

/// Side length of a projectile square (5 pixels).
pub const PROJECTILE_SIZE: i64 = 5_000;

/// Magnitude bound on rectangle coordinates and sizes, far above
/// anything in the arena, under which the overlap sums cannot overflow.
pub const GEOM_BOUND: i64 = 1_000_000_000_000;

/// An axis-aligned rectangle in fixed-point coordinates.
#[derive(Clone, Copy, Debug)]
pub struct Rect {
    pub x: i64,
    pub y: i64,
    pub w: i64,
    pub h: i64,
}

/// A rectangle whose coordinates and sizes are small enough that edge
/// sums stay within machine range.
pub open spec fn rect_wf(r: Rect) -> bool {
    &&& -GEOM_BOUND <= r.x <= GEOM_BOUND
    &&& -GEOM_BOUND <= r.y <= GEOM_BOUND
    &&& 0 <= r.w <= GEOM_BOUND
    &&& 0 <= r.h <= GEOM_BOUND
}

/// Two rectangles overlap when they intersect on both axes; rectangles
/// that merely touch along an edge count as overlapping.
pub open spec fn rects_overlap(a: Rect, b: Rect) -> bool {
    &&& a.x <= b.x + b.w
    &&& a.x + a.w >= b.x
    &&& a.y <= b.y + b.h
    &&& a.y + a.h >= b.y
}

impl Rect {
    /// Build a rectangle from its corner and size.
    pub fn new(x: i64, y: i64, w: i64, h: i64) -> (r: Rect)
        ensures
            r == (Rect { x, y, w, h }),
    {
        Rect { x, y, w, h }
    }

    /// Overlap test for collision resolution.
    pub fn overlaps(&self, other: &Rect) -> (r: bool)
        requires
            rect_wf(*self),
            rect_wf(*other),
        ensures
            r == rects_overlap(*self, *other),
    {
        self.x <= other.x + other.w && self.x + self.w >= other.x && self.y <= other.y + other.h
            && self.y + self.h >= other.y
    }
}

/// The squared Euclidean distance between two points.
pub open spec fn dist2(x1: int, y1: int, x2: int, y2: int) -> int {
    (x1 - x2) * (x1 - x2) + (y1 - y2) * (y1 - y2)
}

/// A point within the movement range of a 50-pixel entity.
pub open spec fn in_entity_bounds(x: int, y: int) -> bool {
    &&& 0 <= x <= MAX_X
    &&& 0 <= y <= MAX_Y
}

/// Advance one axis of a bouncing entity: move by the velocity, reverse
/// the velocity exactly when the moved coordinate reaches an edge of the
/// entity's range, and clamp the coordinate back into that range.
pub open spec fn bounce_axis(p: int, v: int, max: int) -> (int, int) {
    let moved = p + v;
    let v2 = if moved <= 0 || moved >= max {
        -v
    } else {
        v
    };
    (clamp_spec(moved, 0, max), v2)
}


/// A rectangle overlaps itself: an exactly-overlapping pair always
/// collides.
pub proof fn lemma_rects_overlap_self(r: Rect)
    requires
        r.w >= 0,
        r.h >= 0,
    ensures
        rects_overlap(r, r),
{
}

} // verus!
