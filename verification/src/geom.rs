//! Integer vectors, axis-aligned rectangles and the half-open overlap test
//! that the whole collision model is built on.

use vstd::prelude::*;

verus! {

/// Subpixels per pixel: every length in the engine is a whole number of these.
pub const SUBPIXEL: i64 = 256;

/// Coordinates coming out of the motion kernel saturate at this magnitude.
pub const COORD_LIMIT: i64 = 0x1_0000_0000_0000;

/// Largest extent (width or height) a well-formed rectangle may have.
pub const SIZE_LIMIT: i64 = 0x1_0000_0000;

/// Largest velocity magnitude, in subpixels per tick, the kernel accepts.
pub const SPEED_LIMIT: i64 = 0x1000_0000;

/// Largest time step, in ticks, the kernel accepts.
pub const TICKS_LIMIT: i64 = 0x1_0000;

/// Positions of live actors stay strictly inside this magnitude; the motion
/// kernel both requires and (with room to spare) re-establishes it.
pub const ACTOR_LIMIT: i64 = COORD_LIMIT + 16 * SIZE_LIMIT;

/// Live actor positions stay inside this magnitude: the kernel's output
/// range plus room for the hurt knockback nudge.
pub const ACTOR_POS_LIMIT: i64 = COORD_LIMIT + SIZE_LIMIT + 0x1_0000;

/// A point or extent in subpixel coordinates.
#[derive(Clone, Copy, PartialEq, Eq, Structural, Debug)]
pub struct Vec2i {
    pub x: i64,
    pub y: i64,
}

/// Mathematical model of `Vec2i`: the same point over unbounded integers.
pub struct V2 {
    pub x: int,
    pub y: int,
}

impl View for Vec2i {
    type V = V2;

    open spec fn view(&self) -> V2 {
        V2 { x: self.x as int, y: self.y as int }
    }
}

/// An axis-aligned rectangle: top-left corner plus extents, in subpixels.
#[derive(Clone, Copy, PartialEq, Eq, Structural, Debug)]
pub struct Recti {
    pub x: i64,
    pub y: i64,
    pub w: i64,
    pub h: i64,
}

/// Mathematical model of `Recti`.
pub struct R4 {
    pub x: int,
    pub y: int,
    pub w: int,
    pub h: int,
}

impl View for Recti {
    type V = R4;

    open spec fn view(&self) -> R4 {
        R4 { x: self.x as int, y: self.y as int, w: self.w as int, h: self.h as int }
    }
}

impl R4 {
    /// A solid that the motion kernel sweeps against: bounded position,
    /// strictly positive bounded extents.
    pub open spec fn wf(self) -> bool {
        &&& -(COORD_LIMIT as int) <= self.x <= COORD_LIMIT as int
        &&& -(COORD_LIMIT as int) <= self.y <= COORD_LIMIT as int
        &&& 0 < self.w <= SIZE_LIMIT as int
        &&& 0 < self.h <= SIZE_LIMIT as int
    }
}

/// The rectangle covered by an actor at position `pos` with extents `size`.
pub open spec fn rect_of(pos: V2, size: V2) -> R4 {
    R4 { x: pos.x, y: pos.y, w: size.x, h: size.y }
}

/// Half-open rectangle intersection: rectangles that merely share an edge do
/// not overlap.
pub open spec fn rects_overlap(a: R4, b: R4) -> bool {
    &&& a.x < b.x + b.w
    &&& a.x + a.w > b.x
    &&& a.y < b.y + b.h
    &&& a.y + a.h > b.y
}

/// Builds the rectangle covered by an actor at `pos` with extents `size`.
pub fn rect_at(pos: Vec2i, size: Vec2i) -> (r: Recti)
    ensures
        r@ == rect_of(pos@, size@),
{
    Recti { x: pos.x, y: pos.y, w: size.x, h: size.y }
}

/// Decides the half-open overlap test; sums are taken in `i128` so the test
/// is total over every pair of rectangles.
pub fn rects_intersect(a: Recti, b: Recti) -> (r: bool)
    ensures
        r == rects_overlap(a@, b@),
{
    let ax: i128 = a.x as i128;
    let ay: i128 = a.y as i128;
    let bx: i128 = b.x as i128;
    let by: i128 = b.y as i128;
    ax < bx + b.w as i128 && ax + a.w as i128 > bx && ay < by + b.h as i128 && ay + a.h as i128
        > by
}

/// Overlap is symmetric: `A` intersects `B` exactly when `B` intersects `A`.
pub proof fn lemma_overlap_symmetric(a: R4, b: R4)
    ensures
        rects_overlap(a, b) == rects_overlap(b, a),
{
}

/// Rectangles that only touch along an edge are never reported as
/// overlapping: the overlap test is strict on every side.
pub proof fn lemma_touching_edges_do_not_overlap(a: R4, b: R4)
    requires
        a.x + a.w == b.x || b.x + b.w == a.x || a.y + a.h == b.y || b.y + b.h == a.y,
    ensures
        !rects_overlap(a, b),
{
}

} // verus!
