//! The collision/motion kernel: an axis-separated rectangle sweep against a
//! list of static solids, plus the `approach` helper used for horizontal
//! acceleration.

use vstd::prelude::*;

use crate::geom::{
    rect_of, rects_intersect, rects_overlap, Recti, Vec2i, R4, V2, ACTOR_LIMIT, COORD_LIMIT,
    SIZE_LIMIT, SPEED_LIMIT, TICKS_LIMIT,
};

verus! {

/// Clamps `x` into `[lo, hi]`.
pub open spec fn clamp_i(x: int, lo: int, hi: int) -> int {
    if x < lo {
        lo
    } else if x > hi {
        hi
    } else {
        x
    }
}

/// Moves `value` toward `target` by at most `delta`, stopping exactly at
/// `target`.
pub open spec fn spec_approach(value: int, target: int, delta: int) -> int {
    if value < target {
        if value + delta < target {
            value + delta
        } else {
            target
        }
    } else {
        if value - delta > target {
            value - delta
        } else {
            target
        }
    }
}

/// The view of an exec solid list as a sequence of model rectangles.
pub open spec fn rects_view(s: Seq<Recti>) -> Seq<R4> {
    s.map_values(|r: Recti| r@)
}

/// Every solid in the sequence is a well-formed rectangle.
pub open spec fn solids_wf(s: Seq<R4>) -> bool {
    forall|i: int| 0 <= i < s.len() ==> #[trigger] s[i].wf()
}

/// The kernel accepts actor positions of this magnitude.
pub open spec fn pos_ok(p: V2) -> bool {
    &&& -(ACTOR_LIMIT as int) <= p.x <= ACTOR_LIMIT as int
    &&& -(ACTOR_LIMIT as int) <= p.y <= ACTOR_LIMIT as int
}

/// Actor extents must be strictly positive and bounded.
pub open spec fn size_ok(s: V2) -> bool {
    &&& 0 < s.x <= SIZE_LIMIT as int
    &&& 0 < s.y <= SIZE_LIMIT as int
}

/// Velocities must be bounded in both components.
pub open spec fn vel_ok(v: V2) -> bool {
    &&& -(SPEED_LIMIT as int) <= v.x <= SPEED_LIMIT as int
    &&& -(SPEED_LIMIT as int) <= v.y <= SPEED_LIMIT as int
}

/// Resolves the horizontal axis against the first `n` solids, in list order:
/// whenever the actor's rectangle overlaps a solid, the actor is pushed out
/// along x in the direction of travel and its horizontal velocity is zeroed.
pub open spec fn sweep_x_upto(pos: V2, size: V2, vel: V2, solids: Seq<R4>, n: int) -> (V2, V2)
    decreases n,
{
    if n <= 0 {
        (pos, vel)
    } else {
        let (p, v) = sweep_x_upto(pos, size, vel, solids, n - 1);
        let s = solids[n - 1];
        if rects_overlap(rect_of(p, size), s) {
            let nx = if v.x > 0 {
                s.x - size.x
            } else if v.x < 0 {
                s.x + s.w
            } else {
                p.x
            };
            ((V2 { x: nx, y: p.y }), (V2 { x: 0, y: v.y }))
        } else {
            (p, v)
        }
    }
}

/// Resolves the vertical axis against the first `n` solids, in list order.
/// A downward hit clamps to the solid's top and reports ground contact; an
/// upward hit clamps to the solid's bottom; either zeroes vertical velocity.
pub open spec fn sweep_y_upto(pos: V2, size: V2, vel: V2, solids: Seq<R4>, n: int) -> (
    V2,
    V2,
    bool,
)
    decreases n,
{
    if n <= 0 {
        (pos, vel, false)
    } else {
        let (p, v, g) = sweep_y_upto(pos, size, vel, solids, n - 1);
        let s = solids[n - 1];
        if rects_overlap(rect_of(p, size), s) {
            let ny = if v.y > 0 {
                s.y - size.y
            } else if v.y < 0 {
                s.y + s.h
            } else {
                p.y
            };
            let ng = g || v.y > 0;
            ((V2 { x: p.x, y: ny }), (V2 { x: v.x, y: 0 }), ng)
        } else {
            (p, v, g)
        }
    }
}

/// One kernel move: advance x by `vel.x * dt` (saturating at the coordinate
/// limit), resolve x against every solid, then advance y the same way with
/// the resolved x, and resolve y.  Returns the new position, the possibly
/// zeroed velocity, and whether a downward hit grounded the actor.
pub open spec fn kernel_move(pos: V2, size: V2, vel: V2, solids: Seq<R4>, dt: int) -> (
    V2,
    V2,
    bool,
) {
    let x1 = clamp_i(pos.x + vel.x * dt, -(COORD_LIMIT as int), COORD_LIMIT as int);
    let (p1, v1) = sweep_x_upto(V2 { x: x1, y: pos.y }, size, vel, solids, solids.len() as int);
    let y1 = clamp_i(p1.y + v1.y * dt, -(COORD_LIMIT as int), COORD_LIMIT as int);
    sweep_y_upto(V2 { x: p1.x, y: y1 }, size, v1, solids, solids.len() as int)
}

/// Clamps an `i64` into `[lo, hi]`.
pub fn clamp64(x: i64, lo: i64, hi: i64) -> (r: i64)
    requires
        lo <= hi,
    ensures
        r as int == clamp_i(x as int, lo as int, hi as int),
{
    if x < lo {
        lo
    } else if x > hi {
        hi
    } else {
        x
    }
}

/// A product of bounded factors is bounded.
pub proof fn lemma_mul_bound(a: int, b: int, m: int, n: int)
    by (nonlinear_arith)
    requires
        -m <= a <= m,
        0 <= b <= n,
    ensures
        -(m * n) <= a * b <= m * n,
{
}

/// Clamps a wide intermediate value into an `i64` range.
fn clamp_wide(x: i128, lo: i64, hi: i64) -> (r: i64)
    requires
        lo <= hi,
    ensures
        r as int == clamp_i(x as int, lo as int, hi as int),
{
    if x < lo as i128 {
        lo
    } else if x > hi as i128 {
        hi
    } else {
        x as i64
    }
}

/// Moves `value` toward `target` by at most `delta`, clamping exactly at
/// `target`; it never overshoots in either direction.
pub fn approach(value: i64, target: i64, delta: i64) -> (r: i64)
    requires
        delta >= 0,
    ensures
        r as int == spec_approach(value as int, target as int, delta as int),
{
    if value < target {
        let stepped: i128 = value as i128 + delta as i128;
        if stepped < target as i128 {
            (value + delta) as i64
        } else {
            target
        }
    } else {
        let stepped: i128 = value as i128 - delta as i128;
        if stepped > target as i128 {
            (value - delta) as i64
        } else {
            target
        }
    }
}

/// `approach` with a zero delta leaves the value unchanged.
pub proof fn lemma_approach_zero(value: int, target: int)
    ensures
        spec_approach(value, target, 0) == value,
{
}

/// `approach` with a delta at least as large as the gap lands exactly on the
/// target.
pub proof fn lemma_approach_reaches(value: int, target: int, delta: int)
    requires
        delta >= value - target,
        delta >= target - value,
    ensures
        spec_approach(value, target, delta) == target,
{
}

/// `approach` never overshoots: the result always lies between the starting
/// value and the target.
pub proof fn lemma_approach_no_overshoot(value: int, target: int, delta: int)
    requires
        delta >= 0,
    ensures
        value <= target ==> value <= spec_approach(value, target, delta) <= target,
        value >= target ==> target <= spec_approach(value, target, delta) <= value,
{
}

/// Bounds of the x sweep: the resolved position either keeps the starting
/// coordinates or sits against a solid's edge, and the velocity is either
/// kept or zeroed.
proof fn lemma_sweep_x_bounds(pos: V2, size: V2, vel: V2, solids: Seq<R4>, n: int)
    requires
        solids_wf(solids),
        size_ok(size),
        0 <= n <= solids.len(),
    ensures
        ({
            let (p, v) = sweep_x_upto(pos, size, vel, solids, n);
            &&& p.y == pos.y
            &&& v.y == vel.y
            &&& v.x == vel.x || v.x == 0
            &&& p.x == pos.x || -(COORD_LIMIT + SIZE_LIMIT) <= p.x <= COORD_LIMIT + SIZE_LIMIT
        }),
    decreases n,
{
    if n > 0 {
        lemma_sweep_x_bounds(pos, size, vel, solids, n - 1);
        assert(solids[n - 1].wf());
    }
}

/// Bounds of the y sweep, mirroring `lemma_sweep_x_bounds`.
proof fn lemma_sweep_y_bounds(pos: V2, size: V2, vel: V2, solids: Seq<R4>, n: int)
    requires
        solids_wf(solids),
        size_ok(size),
        0 <= n <= solids.len(),
    ensures
        ({
            let (p, v, g) = sweep_y_upto(pos, size, vel, solids, n);
            &&& p.x == pos.x
            &&& v.x == vel.x
            &&& v.y == vel.y || v.y == 0
            &&& p.y == pos.y || -(COORD_LIMIT + SIZE_LIMIT) <= p.y <= COORD_LIMIT + SIZE_LIMIT
        }),
    decreases n,
{
    if n > 0 {
        lemma_sweep_y_bounds(pos, size, vel, solids, n - 1);
        assert(solids[n - 1].wf());
    }
}

/// The kernel's results stay bounded: positions within the saturation range
/// plus one extent, velocities either kept or zeroed.
pub proof fn lemma_kernel_bounds(pos: V2, size: V2, vel: V2, solids: Seq<R4>, dt: int)
    requires
        solids_wf(solids),
        size_ok(size),
    ensures
        ({
            let (p, v, g) = kernel_move(pos, size, vel, solids, dt);
            &&& -(COORD_LIMIT + SIZE_LIMIT) <= p.x <= COORD_LIMIT + SIZE_LIMIT
            &&& -(COORD_LIMIT + SIZE_LIMIT) <= p.y <= COORD_LIMIT + SIZE_LIMIT
            &&& v.x == vel.x || v.x == 0
            &&& v.y == vel.y || v.y == 0
        }),
{
    let x1 = clamp_i(pos.x + vel.x * dt, -(COORD_LIMIT as int), COORD_LIMIT as int);
    lemma_sweep_x_bounds(V2 { x: x1, y: pos.y }, size, vel, solids, solids.len() as int);
    let (p1, v1) = sweep_x_upto(V2 { x: x1, y: pos.y }, size, vel, solids, solids.len() as int);
    let y1 = clamp_i(p1.y + v1.y * dt, -(COORD_LIMIT as int), COORD_LIMIT as int);
    lemma_sweep_y_bounds(V2 { x: p1.x, y: y1 }, size, v1, solids, solids.len() as int);
}

/// Sweeps an actor's rectangle along x then y against the solid list and
/// resolves every overlap in list order, exactly as `kernel_move` states.
pub fn move_with_collisions(
    pos: Vec2i,
    size: Vec2i,
    vel: Vec2i,
    solids: &Vec<Recti>,
    dt: i64,
) -> (r: (Vec2i, Vec2i, bool))
    requires
        pos_ok(pos@),
        size_ok(size@),
        vel_ok(vel@),
        0 <= dt <= TICKS_LIMIT,
        solids_wf(rects_view(solids@)),
    ensures
        (r.0@, r.1@, r.2) == kernel_move(pos@, size@, vel@, rects_view(solids@), dt as int),
        -(COORD_LIMIT + SIZE_LIMIT) <= r.0.x <= COORD_LIMIT + SIZE_LIMIT,
        -(COORD_LIMIT + SIZE_LIMIT) <= r.0.y <= COORD_LIMIT + SIZE_LIMIT,
        r.1.x == vel.x || r.1.x == 0,
        r.1.y == vel.y || r.1.y == 0,
{
    let ghost svs = rects_view(solids@);
    proof {
        lemma_mul_bound(vel.x as int, dt as int, SPEED_LIMIT as int, TICKS_LIMIT as int);
    }
    let x1 = clamp_wide(pos.x as i128 + vel.x as i128 * dt as i128, -COORD_LIMIT, COORD_LIMIT);
    let mut p = Vec2i { x: x1, y: pos.y };
    let mut v = vel;
    let n = solids.len();
    let ghost start_p = p@;
    for i in 0..n
        invariant
            solids_wf(svs),
            svs == rects_view(solids@),
            svs.len() == solids@.len(),
            size_ok(size@),
            (p@, v@) == sweep_x_upto(start_p, size@, vel@, svs, i as int),
            n == solids@.len(),
    {
        proof {
            lemma_sweep_x_bounds(start_p, size@, vel@, svs, i as int);
            assert(svs[i as int] == solids@[i as int]@);
            assert(svs[i as int].wf());
        }
        let s = solids[i];
        if rects_intersect(crate::geom::rect_at(p, size), s) {
            if v.x > 0 {
                p.x = s.x - size.x;
            } else if v.x < 0 {
                p.x = s.x + s.w;
            }
            v.x = 0;
        }
    }
    proof {
        lemma_sweep_x_bounds(start_p, size@, vel@, svs, n as int);
    }
    proof {
        lemma_mul_bound(v.y as int, dt as int, SPEED_LIMIT as int, TICKS_LIMIT as int);
    }
    let y1 = clamp_wide(p.y as i128 + v.y as i128 * dt as i128, -COORD_LIMIT, COORD_LIMIT);
    p.y = y1;
    let mut on_ground = false;
    let ghost mid_p = p@;
    let ghost mid_v = v@;
    for i in 0..n
        invariant
            solids_wf(svs),
            svs == rects_view(solids@),
            svs.len() == solids@.len(),
            size_ok(size@),
            (p@, v@, on_ground) == sweep_y_upto(mid_p, size@, mid_v, svs, i as int),
            n == solids@.len(),
    {
        proof {
            lemma_sweep_y_bounds(mid_p, size@, mid_v, svs, i as int);
            assert(svs[i as int] == solids@[i as int]@);
            assert(svs[i as int].wf());
        }
        let s = solids[i];
        if rects_intersect(crate::geom::rect_at(p, size), s) {
            if v.y > 0 {
                p.y = s.y - size.y;
                on_ground = true;
            } else if v.y < 0 {
                p.y = s.y + s.h;
            }
            v.y = 0;
        }
    }
    proof {
        lemma_sweep_y_bounds(mid_p, size@, mid_v, svs, n as int);
    }
    (p, v, on_ground)
}

/// With zero velocity the x sweep changes nothing.
proof fn lemma_sweep_x_static(pos: V2, size: V2, vy: int, solids: Seq<R4>, n: int)
    requires
        n >= 0,
    ensures
        sweep_x_upto(pos, size, (V2 { x: 0, y: vy }), solids, n) == (pos, (V2 { x: 0, y: vy })),
    decreases n,
{
    if n > 0 {
        lemma_sweep_x_static(pos, size, vy, solids, n - 1);
    }
}

/// With zero velocity the y sweep changes nothing and reports no ground.
proof fn lemma_sweep_y_static(pos: V2, size: V2, solids: Seq<R4>, n: int)
    requires
        n >= 0,
    ensures
        sweep_y_upto(pos, size, (V2 { x: 0, y: 0 }), solids, n) == (
            pos,
            (V2 { x: 0, y: 0 }),
            false,
        ),
    decreases n,
{
    if n > 0 {
        lemma_sweep_y_static(pos, size, solids, n - 1);
    }
}

/// Kernel idempotence under rest: moving with zero velocity returns the
/// position unchanged, keeps the velocity at zero, and reports no ground
/// contact, because the ground flag records a downward collision during
/// motion, never a static adjacency.
pub proof fn lemma_kernel_static(pos: V2, size: V2, solids: Seq<R4>, dt: int)
    requires
        -(COORD_LIMIT as int) <= pos.x <= COORD_LIMIT as int,
        -(COORD_LIMIT as int) <= pos.y <= COORD_LIMIT as int,
    ensures
        kernel_move(pos, size, (V2 { x: 0, y: 0 }), solids, dt) == (
            pos,
            (V2 { x: 0, y: 0 }),
            false,
        ),
{
    lemma_sweep_x_static(pos, size, 0, solids, solids.len() as int);
    lemma_sweep_y_static(pos, size, solids, solids.len() as int);
}

} // verus!
