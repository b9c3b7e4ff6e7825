//! The geometry helpers and the collision/motion kernel.

use mario_rust::geom::{rect_at, rects_intersect, Recti, Vec2i};
use mario_rust::physics::{approach, move_with_collisions};

fn r(x: i64, y: i64, w: i64, h: i64) -> Recti {
    Recti { x, y, w, h }
}

#[test]
fn intersection_is_symmetric() {
    let a = r(0, 0, 100, 100);
    let b = r(50, 50, 100, 100);
    let c = r(500, 500, 10, 10);
    assert!(rects_intersect(a, b));
    assert_eq!(rects_intersect(a, b), rects_intersect(b, a));
    assert!(!rects_intersect(a, c));
    assert_eq!(rects_intersect(a, c), rects_intersect(c, a));
}

#[test]
fn touching_edges_do_not_intersect() {
    let a = r(0, 0, 100, 100);
    let right = r(100, 0, 100, 100);
    let below = r(0, 100, 100, 100);
    let left = r(-100, 0, 100, 100);
    let above = r(0, -100, 100, 100);
    assert!(!rects_intersect(a, right));
    assert!(!rects_intersect(a, below));
    assert!(!rects_intersect(a, left));
    assert!(!rects_intersect(a, above));
    // One subpixel of overlap is enough.
    assert!(rects_intersect(a, r(99, 0, 100, 100)));
}

#[test]
fn approach_zero_delta_is_identity() {
    assert_eq!(approach(17, 100, 0), 17);
    assert_eq!(approach(-3, -100, 0), -3);
}

#[test]
fn approach_reaches_target_exactly() {
    assert_eq!(approach(10, 40, 1000), 40);
    assert_eq!(approach(40, 10, 1000), 10);
    assert_eq!(approach(-5, 5, 10), 5);
}

#[test]
fn approach_never_overshoots() {
    assert_eq!(approach(0, 100, 30), 30);
    assert_eq!(approach(100, 0, 30), 70);
    assert_eq!(approach(0, -100, 30), -30);
    assert_eq!(approach(7, 7, 30), 7);
}

#[test]
fn kernel_at_rest_changes_nothing() {
    let solids = vec![r(0, 8192, 8192, 8192)];
    let pos = Vec2i { x: 1000, y: 1024 };
    let size = Vec2i { x: 5632, y: 7168 };
    let vel = Vec2i { x: 0, y: 0 };
    let (p, v, on_ground) = move_with_collisions(pos, size, vel, &solids, 1);
    assert_eq!(p, pos);
    assert_eq!(v, vel);
    assert!(!on_ground);
}

#[test]
fn falling_actor_lands_on_solid_top() {
    // Floor tile at y = 8192; actor 7168 tall falling fast from above.
    let solids = vec![r(0, 8192, 8192, 8192)];
    let pos = Vec2i { x: 100, y: 0 };
    let size = Vec2i { x: 5632, y: 7168 };
    let vel = Vec2i { x: 0, y: 3000 };
    let (p, v, on_ground) = move_with_collisions(pos, size, vel, &solids, 1);
    assert_eq!(p.y, 8192 - 7168);
    assert_eq!(v.y, 0);
    assert!(on_ground);
}

#[test]
fn moving_right_stops_at_wall() {
    // Wall tile just right of the actor.
    let solids = vec![r(8192, 0, 8192, 8192)];
    let pos = Vec2i { x: 0, y: 0 };
    let size = Vec2i { x: 5632, y: 7168 };
    let vel = Vec2i { x: 4000, y: 0 };
    let (p, v, on_ground) = move_with_collisions(pos, size, vel, &solids, 1);
    assert_eq!(p.x, 8192 - 5632);
    assert_eq!(v.x, 0);
    assert!(!on_ground);
}

#[test]
fn rect_at_builds_the_actor_rectangle() {
    let rr = rect_at(Vec2i { x: 5, y: 6 }, Vec2i { x: 7, y: 8 });
    assert_eq!(rr, r(5, 6, 7, 8));
}
