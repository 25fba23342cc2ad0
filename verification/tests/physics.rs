use jetman::fixed::{cos_fp, sin_fp, Vec2};
use jetman::physics::{vector_from_angle, Bodied, Body, Item, Jetman, Teleporter};

fn v(x: i64, y: i64) -> Vec2 {
    Vec2 { x, y }
}

#[test]
fn integrator_from_rest() {
    // Mass 2.0, force (10, 0), dt 0.5: velocity (F/m)*dt = 2.5, position
    // advances by velocity*dt = 1.25 (raw units scaled by 1000).
    let mut b = Body::new(v(0, 0), 2000);
    b.apply_force(v(10_000, 0));
    b.update(500);
    assert_eq!(b.velocity, v(2500, 0));
    assert_eq!(b.position, v(1250, 0));
    assert_eq!(b.acceleration, v(0, 0));
}

#[test]
fn force_superposition_exact() {
    let mut one_by_one = Body::new(v(5, 7), 1000);
    one_by_one.apply_force(v(3, 7));
    one_by_one.apply_force(v(5, -2));
    let mut at_once = Body::new(v(5, 7), 1000);
    at_once.apply_force(v(8, 5));
    assert_eq!(one_by_one, at_once);
    assert_eq!(one_by_one.acceleration, v(8, 5));
}

#[test]
fn clear_forces_stops_motion() {
    let mut b = Body::new(v(100_000, 200_000), 1000);
    b.apply_force(v(50_000, -20_000));
    b.update(1000);
    assert_ne!(b.velocity, v(0, 0));
    b.clear_forces();
    let frozen = b.position;
    b.update(1000);
    assert_eq!(b.position, frozen);
    assert_eq!(b.velocity, v(0, 0));
}

#[test]
fn jetman_thrust_along_heading() {
    let mut j = Jetman::new();
    assert_eq!(j.heading, 0);
    j.apply_thrust();
    assert_eq!(j.thrusting, 2);
    // cos(0) is 1.004 in the fixed-point model, sin(0) is 0; the thrust
    // force 0.1 over mass 1.0 accumulates acceleration (0.100, 0).
    assert_eq!(j.body.acceleration, v(100, 0));
}

#[test]
fn jetman_turns() {
    let mut j = Jetman::new();
    j.turn_left();
    assert_eq!(j.heading, -100);
    j.turn_right();
    j.turn_right();
    assert_eq!(j.heading, 100);
}

#[test]
fn jetman_update_runs_down_flame() {
    let mut j = Jetman::new();
    j.apply_thrust();
    j.update(0);
    assert_eq!(j.thrusting, 1);
    j.update(0);
    assert_eq!(j.thrusting, 0);
}

#[test]
fn bodied_accessors() {
    let mut it = Item::new(40_000, 50_000);
    assert_eq!(it.position(), v(40_000, 50_000));
    assert_eq!(it.velocity(), v(0, 0));
    assert_eq!(it.mass(), 1000);
    Bodied::apply_force(&mut it, v(2000, 0));
    assert_eq!(it.body().acceleration, v(2000, 0));
    Bodied::clear_forces(&mut it);
    assert_eq!(it.body().acceleration, v(0, 0));
    let j = Jetman::default();
    assert_eq!(j.position(), v(200_000, 200_000));
    assert_eq!(j.mass(), 1000);
}

#[test]
fn teleporter_holds_position() {
    let t = Teleporter::new(v(400_000, 300_000));
    assert_eq!(t.position, v(400_000, 300_000));
}

#[test]
fn trig_fixed_point() {
    assert_eq!(sin_fp(0), 0);
    // A half turn lands exactly on the polynomial's zero.
    assert_eq!(sin_fp(3142), 0);
    // cos(0) close to one; the degree-five polynomial gives 1.004.
    assert_eq!(cos_fp(0), 1004);
    assert!(sin_fp(1571) > 950 && sin_fp(1571) < 1050);
    let d = vector_from_angle(0);
    assert_eq!(d.x, cos_fp(0));
    assert_eq!(d.y, 0);
}
