use jetman::fixed::Vec2;
use jetman::physics::{Item, ItemId, Jetman, Teleporter};
use jetman::terrain::{Terrain, TerrainShape};
use jetman::ui::InputState;
use jetman::world::{generate_ground_poly, World, RNG_INC, RNG_MUL};

fn v(x: i64, y: i64) -> Vec2 {
    Vec2 { x, y }
}

fn idle() -> InputState {
    InputState { thrust: false, turn_left: false, turn_right: false, sever_link: false }
}

fn quiet_world(items: Vec<Item>, teleports: Vec<Teleporter>) -> World {
    World::from_parts(Jetman::new(), items, teleports, v(0, 0), Vec::new())
}

#[test]
fn end_to_end_gravity_tick() {
    // Jetman starts at (200, 200) with zero velocity and mass 1; one
    // tick of gravity (0, 0.01) alone with dt = 1 gives velocity
    // (0, 0.01) and position (200, 200.01).
    let mut w = World::new(800_000, 600_000, 7);
    w.update(&idle(), 1000);
    assert_eq!(w.jetman_position(), v(200_000, 200_010));
    assert_eq!(w.jetman.body.velocity, v(0, 10));
}

#[test]
fn new_world_layout() {
    let w = World::new(800_000, 600_000, 3);
    assert_eq!(w.jetman_position(), v(200_000, 200_000));
    assert_eq!(w.item_count(), 1);
    assert_eq!(w.item_position(0), v(100_000, 200_000));
    assert_eq!(w.teleporter_count(), 1);
    assert_eq!(w.teleporter_position(0), v(400_000, 300_000));
    assert_eq!(w.terrain().len(), 1);
    match w.terrain()[0].shape() {
        TerrainShape::Polygon(vs) => assert_eq!(vs.len(), 26),
        _ => panic!("expected the generated ground polygon"),
    }
    assert!(w.jetman.linked_item.is_none());
}

#[test]
fn link_auto_acquire_and_constraint_pull() {
    // An item 10 units away (inside the 50-unit link range) is linked
    // in the same tick, and the rigid-rod solve pushes the pair apart
    // toward the 50-unit rest length, half the error each (equal
    // masses).
    let mut w = quiet_world(vec![Item::new(210_000, 200_000)], Vec::new());
    w.update(&idle(), 0);
    assert_eq!(w.jetman.linked_item, Some(ItemId(0)));
    assert_eq!(w.jetman_position(), v(180_000, 200_000));
    assert_eq!(w.item_position(0), v(230_000, 200_000));
}

#[test]
fn link_is_sticky_outside_range() {
    let mut w = quiet_world(vec![Item::new(210_000, 200_000)], Vec::new());
    w.update(&idle(), 0);
    // The pair now sits at exactly the rest length: the item is no
    // longer within the strict link range, yet the link is kept.
    w.update(&idle(), 0);
    assert_eq!(w.jetman.linked_item, Some(ItemId(0)));
    assert_eq!(w.jetman_position(), v(180_000, 200_000));
    assert_eq!(w.item_position(0), v(230_000, 200_000));
}

#[test]
fn constraint_solve_reduces_distance_error() {
    // Linked pair 100 units apart with rest length 50: one solve moves
    // each body 25 units, closing the error completely here.
    let mut w = quiet_world(vec![Item::new(300_000, 200_000)], Vec::new());
    w.jetman.linked_item = Some(ItemId(0));
    w.update(&idle(), 0);
    assert_eq!(w.jetman_position(), v(225_000, 200_000));
    assert_eq!(w.item_position(0), v(275_000, 200_000));
}

#[test]
fn constraint_degenerate_distance_zero() {
    // Item exactly on top of the Jetman: the solver must skip the
    // correction and not fault.
    let mut w = quiet_world(vec![Item::new(200_000, 200_000)], Vec::new());
    w.jetman.linked_item = Some(ItemId(0));
    w.update(&idle(), 0);
    assert_eq!(w.jetman_position(), v(200_000, 200_000));
    assert_eq!(w.item_position(0), v(200_000, 200_000));
    assert_eq!(w.jetman.linked_item, Some(ItemId(0)));
}

#[test]
fn sever_clears_link_and_stops_item() {
    let mut item = Item::new(210_000, 200_000);
    item.body.velocity = v(500, 0);
    let mut w = quiet_world(vec![item], Vec::new());
    let sever = InputState { sever_link: true, ..idle() };
    w.update(&sever, 1000);
    // The tick first auto-links the drifting item, then the sever input
    // clears the link and zeroes the item's motion, so neither the
    // constraint solve nor integration moves it.
    assert!(w.jetman.linked_item.is_none());
    assert_eq!(w.item_velocity(0), v(0, 0));
    assert_eq!(w.item_position(0), v(210_000, 200_000));
}

#[test]
fn teleport_delivery_removes_item() {
    // Tick one links the item and pulls it to (230, 200); a teleporter
    // sits there, so tick two delivers it: the item leaves the world
    // and the link is cleared, the count dropping by exactly one.
    let mut w = quiet_world(
        vec![Item::new(210_000, 200_000)],
        vec![Teleporter::new(v(230_000, 200_000))],
    );
    w.update(&idle(), 0);
    assert_eq!(w.jetman.linked_item, Some(ItemId(0)));
    assert_eq!(w.item_count(), 1);
    w.update(&idle(), 0);
    assert_eq!(w.item_count(), 0);
    assert!(w.jetman.linked_item.is_none());
}

#[test]
fn turning_and_thrusting_tick() {
    let mut w = quiet_world(Vec::new(), Vec::new());
    let input = InputState { thrust: true, turn_left: false, turn_right: true, sever_link: false };
    w.update(&input, 0);
    // Thrust acts along the heading as it was before the turn.
    assert_eq!(w.jetman.heading, 100);
    assert_eq!(w.jetman.thrusting, 1);
}

#[test]
fn ground_polygon_is_seeded_and_shaped() {
    let a = generate_ground_poly(1_200_000, 600_000, 12, 80_000, 42);
    let b = generate_ground_poly(1_200_000, 600_000, 12, 80_000, 42);
    assert_eq!(a.len(), 26);
    for (p, q) in a.iter().zip(b.iter()) {
        assert_eq!(p.x, q.x);
        assert_eq!(p.y, q.y);
    }
    // Top edge: evenly spaced samples jittered below the base line.
    assert_eq!(a[0].x, 0);
    assert_eq!(a[12].x, 1_200_000);
    for k in 0..=12usize {
        assert_eq!(a[k].x, (k as i64) * 100_000);
        assert!(a[k].y > 420_000 && a[k].y <= 500_000);
    }
    // Bottom edge: the same x samples in reverse, at the full height.
    for k in 13..26usize {
        assert_eq!(a[k].x, ((25 - k) as i64) * 100_000);
        assert_eq!(a[k].y, 600_000);
    }
    // The first sample's jitter comes from one step of the documented
    // linear-congruential generator.
    let state = 42u64.wrapping_mul(RNG_MUL).wrapping_add(RNG_INC);
    let expected = 500_000 - ((state / 0x2_0000_0000) % 80_000) as i64;
    assert_eq!(a[0].y, expected);
    // A different seed changes the surface.
    let c = generate_ground_poly(1_200_000, 600_000, 12, 80_000, 43);
    assert!((0..=12usize).any(|k| c[k].y != a[k].y));
}

#[test]
fn jetman_falls_onto_rectangle_ground() {
    // Gravity pulls the Jetman into a rectangle over ten ticks; the
    // tick that carries him inside snaps him to just above the top
    // edge and flips and halves his fall speed.
    let mut j = Jetman::new();
    j.body.position = v(200_000, 499_000);
    let mut w = World::from_parts(
        j,
        Vec::new(),
        Vec::new(),
        v(0, 10),
        vec![Terrain::rectangle(0, 499_500, 400_000, 100_000)],
    );
    for _ in 0..9 {
        w.update(&idle(), 1000);
    }
    assert_eq!(w.jetman_position(), v(200_000, 499_450));
    w.update(&idle(), 1000);
    assert_eq!(w.jetman_position(), v(200_000, 498_500));
    assert_eq!(w.jetman.body.velocity, v(0, -50));
}

#[test]
fn default_world_matches_new() {
    let d = World::default();
    assert_eq!(d.jetman_position(), v(200_000, 200_000));
    assert_eq!(d.item_count(), 1);
}
