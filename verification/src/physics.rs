//! Physics bodies and the entities that own them.

use vstd::prelude::*;

use crate::fixed::{
    cos_fp, fdiv, fmul, in_band, lemma_tdiv_exact_add, sat_add, sat_sub, sin_fp, spec_add,
    spec_cos, spec_fdiv, spec_fmul, spec_sin, spec_sub, tdiv, v2_in_band, Vec2, LIM, SCALE, V2,
};

verus! {

/// Force of one thrust impulse, along the heading.
pub const THRUST_FORCE: i64 = 100;

/// Heading change of one turn input.
pub const TURN_STEP: i64 = 100;

/// Ticks the thrust flame stays armed after a thrust.
pub const FLAME_TICKS: i64 = 2;

/// Where the Jetman starts.
pub const JETMAN_START_X: i64 = 200_000;

/// Where the Jetman starts.
pub const JETMAN_START_Y: i64 = 200_000;

/// Mass of the Jetman.
pub const JETMAN_MASS: i64 = 1000;

/// Mass of every item.
pub const ITEM_MASS: i64 = 1000;

/// Rest length of the tractor beam.
pub const LINK_DISTANCE: i64 = 50_000;

/// Create a vector of length one (in world units) from an angle.
pub fn vector_from_angle(angle: i64) -> (v: Vec2)
    requires
        in_band(angle as int),
    ensures
        v@ == (V2 { x: spec_cos(angle as int), y: spec_sin(angle as int) }),
        -2000 <= v.x <= 2000,
        -2000 <= v.y <= 2000,
{
    Vec2 { x: cos_fp(angle), y: sin_fp(angle) }
}

/// A physics body.
#[derive(Clone, Copy, Debug, PartialEq, Eq, Structural)]
pub struct Body {
    pub position: Vec2,
    pub velocity: Vec2,
    pub acceleration: Vec2,
    pub mass: i64,
}

/// The mathematical value of a `Body`.
#[verifier::ext_equal]
pub struct BodyView {
    pub position: V2,
    pub velocity: V2,
    pub acceleration: V2,
    pub mass: int,
}

impl View for Body {
    type V = BodyView;

    open spec fn view(&self) -> BodyView {
        BodyView {
            position: self.position@,
            velocity: self.velocity@,
            acceleration: self.acceleration@,
            mass: self.mass as int,
        }
    }
}

/// Every scalar of the body is representable and the mass is positive.
pub open spec fn body_wf(b: BodyView) -> bool {
    &&& v2_in_band(b.position)
    &&& v2_in_band(b.velocity)
    &&& v2_in_band(b.acceleration)
    &&& 1 <= b.mass <= LIM
}

/// Accumulate a force: `acceleration += force / mass`.
pub open spec fn body_apply_force(b: BodyView, f: V2) -> BodyView {
    BodyView {
        acceleration: V2 {
            x: spec_add(b.acceleration.x, spec_fdiv(f.x, b.mass)),
            y: spec_add(b.acceleration.y, spec_fdiv(f.y, b.mass)),
        },
        ..b
    }
}

/// Hard stop: zero velocity and acceleration.
pub open spec fn body_clear_forces(b: BodyView) -> BodyView {
    BodyView { velocity: V2 { x: 0, y: 0 }, acceleration: V2 { x: 0, y: 0 }, ..b }
}

/// Semi-implicit Euler step: the velocity moves first and the new velocity
/// moves the position; the accumulated acceleration is spent.
pub open spec fn body_integrate(b: BodyView, dt: int) -> BodyView {
    let vel = V2 {
        x: spec_add(b.velocity.x, spec_fmul(b.acceleration.x, dt)),
        y: spec_add(b.velocity.y, spec_fmul(b.acceleration.y, dt)),
    };
    BodyView {
        position: V2 {
            x: spec_add(b.position.x, spec_fmul(vel.x, dt)),
            y: spec_add(b.position.y, spec_fmul(vel.y, dt)),
        },
        velocity: vel,
        acceleration: V2 { x: 0, y: 0 },
        mass: b.mass,
    }
}

impl Body {
    /// Create a new physics body, at rest.
    pub fn new(position: Vec2, mass: i64) -> (b: Body)
        requires
            v2_in_band(position@),
            1 <= mass <= LIM,
        ensures
            b@ == (BodyView {
                position: position@,
                velocity: V2 { x: 0, y: 0 },
                acceleration: V2 { x: 0, y: 0 },
                mass: mass as int,
            }),
            body_wf(b@),
    {
        Body {
            position,
            velocity: Vec2 { x: 0, y: 0 },
            acceleration: Vec2 { x: 0, y: 0 },
            mass,
        }
    }

    /// Apply a force to the body.
    pub fn apply_force(&mut self, force: Vec2)
        requires
            body_wf(old(self)@),
        ensures
            final(self)@ == body_apply_force(old(self)@, force@),
            body_wf(final(self)@),
    {
        self.acceleration.x = sat_add(self.acceleration.x, fdiv(force.x, self.mass));
        self.acceleration.y = sat_add(self.acceleration.y, fdiv(force.y, self.mass));
    }

    /// Clear all forces acting on the body, stopping it dead.
    pub fn clear_forces(&mut self)
        ensures
            final(self)@ == body_clear_forces(old(self)@),
    {
        self.velocity = Vec2 { x: 0, y: 0 };
        self.acceleration = Vec2 { x: 0, y: 0 };
    }

    /// Advance the body by one tick of duration `dt`.
    pub fn update(&mut self, dt: i64)
        requires
            body_wf(old(self)@),
        ensures
            final(self)@ == body_integrate(old(self)@, dt as int),
            body_wf(final(self)@),
    {
        self.velocity.x = sat_add(self.velocity.x, fmul(self.acceleration.x, dt));
        self.velocity.y = sat_add(self.velocity.y, fmul(self.acceleration.y, dt));
        self.position.x = sat_add(self.position.x, fmul(self.velocity.x, dt));
        self.position.y = sat_add(self.position.y, fmul(self.velocity.y, dt));
        self.acceleration = Vec2 { x: 0, y: 0 };
    }
}

/// Integrator law: a body at rest, given one force `f` and one tick `dt`,
/// ends with velocity `(f / mass) * dt` and moves by that velocity times
/// `dt` (all in saturating fixed-point arithmetic).
pub proof fn lemma_integrator(b: BodyView, f: V2, dt: int)
    requires
        body_wf(b),
        b.velocity == (V2 { x: 0, y: 0 }),
        b.acceleration == (V2 { x: 0, y: 0 }),
    ensures
        ({
            let after = body_integrate(body_apply_force(b, f), dt);
            &&& after.velocity.x == spec_fmul(spec_fdiv(f.x, b.mass), dt)
            &&& after.velocity.y == spec_fmul(spec_fdiv(f.y, b.mass), dt)
            &&& after.position.x == spec_add(b.position.x, spec_fmul(after.velocity.x, dt))
            &&& after.position.y == spec_add(b.position.y, spec_fmul(after.velocity.y, dt))
        }),
{
    let forced = body_apply_force(b, f);
    assert(forced.acceleration.x == spec_fdiv(f.x, b.mass));
    assert(forced.acceleration.y == spec_fdiv(f.y, b.mass));
}

/// Superposition law: two forces applied in the same tick accumulate the
/// same acceleration as their sum applied once, whenever both divisions by
/// the mass are exact and nothing saturates.
pub proof fn lemma_force_superposition(b: BodyView, f1: V2, f2: V2)
    requires
        body_wf(b),
        (f1.x * SCALE) % b.mass == 0,
        (f1.y * SCALE) % b.mass == 0,
        (f2.x * SCALE) % b.mass == 0,
        (f2.y * SCALE) % b.mass == 0,
        in_band(tdiv(f1.x * SCALE, b.mass)),
        in_band(tdiv(f1.y * SCALE, b.mass)),
        in_band(tdiv(f2.x * SCALE, b.mass)),
        in_band(tdiv(f2.y * SCALE, b.mass)),
        in_band(
            tdiv(f1.x * SCALE, b.mass) + tdiv(f2.x * SCALE, b.mass),
        ),
        in_band(
            tdiv(f1.y * SCALE, b.mass) + tdiv(f2.y * SCALE, b.mass),
        ),
        in_band(b.acceleration.x + tdiv(f1.x * SCALE, b.mass)),
        in_band(b.acceleration.y + tdiv(f1.y * SCALE, b.mass)),
        in_band(
            b.acceleration.x + tdiv(f1.x * SCALE, b.mass) + tdiv(
                f2.x * SCALE,
                b.mass,
            ),
        ),
        in_band(
            b.acceleration.y + tdiv(f1.y * SCALE, b.mass) + tdiv(
                f2.y * SCALE,
                b.mass,
            ),
        ),
    ensures
        body_apply_force(body_apply_force(b, f1), f2) == body_apply_force(
            b,
            V2 { x: f1.x + f2.x, y: f1.y + f2.y },
        ),
{
    lemma_tdiv_exact_add(f1.x * SCALE, f2.x * SCALE, b.mass);
    lemma_tdiv_exact_add(f1.y * SCALE, f2.y * SCALE, b.mass);
    assert((f1.x + f2.x) * SCALE == f1.x * SCALE + f2.x * SCALE) by (nonlinear_arith);
    assert((f1.y + f2.y) * SCALE == f1.y * SCALE + f2.y * SCALE) by (nonlinear_arith);
    assert(body_apply_force(body_apply_force(b, f1), f2) =~= body_apply_force(
        b,
        V2 { x: f1.x + f2.x, y: f1.y + f2.y },
    ));
}

/// Clearing forces freezes the body: integrating afterwards, with no new
/// force, moves nothing.
pub proof fn lemma_clear_forces_freezes(b: BodyView, dt: int)
    requires
        body_wf(b),
    ensures
        ({
            let after = body_integrate(body_clear_forces(b), dt);
            &&& after.position == b.position
            &&& after.velocity == (V2 { x: 0, y: 0 })
        }),
{
    let cleared = body_clear_forces(b);
    assert(spec_fmul(0, dt) == 0) by {
        assert(tdiv(0 * dt, SCALE as int) == 0) by (nonlinear_arith);
    }
    let after = body_integrate(cleared, dt);
    assert(after.velocity =~= (V2 { x: 0, y: 0 }));
    assert(after.position =~= b.position);
}

/// Convenience methods for all structs containing a physics body.
pub trait Bodied {
    /// The mathematical value of the owned body.
    spec fn bodyv(&self) -> BodyView;

    /// Get a reference to the body.
    fn body(&self) -> (b: &Body)
        ensures
            b@ == self.bodyv(),
    ;

    /// Get a mutable reference to the body.
    fn body_mut(&mut self) -> (b: &mut Body)
        ensures
            b@ == old(self).bodyv(),
            final(self).bodyv() == final(b)@,
    ;

    /// Apply a force to the body.
    fn apply_force(&mut self, force: Vec2)
        requires
            body_wf(old(self).bodyv()),
        ensures
            final(self).bodyv() == body_apply_force(old(self).bodyv(), force@),
    ;

    /// Clear all forces acting on the body.
    fn clear_forces(&mut self)
        ensures
            final(self).bodyv() == body_clear_forces(old(self).bodyv()),
    ;

    /// Advance the body by one tick of duration `dt`.
    fn update(&mut self, dt: i64)
        requires
            body_wf(old(self).bodyv()),
        ensures
            final(self).bodyv() == body_integrate(old(self).bodyv(), dt as int),
    ;

    /// Get the position of the body.
    fn position(&self) -> (p: Vec2)
        ensures
            p@ == self.bodyv().position,
    ;

    /// Get the velocity of the body.
    fn velocity(&self) -> (v: Vec2)
        ensures
            v@ == self.bodyv().velocity,
    ;

    /// Get the mass of the body.
    fn mass(&self) -> (m: i64)
        ensures
            m == self.bodyv().mass,
    ;
}

/// Identifier for game items: an index into the world's item collection.
#[derive(Clone, Copy, Debug, PartialEq, Eq, Structural)]
pub struct ItemId(pub usize);

/// The Jetman is the object manipulated by the player.
pub struct Jetman {
    /// The Jetman's physics body.
    pub body: Body,
    /// The orientation of the jet pod, in fixed-point radians.
    pub heading: i64,
    /// The rest length of the tractor beam.
    pub link_distance: i64,
    /// The item attached to the jet pod by the tractor beam, if any.
    pub linked_item: Option<ItemId>,
    /// Ticks for which the thrust flame is still drawn.
    pub thrusting: i64,
}

/// The mathematical value of a `Jetman`.
#[verifier::ext_equal]
pub struct JetmanView {
    pub body: BodyView,
    pub heading: int,
    pub link_distance: int,
    pub linked_item: Option<int>,
    pub thrusting: int,
}

impl View for Jetman {
    type V = JetmanView;

    open spec fn view(&self) -> JetmanView {
        JetmanView {
            body: self.body@,
            heading: self.heading as int,
            link_distance: self.link_distance as int,
            linked_item: match self.linked_item {
                Some(id) => Some(id.0 as int),
                None => None,
            },
            thrusting: self.thrusting as int,
        }
    }
}

/// The Jetman's scalars are representable.
pub open spec fn jetman_wf(j: JetmanView) -> bool {
    &&& body_wf(j.body)
    &&& in_band(j.heading)
    &&& 0 <= j.link_distance <= LIM
    &&& in_band(j.thrusting)
}

/// The thrust force vector for a heading.
pub open spec fn thrust_of(heading: int) -> V2 {
    V2 {
        x: spec_fmul(spec_cos(heading), THRUST_FORCE as int),
        y: spec_fmul(spec_sin(heading), THRUST_FORCE as int),
    }
}

/// Thrust: a force along the heading, and the flame timer armed.
pub open spec fn jetman_apply_thrust(j: JetmanView) -> JetmanView {
    JetmanView {
        body: body_apply_force(j.body, thrust_of(j.heading)),
        thrusting: FLAME_TICKS as int,
        ..j
    }
}

/// One tick: integrate the body and let the flame timer run down.
pub open spec fn jetman_integrate(j: JetmanView, dt: int) -> JetmanView {
    JetmanView {
        body: body_integrate(j.body, dt),
        thrusting: spec_sub(j.thrusting, 1),
        ..j
    }
}

impl Jetman {
    /// Create a new Jetman at the start position, unlinked and at rest.
    pub fn new() -> (j: Jetman)
        ensures
            j@ == (JetmanView {
                body: BodyView {
                    position: V2 { x: JETMAN_START_X as int, y: JETMAN_START_Y as int },
                    velocity: V2 { x: 0, y: 0 },
                    acceleration: V2 { x: 0, y: 0 },
                    mass: JETMAN_MASS as int,
                },
                heading: 0,
                link_distance: LINK_DISTANCE as int,
                linked_item: None,
                thrusting: 0,
            }),
            jetman_wf(j@),
    {
        Jetman {
            body: Body::new(Vec2 { x: JETMAN_START_X, y: JETMAN_START_Y }, JETMAN_MASS),
            heading: 0,
            link_distance: LINK_DISTANCE,
            linked_item: None,
            thrusting: 0,
        }
    }

    /// Apply thrust: a force in the direction of the jet pod's heading.
    pub fn apply_thrust(&mut self)
        requires
            jetman_wf(old(self)@),
        ensures
            final(self)@ == jetman_apply_thrust(old(self)@),
            jetman_wf(final(self)@),
    {
        let dir = vector_from_angle(self.heading);
        let thrust = Vec2 { x: fmul(dir.x, THRUST_FORCE), y: fmul(dir.y, THRUST_FORCE) };
        self.body.apply_force(thrust);
        self.thrusting = FLAME_TICKS;
    }

    /// Rotate the jet pod to the left by a fixed amount.
    pub fn turn_left(&mut self)
        ensures
            final(self)@ == (JetmanView {
                heading: spec_sub(old(self)@.heading, TURN_STEP as int),
                ..old(self)@
            }),
    {
        self.heading = sat_sub(self.heading, TURN_STEP);
    }

    /// Rotate the jet pod to the right by a fixed amount.
    pub fn turn_right(&mut self)
        ensures
            final(self)@ == (JetmanView {
                heading: spec_add(old(self)@.heading, TURN_STEP as int),
                ..old(self)@
            }),
    {
        self.heading = sat_add(self.heading, TURN_STEP);
    }

    /// Advance the jet pod by one tick.
    pub fn update(&mut self, dt: i64)
        requires
            jetman_wf(old(self)@),
        ensures
            final(self)@ == jetman_integrate(old(self)@, dt as int),
            jetman_wf(final(self)@),
    {
        self.body.update(dt);
        self.thrusting = sat_sub(self.thrusting, 1);
    }
}

impl Bodied for Jetman {
    open spec fn bodyv(&self) -> BodyView {
        self.body@
    }

    fn body(&self) -> (b: &Body) {
        &self.body
    }

    fn body_mut(&mut self) -> (b: &mut Body) {
        &mut self.body
    }

    fn apply_force(&mut self, force: Vec2) {
        self.body.apply_force(force);
    }

    fn clear_forces(&mut self) {
        self.body.clear_forces();
    }

    fn update(&mut self, dt: i64) {
        self.body.update(dt);
    }

    fn position(&self) -> (p: Vec2) {
        self.body.position
    }

    fn velocity(&self) -> (v: Vec2) {
        self.body.velocity
    }

    fn mass(&self) -> (m: i64) {
        self.body.mass
    }
}

impl Default for Jetman {
    /// Create a Jetman instance with default values.
    fn default() -> (j: Jetman)
        ensures
            j@ == (JetmanView {
                body: BodyView {
                    position: V2 { x: JETMAN_START_X as int, y: JETMAN_START_Y as int },
                    velocity: V2 { x: 0, y: 0 },
                    acceleration: V2 { x: 0, y: 0 },
                    mass: JETMAN_MASS as int,
                },
                heading: 0,
                link_distance: LINK_DISTANCE as int,
                linked_item: None,
                thrusting: 0,
            }),
    {
        Jetman::new()
    }
}

/// An item in the game world that the Jetman can interact with.
pub struct Item {
    /// The item's physics body.
    pub body: Body,
}

/// The mathematical value of an `Item`.
#[verifier::ext_equal]
pub struct ItemView {
    pub body: BodyView,
}

impl View for Item {
    type V = ItemView;

    open spec fn view(&self) -> ItemView {
        ItemView { body: self.body@ }
    }
}

impl Item {
    /// Create a new item at rest at the given position.
    pub fn new(x: i64, y: i64) -> (it: Item)
        requires
            in_band(x as int),
            in_band(y as int),
        ensures
            it@ == (ItemView {
                body: BodyView {
                    position: V2 { x: x as int, y: y as int },
                    velocity: V2 { x: 0, y: 0 },
                    acceleration: V2 { x: 0, y: 0 },
                    mass: ITEM_MASS as int,
                },
            }),
            body_wf(it@.body),
    {
        Item { body: Body::new(Vec2 { x, y }, ITEM_MASS) }
    }
}

impl Bodied for Item {
    open spec fn bodyv(&self) -> BodyView {
        self.body@
    }

    fn body(&self) -> (b: &Body) {
        &self.body
    }

    fn body_mut(&mut self) -> (b: &mut Body) {
        &mut self.body
    }

    fn apply_force(&mut self, force: Vec2) {
        self.body.apply_force(force);
    }

    fn clear_forces(&mut self) {
        self.body.clear_forces();
    }

    fn update(&mut self, dt: i64) {
        self.body.update(dt);
    }

    fn position(&self) -> (p: Vec2) {
        self.body.position
    }

    fn velocity(&self) -> (v: Vec2) {
        self.body.velocity
    }

    fn mass(&self) -> (m: i64) {
        self.body.mass
    }
}

/// A teleporter that lets the Jetman deliver items.
pub struct Teleporter {
    /// The teleporter's position.
    pub position: Vec2,
}

impl View for Teleporter {
    type V = V2;

    open spec fn view(&self) -> V2 {
        self.position@
    }
}

impl Teleporter {
    /// Create a new teleporter.
    pub fn new(position: Vec2) -> (t: Teleporter)
        ensures
            t@ == position@,
    {
        Teleporter { position }
    }
}

} // verus!
