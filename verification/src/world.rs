//! The game world and its per-tick update pipeline.
//!
//! Each tick runs, in order: player control and gravity, teleport
//! delivery, auto-linking, severing, the link constraint solve,
//! integration, and terrain collision resolution. Every stage has a
//! functional model, and `update` is proved equal to their composition.

use vstd::prelude::*;

use crate::fixed::{
    dist_fp, div128, div128_any, fdiv, fmul, sat_add, sat_sub, spec_add, spec_clamp, spec_dist,
    spec_fdiv, spec_fmul, spec_sub, tdiv, v2_in_band, Vec2, LIM, SCALE, V2,
};
use crate::physics::{
    body_apply_force, body_clear_forces, body_integrate, body_wf, jetman_apply_thrust,
    jetman_integrate, jetman_wf, BodyView, Item, ItemId, ItemView, Jetman, JetmanView, Teleporter,
    ITEM_MASS, JETMAN_MASS, JETMAN_START_X, JETMAN_START_Y, LINK_DISTANCE, TURN_STEP,
};
use crate::terrain::{check_collision, collide_shape, shape_wf, ShapeView, Terrain};
use crate::ui::InputState;

verus! {

/// The constant downward force on the Jetman.
pub const GRAVITY_X: i64 = 0;

/// The constant downward force on the Jetman.
pub const GRAVITY_Y: i64 = 10;

/// Items this close to a teleporter are delivered.
pub const TELEPORT_RADIUS: i64 = 10_000;

/// Where the first item spawns.
pub const ITEM_START_X: i64 = 100_000;

/// Where the first item spawns.
pub const ITEM_START_Y: i64 = 200_000;

/// Where the teleporter stands.
pub const TELEPORT_X: i64 = 400_000;

/// Where the teleporter stands.
pub const TELEPORT_Y: i64 = 300_000;

/// Height of the flat reference line the ground is carved from.
pub const GROUND_BASE_Y: i64 = 500_000;

/// Range of the random height jitter of the generated ground.
pub const GROUND_JITTER: i64 = 80_000;

/// Number of ground segments a new world generates.
pub const GROUND_SEGMENTS: usize = 12;

/// Multiplier of the linear-congruential ground generator.
pub const RNG_MUL: u64 = 6364136223846793005;

/// Increment of the linear-congruential ground generator.
pub const RNG_INC: u64 = 1442695040888963407;

/// The mathematical value of a `World`.
#[verifier::ext_equal]
pub struct WorldView {
    pub jetman: JetmanView,
    pub items: Seq<ItemView>,
    pub teleports: Seq<V2>,
    pub gravity: V2,
    pub terrain: Seq<ShapeView>,
}

/// The game world containing physics bodies and terrain.
pub struct World {
    pub jetman: Jetman,
    items: Vec<Item>,
    teleports: Vec<Teleporter>,
    gravity: Vec2,
    terrain: Vec<Terrain>,
}

impl View for World {
    type V = WorldView;

    closed spec fn view(&self) -> WorldView {
        WorldView {
            jetman: self.jetman@,
            items: self.items@.map_values(|it: Item| it@),
            teleports: self.teleports@.map_values(|t: Teleporter| t@),
            gravity: self.gravity@,
            terrain: self.terrain@.map_values(|t: Terrain| t@),
        }
    }
}

/// Every part of the world is representable.
pub open spec fn world_wf(w: WorldView) -> bool {
    &&& jetman_wf(w.jetman)
    &&& forall|i: int| 0 <= i < w.items.len() ==> body_wf(#[trigger] w.items[i].body)
    &&& forall|i: int| 0 <= i < w.teleports.len() ==> v2_in_band(#[trigger] w.teleports[i])
    &&& v2_in_band(w.gravity)
    &&& forall|i: int| 0 <= i < w.terrain.len() ==> shape_wf(#[trigger] w.terrain[i])
}

/// Stage one: thrust and turn inputs act on the Jetman, then gravity.
pub open spec fn control_stage(w: WorldView, input: InputState) -> WorldView {
    let j0 = w.jetman;
    let j1 = if input.thrust {
        jetman_apply_thrust(j0)
    } else {
        j0
    };
    let j2 = if input.turn_left {
        JetmanView { heading: spec_sub(j1.heading, TURN_STEP as int), ..j1 }
    } else {
        j1
    };
    let j3 = if input.turn_right {
        JetmanView { heading: spec_add(j2.heading, TURN_STEP as int), ..j2 }
    } else {
        j2
    };
    let j4 = JetmanView { body: body_apply_force(j3.body, w.gravity), ..j3 };
    WorldView { jetman: j4, ..w }
}

/// Whether the point lies within the trigger radius of some teleporter.
pub open spec fn near_some_teleport(p: V2, teleports: Seq<V2>) -> bool {
    exists|k: int|
        0 <= k < teleports.len() && spec_dist(p.x, p.y, teleports[k].x, teleports[k].y)
            < TELEPORT_RADIUS
}

/// Stage two: a linked item sitting on a teleporter is delivered — it
/// leaves the world and the link is cleared. A link to a vanished index
/// is treated as no link.
pub open spec fn teleport_stage(w: WorldView) -> WorldView {
    match w.jetman.linked_item {
        Some(id) => {
            if 0 <= id < w.items.len() && near_some_teleport(
                w.items[id].body.position,
                w.teleports,
            ) {
                WorldView {
                    jetman: JetmanView { linked_item: None, ..w.jetman },
                    items: w.items.remove(id),
                    ..w
                }
            } else {
                w
            }
        },
        None => w,
    }
}

/// Whether item `i` is close enough to the Jetman to be linked.
pub open spec fn link_candidate(items: Seq<ItemView>, jpos: V2, range: int, i: int) -> bool {
    spec_dist(items[i].body.position.x, items[i].body.position.y, jpos.x, jpos.y) < range
}

/// The link after scanning the first `n` items in order: the last one in
/// range wins; with none in range, the previous link is kept.
pub open spec fn link_scan(
    items: Seq<ItemView>,
    jpos: V2,
    range: int,
    cur: Option<int>,
    n: int,
) -> Option<int>
    decreases n,
{
    if n <= 0 {
        cur
    } else if link_candidate(items, jpos, range, n - 1) {
        Some(n - 1)
    } else {
        link_scan(items, jpos, range, cur, n - 1)
    }
}

/// Stage three: auto-link every item within range, last write wins.
pub open spec fn autolink_stage(w: WorldView) -> WorldView {
    WorldView {
        jetman: JetmanView {
            linked_item: link_scan(
                w.items,
                w.jetman.body.position,
                w.jetman.link_distance,
                w.jetman.linked_item,
                w.items.len() as int,
            ),
            ..w.jetman
        },
        ..w
    }
}

/// Stage four: on a sever input, drop the link and stop the former
/// linked item dead.
pub open spec fn sever_stage(w: WorldView, sever: bool) -> WorldView {
    match w.jetman.linked_item {
        Some(id) => {
            if sever {
                let items2 = if 0 <= id < w.items.len() {
                    w.items.update(id, ItemView { body: body_clear_forces(w.items[id].body) })
                } else {
                    w.items
                };
                WorldView {
                    jetman: JetmanView { linked_item: None, ..w.jetman },
                    items: items2,
                    ..w
                }
            } else {
                w
            }
        },
        None => w,
    }
}

/// Stage five: one position-based constraint solve of the tractor beam,
/// distributing the distance error between the two bodies inversely to
/// their masses, with a matching correction of the axial velocity. A
/// coinciding pair (distance zero) is left untouched.
pub open spec fn constraint_stage(w: WorldView) -> WorldView {
    match w.jetman.linked_item {
        Some(id) => {
            if 0 <= id < w.items.len() {
                let jb = w.jetman.body;
                let ib = w.items[id].body;
                let dx = ib.position.x - jb.position.x;
                let dy = ib.position.y - jb.position.y;
                let dist = spec_dist(jb.position.x, jb.position.y, ib.position.x, ib.position.y);
                if dist != 0 {
                    let dirx = spec_fdiv(dx, dist);
                    let diry = spec_fdiv(dy, dist);
                    let err = dist - w.jetman.link_distance;
                    let corrx = spec_fmul(dirx, err);
                    let corry = spec_fmul(diry, err);
                    let total = jb.mass + ib.mass;
                    let jr = spec_fdiv(ib.mass, total);
                    let ir = spec_fdiv(jb.mass, total);
                    let relx = ib.velocity.x - jb.velocity.x;
                    let rely = ib.velocity.y - jb.velocity.y;
                    let proj = spec_clamp(tdiv(relx * dirx + rely * diry, SCALE as int));
                    let vcx = spec_fmul(dirx, proj);
                    let vcy = spec_fmul(diry, proj);
                    let njb = BodyView {
                        position: V2 {
                            x: spec_add(jb.position.x, spec_fmul(corrx, jr)),
                            y: spec_add(jb.position.y, spec_fmul(corry, jr)),
                        },
                        velocity: V2 {
                            x: spec_add(jb.velocity.x, spec_fmul(vcx, jr)),
                            y: spec_add(jb.velocity.y, spec_fmul(vcy, jr)),
                        },
                        ..jb
                    };
                    let nib = BodyView {
                        position: V2 {
                            x: spec_sub(ib.position.x, spec_fmul(corrx, ir)),
                            y: spec_sub(ib.position.y, spec_fmul(corry, ir)),
                        },
                        velocity: V2 {
                            x: spec_sub(ib.velocity.x, spec_fmul(vcx, ir)),
                            y: spec_sub(ib.velocity.y, spec_fmul(vcy, ir)),
                        },
                        ..ib
                    };
                    WorldView {
                        jetman: JetmanView { body: njb, ..w.jetman },
                        items: w.items.update(id, ItemView { body: nib }),
                        ..w
                    }
                } else {
                    w
                }
            } else {
                w
            }
        },
        None => w,
    }
}

/// Stage six: integrate the Jetman and every item by `dt`.
pub open spec fn integrate_stage(w: WorldView, dt: int) -> WorldView {
    WorldView {
        jetman: jetman_integrate(w.jetman, dt),
        items: w.items.map_values(|it: ItemView| ItemView { body: body_integrate(it.body, dt) }),
        ..w
    }
}

/// A body corrected by the first `n` terrain shapes, in order.
pub open spec fn collide_upto(b: BodyView, ts: Seq<ShapeView>, n: int) -> BodyView
    decreases n,
{
    if n <= 0 {
        b
    } else {
        collide_shape(collide_upto(b, ts, n - 1), ts[n - 1])
    }
}

/// A body corrected by every terrain shape, in order.
pub open spec fn collide_all(b: BodyView, ts: Seq<ShapeView>) -> BodyView {
    collide_upto(b, ts, ts.len() as int)
}

/// Stage seven: resolve terrain collisions for every body.
pub open spec fn collide_stage(w: WorldView) -> WorldView {
    WorldView {
        jetman: JetmanView { body: collide_all(w.jetman.body, w.terrain), ..w.jetman },
        items: w.items.map_values(
            |it: ItemView| ItemView { body: collide_all(it.body, w.terrain) },
        ),
        ..w
    }
}

/// The next state of the linear-congruential ground generator.
#[verifier::opaque]
pub open spec fn rng_next(s: int) -> int {
    (s * (RNG_MUL as int) + (RNG_INC as int)) % 0x1_0000_0000_0000_0000
}

/// The generator state after `k` steps from `seed`.
#[verifier::opaque]
pub open spec fn rng_state(seed: int, k: nat) -> int
    decreases k,
{
    if k == 0 {
        seed
    } else {
        rng_next(rng_state(seed, (k - 1) as nat))
    }
}

/// The height jitter of ground sample `i`, drawn from the generator's
/// high bits.
#[verifier::opaque]
pub open spec fn jitter_at(seed: int, i: nat, jitter: int) -> int {
    (rng_state(seed, i + 1) / 0x2_0000_0000) % jitter
}

/// The generated ground ribbon: a jittered top edge left to right,
/// closed by a bottom edge at `height` running back right to left.
#[verifier::opaque]
pub open spec fn ground_poly(width: int, height: int, segments: int, jitter: int, seed: int)
    -> Seq<V2> {
    Seq::new(
        (2 * (segments + 1)) as nat,
        |k: int|
            if k <= segments {
                V2 {
                    x: tdiv(k * width, segments),
                    y: GROUND_BASE_Y - jitter_at(seed, k as nat, jitter),
                }
            } else {
                V2 { x: tdiv((2 * segments + 1 - k) * width, segments), y: height }
            },
    )
}

/// Advance the ground generator by one step.
fn next_rng(s: u64) -> (r: u64)
    ensures
        r as int == rng_next(s as int),
{
    proof {
        reveal(rng_next);
        assert(0 <= (s as int) * (RNG_MUL as int) + (RNG_INC as int) < u128::MAX)
            by (nonlinear_arith)
            requires
                0 <= (s as int) < 0x1_0000_0000_0000_0000,
        ;
    }
    let wide: u128 = s as u128 * RNG_MUL as u128 + RNG_INC as u128;
    (wide % 0x1_0000_0000_0000_0000u128) as u64
}

/// The jittered top edge of the ground, left to right.
#[verifier::loop_isolation(false)]
fn ground_top(width: i64, segments: usize, jitter: i64, seed: u64) -> (top: Vec<Vec2>)
    requires
        0 <= width <= LIM,
        1 <= segments <= 10_000,
        1 <= jitter <= GROUND_BASE_Y,
    ensures
        top@.len() == segments + 1,
        forall|k: int|
            0 <= k < top@.len() ==> #[trigger] top@[k]@ == (V2 {
                x: tdiv(k * (width as int), segments as int),
                y: (GROUND_BASE_Y as int) - jitter_at(seed as int, k as nat, jitter as int),
            }),
        forall|k: int| 0 <= k < top@.len() ==> v2_in_band(#[trigger] top@[k]@),
{
    let mut top: Vec<Vec2> = Vec::new();
    let mut state: u64 = seed;
    proof {
        assert(seed as int == rng_state(seed as int, 0)) by {
            reveal(rng_state);
        }
    }
    let mut i: usize = 0;
    while i <= segments
        invariant
            0 <= i <= segments + 1,
            top@.len() == i,
            state as int == rng_state(seed as int, i as nat),
            forall|k: int|
                0 <= k < i ==> #[trigger] top@[k]@ == (V2 {
                    x: tdiv(k * (width as int), segments as int),
                    y: (GROUND_BASE_Y as int) - jitter_at(seed as int, k as nat, jitter as int),
                }),
            forall|k: int| 0 <= k < i ==> v2_in_band(#[trigger] top@[k]@),
        decreases segments + 1 - i,
    {
        proof {
            assert((i as int) * (width as int) <= (segments as int) * (width as int) && 0 <= (i
                as int) * (width as int) && (i as int) * (width as int) <= 10_000_000_000_000_000)
                by (nonlinear_arith)
                requires
                    0 <= i as int <= segments as int,
                    segments as int <= 10_000,
                    0 <= width as int <= LIM as int,
            ;
            crate::fixed::lemma_tdiv_abs_bound(
                (i as int) * (width as int),
                segments as int,
                width as int,
            );
        }
        let x = div128(i as i128 * width as i128, segments as i128) as i64;
        state = next_rng(state);
        proof {
            assert(state as int == rng_state(seed as int, (i + 1) as nat)) by {
                reveal(rng_state);
            }
        }
        let jit = ((state / 0x2_0000_0000) % jitter as u64) as i64;
        proof {
            assert(jit as int == jitter_at(seed as int, i as nat, jitter as int)) by {
                reveal(jitter_at);
            }
        }
        top.push(Vec2 { x, y: GROUND_BASE_Y - jit });
        i = i + 1;
    }
    top
}

/// Generate the ground polygon: evenly spaced top samples with seeded
/// random height jitter, closed along the bottom of the screen.
#[verifier::loop_isolation(false)]
pub fn generate_ground_poly(width: i64, height: i64, segments: usize, jitter: i64, seed: u64)
    -> (poly: Vec<Vec2>)
    requires
        0 <= width <= LIM,
        0 <= height <= LIM,
        1 <= segments <= 10_000,
        1 <= jitter <= GROUND_BASE_Y,
    ensures
        poly@.map_values(|p: Vec2| p@) == ground_poly(
            width as int,
            height as int,
            segments as int,
            jitter as int,
            seed as int,
        ),
        poly@.len() == 2 * (segments + 1),
        forall|i: int| 0 <= i < poly@.len() ==> v2_in_band(#[trigger] poly@[i]@),
{
    let mut poly = ground_top(width, segments, jitter, seed);
    let mut j: usize = 0;
    while j <= segments
        invariant
            0 <= j <= segments + 1,
            poly@.len() == segments + 1 + j,
            forall|k: int|
                0 <= k < segments + 1 ==> #[trigger] poly@[k]@ == (V2 {
                    x: tdiv(k * (width as int), segments as int),
                    y: (GROUND_BASE_Y as int) - jitter_at(seed as int, k as nat, jitter as int),
                }),
            forall|k: int|
                segments + 1 <= k < poly@.len() ==> #[trigger] poly@[k]@ == (V2 {
                    x: tdiv(
                        (2 * (segments as int) + 1 - k) * (width as int),
                        segments as int,
                    ),
                    y: height as int,
                }),
            forall|k: int| 0 <= k < poly@.len() ==> v2_in_band(#[trigger] poly@[k]@),
        decreases segments + 1 - j,
    {
        let back = segments - j;
        proof {
            assert((back as int) * (width as int) <= (segments as int) * (width as int) && 0 <= (
            back as int) * (width as int) && (back as int) * (width as int)
                <= 10_000_000_000_000_000) by (nonlinear_arith)
                requires
                    0 <= back as int <= segments as int,
                    segments as int <= 10_000,
                    0 <= width as int <= LIM as int,
            ;
            crate::fixed::lemma_tdiv_abs_bound(
                (back as int) * (width as int),
                segments as int,
                width as int,
            );
            assert(2 * (segments as int) + 1 - (segments + 1 + j) == back as int);
        }
        let x = div128(back as i128 * width as i128, segments as i128) as i64;
        poly.push(Vec2 { x, y: height });
        j = j + 1;
    }
    proof {
        let gp = ground_poly(
            width as int,
            height as int,
            segments as int,
            jitter as int,
            seed as int,
        );
        reveal(ground_poly);
        assert(poly@.map_values(|p: Vec2| p@) =~= gp);
    }
    poly
}

/// The world a new session starts with: the Jetman at rest, one item,
/// one teleporter, gravity, and a generated ground polygon.
pub open spec fn initial_world(width: int, height: int, seed: int) -> WorldView {
    WorldView {
        jetman: JetmanView {
            body: BodyView {
                position: V2 { x: JETMAN_START_X as int, y: JETMAN_START_Y as int },
                velocity: V2 { x: 0, y: 0 },
                acceleration: V2 { x: 0, y: 0 },
                mass: JETMAN_MASS as int,
            },
            heading: 0,
            link_distance: LINK_DISTANCE as int,
            linked_item: None,
            thrusting: 0,
        },
        items: seq![
            ItemView {
                body: BodyView {
                    position: V2 { x: ITEM_START_X as int, y: ITEM_START_Y as int },
                    velocity: V2 { x: 0, y: 0 },
                    acceleration: V2 { x: 0, y: 0 },
                    mass: ITEM_MASS as int,
                },
            },
        ],
        teleports: seq![V2 { x: TELEPORT_X as int, y: TELEPORT_Y as int }],
        gravity: V2 { x: GRAVITY_X as int, y: GRAVITY_Y as int },
        terrain: seq![
            ShapeView::Polygon(
                ground_poly(width, height, GROUND_SEGMENTS as int, GROUND_JITTER as int, seed),
            ),
        ],
    }
}

/// Mapping a view over a sequence commutes with removing an element.
proof fn lemma_map_values_remove<A, B>(s: Seq<A>, f: spec_fn(A) -> B, i: int)
    requires
        0 <= i < s.len(),
    ensures
        s.remove(i).map_values(f) =~= s.map_values(f).remove(i),
{
    assert forall|k: int|
        0 <= k < s.remove(i).map_values(f).len() implies s.remove(i).map_values(f)[k] == s
        .map_values(f).remove(i)[k] by {
        if k < i {
            assert(s.remove(i)[k] == s[k]);
        } else {
            assert(s.remove(i)[k] == s[k + 1]);
        }
    }
}

/// Mapping a view over a sequence commutes with updating an element.
proof fn lemma_map_values_update<A, B>(s: Seq<A>, f: spec_fn(A) -> B, i: int, v: A)
    requires
        0 <= i < s.len(),
    ensures
        s.update(i, v).map_values(f) =~= s.map_values(f).update(i, f(v)),
{
    assert forall|k: int|
        0 <= k < s.update(i, v).map_values(f).len() implies s.update(i, v).map_values(f)[k] == s
        .map_values(f).update(i, f(v))[k] by {
        if k == i {
            assert(s.update(i, v)[k] == v);
        } else {
            assert(s.update(i, v)[k] == s[k]);
        }
    }
}

impl World {
    /// Create a new game world, with the ground generated from `seed`
    /// for a screen of the given size.
    pub fn new(width: i64, height: i64, seed: u64) -> (w: World)
        requires
            0 <= width <= LIM,
            0 <= height <= LIM,
        ensures
            w@ == initial_world(width as int, height as int, seed as int),
            world_wf(w@),
    {
        let ground = generate_ground_poly(width, height, GROUND_SEGMENTS, GROUND_JITTER, seed);
        let terrain: Vec<Terrain> = vec![Terrain::polygon(ground)];
        let w = World {
            jetman: Jetman::new(),
            items: vec![Item::new(ITEM_START_X, ITEM_START_Y)],
            teleports: vec![Teleporter::new(Vec2 { x: TELEPORT_X, y: TELEPORT_Y })],
            gravity: Vec2 { x: GRAVITY_X, y: GRAVITY_Y },
            terrain,
        };
        proof {
            assert(w@ =~= initial_world(width as int, height as int, seed as int));
        }
        w
    }

    /// Assemble a world from its parts.
    pub fn from_parts(
        jetman: Jetman,
        items: Vec<Item>,
        teleports: Vec<Teleporter>,
        gravity: Vec2,
        terrain: Vec<Terrain>,
    ) -> (w: World)
        ensures
            w@ == (WorldView {
                jetman: jetman@,
                items: items@.map_values(|it: Item| it@),
                teleports: teleports@.map_values(|t: Teleporter| t@),
                gravity: gravity@,
                terrain: terrain@.map_values(|t: Terrain| t@),
            }),
    {
        World { jetman, items, teleports, gravity, terrain }
    }

    /// The Jetman's current position.
    pub fn jetman_position(&self) -> (p: Vec2)
        ensures
            p@ == self@.jetman.body.position,
    {
        self.jetman.body.position
    }

    /// How many items are still in the world.
    pub fn item_count(&self) -> (n: usize)
        ensures
            n == self@.items.len(),
    {
        self.items.len()
    }

    /// The position of the item at `i`.
    pub fn item_position(&self, i: usize) -> (p: Vec2)
        requires
            i < self@.items.len(),
        ensures
            p@ == self@.items[i as int].body.position,
    {
        self.items[i].body.position
    }

    /// The velocity of the item at `i`.
    pub fn item_velocity(&self, i: usize) -> (v: Vec2)
        requires
            i < self@.items.len(),
        ensures
            v@ == self@.items[i as int].body.velocity,
    {
        self.items[i].body.velocity
    }

    /// How many teleporters the world holds.
    pub fn teleporter_count(&self) -> (n: usize)
        ensures
            n == self@.teleports.len(),
    {
        self.teleports.len()
    }

    /// The position of the teleporter at `i`.
    pub fn teleporter_position(&self, i: usize) -> (p: Vec2)
        requires
            i < self@.teleports.len(),
        ensures
            p@ == self@.teleports[i as int],
    {
        self.teleports[i].position
    }

    /// The terrain elements, for rendering.
    pub fn terrain(&self) -> (ts: &Vec<Terrain>)
        ensures
            ts@.map_values(|t: Terrain| t@) == self@.terrain,
    {
        &self.terrain
    }

    /// Player control, then gravity, acting on the Jetman.
    fn control_step(&mut self, input: &InputState)
        requires
            world_wf(old(self)@),
        ensures
            final(self)@ == control_stage(old(self)@, *input),
            world_wf(final(self)@),
    {
        if input.thrust {
            self.jetman.apply_thrust();
        }
        if input.turn_left {
            self.jetman.turn_left();
        }
        if input.turn_right {
            self.jetman.turn_right();
        }
        let g = self.gravity;
        self.jetman.body.apply_force(g);
        proof {
            assert(self@ =~= control_stage(old(self)@, *input));
        }
    }

    /// Deliver a linked item standing on a teleporter.
    #[verifier::loop_isolation(false)]
    fn teleport_step(&mut self)
        requires
            world_wf(old(self)@),
        ensures
            final(self)@ == teleport_stage(old(self)@),
            world_wf(final(self)@),
    {
        if let Some(item_id) = self.jetman.linked_item {
            let id = item_id.0;
            if id < self.items.len() {
                let item_pos = self.items[id].body.position;
                let mut teleporting = false;
                let n = self.teleports.len();
                for k in 0..n
                    invariant
                        teleporting == exists|t: int|
                            0 <= t < k && spec_dist(
                                item_pos@.x,
                                item_pos@.y,
                                self@.teleports[t].x,
                                self@.teleports[t].y,
                            ) < TELEPORT_RADIUS,
                {
                    proof {
                        assert(self@.teleports[k as int] == self.teleports@[k as int]@);
                        assert(v2_in_band(self@.teleports[k as int]));
                        assert(self@.items[id as int].body == self.items@[id as int]@.body);
                    }
                    let tp = self.teleports[k].position;
                    let d = dist_fp(item_pos.x, item_pos.y, tp.x, tp.y);
                    if d < TELEPORT_RADIUS {
                        teleporting = true;
                    }
                }
                if teleporting {
                    self.jetman.linked_item = None;
                    self.items.remove(id);
                    proof {
                        lemma_map_values_remove(old(self).items@, |it: Item| it@, id as int);
                        assert(self@ =~= teleport_stage(old(self)@));
                    }
                } else {
                    proof {
                        assert(self@ =~= teleport_stage(old(self)@));
                    }
                }
            }
        }
    }

    /// Auto-link every item within link range; the last one scanned wins.
    #[verifier::loop_isolation(false)]
    fn autolink_step(&mut self)
        requires
            world_wf(old(self)@),
        ensures
            final(self)@ == autolink_stage(old(self)@),
            world_wf(final(self)@),
    {
        let jetman_pos = self.jetman.body.position;
        let n = self.items.len();
        for id in 0..n
            invariant
                self.items == old(self).items,
                self.teleports == old(self).teleports,
                self.gravity == old(self).gravity,
                self.terrain == old(self).terrain,
                self.jetman.body == old(self).jetman.body,
                self.jetman.heading == old(self).jetman.heading,
                self.jetman.link_distance == old(self).jetman.link_distance,
                self.jetman.thrusting == old(self).jetman.thrusting,
                self@.jetman.linked_item == link_scan(
                    old(self)@.items,
                    jetman_pos@,
                    old(self)@.jetman.link_distance,
                    old(self)@.jetman.linked_item,
                    id as int,
                ),
        {
            proof {
                assert(self@.items[id as int].body == self.items@[id as int]@.body);
            }
            let ip = self.items[id].body.position;
            let d = dist_fp(ip.x, ip.y, jetman_pos.x, jetman_pos.y);
            if d < self.jetman.link_distance {
                self.jetman.linked_item = Some(ItemId(id));
            }
        }
        proof {
            assert(self@ =~= autolink_stage(old(self)@));
        }
    }

    /// On a sever input, drop the link and stop the former linked item.
    fn sever_step(&mut self, sever: bool)
        requires
            world_wf(old(self)@),
        ensures
            final(self)@ == sever_stage(old(self)@, sever),
            world_wf(final(self)@),
    {
        if sever {
            if let Some(item_id) = self.jetman.linked_item {
                self.jetman.linked_item = None;
                let id = item_id.0;
                if id < self.items.len() {
                    let mut b = self.items[id].body;
                    b.clear_forces();
                    let replaced = Item { body: b };
                    proof {
                        lemma_map_values_update(
                            old(self).items@,
                            |it: Item| it@,
                            id as int,
                            replaced,
                        );
                    }
                    self.items[id] = replaced;
                }
                proof {
                    assert(self@ =~= sever_stage(old(self)@, sever));
                }
            }
        }
    }
    /// Enforce the tractor-beam constraint between Jetman and the
    /// linked item: one mass-weighted position and velocity correction.
    fn constraint_step(&mut self)
        requires
            world_wf(old(self)@),
        ensures
            final(self)@ == constraint_stage(old(self)@),
            world_wf(final(self)@),
    {
        if let Some(item_id) = self.jetman.linked_item {
            let id = item_id.0;
            if id < self.items.len() {
                proof {
                    assert(self@.items[id as int].body == self.items@[id as int]@.body);
                }
                let jb = self.jetman.body;
                let ib = self.items[id].body;
                let dx = ib.position.x - jb.position.x;
                let dy = ib.position.y - jb.position.y;
                let dist = dist_fp(jb.position.x, jb.position.y, ib.position.x, ib.position.y);
                if dist != 0 {
                    let dirx = fdiv(dx, dist);
                    let diry = fdiv(dy, dist);
                    let err = dist - self.jetman.link_distance;
                    let corrx = fmul(dirx, err);
                    let corry = fmul(diry, err);
                    let total = jb.mass + ib.mass;
                    let jr = fdiv(ib.mass, total);
                    let ir = fdiv(jb.mass, total);
                    let relx = ib.velocity.x - jb.velocity.x;
                    let rely = ib.velocity.y - jb.velocity.y;
                    proof {
                        assert(-2 * (LIM as int) * (LIM as int) <= (relx as int) * (dirx as int)
                            <= 2 * (LIM as int) * (LIM as int) && -2 * (LIM as int) * (LIM
                            as int) <= (rely as int) * (diry as int) <= 2 * (LIM as int) * (LIM
                            as int)) by (nonlinear_arith)
                            requires
                                -2 * (LIM as int) <= relx as int <= 2 * (LIM as int),
                                -2 * (LIM as int) <= rely as int <= 2 * (LIM as int),
                                -(LIM as int) <= dirx as int <= LIM as int,
                                -(LIM as int) <= diry as int <= LIM as int,
                        ;
                    }
                    let dot: i128 = relx as i128 * dirx as i128 + rely as i128 * diry as i128;
                    let proj = crate::fixed::clamp64(div128_any(dot, SCALE as i128));
                    let vcx = fmul(dirx, proj);
                    let vcy = fmul(diry, proj);
                    let mut njb = jb;
                    njb.position.x = sat_add(jb.position.x, fmul(corrx, jr));
                    njb.position.y = sat_add(jb.position.y, fmul(corry, jr));
                    njb.velocity.x = sat_add(jb.velocity.x, fmul(vcx, jr));
                    njb.velocity.y = sat_add(jb.velocity.y, fmul(vcy, jr));
                    let mut nib = ib;
                    nib.position.x = sat_sub(ib.position.x, fmul(corrx, ir));
                    nib.position.y = sat_sub(ib.position.y, fmul(corry, ir));
                    nib.velocity.x = sat_sub(ib.velocity.x, fmul(vcx, ir));
                    nib.velocity.y = sat_sub(ib.velocity.y, fmul(vcy, ir));
                    self.jetman.body = njb;
                    let replaced = Item { body: nib };
                    proof {
                        lemma_map_values_update(
                            old(self).items@,
                            |it: Item| it@,
                            id as int,
                            replaced,
                        );
                    }
                    self.items[id] = replaced;
                    proof {
                        assert(self@ =~= constraint_stage(old(self)@));
                    }
                }
            }
        }
    }

    /// Integrate the Jetman and every item by `dt`.
    #[verifier::loop_isolation(false)]
    fn integrate_step(&mut self, dt: i64)
        requires
            world_wf(old(self)@),
        ensures
            final(self)@ == integrate_stage(old(self)@, dt as int),
            world_wf(final(self)@),
    {
        self.jetman.update(dt);
        let n = self.items.len();
        for i in 0..n
            invariant
                self.items@.len() == n,
                self.jetman@ == jetman_integrate(old(self)@.jetman, dt as int),
                self.teleports == old(self).teleports,
                self.gravity == old(self).gravity,
                self.terrain == old(self).terrain,
                forall|k: int|
                    0 <= k < i ==> self.items@[k]@ == (ItemView {
                        body: body_integrate(old(self)@.items[k].body, dt as int),
                    }),
                forall|k: int| i <= k < n ==> self.items@[k] == old(self).items@[k],
        {
            proof {
                assert(self.items@[i as int] == old(self).items@[i as int]);
                assert(body_wf(old(self)@.items[i as int].body));
            }
            let mut b = self.items[i].body;
            b.update(dt);
            self.items[i] = Item { body: b };
        }
        proof {
            assert(self@.items =~= integrate_stage(old(self)@, dt as int).items);
            assert(self@ =~= integrate_stage(old(self)@, dt as int));
        }
    }

    /// Resolve terrain collisions for the Jetman and every item.
    #[verifier::loop_isolation(false)]
    fn collide_step(&mut self)
        requires
            world_wf(old(self)@),
        ensures
            final(self)@ == collide_stage(old(self)@),
            world_wf(final(self)@),
    {
        let nt = self.terrain.len();
        for k in 0..nt
            invariant
                self.items == old(self).items,
                self.teleports == old(self).teleports,
                self.gravity == old(self).gravity,
                self.terrain == old(self).terrain,
                self.jetman.heading == old(self).jetman.heading,
                self.jetman.link_distance == old(self).jetman.link_distance,
                self.jetman.linked_item == old(self).jetman.linked_item,
                self.jetman.thrusting == old(self).jetman.thrusting,
                body_wf(self.jetman.body@),
                self.jetman.body@ == collide_upto(
                    old(self)@.jetman.body,
                    old(self)@.terrain,
                    k as int,
                ),
        {
            proof {
                assert(self@.terrain[k as int] == self.terrain@[k as int]@);
            }
            check_collision(&mut self.jetman.body, &self.terrain[k]);
        }
        let n = self.items.len();
        for i in 0..n
            invariant
                self.items@.len() == n,
                self.teleports == old(self).teleports,
                self.gravity == old(self).gravity,
                self.terrain == old(self).terrain,
                self.jetman.heading == old(self).jetman.heading,
                self.jetman.link_distance == old(self).jetman.link_distance,
                self.jetman.linked_item == old(self).jetman.linked_item,
                self.jetman.thrusting == old(self).jetman.thrusting,
                self.jetman.body@ == collide_all(old(self)@.jetman.body, old(self)@.terrain),
                body_wf(self.jetman.body@),
                forall|q: int|
                    0 <= q < i ==> self.items@[q]@ == (ItemView {
                        body: collide_all(old(self)@.items[q].body, old(self)@.terrain),
                    }),
                forall|q: int| 0 <= q < i ==> body_wf(#[trigger] self.items@[q]@.body),
                forall|q: int| i <= q < n ==> self.items@[q] == old(self).items@[q],
        {
            proof {
                assert(self.items@[i as int] == old(self).items@[i as int]);
                assert(body_wf(old(self)@.items[i as int].body));
            }
            let mut b = self.items[i].body;
            for k in 0..nt
                invariant
                    body_wf(b@),
                    b@ == collide_upto(old(self)@.items[i as int].body, old(self)@.terrain, k as int),
            {
                proof {
                    assert(self@.terrain[k as int] == self.terrain@[k as int]@);
                }
                check_collision(&mut b, &self.terrain[k]);
            }
            self.items[i] = Item { body: b };
        }
        proof {
            assert(self@.items =~= collide_stage(old(self)@).items);
            assert(self@ =~= collide_stage(old(self)@));
        }
    }

    /// Update the game world by one tick.
    pub fn update(&mut self, input: &InputState, dt: i64)
        requires
            world_wf(old(self)@),
        ensures
            final(self)@ == spec_update(old(self)@, *input, dt as int),
            world_wf(final(self)@),
    {
        self.control_step(input);
        self.teleport_step();
        self.autolink_step();
        self.sever_step(input.sever_link);
        self.constraint_step();
        self.integrate_step(dt);
        self.collide_step();
    }
}

impl Default for World {
    /// Create a game world instance using default values: an 800 by 600
    /// world-unit screen and a fixed ground seed.
    fn default() -> (w: World)
        ensures
            w@ == initial_world(800_000, 600_000, 0),
    {
        World::new(800_000, 600_000, 0)
    }
}

/// One full tick of the world.
pub open spec fn spec_update(w: WorldView, input: InputState, dt: int) -> WorldView {
    collide_stage(
        integrate_stage(
            constraint_stage(
                sever_stage(autolink_stage(teleport_stage(control_stage(w, input))),
                    input.sever_link),
            ),
            dt,
        ),
    )
}

/// Auto-link law (acquisition): if any scanned item lies within link
/// range, the scan ends linked to an item within range.
pub proof fn lemma_autolink_acquires(
    items: Seq<ItemView>,
    jpos: V2,
    range: int,
    cur: Option<int>,
    n: int,
    witness: int,
)
    requires
        0 <= witness < n,
        link_candidate(items, jpos, range, witness),
    ensures
        match link_scan(items, jpos, range, cur, n) {
            Some(j) => 0 <= j < n && link_candidate(items, jpos, range, j),
            None => false,
        },
    decreases n,
{
    if !link_candidate(items, jpos, range, n - 1) {
        lemma_autolink_acquires(items, jpos, range, cur, n - 1, witness);
    }
}

/// Auto-link law (stickiness): with no item in range, the scan keeps
/// whatever link there was — an item leaving range is not unlinked.
pub proof fn lemma_autolink_sticky(
    items: Seq<ItemView>,
    jpos: V2,
    range: int,
    cur: Option<int>,
    n: int,
)
    requires
        forall|i: int| 0 <= i < n ==> !link_candidate(items, jpos, range, i),
    ensures
        link_scan(items, jpos, range, cur, n) == cur,
    decreases n,
{
    if n > 0 {
        lemma_autolink_sticky(items, jpos, range, cur, n - 1);
    }
}

/// Sever law: a sever input on a linked tick clears the link and zeroes
/// the linked item's velocity and acceleration in the same tick, while
/// the item itself stays where it was.
pub proof fn lemma_sever(w: WorldView, id: int)
    requires
        w.jetman.linked_item == Some(id),
        0 <= id < w.items.len(),
    ensures
        ({
            let after = sever_stage(w, true);
            &&& after.jetman.linked_item is None
            &&& after.items[id].body.velocity == (V2 { x: 0, y: 0 })
            &&& after.items[id].body.acceleration == (V2 { x: 0, y: 0 })
            &&& after.items[id].body.position == w.items[id].body.position
            &&& after.items.len() == w.items.len()
        }),
{
}

/// Teleport delivery law: a linked item within the trigger radius of a
/// teleporter is removed from the live collection and the link cleared
/// in the same tick; the item count decreases by exactly one.
pub proof fn lemma_teleport_delivery(w: WorldView, id: int)
    requires
        w.jetman.linked_item == Some(id),
        0 <= id < w.items.len(),
        near_some_teleport(w.items[id].body.position, w.teleports),
    ensures
        teleport_stage(w).items.len() == w.items.len() - 1,
        teleport_stage(w).jetman.linked_item is None,
{
}

/// No stage after auto-linking ever creates or changes a link, so the
/// link at the end of a tick is what severing left of the scanned one.
proof fn lemma_late_stages_keep_link(w: WorldView, dt: int)
    ensures
        constraint_stage(w).jetman.linked_item == w.jetman.linked_item,
        integrate_stage(w, dt).jetman.linked_item == w.jetman.linked_item,
        collide_stage(w).jetman.linked_item == w.jetman.linked_item,
        constraint_stage(w).items.len() == w.items.len(),
        integrate_stage(w, dt).items.len() == w.items.len(),
        collide_stage(w).items.len() == w.items.len(),
{
}

/// Tick-level auto-link law: an unlinked Jetman with some item inside
/// link range ends the tick linked to an item inside range, provided no
/// sever input arrives. The early stages move no body, so range is
/// judged against the positions the tick began with.
pub proof fn lemma_update_acquires_link(w: WorldView, input: InputState, dt: int, witness: int)
    requires
        w.jetman.linked_item is None,
        !input.sever_link,
        0 <= witness < w.items.len(),
        link_candidate(w.items, w.jetman.body.position, w.jetman.link_distance, witness),
    ensures
        ({
            match spec_update(w, input, dt).jetman.linked_item {
                Some(j) => 0 <= j < w.items.len() && link_candidate(
                    w.items,
                    w.jetman.body.position,
                    w.jetman.link_distance,
                    j,
                ),
                None => false,
            }
        }),
{
    let w1 = control_stage(w, input);
    assert(w1.items == w.items);
    assert(w1.jetman.body.position == w.jetman.body.position);
    assert(w1.jetman.link_distance == w.jetman.link_distance);
    assert(w1.jetman.linked_item is None);
    let w2 = teleport_stage(w1);
    assert(w2 == w1);
    let w3 = autolink_stage(w2);
    lemma_autolink_acquires(
        w.items,
        w.jetman.body.position,
        w.jetman.link_distance,
        None,
        w.items.len() as int,
        witness,
    );
    let w4 = sever_stage(w3, input.sever_link);
    assert(w4 == w3);
    let w5 = constraint_stage(w4);
    lemma_late_stages_keep_link(w4, dt);
    lemma_late_stages_keep_link(w5, dt);
    lemma_late_stages_keep_link(integrate_stage(w5, dt), dt);
}

/// Tick-level sever law: a tick that carries the sever input always ends
/// with no link, whatever held at its start and whatever auto-linking
/// did earlier in the same tick.
pub proof fn lemma_update_severs(w: WorldView, input: InputState, dt: int)
    requires
        input.sever_link,
    ensures
        spec_update(w, input, dt).jetman.linked_item is None,
{
    let w3 = autolink_stage(teleport_stage(control_stage(w, input)));
    let w4 = sever_stage(w3, input.sever_link);
    assert(w4.jetman.linked_item is None);
    let w5 = constraint_stage(w4);
    lemma_late_stages_keep_link(w4, dt);
    lemma_late_stages_keep_link(w5, dt);
    lemma_late_stages_keep_link(integrate_stage(w5, dt), dt);
}

/// Tick-level delivery law: a tick that begins linked to an item within
/// a teleporter's trigger radius ends with exactly one item fewer.
pub proof fn lemma_update_delivers(w: WorldView, input: InputState, dt: int, id: int)
    requires
        w.jetman.linked_item == Some(id),
        0 <= id < w.items.len(),
        near_some_teleport(w.items[id].body.position, w.teleports),
    ensures
        spec_update(w, input, dt).items.len() == w.items.len() - 1,
{
    let w1 = control_stage(w, input);
    assert(w1.items == w.items);
    assert(w1.jetman.linked_item == Some(id));
    let w2 = teleport_stage(w1);
    assert(w2.items.len() == w.items.len() - 1);
    let w3 = autolink_stage(w2);
    assert(w3.items == w2.items);
    let w4 = sever_stage(w3, input.sever_link);
    assert(w4.items.len() == w2.items.len());
    let w5 = constraint_stage(w4);
    lemma_late_stages_keep_link(w4, dt);
    lemma_late_stages_keep_link(w5, dt);
    lemma_late_stages_keep_link(integrate_stage(w5, dt), dt);
}

/// Constraint law (distance correction): for a linked pair of equal
/// masses lying on one horizontal line, separated by more than the rest
/// length (with at least two raw units of slack), one solve moves each
/// body half the distance error toward the other — displacements in the
/// inverse ratio of the (equal) masses — and strictly reduces the error.
pub proof fn lemma_constraint_distance_correction(w: WorldView, id: int)
    requires
        world_wf(w),
        w.jetman.linked_item == Some(id),
        0 <= id < w.items.len(),
        w.items[id].body.mass == w.jetman.body.mass,
        w.items[id].body.position.y == w.jetman.body.position.y,
        w.items[id].body.position.x - w.jetman.body.position.x > w.jetman.link_distance + 1,
        w.items[id].body.position.x - w.jetman.body.position.x - w.jetman.link_distance <= LIM,
    ensures
        ({
            let jb = w.jetman.body;
            let ib = w.items[id].body;
            let rest = w.jetman.link_distance;
            let e = ib.position.x - jb.position.x - rest;
            let after = constraint_stage(w);
            let jb2 = after.jetman.body;
            let ib2 = after.items[id].body;
            &&& jb2.position.x == jb.position.x + e / 2
            &&& ib2.position.x == ib.position.x - e / 2
            &&& jb2.position.y == jb.position.y
            &&& ib2.position.y == ib.position.y
            &&& vstd::math::abs(ib2.position.x - jb2.position.x - rest) < vstd::math::abs(e)
        }),
{
    let jb = w.jetman.body;
    let ib = w.items[id].body;
    let rest = w.jetman.link_distance;
    let dx = ib.position.x - jb.position.x;
    let dy = ib.position.y - jb.position.y;
    let e = dx - rest;
    let m = jb.mass;
    assert(dx * dx + dy * dy == dx * dx) by (nonlinear_arith)
        requires
            dy == 0,
    ;
    crate::fixed::lemma_sqrt_floor_square(dx);
    let dist = spec_dist(jb.position.x, jb.position.y, ib.position.x, ib.position.y);
    assert(dist == dx);
    crate::fixed::lemma_tdiv_multiple(1000, dx);
    assert(dx * (SCALE as int) == dx * 1000);
    let dirx = spec_fdiv(dx, dist);
    assert(dirx == 1000);
    vstd::arithmetic::div_mod::lemma_div_of0(dx);
    assert(tdiv(0, dx) == 0);
    let diry = spec_fdiv(dy, dist);
    assert(diry == 0);
    crate::fixed::lemma_tdiv_multiple(e, 1000);
    assert(1000 * e == e * (SCALE as int));
    let corrx = spec_fmul(dirx, e);
    assert(corrx == e);
    assert(0 * e == 0) by (nonlinear_arith);
    let corry = spec_fmul(diry, e);
    assert(corry == spec_clamp(tdiv(0, SCALE as int)));
    vstd::arithmetic::div_mod::lemma_div_of0(SCALE as int);
    assert(corry == 0);
    let total = jb.mass + ib.mass;
    assert(total == 2 * m);
    crate::fixed::lemma_tdiv_multiple(500, 2 * m);
    assert((2 * m) * 500 == m * (SCALE as int)) by (nonlinear_arith);
    let jr = spec_fdiv(ib.mass, total);
    let ir = spec_fdiv(jb.mass, total);
    assert(jr == 500);
    assert(ir == 500);
    // The half displacement: e * 500 / 1000 is e / 2.
    vstd::arithmetic::div_mod::lemma_div_multiples_vanish(e, 500);
    vstd::arithmetic::div_mod::lemma_div_denominator(500 * e, 500, 2);
    assert((500 * e) / 1000 == e / 2);
    assert(e * 500 == 500 * e);
    vstd::arithmetic::div_mod::lemma_fundamental_div_mod(e, 2);
    vstd::arithmetic::div_mod::lemma_div_pos_is_pos(e, 2);
    assert(0 <= e % 2 < 2) by {
        vstd::arithmetic::div_mod::lemma_mod_division_less_than_divisor(e, 2);
    }
    assert(0 <= e / 2 <= e);
    let half = spec_fmul(corrx, jr);
    assert(half == e / 2);
    let halfy = spec_fmul(corry, jr);
    assert(0 * 500 == 0) by (nonlinear_arith);
    assert(halfy == 0);
    assert(-LIM <= jb.position.x + e / 2 <= LIM);
    assert(-LIM <= ib.position.x - e / 2 <= LIM);
    let after = constraint_stage(w);
    assert(after.jetman.body.position.x == jb.position.x + e / 2);
    assert(after.items[id].body.position.x == ib.position.x - e / 2);
    assert(ib.position.x - e / 2 - (jb.position.x + e / 2) - rest == e % 2);
}

/// Constraint law (degenerate case): a linked pair at distance exactly
/// zero is left untouched — no correction, no division.
pub proof fn lemma_constraint_degenerate(w: WorldView, id: int)
    requires
        w.jetman.linked_item == Some(id),
        0 <= id < w.items.len(),
        w.items[id].body.position == w.jetman.body.position,
    ensures
        constraint_stage(w) == w,
{
    let jb = w.jetman.body;
    let ib = w.items[id].body;
    assert((ib.position.x - jb.position.x) * (ib.position.x - jb.position.x) + (ib.position.y
        - jb.position.y) * (ib.position.y - jb.position.y) == 0);
    crate::fixed::lemma_sqrt_floor_square(0);
    assert(spec_dist(jb.position.x, jb.position.y, ib.position.x, ib.position.y) == 0);
}

} // verus!
