//! Terrain shapes and the narrow-phase collision response.

use vstd::prelude::*;

use crate::fixed::{
    dist_fp, div128, div128_any, fmul, in_band, lemma_sqrt_component, lemma_tdiv_abs_bound,
    sat_add, sat_sub, spec_add, spec_clamp, spec_dist, spec_fmul, spec_sub, tdiv, v2_in_band,
    Vec2, LIM, SCALE, V2,
};
use crate::physics::{body_wf, Body, BodyView};

verus! {

/// Bodies closer than this to a line, or to a circle's rim, are pushed out.
pub const CONTACT_RADIUS: i64 = 10_000;

/// How far above a rectangle's top edge a penetrating body is snapped.
pub const RECT_LIFT: i64 = 1000;

/// Crude vertical correction applied inside a polygon.
pub const POLY_LIFT: i64 = 2000;

/// Fraction of the velocity kept by a bounce, in fixed-point.
pub const BOUNCE_DAMP: i64 = 500;

/// An axis-aligned rectangle.
#[derive(Clone, Copy, Debug, PartialEq, Eq, Structural)]
pub struct Rect {
    pub x: i64,
    pub y: i64,
    pub w: i64,
    pub h: i64,
}

/// The mathematical value of a `Rect`.
#[verifier::ext_equal]
pub struct RectView {
    pub x: int,
    pub y: int,
    pub w: int,
    pub h: int,
}

impl View for Rect {
    type V = RectView;

    open spec fn view(&self) -> RectView {
        RectView { x: self.x as int, y: self.y as int, w: self.w as int, h: self.h as int }
    }
}

/// Shape of a terrain element.
pub enum TerrainShape {
    /// Rectangular terrain shape, axis-aligned.
    Rectangle(Rect),
    /// Linear terrain shape.
    Line(Vec2, Vec2),
    /// Circular terrain shape: a center and a radius.
    Circle(Vec2, i64),
    /// Polygonal terrain shape: an ordered, implicitly closed vertex list.
    Polygon(Vec<Vec2>),
}

/// The mathematical value of a `TerrainShape`.
#[verifier::ext_equal]
pub enum ShapeView {
    Rectangle(RectView),
    Line(V2, V2),
    Circle(V2, int),
    Polygon(Seq<V2>),
}

impl View for TerrainShape {
    type V = ShapeView;

    open spec fn view(&self) -> ShapeView {
        match self {
            TerrainShape::Rectangle(r) => ShapeView::Rectangle(r@),
            TerrainShape::Line(a, b) => ShapeView::Line(a@, b@),
            TerrainShape::Circle(c, r) => ShapeView::Circle(c@, r as int),
            TerrainShape::Polygon(vs) => ShapeView::Polygon(vs@.map_values(|p: Vec2| p@)),
        }
    }
}

/// The shape's scalars are representable, and a polygon has vertices.
pub open spec fn shape_wf(s: ShapeView) -> bool {
    match s {
        ShapeView::Rectangle(r) => in_band(r.x) && in_band(r.y) && in_band(r.w) && in_band(r.h),
        ShapeView::Line(a, b) => v2_in_band(a) && v2_in_band(b),
        ShapeView::Circle(c, r) => v2_in_band(c) && 0 <= r <= LIM,
        ShapeView::Polygon(vs) => vs.len() >= 1 && (forall|i: int|
            0 <= i < vs.len() ==> v2_in_band(#[trigger] vs[i])),
    }
}

/// A terrain element. Jetman can collide with these.
pub struct Terrain {
    shape: TerrainShape,
}

impl View for Terrain {
    type V = ShapeView;

    closed spec fn view(&self) -> ShapeView {
        self.shape@
    }
}

impl Terrain {
    /// Create an axis-aligned rectangular terrain.
    pub fn rectangle(x: i64, y: i64, w: i64, h: i64) -> (t: Terrain)
        requires
            in_band(x as int),
            in_band(y as int),
            in_band(w as int),
            in_band(h as int),
        ensures
            t@ == ShapeView::Rectangle(
                RectView { x: x as int, y: y as int, w: w as int, h: h as int },
            ),
            shape_wf(t@),
    {
        Terrain { shape: TerrainShape::Rectangle(Rect { x, y, w, h }) }
    }

    /// Create a linear terrain.
    pub fn line(x1: i64, y1: i64, x2: i64, y2: i64) -> (t: Terrain)
        requires
            in_band(x1 as int),
            in_band(y1 as int),
            in_band(x2 as int),
            in_band(y2 as int),
        ensures
            t@ == ShapeView::Line(
                V2 { x: x1 as int, y: y1 as int },
                V2 { x: x2 as int, y: y2 as int },
            ),
            shape_wf(t@),
    {
        Terrain { shape: TerrainShape::Line(Vec2 { x: x1, y: y1 }, Vec2 { x: x2, y: y2 }) }
    }

    /// Create a circular terrain.
    pub fn circle(x: i64, y: i64, r: i64) -> (t: Terrain)
        requires
            in_band(x as int),
            in_band(y as int),
            0 <= r <= LIM,
        ensures
            t@ == ShapeView::Circle(V2 { x: x as int, y: y as int }, r as int),
            shape_wf(t@),
    {
        Terrain { shape: TerrainShape::Circle(Vec2 { x, y }, r) }
    }

    /// Create a polygonal terrain from its vertices.
    pub fn polygon(segments: Vec<Vec2>) -> (t: Terrain)
        requires
            segments@.len() >= 1,
            forall|i: int| 0 <= i < segments@.len() ==> v2_in_band(#[trigger] segments@[i]@),
        ensures
            t@ == ShapeView::Polygon(segments@.map_values(|p: Vec2| p@)),
            shape_wf(t@),
    {
        let t = Terrain { shape: TerrainShape::Polygon(segments) };
        proof {
            if let ShapeView::Polygon(vs) = t@ {
                assert(forall|i: int| 0 <= i < vs.len() ==> v2_in_band(#[trigger] vs[i]));
            }
        }
        t
    }

    /// The shape of this terrain element.
    pub fn shape(&self) -> (s: &TerrainShape)
        ensures
            s@ == self@,
    {
        &self.shape
    }
}

/// One edge's contribution to the crossing-number test: does a rightward
/// ray from `p` cross the edge from `pi` to `pj`?
pub open spec fn edge_crosses(p: V2, pi: V2, pj: V2) -> bool {
    &&& (pi.y > p.y) != (pj.y > p.y)
    &&& p.x < tdiv((pj.x - pi.x) * (p.y - pi.y), pj.y - pi.y) + pi.x
}

/// Parity of ray crossings over the first `n` edges (edge `i` runs from
/// vertex `i` to its predecessor, wrapping at the start).
pub open spec fn pip_upto(p: V2, vs: Seq<V2>, n: int) -> bool
    recommends
        1 <= vs.len(),
        0 <= n <= vs.len(),
    decreases n,
{
    if n <= 0 {
        false
    } else {
        let j = if n == 1 {
            vs.len() - 1
        } else {
            n - 2
        };
        pip_upto(p, vs, n - 1) != edge_crosses(p, vs[n - 1], vs[j])
    }
}

/// The crossing-number point-in-polygon predicate.
pub open spec fn spec_point_in_polygon(p: V2, vs: Seq<V2>) -> bool {
    pip_upto(p, vs, vs.len() as int)
}

/// Ray-casting point-in-polygon test over the ordered vertex list.
pub fn point_in_polygon(point: Vec2, polygon: &Vec<Vec2>) -> (inside: bool)
    requires
        polygon@.len() >= 1,
        forall|i: int| 0 <= i < polygon@.len() ==> v2_in_band(#[trigger] polygon@[i]@),
        v2_in_band(point@),
    ensures
        inside == spec_point_in_polygon(point@, polygon@.map_values(|q: Vec2| q@)),
{
    let ghost vsv = polygon@.map_values(|q: Vec2| q@);
    let mut inside = false;
    let n = polygon.len();
    let mut j = n - 1;
    for i in 0..n
        invariant
            n == polygon@.len(),
            1 <= n,
            vsv == polygon@.map_values(|q: Vec2| q@),
            forall|k: int| 0 <= k < polygon@.len() ==> v2_in_band(#[trigger] polygon@[k]@),
            v2_in_band(point@),
            j == (if i == 0 { n - 1 } else { i - 1 }),
            inside == pip_upto(point@, vsv, i as int),
    {
        let pi = polygon[i];
        let pj = polygon[j];
        proof {
            assert(v2_in_band(polygon@[i as int]@));
            assert(v2_in_band(polygon@[j as int]@));
            assert(vsv[i as int] == pi@);
            assert(vsv[j as int] == pj@);
        }
        if (pi.y > point.y) != (pj.y > point.y) {
            proof {
                assert(-16 * (LIM as int) * (LIM as int) <= ((pj.x as int) - (pi.x as int)) * ((
                point.y as int) - (pi.y as int)) <= 16 * (LIM as int) * (LIM as int))
                    by (nonlinear_arith)
                    requires
                        -2 * (LIM as int) <= (pj.x as int) - (pi.x as int) <= 2 * (LIM as int),
                        -2 * (LIM as int) <= (point.y as int) - (pi.y as int) <= 2 * (LIM as int),
                ;
            }
            let num: i128 = (pj.x as i128 - pi.x as i128) * (point.y as i128 - pi.y as i128);
            let den: i128 = pj.y as i128 - pi.y as i128;
            let q = div128_any(num, den);
            let crossed = (point.x as i128) < q + pi.x as i128;
            proof {
                assert(crossed == edge_crosses(point@, vsv[i as int], vsv[j as int]));
            }
            if crossed {
                inside = !inside;
            }
        } else {
            proof {
                assert(!edge_crosses(point@, vsv[i as int], vsv[j as int]));
            }
        }
        j = i;
    }
    inside
}

/// The response to penetrating a rectangle: snap to just above the top
/// edge and invert and halve the vertical velocity.
pub open spec fn collide_rect(b: BodyView, r: RectView) -> BodyView {
    if r.x < b.position.x < r.x + r.w && r.y < b.position.y < r.y + r.h {
        BodyView {
            position: V2 { x: b.position.x, y: spec_sub(r.y, RECT_LIFT as int) },
            velocity: V2 {
                x: b.velocity.x,
                y: spec_fmul(b.velocity.y, -(BOUNCE_DAMP as int)),
            },
            ..b
        }
    } else {
        b
    }
}

/// Push-out and damped reflection about the normal from `(cx, cy)` to the
/// body: the body lands `push` away from that base point, and the velocity
/// component along the normal is reflected, the whole velocity then halved.
pub open spec fn spec_reflect(b: BodyView, cx: int, cy: int, d: int, push: int) -> BodyView
    recommends
        d >= 1,
{
    let nx = tdiv((b.position.x - cx) * (SCALE as int), d);
    let ny = tdiv((b.position.y - cy) * (SCALE as int), d);
    let vd = spec_clamp(tdiv(b.velocity.x * nx + b.velocity.y * ny, SCALE as int));
    let two_vd = spec_add(vd, vd);
    let rx = spec_sub(b.velocity.x, spec_fmul(two_vd, nx));
    let ry = spec_sub(b.velocity.y, spec_fmul(two_vd, ny));
    BodyView {
        position: V2 {
            x: spec_add(cx, spec_fmul(nx, push)),
            y: spec_add(cy, spec_fmul(ny, push)),
        },
        velocity: V2 {
            x: spec_fmul(rx, BOUNCE_DAMP as int),
            y: spec_fmul(ry, BOUNCE_DAMP as int),
        },
        ..b
    }
}

/// The response to approaching a line segment within the contact radius.
pub open spec fn collide_line(b: BodyView, p1: V2, p2: V2) -> BodyView {
    let lx = p2.x - p1.x;
    let ly = p2.y - p1.y;
    let len_sq = lx * lx + ly * ly;
    if len_sq == 0 {
        b
    } else {
        let tx = b.position.x - p1.x;
        let ty = b.position.y - p1.y;
        let t = clamp_unit(tdiv((tx * lx + ty * ly) * (SCALE as int), len_sq));
        let cx = p1.x + tdiv(lx * t, SCALE as int);
        let cy = p1.y + tdiv(ly * t, SCALE as int);
        let d = spec_dist(cx, cy, b.position.x, b.position.y);
        if 0 < d < CONTACT_RADIUS {
            spec_reflect(b, cx, cy, d, CONTACT_RADIUS as int)
        } else {
            b
        }
    }
}

/// The response to entering a circle's contact band.
pub open spec fn collide_circle(b: BodyView, c: V2, radius: int) -> BodyView {
    let d = spec_dist(c.x, c.y, b.position.x, b.position.y);
    let min_dist = radius + CONTACT_RADIUS;
    if 0 < d < min_dist {
        spec_reflect(b, c.x, c.y, d, min_dist)
    } else {
        b
    }
}

/// The crude response to being inside a polygon: shift up a little and
/// invert and halve the vertical velocity.
pub open spec fn collide_polygon(b: BodyView, vs: Seq<V2>) -> BodyView {
    if spec_point_in_polygon(b.position, vs) {
        BodyView {
            position: V2 { x: b.position.x, y: spec_sub(b.position.y, POLY_LIFT as int) },
            velocity: V2 {
                x: b.velocity.x,
                y: spec_fmul(b.velocity.y, -(BOUNCE_DAMP as int)),
            },
            ..b
        }
    } else {
        b
    }
}

/// Collision response of a body against one terrain shape.
pub open spec fn collide_shape(b: BodyView, s: ShapeView) -> BodyView {
    match s {
        ShapeView::Rectangle(r) => collide_rect(b, r),
        ShapeView::Line(p1, p2) => collide_line(b, p1, p2),
        ShapeView::Circle(c, r) => collide_circle(b, c, r),
        ShapeView::Polygon(vs) => collide_polygon(b, vs),
    }
}

/// Clamp a fixed-point interpolation parameter into `[0, SCALE]`.
pub open spec fn clamp_unit(t: int) -> int {
    if t < 0 {
        0
    } else if t > SCALE {
        SCALE as int
    } else {
        t
    }
}

/// Push the body out along the normal from `(cx, cy)` and reflect and damp
/// its velocity, as `spec_reflect` describes.
fn reflect_body(body: &mut Body, cx: i64, cy: i64, d: i64, push: i64)
    requires
        body_wf(old(body)@),
        1 <= d,
        vstd::math::abs(old(body)@.position.x - cx) <= d,
        vstd::math::abs(old(body)@.position.y - cy) <= d,
    ensures
        final(body)@ == spec_reflect(old(body)@, cx as int, cy as int, d as int, push as int),
        body_wf(final(body)@),
{
    let dx: i128 = body.position.x as i128 - cx as i128;
    let dy: i128 = body.position.y as i128 - cy as i128;
    let nx128 = div128(dx * (SCALE as i128), d as i128);
    let ny128 = div128(dy * (SCALE as i128), d as i128);
    proof {
        lemma_tdiv_abs_bound((dx as int) * (SCALE as int), d as int, SCALE as int);
        lemma_tdiv_abs_bound((dy as int) * (SCALE as int), d as int, SCALE as int);
        assert(vstd::math::abs((dx as int) * (SCALE as int)) <= (d as int) * (SCALE as int)
            && vstd::math::abs((dy as int) * (SCALE as int)) <= (d as int) * (SCALE as int))
            by (nonlinear_arith)
            requires
                vstd::math::abs(dx as int) <= d as int,
                vstd::math::abs(dy as int) <= d as int,
                1 <= (d as int),
        ;
    }
    let nx: i64 = nx128 as i64;
    let ny: i64 = ny128 as i64;
    proof {
        assert(-(LIM as int) * (SCALE as int) <= (body.velocity.x as int) * (nx as int) <= (LIM
            as int) * (SCALE as int) && -(LIM as int) * (SCALE as int) <= (body.velocity.y
            as int) * (ny as int) <= (LIM as int) * (SCALE as int)) by (nonlinear_arith)
            requires
                -(LIM as int) <= body.velocity.x as int <= LIM as int,
                -(LIM as int) <= body.velocity.y as int <= LIM as int,
                -(SCALE as int) <= nx as int <= SCALE as int,
                -(SCALE as int) <= ny as int <= SCALE as int,
        ;
    }
    let dot: i128 = body.velocity.x as i128 * nx as i128 + body.velocity.y as i128 * ny as i128;
    let vd = crate::fixed::clamp64(div128_any(dot, SCALE as i128));
    let two_vd = sat_add(vd, vd);
    let rx = sat_sub(body.velocity.x, fmul(two_vd, nx));
    let ry = sat_sub(body.velocity.y, fmul(two_vd, ny));
    body.position.x = sat_add(cx, fmul(nx, push));
    body.position.y = sat_add(cy, fmul(ny, push));
    body.velocity.x = fmul(rx, BOUNCE_DAMP);
    body.velocity.y = fmul(ry, BOUNCE_DAMP);
}

/// Check for a collision between a body and a terrain element and alter
/// the body's position and velocity on collision.
pub fn check_collision(body: &mut Body, terrain: &Terrain)
    requires
        body_wf(old(body)@),
        shape_wf(terrain@),
    ensures
        final(body)@ == collide_shape(old(body)@, terrain@),
        body_wf(final(body)@),
{
    match &terrain.shape {
        TerrainShape::Rectangle(r) => {
            let pos = body.position;
            if pos.x > r.x && pos.x < r.x + r.w && pos.y > r.y && pos.y < r.y + r.h {
                body.position.y = sat_sub(r.y, RECT_LIFT);
                body.velocity.y = fmul(body.velocity.y, -BOUNCE_DAMP);
            }
        }
        TerrainShape::Line(p1, p2) => {
            let lx: i128 = p2.x as i128 - p1.x as i128;
            let ly: i128 = p2.y as i128 - p1.y as i128;
            proof {
                assert(0 <= lx * lx <= 4 * (LIM as int) * (LIM as int) && 0 <= ly * ly <= 4 * (
                LIM as int) * (LIM as int)) by (nonlinear_arith)
                    requires
                        -2 * (LIM as int) <= lx as int <= 2 * (LIM as int),
                        -2 * (LIM as int) <= ly as int <= 2 * (LIM as int),
                ;
            }
            let len_sq: i128 = lx * lx + ly * ly;
            if len_sq != 0 {
                let tx: i128 = body.position.x as i128 - p1.x as i128;
                let ty: i128 = body.position.y as i128 - p1.y as i128;
                proof {
                    assert(-4 * (LIM as int) * (LIM as int) <= tx * lx <= 4 * (LIM as int) * (LIM
                        as int) && -4 * (LIM as int) * (LIM as int) <= ty * ly <= 4 * (LIM
                        as int) * (LIM as int) && -8_000_000_000_000_000_000_000_000_000 <= (tx
                        * lx + ty * ly) * (SCALE as int)
                        <= 8_000_000_000_000_000_000_000_000_000) by (nonlinear_arith)
                        requires
                            -2 * (LIM as int) <= lx as int <= 2 * (LIM as int),
                            -2 * (LIM as int) <= ly as int <= 2 * (LIM as int),
                            -2 * (LIM as int) <= tx as int <= 2 * (LIM as int),
                            -2 * (LIM as int) <= ty as int <= 2 * (LIM as int),
                    ;
                }
                let t_raw = div128(
                    (tx * lx + ty * ly) * (SCALE as i128),
                    len_sq,
                );
                let t: i64 = if t_raw < 0 {
                    0
                } else if t_raw > SCALE as i128 {
                    SCALE
                } else {
                    t_raw as i64
                };
                proof {
                    assert(vstd::math::abs((lx as int) * (t as int)) <= (SCALE as int) * (2 * (LIM
                        as int)) && vstd::math::abs((ly as int) * (t as int)) <= (SCALE as int) * (
                    2 * (LIM as int))) by (nonlinear_arith)
                        requires
                            -2 * (LIM as int) <= lx as int <= 2 * (LIM as int),
                            -2 * (LIM as int) <= ly as int <= 2 * (LIM as int),
                            0 <= t as int <= SCALE as int,
                    ;
                    lemma_tdiv_abs_bound((lx as int) * (t as int), SCALE as int, 2 * (LIM as int));
                    lemma_tdiv_abs_bound((ly as int) * (t as int), SCALE as int, 2 * (LIM as int));
                }
                let cx: i64 = (p1.x as i128 + div128_any(lx * t as i128, SCALE as i128)) as i64;
                let cy: i64 = (p1.y as i128 + div128_any(ly * t as i128, SCALE as i128)) as i64;
                let d = dist_fp(cx, cy, body.position.x, body.position.y);
                if 0 < d && d < CONTACT_RADIUS {
                    proof {
                        lemma_sqrt_component(
                            body@.position.x - cx as int,
                            body@.position.y - cy as int,
                            d as int,
                        );
                    }
                    reflect_body(body, cx, cy, d, CONTACT_RADIUS);
                }
            }
        }
        TerrainShape::Circle(center, radius) => {
            let d = dist_fp(center.x, center.y, body.position.x, body.position.y);
            let min_dist = *radius + CONTACT_RADIUS;
            if 0 < d && d < min_dist {
                proof {
                    lemma_sqrt_component(
                        body@.position.x - center.x as int,
                        body@.position.y - center.y as int,
                        d as int,
                    );
                }
                reflect_body(body, center.x, center.y, d, min_dist);
            }
        }
        TerrainShape::Polygon(vertices) => {
            proof {
                let vs = vertices@.map_values(|p: Vec2| p@);
                assert(shape_wf(ShapeView::Polygon(vs)));
                assert forall|k: int|
                    0 <= k < vertices@.len() implies v2_in_band(#[trigger] vertices@[k]@) by {
                    assert(vs[k] == vertices@[k]@);
                }
            }
            if point_in_polygon(body.position, vertices) {
                body.position.y = sat_sub(body.position.y, POLY_LIFT);
                body.velocity.y = fmul(body.velocity.y, -BOUNCE_DAMP);
            }
        }
    }
}

/// The push-out and reflection for a body straight above the base point:
/// the normal is exactly vertical, so the body lands `push` above the
/// base, the vertical velocity is reflected, and the whole velocity is
/// then damped by half.
proof fn lemma_reflect_vertical(b: BodyView, cx: int, cy: int, d: int, push: int)
    requires
        body_wf(b),
        in_band(cx),
        b.position.x == cx,
        b.position.y == cy - d,
        1 <= d,
        0 <= push <= LIM,
        in_band(cy - push),
        in_band(2 * b.velocity.y),
    ensures
        ({
            let after = spec_reflect(b, cx, cy, d, push);
            &&& after.position.x == cx
            &&& after.position.y == cy - push
            &&& after.velocity.x == spec_fmul(b.velocity.x, BOUNCE_DAMP as int)
            &&& after.velocity.y == spec_fmul(-b.velocity.y, BOUNCE_DAMP as int)
            &&& after.acceleration == b.acceleration
            &&& after.mass == b.mass
        }),
{
    assert(tdiv((b.position.x - cx) * (SCALE as int), d) == 0);
    assert((b.position.y - cy) * (SCALE as int) == d * -1000);
    crate::fixed::lemma_tdiv_multiple(-1000, d);
    let ny = tdiv((b.position.y - cy) * (SCALE as int), d);
    assert(ny == -1000);
    assert(b.velocity.x * 0 == 0) by (nonlinear_arith);
    assert(b.velocity.x * 0 + b.velocity.y * ny == 1000 * -b.velocity.y);
    crate::fixed::lemma_tdiv_multiple(-b.velocity.y, 1000);
    let vd = spec_clamp(tdiv(b.velocity.x * 0 + b.velocity.y * ny, SCALE as int));
    assert(vd == -b.velocity.y);
    let two_vd = spec_add(vd, vd);
    assert(two_vd == -2 * b.velocity.y);
    assert(two_vd * ny == 1000 * (2 * b.velocity.y));
    crate::fixed::lemma_tdiv_multiple(2 * b.velocity.y, 1000);
    assert(spec_fmul(two_vd, ny) == 2 * b.velocity.y);
    assert(two_vd * 0 == 0) by (nonlinear_arith);
    assert(spec_fmul(two_vd, 0) == 0) by {
        assert(tdiv(0, SCALE as int) == 0);
    }
    assert(0 * push == 0) by (nonlinear_arith);
    assert(spec_fmul(0, push) == 0) by {
        assert(tdiv(0, SCALE as int) == 0);
    }
    assert(ny * push == 1000 * -push);
    crate::fixed::lemma_tdiv_multiple(-push, 1000);
    assert(spec_fmul(ny, push) == spec_clamp(-push));
    assert(spec_fmul(ny, push) == -push);
    assert(spec_sub(b.velocity.x, spec_fmul(two_vd, 0)) == b.velocity.x);
    assert(spec_sub(b.velocity.y, spec_fmul(two_vd, ny)) == -b.velocity.y);
}

/// Circle law: a body straight above the circle's center, within the
/// contact band, is pushed out to exactly the contact distance along the
/// (vertical) normal, and the normal component of its velocity is
/// reflected, the whole velocity then damped by half.
pub proof fn lemma_circle_vertical_reflection(b: BodyView, c: V2, radius: int)
    requires
        body_wf(b),
        v2_in_band(c),
        b.position.x == c.x,
        b.position.y < c.y,
        c.y - b.position.y < radius + CONTACT_RADIUS,
        0 <= radius,
        radius + CONTACT_RADIUS <= LIM,
        in_band(c.y - (radius + CONTACT_RADIUS)),
        in_band(2 * b.velocity.y),
    ensures
        ({
            let after = collide_circle(b, c, radius);
            &&& after.position.x == c.x
            &&& after.position.y == c.y - (radius + CONTACT_RADIUS)
            &&& after.velocity.x == spec_fmul(b.velocity.x, BOUNCE_DAMP as int)
            &&& after.velocity.y == spec_fmul(-b.velocity.y, BOUNCE_DAMP as int)
        }),
{
    let delta = c.y - b.position.y;
    assert((b.position.x - c.x) * (b.position.x - c.x) + (b.position.y - c.y) * (b.position.y
        - c.y) == delta * delta) by (nonlinear_arith)
        requires
            b.position.x == c.x && delta == c.y - b.position.y,
    ;
    crate::fixed::lemma_sqrt_floor_square(delta);
    let d = spec_dist(c.x, c.y, b.position.x, b.position.y);
    assert(d == delta);
    lemma_reflect_vertical(b, c.x, c.y, d, radius + CONTACT_RADIUS);
}

/// Line law: a body hovering above a horizontal segment, within the
/// contact radius and with its foot falling exactly on a sample of the
/// interpolation grid, is pushed up to exactly the contact radius above
/// the segment, its vertical velocity reflected and damped by half.
pub proof fn lemma_line_vertical_reflection(b: BodyView, p1: V2, p2: V2)
    requires
        body_wf(b),
        v2_in_band(p1),
        v2_in_band(p2),
        p1.y == p2.y,
        p1.x < p2.x,
        p1.x <= b.position.x <= p2.x,
        ((b.position.x - p1.x) * SCALE) % (p2.x - p1.x) == 0,
        b.position.y < p1.y,
        p1.y - b.position.y < CONTACT_RADIUS,
        in_band(p1.y - CONTACT_RADIUS),
        in_band(2 * b.velocity.y),
    ensures
        ({
            let after = collide_line(b, p1, p2);
            &&& after.position.x == b.position.x
            &&& after.position.y == p1.y - CONTACT_RADIUS
            &&& after.velocity.x == spec_fmul(b.velocity.x, BOUNCE_DAMP as int)
            &&& after.velocity.y == spec_fmul(-b.velocity.y, BOUNCE_DAMP as int)
        }),
{
    let ll = p2.x - p1.x;
    let u = b.position.x - p1.x;
    let ty = b.position.y - p1.y;
    assert(ll * ll >= 1 && ll * ll == ll * ll) by (nonlinear_arith)
        requires
            ll >= 1,
    ;
    assert(ty * 0 == 0) by (nonlinear_arith);
    assert(u * ll + ty * 0 == u * ll);
    // The interpolation parameter: (u * ll * SCALE) / (ll * ll) is
    // (u * SCALE) / ll, which the divisibility premise makes exact.
    let q = (u * (SCALE as int)) / ll;
    vstd::arithmetic::div_mod::lemma_fundamental_div_mod(u * (SCALE as int), ll);
    assert(u * (SCALE as int) == ll * q);
    assert((u * ll) * (SCALE as int) == ll * (ll * q)) by (nonlinear_arith)
        requires
            u * (SCALE as int) == ll * q,
    ;
    crate::fixed::lemma_tdiv_multiple(q, ll);
    vstd::arithmetic::div_mod::lemma_div_denominator(ll * (ll * q), ll, ll);
    vstd::arithmetic::div_mod::lemma_div_multiples_vanish(ll * q, ll);
    crate::fixed::lemma_tdiv_multiple(ll * q, ll);
    assert(tdiv((u * ll) * (SCALE as int), ll * ll) == q) by {
        assert((ll * (ll * q)) / (ll * ll) == (ll * (ll * q)) / ll / ll);
        assert((ll * (ll * q)) / ll == ll * q);
        assert((ll * q) / ll == q);
        assert(0 <= ll * (ll * q)) by (nonlinear_arith)
            requires
                ll >= 1 && 0 <= ll * q,
            ;
        assert(vstd::math::abs(ll * (ll * q)) == ll * (ll * q));
        assert(vstd::math::abs(ll * ll) == ll * ll) by (nonlinear_arith)
            requires
                ll >= 1,
        ;
    }
    assert(0 <= q <= SCALE) by {
        vstd::arithmetic::div_mod::lemma_div_pos_is_pos(u * (SCALE as int), ll);
        crate::fixed::lemma_tdiv_abs_bound(u * (SCALE as int), ll, SCALE as int);
        assert(vstd::math::abs(u * (SCALE as int)) <= ll * (SCALE as int)) by (nonlinear_arith)
            requires
                0 <= u <= ll,
        ;
        assert(vstd::math::abs((u * (SCALE as int)) / ll) == (u * (SCALE as int)) / ll);
    }
    assert(clamp_unit(q) == q);
    // The closest point is the body's own foot on the segment.
    crate::fixed::lemma_tdiv_multiple(u, SCALE as int);
    assert(ll * q == (SCALE as int) * u);
    let cx = p1.x + tdiv(ll * q, SCALE as int);
    assert(cx == b.position.x);
    assert(0 * q == 0) by (nonlinear_arith);
    vstd::arithmetic::div_mod::lemma_div_of0(SCALE as int);
    let cy = p1.y + tdiv(0 * q, SCALE as int);
    assert(cy == p1.y);
    let delta = p1.y - b.position.y;
    assert((b.position.x - cx) * (b.position.x - cx) + (b.position.y - cy) * (b.position.y - cy)
        == delta * delta) by (nonlinear_arith)
        requires
            b.position.x == cx && delta == cy - b.position.y,
    ;
    crate::fixed::lemma_sqrt_floor_square(delta);
    let d = spec_dist(cx, cy, b.position.x, b.position.y);
    assert(d == delta);
    lemma_reflect_vertical(b, cx, cy, d, CONTACT_RADIUS as int);
}

/// Rectangle law: a body strictly inside an axis-aligned rectangle is
/// stopped at the top edge and its vertical velocity is inverted and
/// halved; nothing else changes.
pub proof fn lemma_rectangle_collision(b: BodyView, r: RectView)
    requires
        r.x < b.position.x < r.x + r.w,
        r.y < b.position.y < r.y + r.h,
    ensures
        collide_rect(b, r).position.y == spec_sub(r.y, RECT_LIFT as int),
        collide_rect(b, r).position.x == b.position.x,
        collide_rect(b, r).velocity.y == spec_fmul(b.velocity.y, -(BOUNCE_DAMP as int)),
        collide_rect(b, r).velocity.x == b.velocity.x,
        collide_rect(b, r).mass == b.mass,
{
}

} // verus!
