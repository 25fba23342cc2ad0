//! Fixed-point scalars and 2D vectors.
//!
//! Every physical quantity is an `i64` holding `SCALE` raw units per world
//! unit. Arithmetic that could leave the representable band saturates at
//! `LIM`; products and quotients are computed exactly in `i128` and then
//! truncated toward zero, as `tdiv` describes.

use vstd::prelude::*;

verus! {

/// Raw units per world unit.
pub const SCALE: i64 = 1000;

/// Saturation bound for every stored coordinate, velocity and mass.
pub const LIM: i64 = 1_000_000_000_000;

/// Clamp an arbitrary integer into the representable band `[-LIM, LIM]`.
pub open spec fn spec_clamp(x: int) -> int {
    if x < -LIM {
        -LIM as int
    } else if x > LIM {
        LIM as int
    } else {
        x
    }
}

/// Truncating division (round toward zero), the semantics of `/` on the
/// machine integers the simulation runs on.
pub open spec fn tdiv(a: int, b: int) -> int
    recommends
        b != 0,
{
    if (a >= 0) == (b >= 0) {
        (vstd::math::abs(a) as int) / (vstd::math::abs(b) as int)
    } else {
        -((vstd::math::abs(a) as int) / (vstd::math::abs(b) as int))
    }
}

/// Saturating addition.
pub open spec fn spec_add(a: int, b: int) -> int {
    spec_clamp(a + b)
}

/// Saturating subtraction.
pub open spec fn spec_sub(a: int, b: int) -> int {
    spec_clamp(a - b)
}

/// Fixed-point product: `a * b / SCALE`, truncated, then saturated.
pub open spec fn spec_fmul(a: int, b: int) -> int {
    spec_clamp(tdiv(a * b, SCALE as int))
}

/// Fixed-point quotient: `a * SCALE / b`, truncated, then saturated.
pub open spec fn spec_fdiv(a: int, b: int) -> int
    recommends
        b > 0,
{
    spec_clamp(tdiv(a * (SCALE as int), b))
}

/// Whether a scalar lies in the representable band.
pub open spec fn in_band(x: int) -> bool {
    -LIM <= x <= LIM
}

/// Exec clamp from the wide intermediate type back to a scalar.
pub fn clamp64(x: i128) -> (r: i64)
    ensures
        r == spec_clamp(x as int),
{
    if x < -LIM as i128 {
        -LIM
    } else if x > LIM as i128 {
        LIM
    } else {
        x as i64
    }
}

/// Saturating addition of two scalars.
pub fn sat_add(a: i64, b: i64) -> (r: i64)
    ensures
        r == spec_add(a as int, b as int),
{
    clamp64(a as i128 + b as i128)
}

/// Saturating subtraction of two scalars.
pub fn sat_sub(a: i64, b: i64) -> (r: i64)
    ensures
        r == spec_sub(a as int, b as int),
{
    clamp64(a as i128 - b as i128)
}

/// `tdiv(m * q, m) == q` for positive `m`: truncating division undoes an
/// exact multiplication.
pub proof fn lemma_tdiv_multiple(q: int, m: int)
    requires
        m >= 1,
    ensures
        tdiv(m * q, m) == q,
{
    if q >= 0 {
        assert(vstd::math::abs(m * q) == m * q) by (nonlinear_arith)
            requires
                m >= 1 && q >= 0,
        ;
        vstd::arithmetic::div_mod::lemma_div_multiples_vanish(q, m);
    } else {
        assert(vstd::math::abs(m * q) == m * -q) by (nonlinear_arith)
            requires
                m >= 1 && q < 0,
        ;
        vstd::arithmetic::div_mod::lemma_div_multiples_vanish(-q, m);
        assert(m * q < 0) by (nonlinear_arith)
            requires
                m >= 1 && q < 0,
        ;
    }
}

/// For exact multiples, truncating division distributes over addition.
pub proof fn lemma_tdiv_exact_add(x: int, y: int, m: int)
    requires
        m >= 1,
        x % m == 0,
        y % m == 0,
    ensures
        tdiv(x + y, m) == tdiv(x, m) + tdiv(y, m),
{
    vstd::arithmetic::div_mod::lemma_fundamental_div_mod(x, m);
    vstd::arithmetic::div_mod::lemma_fundamental_div_mod(y, m);
    let qx = x / m;
    let qy = y / m;
    lemma_tdiv_multiple(qx, m);
    lemma_tdiv_multiple(qy, m);
    assert(m * qx + m * qy == m * (qx + qy)) by (nonlinear_arith);
    lemma_tdiv_multiple(qx + qy, m);
}

/// A truncating quotient is bounded whenever the dividend is.
pub proof fn lemma_tdiv_abs_bound(a: int, b: int, c: int)
    requires
        b >= 1,
        c >= 0,
        vstd::math::abs(a) <= b * c,
    ensures
        vstd::math::abs(tdiv(a, b)) <= c,
{
    vstd::arithmetic::div_mod::lemma_div_is_ordered(vstd::math::abs(a) as int, b * c, b);
    lemma_tdiv_multiple(c, b);
    assert(vstd::math::abs(b * c) == b * c) by (nonlinear_arith)
        requires
            b >= 1 && c >= 0,
    ;
    vstd::arithmetic::div_mod::lemma_div_pos_is_pos(vstd::math::abs(a) as int, b);
}

/// The rounded-down root of a sum of squares dominates each component.
pub proof fn lemma_sqrt_component(dx: int, dy: int, d: int)
    requires
        is_sqrt_floor(dx * dx + dy * dy, d),
    ensures
        vstd::math::abs(dx) <= d,
        vstd::math::abs(dy) <= d,
{
    assert(vstd::math::abs(dx) <= d && vstd::math::abs(dy) <= d) by (nonlinear_arith)
        requires
            0 <= d,
            d * d <= dx * dx + dy * dy,
            dx * dx + dy * dy < (d + 1) * (d + 1),
    ;
}

/// Truncating division on the wide type, for a positive divisor.
pub(crate) fn div128(a: i128, b: i128) -> (r: i128)
    requires
        b > 0,
        a > i128::MIN,
    ensures
        r == tdiv(a as int, b as int),
{
    if a >= 0 {
        let q = a / b;
        proof {
            assert(q == vstd::math::abs(a as int) / vstd::math::abs(b as int));
        }
        q
    } else {
        let q = (-a) / b;
        proof {
            assert(q == vstd::math::abs(a as int) / vstd::math::abs(b as int));
        }
        -q
    }
}

/// Fixed-point multiply.
pub fn fmul(a: i64, b: i64) -> (r: i64)
    ensures
        r == spec_fmul(a as int, b as int),
{
    proof {
        lemma_i64_product_bound(a as int, b as int);
    }
    let p: i128 = a as i128 * b as i128;
    let q = div128_any(p, SCALE as i128);
    clamp64(q)
}

/// The product of two `i64` values stays well inside `i128`.
proof fn lemma_i64_product_bound(a: int, b: int)
    requires
        i64::MIN <= a <= i64::MAX,
        i64::MIN <= b <= i64::MAX,
    ensures
        -0x4000_0000_0000_0000_0000_0000_0000_0000 <= a * b
            <= 0x4000_0000_0000_0000_0000_0000_0000_0000,
{
    assert(-0x4000_0000_0000_0000_0000_0000_0000_0000 <= a * b
        <= 0x4000_0000_0000_0000_0000_0000_0000_0000) by (nonlinear_arith)
        requires
            -0x8000_0000_0000_0000 <= a <= 0x7FFF_FFFF_FFFF_FFFF,
            -0x8000_0000_0000_0000 <= b <= 0x7FFF_FFFF_FFFF_FFFF,
    ;
}

/// Truncating division on the wide type, for any nonzero divisor.
pub(crate) fn div128_any(a: i128, b: i128) -> (r: i128)
    requires
        b != 0,
        a > i128::MIN,
        b > i128::MIN,
    ensures
        r == tdiv(a as int, b as int),
{
    if b > 0 {
        div128(a, b)
    } else {
        let q = div128(a, -b);
        proof {
            assert(vstd::math::abs(b as int) == vstd::math::abs(-b as int));
        }
        -q
    }
}

/// Fixed-point divide by a positive scalar.
pub fn fdiv(a: i64, b: i64) -> (r: i64)
    requires
        b > 0,
    ensures
        r == spec_fdiv(a as int, b as int),
{
    proof {
        lemma_i64_product_bound(a as int, SCALE as int);
    }
    let p: i128 = a as i128 * SCALE as i128;
    let q = div128(p, b as i128);
    clamp64(q)
}

/// Largest argument `isqrt` accepts; wide enough for any squared distance
/// between in-band points and closest points derived from them.
pub const SQ_MAX: u128 = 200_000_000_000_000_000_000_000_000;

/// Search bound for `isqrt`: `SQRT_HI * SQRT_HI > SQ_MAX`.
const SQRT_HI: u128 = 15_000_000_000_000;

pub open spec fn is_sqrt_floor(n: int, r: int) -> bool {
    &&& 0 <= r
    &&& r * r <= n
    &&& n < (r + 1) * (r + 1)
}

/// The rounded-down square root of a non-negative integer.
pub open spec fn sqrt_floor(n: int) -> int {
    choose|r: int| is_sqrt_floor(n, r)
}

pub proof fn lemma_sqrt_floor_unique(n: int, r: int)
    requires
        is_sqrt_floor(n, r),
    ensures
        sqrt_floor(n) == r,
{
    assert(is_sqrt_floor(n, sqrt_floor(n)));
    let s = sqrt_floor(n);
    assert(s == r) by (nonlinear_arith)
        requires
            is_sqrt_floor(n, r),
            is_sqrt_floor(n, s),
    ;
}

/// The rounded-down root of a perfect square is its root.
pub proof fn lemma_sqrt_floor_square(d: int)
    requires
        0 <= d,
    ensures
        sqrt_floor(d * d) == d,
{
    assert(is_sqrt_floor(d * d, d)) by (nonlinear_arith)
        requires
            0 <= d,
    ;
    lemma_sqrt_floor_unique(d * d, d);
}

/// Rounded-down integer square root, by bisection.
pub fn isqrt(n: u128) -> (r: i64)
    requires
        n <= SQ_MAX,
    ensures
        r == sqrt_floor(n as int),
        is_sqrt_floor(n as int, r as int),
{
    let mut lo: u128 = 0;
    let mut hi: u128 = SQRT_HI;
    proof {
        assert((SQRT_HI as int) * (SQRT_HI as int) > SQ_MAX as int) by (nonlinear_arith);
    }
    while lo + 1 < hi
        invariant
            0 <= lo < hi <= SQRT_HI,
            (lo as int) * (lo as int) <= n as int,
            (n as int) < (hi as int) * (hi as int),
        decreases hi - lo,
    {
        let mid = lo + (hi - lo) / 2;
        proof {
            assert(mid as int * mid as int <= SQRT_HI as int * SQRT_HI as int)
                by (nonlinear_arith)
                requires
                    0 <= mid as int <= SQRT_HI as int,
            ;
        }
        if mid * mid <= n {
            lo = mid;
        } else {
            hi = mid;
        }
    }
    proof {
        lemma_sqrt_floor_unique(n as int, lo as int);
    }
    lo as i64
}

/// Euclidean distance between two points, rounded down.
pub open spec fn spec_dist(ax: int, ay: int, bx: int, by: int) -> int {
    sqrt_floor((bx - ax) * (bx - ax) + (by - ay) * (by - ay))
}

/// Bound within which `dist_fp` accepts coordinates.
pub const REACH: i64 = 4_000_000_000_000;

/// Distance between two points.
pub fn dist_fp(ax: i64, ay: i64, bx: i64, by: i64) -> (d: i64)
    requires
        -REACH <= ax <= REACH,
        -REACH <= ay <= REACH,
        -REACH <= bx <= REACH,
        -REACH <= by <= REACH,
    ensures
        d == spec_dist(ax as int, ay as int, bx as int, by as int),
        0 <= d,
        is_sqrt_floor((bx - ax) * (bx - ax) + (by - ay) * (by - ay), d as int),
{
    let dx: i128 = bx as i128 - ax as i128;
    let dy: i128 = by as i128 - ay as i128;
    proof {
        assert((dx as int) * (dx as int) <= (2 * REACH as int) * (2 * REACH as int) && (dy
            as int) * (dy as int) <= (2 * REACH as int) * (2 * REACH as int) && (dx as int) * (dx
            as int) >= 0 && (dy as int) * (dy as int) >= 0) by (nonlinear_arith)
            requires
                -2 * (REACH as int) <= dx as int <= 2 * (REACH as int),
                -2 * (REACH as int) <= dy as int <= 2 * (REACH as int),
        ;
    }
    let sq: i128 = dx * dx + dy * dy;
    isqrt(sq as u128)
}

/// One full turn in fixed-point radians.
pub const TWO_PI_FP: i64 = 6283;

/// Half a turn.
pub const PI_FP: i64 = 3142;

/// A quarter turn.
pub const HALF_PI_FP: i64 = 1571;

/// Non-negative remainder of `a` modulo `m`.
pub open spec fn spec_mod_pos(a: int, m: int) -> int
    recommends
        m > 0,
{
    if a >= 0 {
        a % m
    } else if (-a) % m == 0 {
        0
    } else {
        m - (-a) % m
    }
}

fn mod_pos(a: i64, m: i64) -> (r: i64)
    requires
        m > 0,
        a > i64::MIN,
    ensures
        r == spec_mod_pos(a as int, m as int),
        0 <= r < m,
{
    if a >= 0 {
        ((a as u64) % (m as u64)) as i64
    } else {
        let p = ((-a) as u64) % (m as u64);
        if p == 0 {
            0
        } else {
            m - p as i64
        }
    }
}

/// Degree-five polynomial approximation of `SCALE * sin(u / SCALE)` on the
/// first quadrant.
pub open spec fn spec_taylor_sin(u: int) -> int {
    u - tdiv(u * u * u, 6_000_000) + tdiv(u * u * u * u * u, 120_000_000_000_000)
}

fn taylor_sin(u: i64) -> (r: i64)
    requires
        0 <= u <= HALF_PI_FP,
    ensures
        r == spec_taylor_sin(u as int),
        -2000 <= r <= 2000,
{
    let c = u as u64;
    proof {
        let ci = c as int;
        assert(0 <= ci * ci <= 1571int * 1571 && 0 <= ci * ci * ci <= 1571int * 1571 * 1571 && 0
            <= ci * ci * ci * ci <= 1571int * 1571 * 1571 * 1571 && 0 <= ci * ci * ci * ci * ci
            <= 1571int * 1571 * 1571 * 1571 * 1571) by (nonlinear_arith)
            requires
                0 <= ci <= 1571,
        ;
    }
    let c3 = c * c * c;
    let c5 = c3 * c * c;
    let q3 = (c3 / 6_000_000) as i64;
    let q5 = (c5 / 120_000_000_000_000) as i64;
    proof {
        vstd::arithmetic::div_mod::lemma_div_is_ordered(
            c3 as int,
            1571int * 1571 * 1571,
            6_000_000,
        );
        vstd::arithmetic::div_mod::lemma_div_is_ordered(
            c5 as int,
            1571int * 1571 * 1571 * 1571 * 1571,
            120_000_000_000_000,
        );
        vstd::arithmetic::div_mod::lemma_div_pos_is_pos(c3 as int, 6_000_000);
        vstd::arithmetic::div_mod::lemma_div_pos_is_pos(c5 as int, 120_000_000_000_000);
    }
    u - q3 + q5
}

/// `SCALE * sin(x / SCALE)`, by quadrant reduction to the polynomial.
pub open spec fn spec_sin(x: int) -> int {
    let a = spec_mod_pos(x, TWO_PI_FP as int);
    if a < HALF_PI_FP {
        spec_taylor_sin(a)
    } else if a < PI_FP {
        spec_taylor_sin(PI_FP - a)
    } else if a < PI_FP + HALF_PI_FP {
        -spec_taylor_sin(a - PI_FP)
    } else {
        -spec_taylor_sin(TWO_PI_FP - a)
    }
}

/// `SCALE * cos(x / SCALE)`, as the sine of the shifted angle.
pub open spec fn spec_cos(x: int) -> int {
    spec_sin(spec_clamp(x + HALF_PI_FP as int))
}

/// Fixed-point sine.
pub fn sin_fp(x: i64) -> (r: i64)
    requires
        in_band(x as int),
    ensures
        r == spec_sin(x as int),
        -2000 <= r <= 2000,
{
    let a = mod_pos(x, TWO_PI_FP);
    if a < HALF_PI_FP {
        taylor_sin(a)
    } else if a < PI_FP {
        taylor_sin(PI_FP - a)
    } else if a < PI_FP + HALF_PI_FP {
        -taylor_sin(a - PI_FP)
    } else {
        -taylor_sin(TWO_PI_FP - a)
    }
}

/// Fixed-point cosine.
pub fn cos_fp(x: i64) -> (r: i64)
    requires
        in_band(x as int),
    ensures
        r == spec_cos(x as int),
        -2000 <= r <= 2000,
{
    sin_fp(sat_add(x, HALF_PI_FP))
}

/// A fixed-point 2D vector.
#[derive(Clone, Copy, Debug, PartialEq, Eq, Structural)]
pub struct Vec2 {
    pub x: i64,
    pub y: i64,
}

/// The mathematical value of a `Vec2`.
#[verifier::ext_equal]
pub struct V2 {
    pub x: int,
    pub y: int,
}

impl View for Vec2 {
    type V = V2;

    open spec fn view(&self) -> V2 {
        V2 { x: self.x as int, y: self.y as int }
    }
}

impl Vec2 {
    /// Build a vector from its components.
    pub fn new(x: i64, y: i64) -> (v: Vec2)
        ensures
            v.x == x,
            v.y == y,
    {
        Vec2 { x, y }
    }
}

/// Whether both components lie in the representable band.
pub open spec fn v2_in_band(v: V2) -> bool {
    in_band(v.x) && in_band(v.y)
}

} // verus!
