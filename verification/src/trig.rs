//! Sines and cosines as fixed-point numbers, and the unit direction that a
//! pair of angles stands for.
//!
//! The library does not compute a sine or a cosine. A caller hands them in as
//! a [`SinCos`], which is accepted only if the two numbers lie on the unit
//! circle, up to rounding. From that alone the direction built from two such
//! pairs is proved to have length one, up to rounding.

use vstd::prelude::*;
use crate::fixed::{lemma_quotient_bounds, product, quotient, scale, UNIT};
use crate::vector::{Point3, Vector};

verus! {

/// How far `sin² + cos²` may differ from `UNIT²`: two millionths of it. Sines
/// and cosines rounded to the nearest step stay well inside.
pub const TRIG_TOLERANCE: i64 = 2_000_000;

/// How far the squared length of a unit direction may differ from `UNIT²`:
/// ten millionths of it.
pub const NORM_TOLERANCE: i64 = 10_000_000;

/// A sine and a cosine as mathematical integers: what a [`SinCos`] stands for.
pub struct SinCosValue {
    pub sin: int,
    pub cos: int,
}

impl SinCosValue {
    /// Whether the pair lies on the unit circle, up to [`TRIG_TOLERANCE`].
    pub open spec fn is_unit(self) -> bool {
        -TRIG_TOLERANCE <= self.sin * self.sin + self.cos * self.cos - UNIT * UNIT
            <= TRIG_TOLERANCE
    }
}

/// Whether a vector has length one, up to [`NORM_TOLERANCE`] on its square.
pub open spec fn normalized(v: Vector) -> bool {
    -NORM_TOLERANCE <= v.norm_squared() - UNIT * UNIT <= NORM_TOLERANCE
}

/// The direction from the focus to the camera for a pitch and a yaw, given by
/// their sines and cosines: `(sin(yaw)·cos(pitch), sin(pitch), cos(yaw)·cos(pitch))`.
pub open spec fn direction_of(pitch: SinCosValue, yaw: SinCosValue) -> Vector {
    Vector {
        x: product(yaw.sin, pitch.cos),
        y: pitch.sin,
        z: product(yaw.cos, pitch.cos),
    }
}

/// The sine and the cosine of one angle, on the unit circle up to rounding.
#[derive(Clone, Copy, Debug)]
pub struct SinCos {
    sin: i64,
    cos: i64,
}

impl View for SinCos {
    type V = SinCosValue;

    closed spec fn view(&self) -> SinCosValue {
        SinCosValue { sin: self.sin as int, cos: self.cos as int }
    }
}

/// A number whose square is at most `UNIT² + TRIG_TOLERANCE` is at most `UNIT + 1` in size.
proof fn lemma_root_bound(c: int)
    requires
        c * c <= UNIT * UNIT + TRIG_TOLERANCE,
    ensures
        -(UNIT + 1) <= c <= UNIT + 1,
{
    assert(c <= 1_000_001) by (nonlinear_arith)
        requires
            c * c <= 1_000_000 * 1_000_000 + 2_000_000,
    ;
    assert(c >= -1_000_001) by (nonlinear_arith)
        requires
            c * c <= 1_000_000 * 1_000_000 + 2_000_000,
    ;
}

/// Both numbers of a pair on the unit circle are at most `UNIT + 1` in size.
pub proof fn lemma_unit_bounds(t: SinCosValue)
    requires
        t.is_unit(),
    ensures
        -(UNIT + 1) <= t.sin <= UNIT + 1,
        -(UNIT + 1) <= t.cos <= UNIT + 1,
{
    assert(t.sin * t.sin >= 0) by (nonlinear_arith);
    assert(t.cos * t.cos >= 0) by (nonlinear_arith);
    lemma_root_bound(t.sin);
    lemma_root_bound(t.cos);
}

/// The product of two bounded numbers is bounded by the product of the bounds.
proof fn lemma_product_bound(a: int, b: int, m: int, n: int)
    requires
        -m <= a <= m,
        -n <= b <= n,
    ensures
        -(m * n) <= a * b <= m * n,
{
    assert(-(m * n) <= a * b <= m * n) by (nonlinear_arith)
        requires
            -m <= a <= m,
            -n <= b <= n,
    ;
}

/// The square of `p - r`, written out over `u * q == p - r`.
proof fn lemma_square_of_difference(u: int, q: int, p: int, r: int)
    requires
        u * q == p - r,
    ensures
        u * u * (q * q) == p * p - 2 * (p * r) + r * r,
{
    assert(u * u * (q * q) == (u * q) * (u * q)) by (nonlinear_arith);
    assert((p - r) * (p - r) == p * p - 2 * (p * r) + r * r) by (nonlinear_arith);
}

/// The direction built from two pairs on the unit circle has length one, up
/// to [`NORM_TOLERANCE`] on its square.
pub proof fn lemma_direction_normalized(pitch: SinCosValue, yaw: SinCosValue)
    requires
        pitch.is_unit(),
        yaw.is_unit(),
    ensures
        normalized(direction_of(pitch, yaw)),
{
    let u = UNIT as int;
    let sp = pitch.sin;
    let cp = pitch.cos;
    let sy = yaw.sin;
    let cy = yaw.cos;
    let d = direction_of(pitch, yaw);
    let x = d.x;
    let z = d.z;
    lemma_unit_bounds(pitch);
    lemma_unit_bounds(yaw);

    // What the two roundings toward zero dropped.
    let px = sy * cp;
    let pz = cy * cp;
    let rx = px - u * x;
    let rz = pz - u * z;
    lemma_quotient_bounds(px, u);
    lemma_quotient_bounds(pz, u);
    assert(x * u == u * x) by (nonlinear_arith);
    assert(z * u == u * z) by (nonlinear_arith);
    assert(-(u - 1) <= rx <= u - 1);
    assert(-(u - 1) <= rz <= u - 1);

    // The squared length, times UNIT², in terms of the two circle errors.
    let ep = sp * sp + cp * cp - u * u;
    let ey = sy * sy + cy * cy - u * u;
    let cc = cp * cp;
    lemma_square_of_difference(u, x, px, rx);
    lemma_square_of_difference(u, z, pz, rz);
    assert(px * px == (sy * sy) * cc) by (nonlinear_arith)
        requires
            px == sy * cp,
            cc == cp * cp,
    ;
    assert(pz * pz == (cy * cy) * cc) by (nonlinear_arith)
        requires
            pz == cy * cp,
            cc == cp * cp,
    ;
    assert((sy * sy) * cc + (cy * cy) * cc == (u * u + ey) * cc) by (nonlinear_arith)
        requires
            ey == sy * sy + cy * cy - u * u,
    ;
    assert((u * u + ey) * cc == u * u * cc + ey * cc) by (nonlinear_arith);
    assert(u * u * (sp * sp - u * u) == u * u * ep - u * u * cc) by (nonlinear_arith)
        requires
            ep == sp * sp + cc - u * u,
    ;
    let excess = d.norm_squared() - u * u;
    assert(excess == x * x + z * z + (sp * sp - u * u));
    assert(u * u * excess == u * u * (x * x) + u * u * (z * z) + u * u * (sp * sp - u * u))
        by (nonlinear_arith)
        requires
            excess == x * x + z * z + (sp * sp - u * u),
    ;
    let cross = px * rx + pz * rz;
    assert(u * u * excess == ey * cc + u * u * ep - 2 * cross + rx * rx + rz * rz);

    // Each term is small.
    assert(0 <= cc <= u * u + TRIG_TOLERANCE) by {
        assert(sp * sp >= 0) by (nonlinear_arith);
        assert(cp * cp >= 0) by (nonlinear_arith);
    }
    lemma_product_bound(ey, cc, TRIG_TOLERANCE as int, u * u + TRIG_TOLERANCE);
    lemma_product_bound(u * u, ep, u * u, TRIG_TOLERANCE as int);
    lemma_product_bound(sy, cp, u + 1, u + 1);
    lemma_product_bound(cy, cp, u + 1, u + 1);
    lemma_product_bound(px, rx, (u + 1) * (u + 1), u - 1);
    lemma_product_bound(pz, rz, (u + 1) * (u + 1), u - 1);
    lemma_product_bound(rx, rx, u - 1, u - 1);
    lemma_product_bound(rz, rz, u - 1, u - 1);
    assert(u * u == 1_000_000_000_000) by (nonlinear_arith)
        requires
            u == 1_000_000,
    ;
    assert((u + 1) * (u + 1) == 1_000_002_000_001) by (nonlinear_arith)
        requires
            u == 1_000_000,
    ;
    assert((u - 1) * (u - 1) == 999_998_000_001) by (nonlinear_arith)
        requires
            u == 1_000_000,
    ;
    assert(TRIG_TOLERANCE * (u * u + TRIG_TOLERANCE) == 2_000_004_000_000_000_000)
        by (nonlinear_arith)
        requires
            u * u == 1_000_000_000_000,
    ;
    assert((u * u) * TRIG_TOLERANCE == 2_000_000_000_000_000_000) by (nonlinear_arith)
        requires
            u * u == 1_000_000_000_000,
    ;
    assert(((u + 1) * (u + 1)) * (u - 1) == 1_000_000_999_998_999_999) by (nonlinear_arith)
        requires
            u == 1_000_000,
            (u + 1) * (u + 1) == 1_000_002_000_001,
    ;
    assert(-NORM_TOLERANCE * (u * u) <= u * u * excess <= NORM_TOLERANCE * (u * u));
    assert(-NORM_TOLERANCE <= excess <= NORM_TOLERANCE) by (nonlinear_arith)
        requires
            -10_000_000 * 1_000_000_000_000 <= 1_000_000_000_000 * excess
                <= 10_000_000 * 1_000_000_000_000,
    ;
}

impl SinCos {
    /// Holds of every value of the type.
    #[verifier::type_invariant]
    pub open spec fn on_unit_circle(self) -> bool {
        self@.is_unit()
    }

    /// Accepts a sine and a cosine if they lie on the unit circle, up to
    /// [`TRIG_TOLERANCE`]; otherwise returns `None`.
    pub fn new(sin: i64, cos: i64) -> (r: Option<SinCos>)
        ensures
            r is Some <==> (SinCosValue { sin: sin as int, cos: cos as int }).is_unit(),
            r matches Some(t) ==> t@ == (SinCosValue { sin: sin as int, cos: cos as int }),
    {
        let bound: i64 = UNIT + 1;
        if sin < -bound || sin > bound || cos < -bound || cos > bound {
            proof {
                let t = SinCosValue { sin: sin as int, cos: cos as int };
                if t.is_unit() {
                    lemma_unit_bounds(t);
                }
            }
            return None;
        }
        proof {
            lemma_product_bound(sin as int, sin as int, bound as int, bound as int);
            lemma_product_bound(cos as int, cos as int, bound as int, bound as int);
            assert(bound * bound == 1_000_002_000_001) by (nonlinear_arith)
                requires
                    bound == 1_000_001,
            ;
        }
        let excess: i64 = sin * sin + cos * cos - UNIT * UNIT;
        if -TRIG_TOLERANCE <= excess && excess <= TRIG_TOLERANCE {
            Some(SinCos { sin, cos })
        } else {
            None
        }
    }

    /// The sine and the cosine of the angle zero.
    pub fn zero() -> (r: SinCos)
        ensures
            r@ == (SinCosValue { sin: 0, cos: UNIT as int }),
    {
        SinCos { sin: 0, cos: UNIT }
    }

    /// The sine.
    pub fn sin(&self) -> (r: i64)
        ensures
            r == self@.sin,
            self@.is_unit(),
    {
        proof {
            use_type_invariant(self);
        }
        self.sin
    }

    /// The cosine.
    pub fn cos(&self) -> (r: i64)
        ensures
            r == self@.cos,
            self@.is_unit(),
    {
        proof {
            use_type_invariant(self);
        }
        self.cos
    }
}

/// Whether a vector has length one, up to [`NORM_TOLERANCE`] on its square.
pub fn is_normalized(v: &Point3) -> (r: bool)
    ensures
        r == normalized(v@),
{
    let limit: i64 = 2 * UNIT;
    if v.x < -limit || v.x > limit || v.y < -limit || v.y > limit || v.z < -limit || v.z > limit {
        proof {
            lemma_long_vector(v@);
        }
        return false;
    }
    proof {
        lemma_product_bound(v.x as int, v.x as int, limit as int, limit as int);
        lemma_product_bound(v.y as int, v.y as int, limit as int, limit as int);
        lemma_product_bound(v.z as int, v.z as int, limit as int, limit as int);
        assert(limit * limit == 4_000_000_000_000) by (nonlinear_arith)
            requires
                limit == 2_000_000,
        ;
    }
    let excess: i64 = v.x * v.x + v.y * v.y + v.z * v.z - UNIT * UNIT;
    -NORM_TOLERANCE <= excess && excess <= NORM_TOLERANCE
}

/// A vector with a coordinate beyond twice `UNIT` is not normalized.
proof fn lemma_long_vector(v: Vector)
    requires
        v.x < -2 * UNIT || v.x > 2 * UNIT || v.y < -2 * UNIT || v.y > 2 * UNIT || v.z < -2 * UNIT
            || v.z > 2 * UNIT,
    ensures
        !normalized(v),
{
    assert(v.x * v.x >= 0) by (nonlinear_arith);
    assert(v.y * v.y >= 0) by (nonlinear_arith);
    assert(v.z * v.z >= 0) by (nonlinear_arith);
    if v.x < -2 * UNIT || v.x > 2 * UNIT {
        lemma_long_square(v.x);
    } else if v.y < -2 * UNIT || v.y > 2 * UNIT {
        lemma_long_square(v.y);
    } else {
        lemma_long_square(v.z);
    }
}

/// The square of a number beyond twice `UNIT` is beyond four times `UNIT²`.
proof fn lemma_long_square(c: int)
    requires
        c < -2 * UNIT || c > 2 * UNIT,
    ensures
        c * c > 4 * (UNIT * UNIT),
{
    assert(c * c > 4_000_000_000_000) by (nonlinear_arith)
        requires
            c < -2_000_000 || c > 2_000_000,
    ;
}

/// The unit direction from the focus to the camera for a pitch and a yaw.
pub fn direction(pitch: &SinCos, yaw: &SinCos) -> (r: Point3)
    ensures
        r@ == direction_of(pitch@, yaw@),
        normalized(r@),
{
    proof {
        use_type_invariant(pitch);
        use_type_invariant(yaw);
        lemma_direction_normalized(pitch@, yaw@);
        lemma_direction_bounds(pitch@, yaw@);
    }
    Point3 { x: scale(yaw.sin, pitch.cos), y: pitch.sin, z: scale(yaw.cos, pitch.cos) }
}

/// No coordinate of a unit direction exceeds `UNIT + 3` in size.
pub proof fn lemma_direction_bounds(pitch: SinCosValue, yaw: SinCosValue)
    requires
        pitch.is_unit(),
        yaw.is_unit(),
    ensures
        -(UNIT + 3) <= direction_of(pitch, yaw).x <= UNIT + 3,
        -(UNIT + 3) <= direction_of(pitch, yaw).y <= UNIT + 3,
        -(UNIT + 3) <= direction_of(pitch, yaw).z <= UNIT + 3,
{
    let u = UNIT as int;
    lemma_unit_bounds(pitch);
    lemma_unit_bounds(yaw);
    lemma_product_bound(yaw.sin, pitch.cos, u + 1, u + 1);
    lemma_product_bound(yaw.cos, pitch.cos, u + 1, u + 1);
    lemma_quotient_bounds(yaw.sin * pitch.cos, u);
    lemma_quotient_bounds(yaw.cos * pitch.cos, u);
    assert((u + 1) * (u + 1) == 1_000_002_000_001) by (nonlinear_arith)
        requires
            u == 1_000_000,
    ;
    let x = quotient(yaw.sin * pitch.cos, u);
    let z = quotient(yaw.cos * pitch.cos, u);
    assert(-(u + 3) <= x <= u + 3) by (nonlinear_arith)
        requires
            u == 1_000_000,
            -1_000_002_000_001 - u < x * u < 1_000_002_000_001 + u,
    ;
    assert(-(u + 3) <= z <= u + 3) by (nonlinear_arith)
        requires
            u == 1_000_000,
            -1_000_002_000_001 - u < z * u < 1_000_002_000_001 + u,
    ;
}

} // verus!
