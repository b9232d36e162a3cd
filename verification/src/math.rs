//! Vectors, quaternions, 4x4 matrices and transforms over fixed-point
//! scalars.
//!
//! Matrices are row-major with the translation in the last column; a point
//! is transformed as `M * [x, y, z, 1]`. Every operation has a spec-level
//! mirror so that contracts can state results exactly.

use crate::fixed::{
    fx_add, fx_add_spec, fx_div, fx_div_spec, fx_mul, fx_mul_spec, fx_neg, fx_neg_spec, fx_sqrt,
    fx_sub, fx_sub_spec, fx_sqrt_spec, Fx, FX_SCALE,
};
use vstd::prelude::*;

verus! {

/// A two-component fixed-point vector.
#[derive(Clone, Copy, Debug, PartialEq, Eq, Structural)]
pub struct Vec2 {
    pub x: Fx,
    pub y: Fx,
}

/// A three-component fixed-point vector.
#[derive(Clone, Copy, Debug, PartialEq, Eq, Structural)]
pub struct Vec3 {
    pub x: Fx,
    pub y: Fx,
    pub z: Fx,
}

/// A fixed-point quaternion.
#[derive(Clone, Copy, Debug, PartialEq, Eq, Structural)]
pub struct Quat {
    pub x: Fx,
    pub y: Fx,
    pub z: Fx,
    pub w: Fx,
}

/// A row-major 4x4 fixed-point matrix; `mRC` is row `R`, column `C`.
#[derive(Clone, Copy, Debug, PartialEq, Eq, Structural)]
pub struct Mat4 {
    pub m00: Fx, pub m01: Fx, pub m02: Fx, pub m03: Fx,
    pub m10: Fx, pub m11: Fx, pub m12: Fx, pub m13: Fx,
    pub m20: Fx, pub m21: Fx, pub m22: Fx, pub m23: Fx,
    pub m30: Fx, pub m31: Fx, pub m32: Fx, pub m33: Fx,
}

/// A position, orientation and scale, the node-local pose.
#[derive(Clone, Copy, Debug, PartialEq, Eq, Structural)]
pub struct Transform {
    pub position: Vec3,
    pub orientation: Quat,
    pub scale: Vec3,
}

pub open spec fn vec3_zero_spec() -> Vec3 {
    Vec3 { x: Fx { raw: 0 }, y: Fx { raw: 0 }, z: Fx { raw: 0 } }
}

/// The zero vector.
pub fn vec3_zero() -> (r: Vec3)
    ensures
        r == vec3_zero_spec(),
{
    Vec3 { x: Fx { raw: 0 }, y: Fx { raw: 0 }, z: Fx { raw: 0 } }
}

pub open spec fn vec3_one_spec() -> Vec3 {
    Vec3 { x: Fx { raw: FX_SCALE }, y: Fx { raw: FX_SCALE }, z: Fx { raw: FX_SCALE } }
}

/// The all-ones vector, the identity scale.
pub fn vec3_one() -> (r: Vec3)
    ensures
        r == vec3_one_spec(),
{
    Vec3 { x: Fx { raw: FX_SCALE }, y: Fx { raw: FX_SCALE }, z: Fx { raw: FX_SCALE } }
}

pub open spec fn vec3_add_spec(a: Vec3, b: Vec3) -> Vec3 {
    Vec3 {
        x: fx_add_spec(a.x, b.x),
        y: fx_add_spec(a.y, b.y),
        z: fx_add_spec(a.z, b.z),
    }
}

/// Component-wise vector sum.
pub fn vec3_add(a: Vec3, b: Vec3) -> (r: Vec3)
    ensures
        r == vec3_add_spec(a, b),
{
    Vec3 { x: fx_add(a.x, b.x), y: fx_add(a.y, b.y), z: fx_add(a.z, b.z) }
}

pub open spec fn vec3_sub_spec(a: Vec3, b: Vec3) -> Vec3 {
    Vec3 {
        x: fx_sub_spec(a.x, b.x),
        y: fx_sub_spec(a.y, b.y),
        z: fx_sub_spec(a.z, b.z),
    }
}

/// Component-wise vector difference.
pub fn vec3_sub(a: Vec3, b: Vec3) -> (r: Vec3)
    ensures
        r == vec3_sub_spec(a, b),
{
    Vec3 { x: fx_sub(a.x, b.x), y: fx_sub(a.y, b.y), z: fx_sub(a.z, b.z) }
}

pub open spec fn vec3_scale_spec(a: Vec3, s: Fx) -> Vec3 {
    Vec3 {
        x: fx_mul_spec(a.x, s),
        y: fx_mul_spec(a.y, s),
        z: fx_mul_spec(a.z, s),
    }
}

/// A vector scaled by a scalar.
pub fn vec3_scale(a: Vec3, s: Fx) -> (r: Vec3)
    ensures
        r == vec3_scale_spec(a, s),
{
    Vec3 { x: fx_mul(a.x, s), y: fx_mul(a.y, s), z: fx_mul(a.z, s) }
}

pub open spec fn vec3_mul_spec(a: Vec3, b: Vec3) -> Vec3 {
    Vec3 {
        x: fx_mul_spec(a.x, b.x),
        y: fx_mul_spec(a.y, b.y),
        z: fx_mul_spec(a.z, b.z),
    }
}

/// Component-wise vector product.
pub fn vec3_mul(a: Vec3, b: Vec3) -> (r: Vec3)
    ensures
        r == vec3_mul_spec(a, b),
{
    Vec3 { x: fx_mul(a.x, b.x), y: fx_mul(a.y, b.y), z: fx_mul(a.z, b.z) }
}

pub open spec fn vec3_div_spec(a: Vec3, b: Vec3) -> Vec3 {
    Vec3 {
        x: fx_div_spec(a.x, b.x),
        y: fx_div_spec(a.y, b.y),
        z: fx_div_spec(a.z, b.z),
    }
}

/// Component-wise vector quotient; zero components divide to zero.
pub fn vec3_div(a: Vec3, b: Vec3) -> (r: Vec3)
    ensures
        r == vec3_div_spec(a, b),
{
    Vec3 { x: fx_div(a.x, b.x), y: fx_div(a.y, b.y), z: fx_div(a.z, b.z) }
}

pub open spec fn vec3_div_scalar_spec(a: Vec3, s: Fx) -> Vec3 {
    Vec3 {
        x: fx_div_spec(a.x, s),
        y: fx_div_spec(a.y, s),
        z: fx_div_spec(a.z, s),
    }
}

/// A vector divided by a scalar; a zero divisor yields zero components.
pub fn vec3_div_scalar(a: Vec3, s: Fx) -> (r: Vec3)
    ensures
        r == vec3_div_scalar_spec(a, s),
{
    Vec3 { x: fx_div(a.x, s), y: fx_div(a.y, s), z: fx_div(a.z, s) }
}

pub open spec fn quat_identity_spec() -> Quat {
    Quat { x: Fx { raw: 0 }, y: Fx { raw: 0 }, z: Fx { raw: 0 }, w: Fx { raw: FX_SCALE } }
}

/// The identity rotation.
pub fn quat_identity() -> (r: Quat)
    ensures
        r == quat_identity_spec(),
{
    Quat { x: Fx { raw: 0 }, y: Fx { raw: 0 }, z: Fx { raw: 0 }, w: Fx { raw: FX_SCALE } }
}

pub open spec fn quat_neg_spec(q: Quat) -> Quat {
    Quat {
        x: fx_neg_spec(q.x),
        y: fx_neg_spec(q.y),
        z: fx_neg_spec(q.z),
        w: fx_neg_spec(q.w),
    }
}

/// The component-wise negation; as a rotation it is the same orientation.
pub fn quat_neg(q: Quat) -> (r: Quat)
    ensures
        r == quat_neg_spec(q),
{
    Quat { x: fx_neg(q.x), y: fx_neg(q.y), z: fx_neg(q.z), w: fx_neg(q.w) }
}

pub open spec fn quat_dot_spec(a: Quat, b: Quat) -> Fx {
    fx_add_spec(
        fx_add_spec(
            fx_add_spec(fx_mul_spec(a.x, b.x), fx_mul_spec(a.y, b.y)),
            fx_mul_spec(a.z, b.z),
        ),
        fx_mul_spec(a.w, b.w),
    )
}

/// The four-component dot product.
pub fn quat_dot(a: Quat, b: Quat) -> (r: Fx)
    ensures
        r == quat_dot_spec(a, b),
{
    fx_add(fx_add(fx_add(fx_mul(a.x, b.x), fx_mul(a.y, b.y)), fx_mul(a.z, b.z)), fx_mul(a.w, b.w))
}

pub open spec fn quat_mul_spec(a: Quat, b: Quat) -> Quat {
    Quat {
        x: fx_sub_spec(
            fx_add_spec(
                fx_add_spec(fx_mul_spec(a.w, b.x), fx_mul_spec(a.x, b.w)),
                fx_mul_spec(a.y, b.z),
            ),
            fx_mul_spec(a.z, b.y),
        ),
        y: fx_add_spec(
            fx_add_spec(
                fx_sub_spec(fx_mul_spec(a.w, b.y), fx_mul_spec(a.x, b.z)),
                fx_mul_spec(a.y, b.w),
            ),
            fx_mul_spec(a.z, b.x),
        ),
        z: fx_add_spec(
            fx_sub_spec(
                fx_add_spec(fx_mul_spec(a.w, b.z), fx_mul_spec(a.x, b.y)),
                fx_mul_spec(a.y, b.x),
            ),
            fx_mul_spec(a.z, b.w),
        ),
        w: fx_sub_spec(
            fx_sub_spec(
                fx_sub_spec(fx_mul_spec(a.w, b.w), fx_mul_spec(a.x, b.x)),
                fx_mul_spec(a.y, b.y),
            ),
            fx_mul_spec(a.z, b.z),
        ),
    }
}

/// The Hamilton product: `a * b` rotates by `b` first, then by `a`.
pub fn quat_mul(a: Quat, b: Quat) -> (r: Quat)
    ensures
        r == quat_mul_spec(a, b),
{
    let x = fx_sub(
        fx_add(fx_add(fx_mul(a.w, b.x), fx_mul(a.x, b.w)), fx_mul(a.y, b.z)),
        fx_mul(a.z, b.y),
    );
    let y = fx_add(
        fx_add(fx_sub(fx_mul(a.w, b.y), fx_mul(a.x, b.z)), fx_mul(a.y, b.w)),
        fx_mul(a.z, b.x),
    );
    let z = fx_add(
        fx_sub(fx_add(fx_mul(a.w, b.z), fx_mul(a.x, b.y)), fx_mul(a.y, b.x)),
        fx_mul(a.z, b.w),
    );
    let w = fx_sub(
        fx_sub(fx_sub(fx_mul(a.w, b.w), fx_mul(a.x, b.x)), fx_mul(a.y, b.y)),
        fx_mul(a.z, b.z),
    );
    Quat { x, y, z, w }
}

pub open spec fn quat_inverse_spec(q: Quat) -> Quat {
    let n2 = quat_dot_spec(q, q);
    Quat {
        x: fx_div_spec(fx_neg_spec(q.x), n2),
        y: fx_div_spec(fx_neg_spec(q.y), n2),
        z: fx_div_spec(fx_neg_spec(q.z), n2),
        w: fx_div_spec(q.w, n2),
    }
}

/// The rotation inverse: the conjugate divided by the squared norm; a
/// zero quaternion inverts to zero.
pub fn quat_inverse(q: Quat) -> (r: Quat)
    ensures
        r == quat_inverse_spec(q),
{
    let n2 = quat_dot(q, q);
    Quat {
        x: fx_div(fx_neg(q.x), n2),
        y: fx_div(fx_neg(q.y), n2),
        z: fx_div(fx_neg(q.z), n2),
        w: fx_div(q.w, n2),
    }
}

pub open spec fn quat_scale_div_spec(q: Quat, m: Fx) -> Quat {
    Quat {
        x: fx_div_spec(q.x, m),
        y: fx_div_spec(q.y, m),
        z: fx_div_spec(q.z, m),
        w: fx_div_spec(q.w, m),
    }
}

/// The quaternion scaled to unit length: each component divided by the
/// floor square root of the squared norm; a zero magnitude divides to
/// the zero quaternion.
pub open spec fn quat_normalize_spec(q: Quat) -> Quat {
    quat_scale_div_spec(q, fx_sqrt_spec(quat_dot_spec(q, q)))
}

/// Scales a quaternion to unit length; a zero quaternion stays zero.
pub fn quat_normalize(q: Quat) -> (r: Quat)
    ensures
        r == quat_normalize_spec(q),
{
    let n2 = quat_dot(q, q);
    let m = fx_sqrt(n2);
    Quat { x: fx_div(q.x, m), y: fx_div(q.y, m), z: fx_div(q.z, m), w: fx_div(q.w, m) }
}

pub open spec fn quat_lerp_spec(a: Quat, b: Quat, t: Fx) -> Quat {
    Quat {
        x: fx_add_spec(a.x, fx_mul_spec(fx_sub_spec(b.x, a.x), t)),
        y: fx_add_spec(a.y, fx_mul_spec(fx_sub_spec(b.y, a.y), t)),
        z: fx_add_spec(a.z, fx_mul_spec(fx_sub_spec(b.z, a.z), t)),
        w: fx_add_spec(a.w, fx_mul_spec(fx_sub_spec(b.w, a.w), t)),
    }
}

fn quat_lerp(a: Quat, b: Quat, t: Fx) -> (r: Quat)
    ensures
        r == quat_lerp_spec(a, b, t),
{
    Quat {
        x: fx_add(a.x, fx_mul(fx_sub(b.x, a.x), t)),
        y: fx_add(a.y, fx_mul(fx_sub(b.y, a.y), t)),
        z: fx_add(a.z, fx_mul(fx_sub(b.z, a.z), t)),
        w: fx_add(a.w, fx_mul(fx_sub(b.w, a.w), t)),
    }
}

/// The shortest-arc blend of `a` and `b` at factor `t`: `b` is
/// sign-flipped onto `a`'s hemisphere, the components are interpolated
/// linearly, and the result is scaled to unit length.
pub open spec fn shortest_slerp_spec(a: Quat, b: Quat, t: Fx) -> Quat {
    let bb = if quat_dot_spec(a, b).raw < 0 {
        quat_neg_spec(b)
    } else {
        b
    };
    quat_normalize_spec(quat_lerp_spec(a, bb, t))
}

/// Blends two rotations along the shorter arc: the second operand is
/// sign-flipped when the dot product is negative, the components are
/// interpolated, and the result is renormalized.
pub fn shortest_slerp(a: Quat, b: Quat, t: Fx) -> (r: Quat)
    ensures
        r == shortest_slerp_spec(a, b, t),
{
    let d = quat_dot(a, b);
    let bb = if d.raw < 0 {
        quat_neg(b)
    } else {
        b
    };
    quat_normalize(quat_lerp(a, bb, t))
}

/// Whether every component stays above the raw minimum, so that
/// negation is exact; every arithmetic result satisfies this, only a
/// hand-built raw value can violate it.
pub open spec fn quat_ok(q: Quat) -> bool {
    &&& q.x.raw > i64::MIN
    &&& q.y.raw > i64::MIN
    &&& q.z.raw > i64::MIN
    &&& q.w.raw > i64::MIN
}

/// Blending a rotation with itself returns that rotation, normalized,
/// at every factor.
pub proof fn lemma_slerp_self(b: Quat, t: Fx)
    requires
        quat_ok(b),
    ensures
        shortest_slerp_spec(b, b, t) == quat_normalize_spec(b),
{
    crate::fixed::lemma_fx_mul_neg(b.x, b.x);
    assert(fx_mul_spec(b.x, b.x).raw >= 0 && fx_mul_spec(b.y, b.y).raw >= 0 && fx_mul_spec(
        b.z,
        b.z,
    ).raw >= 0 && fx_mul_spec(b.w, b.w).raw >= 0) by {
        lemma_square_nonneg(b.x);
        lemma_square_nonneg(b.y);
        lemma_square_nonneg(b.z);
        lemma_square_nonneg(b.w);
    }
    assert(quat_dot_spec(b, b).raw >= 0);
    assert(fx_sub_spec(b.x, b.x) == Fx { raw: 0 });
    vstd::arithmetic::div_mod::lemma_div_of0(FX_SCALE as int);
    assert(0int * crate::fixed::fx_abs_int(t.raw as int) == 0) by (nonlinear_arith);
    assert(fx_mul_spec(Fx { raw: 0 }, t) == Fx { raw: 0 });
    assert(fx_add_spec(b.x, Fx { raw: 0 }) == b.x);
    assert(fx_add_spec(b.y, Fx { raw: 0 }) == b.y);
    assert(fx_add_spec(b.z, Fx { raw: 0 }) == b.z);
    assert(fx_add_spec(b.w, Fx { raw: 0 }) == b.w);
    assert(quat_lerp_spec(b, b, t) == b);
}

/// A scalar's square is never negative.
proof fn lemma_square_nonneg(x: Fx)
    ensures
        fx_mul_spec(x, x).raw >= 0,
{
    let m = (crate::fixed::fx_abs_int(x.raw as int) * crate::fixed::fx_abs_int(x.raw as int)) / (
    FX_SCALE as int);
    assert(crate::fixed::fx_abs_int(x.raw as int) * crate::fixed::fx_abs_int(x.raw as int) >= 0)
        by (nonlinear_arith);
    vstd::arithmetic::div_mod::lemma_div_pos_is_pos(
        crate::fixed::fx_abs_int(x.raw as int) * crate::fixed::fx_abs_int(x.raw as int),
        FX_SCALE as int,
    );
}

/// The shortest-arc blend is invariant to a sign flip of the second
/// rotation, as long as the two rotations are not orthogonal (at a
/// zero dot product the flip cannot be told apart and the blend may
/// differ).
pub proof fn lemma_slerp_flip_second(a: Quat, b: Quat, t: Fx)
    requires
        quat_ok(b),
        quat_dot_spec(a, b).raw != 0,
    ensures
        shortest_slerp_spec(a, quat_neg_spec(b), t) == shortest_slerp_spec(a, b, t),
{
    let nb = quat_neg_spec(b);
    assert(nb.x.raw == -b.x.raw && nb.y.raw == -b.y.raw && nb.z.raw == -b.z.raw && nb.w.raw
        == -b.w.raw);
    crate::fixed::lemma_fx_mul_neg(a.x, b.x);
    crate::fixed::lemma_fx_mul_neg(a.y, b.y);
    crate::fixed::lemma_fx_mul_neg(a.z, b.z);
    crate::fixed::lemma_fx_mul_neg(a.w, b.w);
    crate::fixed::lemma_fx_add_neg(fx_mul_spec(a.x, b.x), fx_mul_spec(a.y, b.y));
    crate::fixed::lemma_fx_add_neg(
        fx_add_spec(fx_mul_spec(a.x, b.x), fx_mul_spec(a.y, b.y)),
        fx_mul_spec(a.z, b.z),
    );
    crate::fixed::lemma_fx_add_neg(
        fx_add_spec(
            fx_add_spec(fx_mul_spec(a.x, b.x), fx_mul_spec(a.y, b.y)),
            fx_mul_spec(a.z, b.z),
        ),
        fx_mul_spec(a.w, b.w),
    );
    assert(quat_dot_spec(a, nb).raw == -quat_dot_spec(a, b).raw);
    if quat_dot_spec(a, b).raw < 0 {
        assert(quat_neg_spec(nb) == b);
    } else {
        assert(quat_neg_spec(nb) == b);
    }
}

/// Whether two quaternions name the same rotation: equal, or equal up
/// to a global sign flip.
pub open spec fn same_rotation(p: Quat, q: Quat) -> bool {
    p == q || p == quat_neg_spec(q)
}

/// Negation keeps every component negatable, since every arithmetic
/// result lies in the symmetric raw range.
proof fn lemma_quat_neg_ok(q: Quat)
    requires
        quat_ok(q),
    ensures
        quat_ok(quat_neg_spec(q)),
        quat_neg_spec(quat_neg_spec(q)) == q,
{
}

/// The dot product flips sign with its first operand.
proof fn lemma_quat_dot_neg_first(a: Quat, b: Quat)
    requires
        quat_ok(a),
    ensures
        quat_dot_spec(quat_neg_spec(a), b) == fx_neg_spec(quat_dot_spec(a, b)),
{
    crate::fixed::lemma_fx_mul_neg_first(a.x, b.x);
    crate::fixed::lemma_fx_mul_neg_first(a.y, b.y);
    crate::fixed::lemma_fx_mul_neg_first(a.z, b.z);
    crate::fixed::lemma_fx_mul_neg_first(a.w, b.w);
    crate::fixed::lemma_fx_add_neg(fx_mul_spec(a.x, b.x), fx_mul_spec(a.y, b.y));
    crate::fixed::lemma_fx_add_neg(
        fx_add_spec(fx_mul_spec(a.x, b.x), fx_mul_spec(a.y, b.y)),
        fx_mul_spec(a.z, b.z),
    );
    crate::fixed::lemma_fx_add_neg(
        fx_add_spec(
            fx_add_spec(fx_mul_spec(a.x, b.x), fx_mul_spec(a.y, b.y)),
            fx_mul_spec(a.z, b.z),
        ),
        fx_mul_spec(a.w, b.w),
    );
}

/// Interpolating between two negated quaternions negates the
/// interpolation.
proof fn lemma_quat_lerp_neg(a: Quat, b: Quat, t: Fx)
    requires
        quat_ok(a),
        quat_ok(b),
    ensures
        quat_lerp_spec(quat_neg_spec(a), quat_neg_spec(b), t) == quat_neg_spec(
            quat_lerp_spec(a, b, t),
        ),
{
    crate::fixed::lemma_fx_sub_neg(b.x, a.x);
    crate::fixed::lemma_fx_sub_neg(b.y, a.y);
    crate::fixed::lemma_fx_sub_neg(b.z, a.z);
    crate::fixed::lemma_fx_sub_neg(b.w, a.w);
    crate::fixed::lemma_fx_mul_neg_first(fx_sub_spec(b.x, a.x), t);
    crate::fixed::lemma_fx_mul_neg_first(fx_sub_spec(b.y, a.y), t);
    crate::fixed::lemma_fx_mul_neg_first(fx_sub_spec(b.z, a.z), t);
    crate::fixed::lemma_fx_mul_neg_first(fx_sub_spec(b.w, a.w), t);
    crate::fixed::lemma_fx_add_neg(a.x, fx_mul_spec(fx_sub_spec(b.x, a.x), t));
    crate::fixed::lemma_fx_add_neg(a.y, fx_mul_spec(fx_sub_spec(b.y, a.y), t));
    crate::fixed::lemma_fx_add_neg(a.z, fx_mul_spec(fx_sub_spec(b.z, a.z), t));
    crate::fixed::lemma_fx_add_neg(a.w, fx_mul_spec(fx_sub_spec(b.w, a.w), t));
}

/// A negated quaternion has the same squared norm.
proof fn lemma_quat_dot_self_neg(q: Quat)
    requires
        quat_ok(q),
    ensures
        quat_dot_spec(quat_neg_spec(q), quat_neg_spec(q)) == quat_dot_spec(q, q),
{
    let nq = quat_neg_spec(q);
    assert(crate::fixed::fx_abs_int(nq.x.raw as int) == crate::fixed::fx_abs_int(q.x.raw as int));
    assert(crate::fixed::fx_abs_int(nq.y.raw as int) == crate::fixed::fx_abs_int(q.y.raw as int));
    assert(crate::fixed::fx_abs_int(nq.z.raw as int) == crate::fixed::fx_abs_int(q.z.raw as int));
    assert(crate::fixed::fx_abs_int(nq.w.raw as int) == crate::fixed::fx_abs_int(q.w.raw as int));
    assert(fx_mul_spec(nq.x, nq.x) == fx_mul_spec(q.x, q.x));
    assert(fx_mul_spec(nq.y, nq.y) == fx_mul_spec(q.y, q.y));
    assert(fx_mul_spec(nq.z, nq.z) == fx_mul_spec(q.z, q.z));
    assert(fx_mul_spec(nq.w, nq.w) == fx_mul_spec(q.w, q.w));
}

/// Normalization commutes with negation.
proof fn lemma_quat_normalize_neg(q: Quat)
    requires
        quat_ok(q),
    ensures
        quat_normalize_spec(quat_neg_spec(q)) == quat_neg_spec(quat_normalize_spec(q)),
{
    lemma_quat_dot_self_neg(q);
    let m = fx_sqrt_spec(quat_dot_spec(q, q));
    crate::fixed::lemma_fx_div_neg(q.x, m);
    crate::fixed::lemma_fx_div_neg(q.y, m);
    crate::fixed::lemma_fx_div_neg(q.z, m);
    crate::fixed::lemma_fx_div_neg(q.w, m);
}

/// Every component of an interpolation result is negatable: the
/// arithmetic saturates into the symmetric raw range.
proof fn lemma_quat_lerp_ok(a: Quat, b: Quat, t: Fx)
    ensures
        quat_ok(quat_lerp_spec(a, b, t)),
{
}

/// As rotations, the shortest-arc blend is invariant to a sign flip of
/// the first operand, as long as the two rotations are not orthogonal
/// (at a zero dot product the flip cannot be told apart and the blend
/// may differ as a rotation too).
pub proof fn lemma_slerp_flip_first(a: Quat, b: Quat, t: Fx)
    requires
        quat_ok(a),
        quat_ok(b),
        quat_dot_spec(a, b).raw != 0,
    ensures
        same_rotation(shortest_slerp_spec(quat_neg_spec(a), b, t), shortest_slerp_spec(a, b, t)),
{
    let na = quat_neg_spec(a);
    let nb = quat_neg_spec(b);
    lemma_quat_neg_ok(a);
    lemma_quat_neg_ok(b);
    lemma_quat_dot_neg_first(a, b);
    assert(quat_dot_spec(na, b).raw == -quat_dot_spec(a, b).raw);
    if quat_dot_spec(a, b).raw > 0 {
        assert(shortest_slerp_spec(a, b, t) == quat_normalize_spec(quat_lerp_spec(a, b, t)));
        assert(shortest_slerp_spec(na, b, t) == quat_normalize_spec(quat_lerp_spec(na, nb, t)));
        lemma_quat_lerp_neg(a, b, t);
        lemma_quat_lerp_ok(a, b, t);
        lemma_quat_normalize_neg(quat_lerp_spec(a, b, t));
    } else {
        assert(shortest_slerp_spec(a, b, t) == quat_normalize_spec(quat_lerp_spec(a, nb, t)));
        assert(quat_neg_spec(nb) == b);
        assert(shortest_slerp_spec(na, b, t) == quat_normalize_spec(quat_lerp_spec(na, b, t)));
        lemma_quat_lerp_neg(a, nb, t);
        assert(quat_lerp_spec(na, b, t) == quat_neg_spec(quat_lerp_spec(a, nb, t)));
        lemma_quat_lerp_ok(a, nb, t);
        lemma_quat_normalize_neg(quat_lerp_spec(a, nb, t));
    }
}

pub open spec fn mat_identity_spec() -> Mat4 {
    Mat4 {
        m00: Fx { raw: FX_SCALE }, m01: Fx { raw: 0 }, m02: Fx { raw: 0 }, m03: Fx { raw: 0 },
        m10: Fx { raw: 0 }, m11: Fx { raw: FX_SCALE }, m12: Fx { raw: 0 }, m13: Fx { raw: 0 },
        m20: Fx { raw: 0 }, m21: Fx { raw: 0 }, m22: Fx { raw: FX_SCALE }, m23: Fx { raw: 0 },
        m30: Fx { raw: 0 }, m31: Fx { raw: 0 }, m32: Fx { raw: 0 }, m33: Fx { raw: FX_SCALE },
    }
}

/// The identity matrix.
pub fn mat_identity() -> (r: Mat4)
    ensures
        r == mat_identity_spec(),
{
    Mat4 {
        m00: Fx { raw: FX_SCALE }, m01: Fx { raw: 0 }, m02: Fx { raw: 0 }, m03: Fx { raw: 0 },
        m10: Fx { raw: 0 }, m11: Fx { raw: FX_SCALE }, m12: Fx { raw: 0 }, m13: Fx { raw: 0 },
        m20: Fx { raw: 0 }, m21: Fx { raw: 0 }, m22: Fx { raw: FX_SCALE }, m23: Fx { raw: 0 },
        m30: Fx { raw: 0 }, m31: Fx { raw: 0 }, m32: Fx { raw: 0 }, m33: Fx { raw: FX_SCALE },
    }
}

pub open spec fn identity_transform_spec() -> Transform {
    Transform {
        position: vec3_zero_spec(),
        orientation: quat_identity_spec(),
        scale: vec3_one_spec(),
    }
}

/// The identity pose: zero position, identity orientation, unit scale.
pub fn identity_transform() -> (r: Transform)
    ensures
        r == identity_transform_spec(),
{
    Transform { position: vec3_zero(), orientation: quat_identity(), scale: vec3_one() }
}

/// The translation-rotation-scale matrix of a pose: the quaternion's
/// rotation matrix with columns scaled, and the position in the last
/// column.
#[verifier::opaque]
pub open spec fn transform_to_matrix_spec(t: Transform) -> Mat4 {
    let two = Fx { raw: 2_000_000 };
    let one = Fx { raw: FX_SCALE };
    let q = t.orientation;
    let xx = fx_mul_spec(two, fx_mul_spec(q.x, q.x));
    let yy = fx_mul_spec(two, fx_mul_spec(q.y, q.y));
    let zz = fx_mul_spec(two, fx_mul_spec(q.z, q.z));
    let xy = fx_mul_spec(two, fx_mul_spec(q.x, q.y));
    let xz = fx_mul_spec(two, fx_mul_spec(q.x, q.z));
    let yz = fx_mul_spec(two, fx_mul_spec(q.y, q.z));
    let xw = fx_mul_spec(two, fx_mul_spec(q.x, q.w));
    let yw = fx_mul_spec(two, fx_mul_spec(q.y, q.w));
    let zw = fx_mul_spec(two, fx_mul_spec(q.z, q.w));
    let r00 = fx_sub_spec(fx_sub_spec(one, yy), zz);
    let r01 = fx_sub_spec(xy, zw);
    let r02 = fx_add_spec(xz, yw);
    let r10 = fx_add_spec(xy, zw);
    let r11 = fx_sub_spec(fx_sub_spec(one, xx), zz);
    let r12 = fx_sub_spec(yz, xw);
    let r20 = fx_sub_spec(xz, yw);
    let r21 = fx_add_spec(yz, xw);
    let r22 = fx_sub_spec(fx_sub_spec(one, xx), yy);
    Mat4 {
        m00: fx_mul_spec(r00, t.scale.x),
        m01: fx_mul_spec(r01, t.scale.y),
        m02: fx_mul_spec(r02, t.scale.z),
        m03: t.position.x,
        m10: fx_mul_spec(r10, t.scale.x),
        m11: fx_mul_spec(r11, t.scale.y),
        m12: fx_mul_spec(r12, t.scale.z),
        m13: t.position.y,
        m20: fx_mul_spec(r20, t.scale.x),
        m21: fx_mul_spec(r21, t.scale.y),
        m22: fx_mul_spec(r22, t.scale.z),
        m23: t.position.z,
        m30: Fx { raw: 0 },
        m31: Fx { raw: 0 },
        m32: Fx { raw: 0 },
        m33: one,
    }
}

/// Builds the local matrix of a pose.
pub fn transform_to_matrix(t: &Transform) -> (r: Mat4)
    ensures
        r == transform_to_matrix_spec(*t),
{
    proof {
        reveal(transform_to_matrix_spec);
    }
    let two = Fx { raw: 2_000_000 };
    let one = Fx { raw: FX_SCALE };
    let q = t.orientation;
    let xx = fx_mul(two, fx_mul(q.x, q.x));
    let yy = fx_mul(two, fx_mul(q.y, q.y));
    let zz = fx_mul(two, fx_mul(q.z, q.z));
    let xy = fx_mul(two, fx_mul(q.x, q.y));
    let xz = fx_mul(two, fx_mul(q.x, q.z));
    let yz = fx_mul(two, fx_mul(q.y, q.z));
    let xw = fx_mul(two, fx_mul(q.x, q.w));
    let yw = fx_mul(two, fx_mul(q.y, q.w));
    let zw = fx_mul(two, fx_mul(q.z, q.w));
    let r00 = fx_sub(fx_sub(one, yy), zz);
    let r01 = fx_sub(xy, zw);
    let r02 = fx_add(xz, yw);
    let r10 = fx_add(xy, zw);
    let r11 = fx_sub(fx_sub(one, xx), zz);
    let r12 = fx_sub(yz, xw);
    let r20 = fx_sub(xz, yw);
    let r21 = fx_add(yz, xw);
    let r22 = fx_sub(fx_sub(one, xx), yy);
    Mat4 {
        m00: fx_mul(r00, t.scale.x),
        m01: fx_mul(r01, t.scale.y),
        m02: fx_mul(r02, t.scale.z),
        m03: t.position.x,
        m10: fx_mul(r10, t.scale.x),
        m11: fx_mul(r11, t.scale.y),
        m12: fx_mul(r12, t.scale.z),
        m13: t.position.y,
        m20: fx_mul(r20, t.scale.x),
        m21: fx_mul(r21, t.scale.y),
        m22: fx_mul(r22, t.scale.z),
        m23: t.position.z,
        m30: Fx { raw: 0 },
        m31: Fx { raw: 0 },
        m32: Fx { raw: 0 },
        m33: one,
    }
}

pub open spec fn mat_mul_point3_spec(m: Mat4, v: Vec3) -> Vec3 {
    Vec3 {
        x: fx_add_spec(
            fx_add_spec(
                fx_add_spec(fx_mul_spec(m.m00, v.x), fx_mul_spec(m.m01, v.y)),
                fx_mul_spec(m.m02, v.z),
            ),
            m.m03,
        ),
        y: fx_add_spec(
            fx_add_spec(
                fx_add_spec(fx_mul_spec(m.m10, v.x), fx_mul_spec(m.m11, v.y)),
                fx_mul_spec(m.m12, v.z),
            ),
            m.m13,
        ),
        z: fx_add_spec(
            fx_add_spec(
                fx_add_spec(fx_mul_spec(m.m20, v.x), fx_mul_spec(m.m21, v.y)),
                fx_mul_spec(m.m22, v.z),
            ),
            m.m23,
        ),
    }
}

/// Applies the matrix to a point, with an implicit unit fourth component.
pub fn mat_mul_point3(m: &Mat4, v: Vec3) -> (r: Vec3)
    ensures
        r == mat_mul_point3_spec(*m, v),
{
    Vec3 {
        x: fx_add(fx_add(fx_add(fx_mul(m.m00, v.x), fx_mul(m.m01, v.y)), fx_mul(m.m02, v.z)), m.m03),
        y: fx_add(fx_add(fx_add(fx_mul(m.m10, v.x), fx_mul(m.m11, v.y)), fx_mul(m.m12, v.z)), m.m13),
        z: fx_add(fx_add(fx_add(fx_mul(m.m20, v.x), fx_mul(m.m21, v.y)), fx_mul(m.m22, v.z)), m.m23),
    }
}

pub open spec fn mat_mul_point2_spec(m: Mat4, v: Vec2) -> Vec2 {
    Vec2 {
        x: fx_add_spec(fx_add_spec(fx_mul_spec(m.m00, v.x), fx_mul_spec(m.m01, v.y)), m.m03),
        y: fx_add_spec(fx_add_spec(fx_mul_spec(m.m10, v.x), fx_mul_spec(m.m11, v.y)), m.m13),
    }
}

/// Applies the matrix to a planar point, with zero third and unit fourth
/// components.
pub fn mat_mul_point2(m: &Mat4, v: Vec2) -> (r: Vec2)
    ensures
        r == mat_mul_point2_spec(*m, v),
{
    Vec2 {
        x: fx_add(fx_add(fx_mul(m.m00, v.x), fx_mul(m.m01, v.y)), m.m03),
        y: fx_add(fx_add(fx_mul(m.m10, v.x), fx_mul(m.m11, v.y)), m.m13),
    }
}

/// The matrix product, entry by entry over saturating scalar operations.
#[verifier::opaque]
pub open spec fn mat_mul_spec(a: Mat4, b: Mat4) -> Mat4 {
    Mat4 {
        m00: fx_add_spec(fx_add_spec(fx_add_spec(fx_mul_spec(a.m00, b.m00), fx_mul_spec(a.m01, b.m10)), fx_mul_spec(a.m02, b.m20)), fx_mul_spec(a.m03, b.m30)),
        m01: fx_add_spec(fx_add_spec(fx_add_spec(fx_mul_spec(a.m00, b.m01), fx_mul_spec(a.m01, b.m11)), fx_mul_spec(a.m02, b.m21)), fx_mul_spec(a.m03, b.m31)),
        m02: fx_add_spec(fx_add_spec(fx_add_spec(fx_mul_spec(a.m00, b.m02), fx_mul_spec(a.m01, b.m12)), fx_mul_spec(a.m02, b.m22)), fx_mul_spec(a.m03, b.m32)),
        m03: fx_add_spec(fx_add_spec(fx_add_spec(fx_mul_spec(a.m00, b.m03), fx_mul_spec(a.m01, b.m13)), fx_mul_spec(a.m02, b.m23)), fx_mul_spec(a.m03, b.m33)),
        m10: fx_add_spec(fx_add_spec(fx_add_spec(fx_mul_spec(a.m10, b.m00), fx_mul_spec(a.m11, b.m10)), fx_mul_spec(a.m12, b.m20)), fx_mul_spec(a.m13, b.m30)),
        m11: fx_add_spec(fx_add_spec(fx_add_spec(fx_mul_spec(a.m10, b.m01), fx_mul_spec(a.m11, b.m11)), fx_mul_spec(a.m12, b.m21)), fx_mul_spec(a.m13, b.m31)),
        m12: fx_add_spec(fx_add_spec(fx_add_spec(fx_mul_spec(a.m10, b.m02), fx_mul_spec(a.m11, b.m12)), fx_mul_spec(a.m12, b.m22)), fx_mul_spec(a.m13, b.m32)),
        m13: fx_add_spec(fx_add_spec(fx_add_spec(fx_mul_spec(a.m10, b.m03), fx_mul_spec(a.m11, b.m13)), fx_mul_spec(a.m12, b.m23)), fx_mul_spec(a.m13, b.m33)),
        m20: fx_add_spec(fx_add_spec(fx_add_spec(fx_mul_spec(a.m20, b.m00), fx_mul_spec(a.m21, b.m10)), fx_mul_spec(a.m22, b.m20)), fx_mul_spec(a.m23, b.m30)),
        m21: fx_add_spec(fx_add_spec(fx_add_spec(fx_mul_spec(a.m20, b.m01), fx_mul_spec(a.m21, b.m11)), fx_mul_spec(a.m22, b.m21)), fx_mul_spec(a.m23, b.m31)),
        m22: fx_add_spec(fx_add_spec(fx_add_spec(fx_mul_spec(a.m20, b.m02), fx_mul_spec(a.m21, b.m12)), fx_mul_spec(a.m22, b.m22)), fx_mul_spec(a.m23, b.m32)),
        m23: fx_add_spec(fx_add_spec(fx_add_spec(fx_mul_spec(a.m20, b.m03), fx_mul_spec(a.m21, b.m13)), fx_mul_spec(a.m22, b.m23)), fx_mul_spec(a.m23, b.m33)),
        m30: fx_add_spec(fx_add_spec(fx_add_spec(fx_mul_spec(a.m30, b.m00), fx_mul_spec(a.m31, b.m10)), fx_mul_spec(a.m32, b.m20)), fx_mul_spec(a.m33, b.m30)),
        m31: fx_add_spec(fx_add_spec(fx_add_spec(fx_mul_spec(a.m30, b.m01), fx_mul_spec(a.m31, b.m11)), fx_mul_spec(a.m32, b.m21)), fx_mul_spec(a.m33, b.m31)),
        m32: fx_add_spec(fx_add_spec(fx_add_spec(fx_mul_spec(a.m30, b.m02), fx_mul_spec(a.m31, b.m12)), fx_mul_spec(a.m32, b.m22)), fx_mul_spec(a.m33, b.m32)),
        m33: fx_add_spec(fx_add_spec(fx_add_spec(fx_mul_spec(a.m30, b.m03), fx_mul_spec(a.m31, b.m13)), fx_mul_spec(a.m32, b.m23)), fx_mul_spec(a.m33, b.m33)),
    }
}

/// Multiplies two matrices.
pub fn mat_mul(a: &Mat4, b: &Mat4) -> (r: Mat4)
    ensures
        r == mat_mul_spec(*a, *b),
{
    proof {
        reveal(mat_mul_spec);
    }
    let m00 = fx_add(fx_add(fx_add(fx_mul(a.m00, b.m00), fx_mul(a.m01, b.m10)), fx_mul(a.m02, b.m20)), fx_mul(a.m03, b.m30));
    let m01 = fx_add(fx_add(fx_add(fx_mul(a.m00, b.m01), fx_mul(a.m01, b.m11)), fx_mul(a.m02, b.m21)), fx_mul(a.m03, b.m31));
    let m02 = fx_add(fx_add(fx_add(fx_mul(a.m00, b.m02), fx_mul(a.m01, b.m12)), fx_mul(a.m02, b.m22)), fx_mul(a.m03, b.m32));
    let m03 = fx_add(fx_add(fx_add(fx_mul(a.m00, b.m03), fx_mul(a.m01, b.m13)), fx_mul(a.m02, b.m23)), fx_mul(a.m03, b.m33));
    let m10 = fx_add(fx_add(fx_add(fx_mul(a.m10, b.m00), fx_mul(a.m11, b.m10)), fx_mul(a.m12, b.m20)), fx_mul(a.m13, b.m30));
    let m11 = fx_add(fx_add(fx_add(fx_mul(a.m10, b.m01), fx_mul(a.m11, b.m11)), fx_mul(a.m12, b.m21)), fx_mul(a.m13, b.m31));
    let m12 = fx_add(fx_add(fx_add(fx_mul(a.m10, b.m02), fx_mul(a.m11, b.m12)), fx_mul(a.m12, b.m22)), fx_mul(a.m13, b.m32));
    let m13 = fx_add(fx_add(fx_add(fx_mul(a.m10, b.m03), fx_mul(a.m11, b.m13)), fx_mul(a.m12, b.m23)), fx_mul(a.m13, b.m33));
    let m20 = fx_add(fx_add(fx_add(fx_mul(a.m20, b.m00), fx_mul(a.m21, b.m10)), fx_mul(a.m22, b.m20)), fx_mul(a.m23, b.m30));
    let m21 = fx_add(fx_add(fx_add(fx_mul(a.m20, b.m01), fx_mul(a.m21, b.m11)), fx_mul(a.m22, b.m21)), fx_mul(a.m23, b.m31));
    let m22 = fx_add(fx_add(fx_add(fx_mul(a.m20, b.m02), fx_mul(a.m21, b.m12)), fx_mul(a.m22, b.m22)), fx_mul(a.m23, b.m32));
    let m23 = fx_add(fx_add(fx_add(fx_mul(a.m20, b.m03), fx_mul(a.m21, b.m13)), fx_mul(a.m22, b.m23)), fx_mul(a.m23, b.m33));
    let m30 = fx_add(fx_add(fx_add(fx_mul(a.m30, b.m00), fx_mul(a.m31, b.m10)), fx_mul(a.m32, b.m20)), fx_mul(a.m33, b.m30));
    let m31 = fx_add(fx_add(fx_add(fx_mul(a.m30, b.m01), fx_mul(a.m31, b.m11)), fx_mul(a.m32, b.m21)), fx_mul(a.m33, b.m31));
    let m32 = fx_add(fx_add(fx_add(fx_mul(a.m30, b.m02), fx_mul(a.m31, b.m12)), fx_mul(a.m32, b.m22)), fx_mul(a.m33, b.m32));
    let m33 = fx_add(fx_add(fx_add(fx_mul(a.m30, b.m03), fx_mul(a.m31, b.m13)), fx_mul(a.m32, b.m23)), fx_mul(a.m33, b.m33));
    Mat4 { m00, m01, m02, m03, m10, m11, m12, m13, m20, m21, m22, m23, m30, m31, m32, m33 }
}

/// The matrix inverse by the adjugate, entry by entry over saturating
/// scalar operations; a zero determinant yields the identity matrix.
#[verifier::opaque]
pub open spec fn mat_inverse_spec(a: Mat4) -> Mat4 {
    let s0 = fx_sub_spec(fx_mul_spec(a.m00, a.m11), fx_mul_spec(a.m10, a.m01));
    let s1 = fx_sub_spec(fx_mul_spec(a.m00, a.m12), fx_mul_spec(a.m10, a.m02));
    let s2 = fx_sub_spec(fx_mul_spec(a.m00, a.m13), fx_mul_spec(a.m10, a.m03));
    let s3 = fx_sub_spec(fx_mul_spec(a.m01, a.m12), fx_mul_spec(a.m11, a.m02));
    let s4 = fx_sub_spec(fx_mul_spec(a.m01, a.m13), fx_mul_spec(a.m11, a.m03));
    let s5 = fx_sub_spec(fx_mul_spec(a.m02, a.m13), fx_mul_spec(a.m12, a.m03));
    let c5 = fx_sub_spec(fx_mul_spec(a.m22, a.m33), fx_mul_spec(a.m32, a.m23));
    let c4 = fx_sub_spec(fx_mul_spec(a.m21, a.m33), fx_mul_spec(a.m31, a.m23));
    let c3 = fx_sub_spec(fx_mul_spec(a.m21, a.m32), fx_mul_spec(a.m31, a.m22));
    let c2 = fx_sub_spec(fx_mul_spec(a.m20, a.m33), fx_mul_spec(a.m30, a.m23));
    let c1 = fx_sub_spec(fx_mul_spec(a.m20, a.m32), fx_mul_spec(a.m30, a.m22));
    let c0 = fx_sub_spec(fx_mul_spec(a.m20, a.m31), fx_mul_spec(a.m30, a.m21));
    let det = fx_add_spec(fx_sub_spec(fx_add_spec(fx_add_spec(fx_sub_spec(fx_mul_spec(s0, c5), fx_mul_spec(s1, c4)), fx_mul_spec(s2, c3)), fx_mul_spec(s3, c2)), fx_mul_spec(s4, c1)), fx_mul_spec(s5, c0));
    if det.raw == 0 {
        mat_identity_spec()
    } else {
        Mat4 {
            m00: fx_div_spec(fx_add_spec(fx_sub_spec(fx_mul_spec(a.m11, c5), fx_mul_spec(a.m12, c4)), fx_mul_spec(a.m13, c3)), det),
            m01: fx_div_spec(fx_sub_spec(fx_add_spec(fx_neg_spec(fx_mul_spec(a.m01, c5)), fx_mul_spec(a.m02, c4)), fx_mul_spec(a.m03, c3)), det),
            m02: fx_div_spec(fx_add_spec(fx_sub_spec(fx_mul_spec(a.m31, s5), fx_mul_spec(a.m32, s4)), fx_mul_spec(a.m33, s3)), det),
            m03: fx_div_spec(fx_sub_spec(fx_add_spec(fx_neg_spec(fx_mul_spec(a.m21, s5)), fx_mul_spec(a.m22, s4)), fx_mul_spec(a.m23, s3)), det),
            m10: fx_div_spec(fx_sub_spec(fx_add_spec(fx_neg_spec(fx_mul_spec(a.m10, c5)), fx_mul_spec(a.m12, c2)), fx_mul_spec(a.m13, c1)), det),
            m11: fx_div_spec(fx_add_spec(fx_sub_spec(fx_mul_spec(a.m00, c5), fx_mul_spec(a.m02, c2)), fx_mul_spec(a.m03, c1)), det),
            m12: fx_div_spec(fx_sub_spec(fx_add_spec(fx_neg_spec(fx_mul_spec(a.m30, s5)), fx_mul_spec(a.m32, s2)), fx_mul_spec(a.m33, s1)), det),
            m13: fx_div_spec(fx_add_spec(fx_sub_spec(fx_mul_spec(a.m20, s5), fx_mul_spec(a.m22, s2)), fx_mul_spec(a.m23, s1)), det),
            m20: fx_div_spec(fx_add_spec(fx_sub_spec(fx_mul_spec(a.m10, c4), fx_mul_spec(a.m11, c2)), fx_mul_spec(a.m13, c0)), det),
            m21: fx_div_spec(fx_sub_spec(fx_add_spec(fx_neg_spec(fx_mul_spec(a.m00, c4)), fx_mul_spec(a.m01, c2)), fx_mul_spec(a.m03, c0)), det),
            m22: fx_div_spec(fx_add_spec(fx_sub_spec(fx_mul_spec(a.m30, s4), fx_mul_spec(a.m31, s2)), fx_mul_spec(a.m33, s0)), det),
            m23: fx_div_spec(fx_sub_spec(fx_add_spec(fx_neg_spec(fx_mul_spec(a.m20, s4)), fx_mul_spec(a.m21, s2)), fx_mul_spec(a.m23, s0)), det),
            m30: fx_div_spec(fx_sub_spec(fx_add_spec(fx_neg_spec(fx_mul_spec(a.m10, c3)), fx_mul_spec(a.m11, c1)), fx_mul_spec(a.m12, c0)), det),
            m31: fx_div_spec(fx_add_spec(fx_sub_spec(fx_mul_spec(a.m00, c3), fx_mul_spec(a.m01, c1)), fx_mul_spec(a.m02, c0)), det),
            m32: fx_div_spec(fx_sub_spec(fx_add_spec(fx_neg_spec(fx_mul_spec(a.m30, s3)), fx_mul_spec(a.m31, s1)), fx_mul_spec(a.m32, s0)), det),
            m33: fx_div_spec(fx_add_spec(fx_sub_spec(fx_mul_spec(a.m20, s3), fx_mul_spec(a.m21, s1)), fx_mul_spec(a.m22, s0)), det),
        }
    }
}

/// Inverts a matrix by the adjugate; a zero determinant yields the identity.
pub fn mat_inverse(a: &Mat4) -> (r: Mat4)
    ensures
        r == mat_inverse_spec(*a),
{
    proof {
        reveal(mat_inverse_spec);
    }
    let s0 = fx_sub(fx_mul(a.m00, a.m11), fx_mul(a.m10, a.m01));
    let s1 = fx_sub(fx_mul(a.m00, a.m12), fx_mul(a.m10, a.m02));
    let s2 = fx_sub(fx_mul(a.m00, a.m13), fx_mul(a.m10, a.m03));
    let s3 = fx_sub(fx_mul(a.m01, a.m12), fx_mul(a.m11, a.m02));
    let s4 = fx_sub(fx_mul(a.m01, a.m13), fx_mul(a.m11, a.m03));
    let s5 = fx_sub(fx_mul(a.m02, a.m13), fx_mul(a.m12, a.m03));
    let c5 = fx_sub(fx_mul(a.m22, a.m33), fx_mul(a.m32, a.m23));
    let c4 = fx_sub(fx_mul(a.m21, a.m33), fx_mul(a.m31, a.m23));
    let c3 = fx_sub(fx_mul(a.m21, a.m32), fx_mul(a.m31, a.m22));
    let c2 = fx_sub(fx_mul(a.m20, a.m33), fx_mul(a.m30, a.m23));
    let c1 = fx_sub(fx_mul(a.m20, a.m32), fx_mul(a.m30, a.m22));
    let c0 = fx_sub(fx_mul(a.m20, a.m31), fx_mul(a.m30, a.m21));
    let det = fx_add(fx_sub(fx_add(fx_add(fx_sub(fx_mul(s0, c5), fx_mul(s1, c4)), fx_mul(s2, c3)), fx_mul(s3, c2)), fx_mul(s4, c1)), fx_mul(s5, c0));
    if det.raw == 0 {
        return mat_identity();
    }
    let m00 = fx_div(fx_add(fx_sub(fx_mul(a.m11, c5), fx_mul(a.m12, c4)), fx_mul(a.m13, c3)), det);
    let m01 = fx_div(fx_sub(fx_add(fx_neg(fx_mul(a.m01, c5)), fx_mul(a.m02, c4)), fx_mul(a.m03, c3)), det);
    let m02 = fx_div(fx_add(fx_sub(fx_mul(a.m31, s5), fx_mul(a.m32, s4)), fx_mul(a.m33, s3)), det);
    let m03 = fx_div(fx_sub(fx_add(fx_neg(fx_mul(a.m21, s5)), fx_mul(a.m22, s4)), fx_mul(a.m23, s3)), det);
    let m10 = fx_div(fx_sub(fx_add(fx_neg(fx_mul(a.m10, c5)), fx_mul(a.m12, c2)), fx_mul(a.m13, c1)), det);
    let m11 = fx_div(fx_add(fx_sub(fx_mul(a.m00, c5), fx_mul(a.m02, c2)), fx_mul(a.m03, c1)), det);
    let m12 = fx_div(fx_sub(fx_add(fx_neg(fx_mul(a.m30, s5)), fx_mul(a.m32, s2)), fx_mul(a.m33, s1)), det);
    let m13 = fx_div(fx_add(fx_sub(fx_mul(a.m20, s5), fx_mul(a.m22, s2)), fx_mul(a.m23, s1)), det);
    let m20 = fx_div(fx_add(fx_sub(fx_mul(a.m10, c4), fx_mul(a.m11, c2)), fx_mul(a.m13, c0)), det);
    let m21 = fx_div(fx_sub(fx_add(fx_neg(fx_mul(a.m00, c4)), fx_mul(a.m01, c2)), fx_mul(a.m03, c0)), det);
    let m22 = fx_div(fx_add(fx_sub(fx_mul(a.m30, s4), fx_mul(a.m31, s2)), fx_mul(a.m33, s0)), det);
    let m23 = fx_div(fx_sub(fx_add(fx_neg(fx_mul(a.m20, s4)), fx_mul(a.m21, s2)), fx_mul(a.m23, s0)), det);
    let m30 = fx_div(fx_sub(fx_add(fx_neg(fx_mul(a.m10, c3)), fx_mul(a.m11, c1)), fx_mul(a.m12, c0)), det);
    let m31 = fx_div(fx_add(fx_sub(fx_mul(a.m00, c3), fx_mul(a.m01, c1)), fx_mul(a.m02, c0)), det);
    let m32 = fx_div(fx_sub(fx_add(fx_neg(fx_mul(a.m30, s3)), fx_mul(a.m31, s1)), fx_mul(a.m32, s0)), det);
    let m33 = fx_div(fx_add(fx_sub(fx_mul(a.m20, s3), fx_mul(a.m21, s1)), fx_mul(a.m22, s0)), det);
    Mat4 { m00, m01, m02, m03, m10, m11, m12, m13, m20, m21, m22, m23, m30, m31, m32, m33 }
}

} // verus!
