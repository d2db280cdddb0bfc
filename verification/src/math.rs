//! 3D vector and 4x4 homogeneous matrix primitives over Q16.16 fixed point.
//!
//! Every executable operation mirrors a spec function exactly, so callers
//! reason about vectors and matrices through the `V3` and `M4` models.
use vstd::prelude::*;

use crate::fx::{
    fx_add, fx_add_s, fx_div, fx_div_s, fx_mul, fx_mul_s, fx_neg, fx_neg_s, fx_sqrt, fx_sqrt_s,
    fx_sub, fx_sub_s, fx_cos, fx_cos_s, fx_sin, fx_sin_s, FX_ONE, FX_PI,
};

verus! {

/// Mathematical model of a vector: three unbounded integers, each standing
/// for a fixed-point coordinate.
pub struct V3 {
    pub x: int,
    pub y: int,
    pub z: int,
}

/// A 3D vector of Q16.16 fixed-point coordinates.
#[derive(Clone, Copy, PartialEq, Eq, Structural, Debug)]
pub struct Vec3f {
    pub x: i64,
    pub y: i64,
    pub z: i64,
}

impl View for Vec3f {
    type V = V3;

    open spec fn view(&self) -> V3 {
        V3 { x: self.x as int, y: self.y as int, z: self.z as int }
    }
}

/// The vector whose coordinates are the model's; meaningful when each
/// model coordinate lies in the `i64` range, as every saturating
/// operation guarantees.
pub open spec fn vec3_of(v: V3) -> Vec3f {
    Vec3f { x: v.x as i64, y: v.y as i64, z: v.z as i64 }
}

/// Component-wise saturating sum.
pub open spec fn v3_add_s(a: V3, b: V3) -> V3 {
    V3 { x: fx_add_s(a.x, b.x), y: fx_add_s(a.y, b.y), z: fx_add_s(a.z, b.z) }
}

/// Component-wise saturating difference.
pub open spec fn v3_sub_s(a: V3, b: V3) -> V3 {
    V3 { x: fx_sub_s(a.x, b.x), y: fx_sub_s(a.y, b.y), z: fx_sub_s(a.z, b.z) }
}

/// Component-wise saturating negation.
pub open spec fn v3_neg_s(a: V3) -> V3 {
    V3 { x: fx_neg_s(a.x), y: fx_neg_s(a.y), z: fx_neg_s(a.z) }
}

/// Every component scaled by the fixed-point factor `k`.
pub open spec fn v3_scale_s(a: V3, k: int) -> V3 {
    V3 { x: fx_mul_s(a.x, k), y: fx_mul_s(a.y, k), z: fx_mul_s(a.z, k) }
}

/// The fixed-point dot product, accumulated left to right.
pub open spec fn v3_dot_s(a: V3, b: V3) -> int {
    fx_add_s(fx_add_s(fx_mul_s(a.x, b.x), fx_mul_s(a.y, b.y)), fx_mul_s(a.z, b.z))
}

/// The fixed-point cross product.
pub open spec fn v3_cross_s(a: V3, b: V3) -> V3 {
    V3 {
        x: fx_sub_s(fx_mul_s(a.y, b.z), fx_mul_s(a.z, b.y)),
        y: fx_sub_s(fx_mul_s(a.z, b.x), fx_mul_s(a.x, b.z)),
        z: fx_sub_s(fx_mul_s(a.x, b.y), fx_mul_s(a.y, b.x)),
    }
}

/// The fixed-point Euclidean length: the square root of the dot product
/// of the vector with itself.
pub open spec fn v3_length_s(a: V3) -> int {
    fx_sqrt_s(v3_dot_s(a, a))
}

/// The vector rescaled to unit length by dividing each component by the
/// length; the zero-length case degenerates to the zero vector.
pub open spec fn v3_normalize_s(a: V3) -> V3 {
    let l = v3_length_s(a);
    if l == 0 {
        V3 { x: 0, y: 0, z: 0 }
    } else {
        V3 { x: fx_div_s(a.x, l), y: fx_div_s(a.y, l), z: fx_div_s(a.z, l) }
    }
}

impl Vec3f {
    /// Builds a vector from three fixed-point coordinates.
    pub fn new(x: i64, y: i64, z: i64) -> (r: Self)
        ensures
            r@ == (V3 { x: x as int, y: y as int, z: z as int }),
    {
        Self { x, y, z }
    }

    /// The zero vector.
    pub fn zero() -> (r: Self)
        ensures
            r@ == (V3 { x: 0, y: 0, z: 0 }),
    {
        Self { x: 0, y: 0, z: 0 }
    }

    /// Component-wise saturating sum.
    pub fn add(&self, rhs: &Self) -> (r: Self)
        ensures
            r@ == v3_add_s(self@, rhs@),
    {
        Self { x: fx_add(self.x, rhs.x), y: fx_add(self.y, rhs.y), z: fx_add(self.z, rhs.z) }
    }

    /// Component-wise saturating difference.
    pub fn sub(&self, rhs: &Self) -> (r: Self)
        ensures
            r@ == v3_sub_s(self@, rhs@),
    {
        Self { x: fx_sub(self.x, rhs.x), y: fx_sub(self.y, rhs.y), z: fx_sub(self.z, rhs.z) }
    }

    /// Component-wise saturating negation.
    pub fn neg(&self) -> (r: Self)
        ensures
            r@ == v3_neg_s(self@),
    {
        Self { x: fx_neg(self.x), y: fx_neg(self.y), z: fx_neg(self.z) }
    }

    /// Every component scaled by the fixed-point factor `scale`.
    pub fn scale(&self, scale: i64) -> (r: Self)
        ensures
            r@ == v3_scale_s(self@, scale as int),
    {
        Self { x: fx_mul(self.x, scale), y: fx_mul(self.y, scale), z: fx_mul(self.z, scale) }
    }

    /// The fixed-point dot product.
    pub fn dot(&self, rhs: &Self) -> (r: i64)
        ensures
            r as int == v3_dot_s(self@, rhs@),
    {
        fx_add(fx_add(fx_mul(self.x, rhs.x), fx_mul(self.y, rhs.y)), fx_mul(self.z, rhs.z))
    }

    /// The fixed-point cross product.
    pub fn cross(&self, rhs: &Self) -> (r: Self)
        ensures
            r@ == v3_cross_s(self@, rhs@),
    {
        Self {
            x: fx_sub(fx_mul(self.y, rhs.z), fx_mul(self.z, rhs.y)),
            y: fx_sub(fx_mul(self.z, rhs.x), fx_mul(self.x, rhs.z)),
            z: fx_sub(fx_mul(self.x, rhs.y), fx_mul(self.y, rhs.x)),
        }
    }

    /// The fixed-point Euclidean length.
    pub fn length(&self) -> (r: i64)
        ensures
            r as int == v3_length_s(self@),
            r >= 0,
    {
        fx_sqrt(self.dot(self))
    }

    /// Rescales the vector to unit length; a zero-length vector degenerates
    /// to the zero vector instead of propagating an undefined quotient.
    pub fn normalize(&self) -> (r: Self)
        ensures
            r@ == v3_normalize_s(self@),
    {
        let l = self.length();
        if l == 0 {
            Self { x: 0, y: 0, z: 0 }
        } else {
            Self { x: fx_div(self.x, l), y: fx_div(self.y, l), z: fx_div(self.z, l) }
        }
    }
}

/// Rescaling by one step per unit is the identity on the `i64` range.
proof fn lemma_fx_cancel(v: int)
    requires
        i64::MIN <= v <= i64::MAX,
    ensures
        fx_mul_s(FX_ONE as int, v) == v,
        fx_mul_s(v, FX_ONE as int) == v,
        fx_mul_s(0, v) == 0,
        fx_mul_s(v, 0) == 0,
        fx_div_s(v, FX_ONE as int) == v,
{
    let f = FX_ONE as int;
    if v >= 0 {
        assert(v * f >= 0 && f * v == v * f) by (nonlinear_arith)
            requires
                v >= 0,
                f == 65536,
        ;
        assert((v * f) / f == v) by {
            vstd::arithmetic::div_mod::lemma_div_by_multiple(v, f);
        }
    } else {
        assert(v * f < 0 && f * v == v * f && -(v * f) == (-v) * f && (-v) * f >= 0)
            by (nonlinear_arith)
            requires
                v < 0,
                f == 65536,
        ;
        assert(((-v) * f) / f == -v) by {
            vstd::arithmetic::div_mod::lemma_div_by_multiple(-v, f);
        }
    }
    assert(0 * v == 0 && v * 0 == 0) by (nonlinear_arith)
        requires
            i64::MIN <= v <= i64::MAX,
    ;
}

/// Normalizing keeps a unit vector exactly: when the fixed-point length
/// equals `FX_ONE`, every component is divided by one, which is exact.
pub proof fn lemma_normalize_unit(v: Vec3f)
    requires
        v3_length_s(v@) == FX_ONE as int,
    ensures
        v3_normalize_s(v@) == v@,
{
    lemma_fx_cancel(v.x as int);
    lemma_fx_cancel(v.y as int);
    lemma_fx_cancel(v.z as int);
}

/// Normalizing the zero vector takes the documented degenerate path and
/// returns the zero vector.
pub proof fn lemma_normalize_zero()
    ensures
        v3_normalize_s(V3 { x: 0, y: 0, z: 0 }) == (V3 { x: 0, y: 0, z: 0 }),
{
    let z = V3 { x: 0, y: 0, z: 0 };
    assert(0 * 0 == 0) by (nonlinear_arith);
    assert(v3_dot_s(z, z) == 0);
}

/// Mathematical model of a matrix: sixteen unbounded integers in row-major
/// order, each standing for a fixed-point entry.
pub struct M4 {
    pub e00: int, pub e01: int, pub e02: int, pub e03: int,
    pub e10: int, pub e11: int, pub e12: int, pub e13: int,
    pub e20: int, pub e21: int, pub e22: int, pub e23: int,
    pub e30: int, pub e31: int, pub e32: int, pub e33: int,
}

/// A 4x4 homogeneous transform of Q16.16 fixed-point entries, row-major.
#[derive(Clone, Copy, PartialEq, Eq, Structural, Debug)]
pub struct Mat4x4f {
    pub m00: i64, pub m01: i64, pub m02: i64, pub m03: i64,
    pub m10: i64, pub m11: i64, pub m12: i64, pub m13: i64,
    pub m20: i64, pub m21: i64, pub m22: i64, pub m23: i64,
    pub m30: i64, pub m31: i64, pub m32: i64, pub m33: i64,
}

impl View for Mat4x4f {
    type V = M4;

    open spec fn view(&self) -> M4 {
        M4 {
            e00: self.m00 as int, e01: self.m01 as int, e02: self.m02 as int, e03: self.m03 as int,
            e10: self.m10 as int, e11: self.m11 as int, e12: self.m12 as int, e13: self.m13 as int,
            e20: self.m20 as int, e21: self.m21 as int, e22: self.m22 as int, e23: self.m23 as int,
            e30: self.m30 as int, e31: self.m31 as int, e32: self.m32 as int, e33: self.m33 as int,
        }
    }
}

/// One entry of a matrix product: the row-by-column sum of four products,
/// accumulated left to right with saturating fixed-point steps.
pub open spec fn mm_entry(a0: int, b0: int, a1: int, b1: int, a2: int, b2: int, a3: int, b3: int) -> int {
    fx_add_s(
        fx_add_s(fx_add_s(fx_mul_s(a0, b0), fx_mul_s(a1, b1)), fx_mul_s(a2, b2)),
        fx_mul_s(a3, b3),
    )
}

/// Row-by-column matrix product over the fixed-point operations.
pub open spec fn m4_matmul_s(a: M4, b: M4) -> M4 {
    M4 {
        e00: mm_entry(a.e00, b.e00, a.e01, b.e10, a.e02, b.e20, a.e03, b.e30),
        e01: mm_entry(a.e00, b.e01, a.e01, b.e11, a.e02, b.e21, a.e03, b.e31),
        e02: mm_entry(a.e00, b.e02, a.e01, b.e12, a.e02, b.e22, a.e03, b.e32),
        e03: mm_entry(a.e00, b.e03, a.e01, b.e13, a.e02, b.e23, a.e03, b.e33),
        e10: mm_entry(a.e10, b.e00, a.e11, b.e10, a.e12, b.e20, a.e13, b.e30),
        e11: mm_entry(a.e10, b.e01, a.e11, b.e11, a.e12, b.e21, a.e13, b.e31),
        e12: mm_entry(a.e10, b.e02, a.e11, b.e12, a.e12, b.e22, a.e13, b.e32),
        e13: mm_entry(a.e10, b.e03, a.e11, b.e13, a.e12, b.e23, a.e13, b.e33),
        e20: mm_entry(a.e20, b.e00, a.e21, b.e10, a.e22, b.e20, a.e23, b.e30),
        e21: mm_entry(a.e20, b.e01, a.e21, b.e11, a.e22, b.e21, a.e23, b.e31),
        e22: mm_entry(a.e20, b.e02, a.e21, b.e12, a.e22, b.e22, a.e23, b.e32),
        e23: mm_entry(a.e20, b.e03, a.e21, b.e13, a.e22, b.e23, a.e23, b.e33),
        e30: mm_entry(a.e30, b.e00, a.e31, b.e10, a.e32, b.e20, a.e33, b.e30),
        e31: mm_entry(a.e30, b.e01, a.e31, b.e11, a.e32, b.e21, a.e33, b.e31),
        e32: mm_entry(a.e30, b.e02, a.e31, b.e12, a.e32, b.e22, a.e33, b.e32),
        e33: mm_entry(a.e30, b.e03, a.e31, b.e13, a.e32, b.e23, a.e33, b.e33),
    }
}

/// The identity transform.
pub open spec fn m4_identity_s() -> M4 {
    M4 {
        e00: FX_ONE as int, e01: 0, e02: 0, e03: 0,
        e10: 0, e11: FX_ONE as int, e12: 0, e13: 0,
        e20: 0, e21: 0, e22: FX_ONE as int, e23: 0,
        e30: 0, e31: 0, e32: 0, e33: FX_ONE as int,
    }
}

/// Applying a matrix to a vector: each row dotted with `(x, y, z, t)`
/// where `t` is one for positions and zero for directions, then a
/// perspective divide by the fourth row's sum whenever that sum is
/// non-zero.
pub open spec fn m4_apply_s(m: M4, v: V3, translate: bool) -> V3 {
    let t: int = if translate { FX_ONE as int } else { 0 };
    let x = mm_entry(m.e00, v.x, m.e01, v.y, m.e02, v.z, m.e03, t);
    let y = mm_entry(m.e10, v.x, m.e11, v.y, m.e12, v.z, m.e13, t);
    let z = mm_entry(m.e20, v.x, m.e21, v.y, m.e22, v.z, m.e23, t);
    let w = mm_entry(m.e30, v.x, m.e31, v.y, m.e32, v.z, m.e33, t);
    if w != 0 {
        V3 { x: fx_div_s(x, w), y: fx_div_s(y, w), z: fx_div_s(z, w) }
    } else {
        V3 { x, y, z }
    }
}

/// The perspective projection built from an aspect ratio, a vertical field
/// of view in fixed-point degrees, and the near and far plane depths. The
/// third row maps depth and the fourth row holds `[0, 0, 1, 0]` so that
/// application performs the perspective divide by the camera-space depth.
pub open spec fn m4_projection_s(aspect: int, fov: int, znear: int, zfar: int) -> M4 {
    let angle = fx_div_s(fx_mul_s(fov, FX_PI as int), 180 * FX_ONE as int);
    let half = fx_div_s(angle, 2 * FX_ONE as int);
    let f = fx_div_s(fx_cos_s(half), fx_sin_s(half));
    let q = fx_div_s(zfar, fx_sub_s(zfar, znear));
    M4 {
        e00: f, e01: 0, e02: 0, e03: 0,
        e10: 0, e11: fx_mul_s(aspect, f), e12: 0, e13: 0,
        e20: 0, e21: 0, e22: q, e23: fx_neg_s(fx_mul_s(znear, q)),
        e30: 0, e31: 0, e32: FX_ONE as int, e33: 0,
    }
}

/// The right-handed rotation about the y axis by `theta` radians.
pub open spec fn m4_rotate_y_s(theta: int) -> M4 {
    m4_rotate_y_sc_s(fx_sin_s(theta), fx_cos_s(theta))
}

/// The rotation about the y axis with the given sine and cosine.
pub open spec fn m4_rotate_y_sc_s(sin_t: int, cos_t: int) -> M4 {
    M4 {
        e00: cos_t, e01: 0, e02: sin_t, e03: 0,
        e10: 0, e11: FX_ONE as int, e12: 0, e13: 0,
        e20: fx_neg_s(sin_t), e21: 0, e22: cos_t, e23: 0,
        e30: 0, e31: 0, e32: 0, e33: FX_ONE as int,
    }
}

/// The right-handed rotation about the x axis by `theta` radians.
pub open spec fn m4_rotate_x_s(theta: int) -> M4 {
    m4_rotate_x_sc_s(fx_sin_s(theta), fx_cos_s(theta))
}

/// The rotation about the x axis with the given sine and cosine.
pub open spec fn m4_rotate_x_sc_s(sin_t: int, cos_t: int) -> M4 {
    M4 {
        e00: FX_ONE as int, e01: 0, e02: 0, e03: 0,
        e10: 0, e11: cos_t, e12: fx_neg_s(sin_t), e13: 0,
        e20: 0, e21: sin_t, e22: cos_t, e23: 0,
        e30: 0, e31: 0, e32: 0, e33: FX_ONE as int,
    }
}

impl Mat4x4f {
    /// Builds a matrix from sixteen fixed-point entries in row-major order.
    pub fn new(
        m00: i64, m01: i64, m02: i64, m03: i64,
        m10: i64, m11: i64, m12: i64, m13: i64,
        m20: i64, m21: i64, m22: i64, m23: i64,
        m30: i64, m31: i64, m32: i64, m33: i64,
    ) -> (r: Self)
        ensures
            r@ == (M4 {
                e00: m00 as int, e01: m01 as int, e02: m02 as int, e03: m03 as int,
                e10: m10 as int, e11: m11 as int, e12: m12 as int, e13: m13 as int,
                e20: m20 as int, e21: m21 as int, e22: m22 as int, e23: m23 as int,
                e30: m30 as int, e31: m31 as int, e32: m32 as int, e33: m33 as int,
            }),
    {
        Self { m00, m01, m02, m03, m10, m11, m12, m13, m20, m21, m22, m23, m30, m31, m32, m33 }
    }

    /// The all-zero matrix.
    pub fn zero() -> (r: Self)
        ensures
            r@ == (M4 {
                e00: 0, e01: 0, e02: 0, e03: 0,
                e10: 0, e11: 0, e12: 0, e13: 0,
                e20: 0, e21: 0, e22: 0, e23: 0,
                e30: 0, e31: 0, e32: 0, e33: 0,
            }),
    {
        Self::new(0, 0, 0, 0, 0, 0, 0, 0, 0, 0, 0, 0, 0, 0, 0, 0)
    }

    /// The identity transform.
    pub fn identity() -> (r: Self)
        ensures
            r@ == m4_identity_s(),
    {
        Self::new(
            FX_ONE, 0, 0, 0,
            0, FX_ONE, 0, 0,
            0, 0, FX_ONE, 0,
            0, 0, 0, FX_ONE,
        )
    }

    /// Applies the matrix to a vector, with the translation column taking
    /// part only for `translate == true`, and a perspective divide by the
    /// fourth row's sum whenever that sum is non-zero.
    pub fn mul(&self, rhs: &Vec3f, translate: bool) -> (r: Vec3f)
        ensures
            r@ == m4_apply_s(self@, rhs@, translate),
    {
        let t: i64 = if translate { FX_ONE } else { 0 };
        let x = fx_add(
            fx_add(fx_add(fx_mul(self.m00, rhs.x), fx_mul(self.m01, rhs.y)), fx_mul(self.m02, rhs.z)),
            fx_mul(self.m03, t),
        );
        let y = fx_add(
            fx_add(fx_add(fx_mul(self.m10, rhs.x), fx_mul(self.m11, rhs.y)), fx_mul(self.m12, rhs.z)),
            fx_mul(self.m13, t),
        );
        let z = fx_add(
            fx_add(fx_add(fx_mul(self.m20, rhs.x), fx_mul(self.m21, rhs.y)), fx_mul(self.m22, rhs.z)),
            fx_mul(self.m23, t),
        );
        let w = fx_add(
            fx_add(fx_add(fx_mul(self.m30, rhs.x), fx_mul(self.m31, rhs.y)), fx_mul(self.m32, rhs.z)),
            fx_mul(self.m33, t),
        );
        if w != 0 {
            Vec3f { x: fx_div(x, w), y: fx_div(y, w), z: fx_div(z, w) }
        } else {
            Vec3f { x, y, z }
        }
    }

    /// Row-by-column matrix composition.
    pub fn matmul(&self, rhs: &Self) -> (r: Self)
        ensures
            r@ == m4_matmul_s(self@, rhs@),
    {
        Self {
            m00: fx_add(fx_add(fx_add(fx_mul(self.m00, rhs.m00), fx_mul(self.m01, rhs.m10)), fx_mul(self.m02, rhs.m20)), fx_mul(self.m03, rhs.m30)),
            m01: fx_add(fx_add(fx_add(fx_mul(self.m00, rhs.m01), fx_mul(self.m01, rhs.m11)), fx_mul(self.m02, rhs.m21)), fx_mul(self.m03, rhs.m31)),
            m02: fx_add(fx_add(fx_add(fx_mul(self.m00, rhs.m02), fx_mul(self.m01, rhs.m12)), fx_mul(self.m02, rhs.m22)), fx_mul(self.m03, rhs.m32)),
            m03: fx_add(fx_add(fx_add(fx_mul(self.m00, rhs.m03), fx_mul(self.m01, rhs.m13)), fx_mul(self.m02, rhs.m23)), fx_mul(self.m03, rhs.m33)),
            m10: fx_add(fx_add(fx_add(fx_mul(self.m10, rhs.m00), fx_mul(self.m11, rhs.m10)), fx_mul(self.m12, rhs.m20)), fx_mul(self.m13, rhs.m30)),
            m11: fx_add(fx_add(fx_add(fx_mul(self.m10, rhs.m01), fx_mul(self.m11, rhs.m11)), fx_mul(self.m12, rhs.m21)), fx_mul(self.m13, rhs.m31)),
            m12: fx_add(fx_add(fx_add(fx_mul(self.m10, rhs.m02), fx_mul(self.m11, rhs.m12)), fx_mul(self.m12, rhs.m22)), fx_mul(self.m13, rhs.m32)),
            m13: fx_add(fx_add(fx_add(fx_mul(self.m10, rhs.m03), fx_mul(self.m11, rhs.m13)), fx_mul(self.m12, rhs.m23)), fx_mul(self.m13, rhs.m33)),
            m20: fx_add(fx_add(fx_add(fx_mul(self.m20, rhs.m00), fx_mul(self.m21, rhs.m10)), fx_mul(self.m22, rhs.m20)), fx_mul(self.m23, rhs.m30)),
            m21: fx_add(fx_add(fx_add(fx_mul(self.m20, rhs.m01), fx_mul(self.m21, rhs.m11)), fx_mul(self.m22, rhs.m21)), fx_mul(self.m23, rhs.m31)),
            m22: fx_add(fx_add(fx_add(fx_mul(self.m20, rhs.m02), fx_mul(self.m21, rhs.m12)), fx_mul(self.m22, rhs.m22)), fx_mul(self.m23, rhs.m32)),
            m23: fx_add(fx_add(fx_add(fx_mul(self.m20, rhs.m03), fx_mul(self.m21, rhs.m13)), fx_mul(self.m22, rhs.m23)), fx_mul(self.m23, rhs.m33)),
            m30: fx_add(fx_add(fx_add(fx_mul(self.m30, rhs.m00), fx_mul(self.m31, rhs.m10)), fx_mul(self.m32, rhs.m20)), fx_mul(self.m33, rhs.m30)),
            m31: fx_add(fx_add(fx_add(fx_mul(self.m30, rhs.m01), fx_mul(self.m31, rhs.m11)), fx_mul(self.m32, rhs.m21)), fx_mul(self.m33, rhs.m31)),
            m32: fx_add(fx_add(fx_add(fx_mul(self.m30, rhs.m02), fx_mul(self.m31, rhs.m12)), fx_mul(self.m32, rhs.m22)), fx_mul(self.m33, rhs.m32)),
            m33: fx_add(fx_add(fx_add(fx_mul(self.m30, rhs.m03), fx_mul(self.m31, rhs.m13)), fx_mul(self.m32, rhs.m23)), fx_mul(self.m33, rhs.m33)),
        }
    }

    /// Builds the perspective projection matrix.
    pub fn projection(aspect_ratio: i64, fov: i64, znear: i64, zfar: i64) -> (r: Self)
        ensures
            r@ == m4_projection_s(aspect_ratio as int, fov as int, znear as int, zfar as int),
    {
        let angle = fx_div(fx_mul(fov, FX_PI), 11796480);
        let half = fx_div(angle, 131072);
        let f = fx_div(fx_cos(half), fx_sin(half));
        let q = fx_div(zfar, fx_sub(zfar, znear));
        Self::new(
            f, 0, 0, 0,
            0, fx_mul(aspect_ratio, f), 0, 0,
            0, 0, q, fx_neg(fx_mul(znear, q)),
            0, 0, FX_ONE, 0,
        )
    }

    /// Builds the rotation about the y axis by `theta` fixed-point radians.
    pub fn rotate_y(theta: i64) -> (r: Self)
        ensures
            r@ == m4_rotate_y_s(theta as int),
    {
        let s = fx_sin(theta);
        let c = fx_cos(theta);
        Self::rotate_y_sc(s, c)
    }

    /// Builds the rotation about the y axis from a sine and cosine pair.
    pub fn rotate_y_sc(sin_t: i64, cos_t: i64) -> (r: Self)
        ensures
            r@ == m4_rotate_y_sc_s(sin_t as int, cos_t as int),
    {
        Self::new(
            cos_t, 0, sin_t, 0,
            0, FX_ONE, 0, 0,
            fx_neg(sin_t), 0, cos_t, 0,
            0, 0, 0, FX_ONE,
        )
    }

    /// Builds the rotation about the x axis by `theta` fixed-point radians.
    pub fn rotate_x(theta: i64) -> (r: Self)
        ensures
            r@ == m4_rotate_x_s(theta as int),
    {
        let s = fx_sin(theta);
        let c = fx_cos(theta);
        Self::rotate_x_sc(s, c)
    }

    /// Builds the rotation about the x axis from a sine and cosine pair.
    pub fn rotate_x_sc(sin_t: i64, cos_t: i64) -> (r: Self)
        ensures
            r@ == m4_rotate_x_sc_s(sin_t as int, cos_t as int),
    {
        Self::new(
            FX_ONE, 0, 0, 0,
            0, cos_t, fx_neg(sin_t), 0,
            0, sin_t, cos_t, 0,
            0, 0, 0, FX_ONE,
        )
    }
}

/// Composing with the identity on either side gives the matrix back:
/// every row-by-column entry degenerates to a single exact rescaling.
pub proof fn lemma_matmul_identity(m: Mat4x4f)
    ensures
        m4_matmul_s(m4_identity_s(), m@) == m@,
        m4_matmul_s(m@, m4_identity_s()) == m@,
{
    assert forall|v: i64|
        #[trigger] fx_mul_s(FX_ONE as int, v as int) == v as int && fx_mul_s(0, v as int)
            == 0 by {
        lemma_fx_cancel(v as int);
    }
    assert forall|v: i64|
        #[trigger] fx_mul_s(v as int, FX_ONE as int) == v as int && fx_mul_s(v as int, 0)
            == 0 by {
        lemma_fx_cancel(v as int);
    }
}

} // verus!
