//! An entity: a mesh with mutable pose state and an optional texture.
//!
//! The local transform is derived from the pose on every call, never
//! cached, so pose mutation between calls is always reflected.
use vstd::prelude::*;

use crate::fx::{
    fx_mul, fx_mul_s, fx_neg, fx_neg_s, fx_sqrt, fx_sqrt_s, fx_sub, fx_sub_s, FX_ONE,
};
use crate::math::{
    m4_matmul_s, m4_rotate_x_sc_s, m4_rotate_y_sc_s, v3_add_s, v3_length_s, v3_normalize_s,
    Mat4x4f, Vec3f, M4, V3,
};
use crate::shapes::Shape;
use crate::texture::{Color, Texture};

verus! {

/// The local transform derived from a pose: a yaw about the y axis and a
/// pitch about the x axis are read off the unit direction vector, composed
/// with a uniform scale, and the translation fills the fourth column.
///
/// The yaw decomposition assumes the direction is unit length: its cosine
/// is the z component and the magnitude of its sine is recovered through a
/// square root; the sign of the sine flips with the sign of the x
/// component, so the mapping is discontinuous where the x component
/// crosses zero.
pub open spec fn local_transform_s(translation: V3, direction: V3, scale: int) -> M4 {
    let sin_abs = fx_sqrt_s(fx_sub_s(FX_ONE as int, fx_mul_s(direction.z, direction.z)));
    let sin_t = if direction.x >= 0 {
        sin_abs
    } else {
        fx_neg_s(sin_abs)
    };
    let sin_p = fx_neg_s(direction.y);
    let cos_p = fx_sqrt_s(fx_sub_s(FX_ONE as int, fx_mul_s(direction.y, direction.y)));
    let ry = m4_rotate_y_sc_s(sin_t, direction.z);
    let rx = m4_rotate_x_sc_s(sin_p, cos_p);
    let sm = M4 {
        e00: scale, e01: 0, e02: 0, e03: 0,
        e10: 0, e11: scale, e12: 0, e13: 0,
        e20: 0, e21: 0, e22: scale, e23: 0,
        e30: 0, e31: 0, e32: 0, e33: FX_ONE as int,
    };
    let m = m4_matmul_s(m4_matmul_s(ry, rx), sm);
    M4 { e03: translation.x, e13: translation.y, e23: translation.z, ..m }
}

/// A mesh with a pose: a translation, a unit facing direction and a
/// positive uniform scale, plus an optional texture.
pub struct Entity {
    /// The geometry this entity renders.
    pub shape: Shape,
    translation: Vec3f,
    direction: Vec3f,
    scale: i64,
    texture: Option<Texture>,
}

impl Entity {
    /// The mesh this entity renders.
    pub closed spec fn shape_s(self) -> Shape {
        self.shape
    }

    /// The current translation.
    pub closed spec fn translation_s(self) -> V3 {
        self.translation@
    }

    /// The current facing direction.
    pub closed spec fn direction_s(self) -> V3 {
        self.direction@
    }

    /// The current uniform scale factor.
    pub closed spec fn scale_s(self) -> int {
        self.scale as int
    }

    /// The current texture, if one was loaded.
    pub closed spec fn texture_s(self) -> Option<Texture> {
        self.texture
    }

    /// The mesh indices are in range and any loaded texture is consistent.
    pub open spec fn wf(self) -> bool {
        self.shape_s().wf() && match self.texture_s() {
            Some(t) => t.wf(),
            None => true,
        }
    }

    /// The mesh this entity renders.
    pub fn geometry(&self) -> (s: &Shape)
        ensures
            *s == self.shape_s(),
    {
        &self.shape
    }

    /// Wraps a mesh in an entity with the default pose: at the origin,
    /// facing positive z, at unit scale, untextured.
    pub fn with_geometry(shape: Shape) -> (e: Self)
        ensures
            e.shape_s() == shape,
            e.translation_s() == (V3 { x: 0, y: 0, z: 0 }),
            e.direction_s() == (V3 { x: 0, y: 0, z: FX_ONE as int }),
            e.scale_s() == FX_ONE as int,
            e.texture_s() is None,
            shape.wf() ==> e.wf(),
    {
        Entity {
            shape,
            translation: Vec3f::zero(),
            direction: Vec3f::new(0, 0, FX_ONE),
            scale: FX_ONE,
            texture: None,
        }
    }

    /// Moves the entity by the given fixed-point deltas.
    pub fn translate(&mut self, dx: i64, dy: i64, dz: i64)
        ensures
            final(self).translation_s() == v3_add_s(
                old(self).translation_s(),
                V3 { x: dx as int, y: dy as int, z: dz as int },
            ),
            final(self).direction_s() == old(self).direction_s(),
            final(self).scale_s() == old(self).scale_s(),
            final(self).texture_s() == old(self).texture_s(),
            final(self).shape_s() == old(self).shape_s(),
    {
        self.translation = self.translation.add(&Vec3f::new(dx, dy, dz));
    }

    /// Places the entity at the given fixed-point position.
    pub fn set_translation(&mut self, x: i64, y: i64, z: i64)
        ensures
            final(self).translation_s() == (V3 { x: x as int, y: y as int, z: z as int }),
            final(self).direction_s() == old(self).direction_s(),
            final(self).scale_s() == old(self).scale_s(),
            final(self).texture_s() == old(self).texture_s(),
            final(self).shape_s() == old(self).shape_s(),
    {
        self.translation = Vec3f::new(x, y, z);
    }

    /// The current translation.
    pub fn get_translation(&self) -> (t: Vec3f)
        ensures
            t@ == self.translation_s(),
    {
        self.translation
    }

    /// Turns the entity to face the given direction, normalized
    /// internally; an input of zero fixed-point length is rejected by
    /// keeping the old direction, so the stored direction stays unit
    /// length.
    pub fn set_direction(&mut self, x: i64, y: i64, z: i64)
        ensures
            final(self).direction_s() == {
                let v = V3 { x: x as int, y: y as int, z: z as int };
                if v3_length_s(v) == 0 {
                    old(self).direction_s()
                } else {
                    v3_normalize_s(v)
                }
            },
            final(self).translation_s() == old(self).translation_s(),
            final(self).scale_s() == old(self).scale_s(),
            final(self).texture_s() == old(self).texture_s(),
            final(self).shape_s() == old(self).shape_s(),
    {
        let v = Vec3f::new(x, y, z);
        if v.length() != 0 {
            self.direction = v.normalize();
        }
    }

    /// The current facing direction.
    pub fn get_direction(&self) -> (d: Vec3f)
        ensures
            d@ == self.direction_s(),
    {
        self.direction
    }

    /// Sets the uniform scale; non-positive inputs are clamped up to the
    /// smallest positive fixed-point step.
    pub fn set_scale(&mut self, scale: i64)
        ensures
            final(self).scale_s() == if scale < 1 {
                1int
            } else {
                scale as int
            },
            final(self).translation_s() == old(self).translation_s(),
            final(self).direction_s() == old(self).direction_s(),
            final(self).texture_s() == old(self).texture_s(),
            final(self).shape_s() == old(self).shape_s(),
    {
        self.scale = if scale < 1 {
            1
        } else {
            scale
        };
    }

    /// Multiplies the uniform scale by a fixed-point factor, clamping the
    /// product up to the smallest positive fixed-point step.
    pub fn scale(&mut self, scale: i64)
        ensures
            final(self).scale_s() == {
                let p = fx_mul_s(old(self).scale_s(), scale as int);
                if p < 1 {
                    1int
                } else {
                    p
                }
            },
            final(self).translation_s() == old(self).translation_s(),
            final(self).direction_s() == old(self).direction_s(),
            final(self).texture_s() == old(self).texture_s(),
            final(self).shape_s() == old(self).shape_s(),
    {
        let p = fx_mul(self.scale, scale);
        self.scale = if p < 1 {
            1
        } else {
            p
        };
    }

    /// Attaches a decoded texture grid to the entity.
    pub fn load_texture(&mut self, texture: Texture)
        requires
            texture.wf(),
        ensures
            final(self).texture_s() == Some(texture),
            final(self).translation_s() == old(self).translation_s(),
            final(self).direction_s() == old(self).direction_s(),
            final(self).scale_s() == old(self).scale_s(),
            final(self).shape_s() == old(self).shape_s(),
    {
        self.texture = Some(texture);
    }

    /// Samples the entity's texture at the given fixed-point surface
    /// coordinates; an untextured entity samples as opaque white.
    pub fn sample_texture(&self, uv: (i64, i64)) -> (c: Color)
        requires
            self.wf(),
        ensures
            c == sample_texture_s(self.texture_s(), uv.0 as int, uv.1 as int),
    {
        match &self.texture {
            Some(tex) => tex.sample(uv.0, uv.1),
            None => Color::white(),
        }
    }

    /// Derives the local transform from the current pose; see
    /// `local_transform_s` for the decomposition.
    pub fn gen_local_transform(&self) -> (m: Mat4x4f)
        ensures
            m@ == local_transform_s(self.translation_s(), self.direction_s(), self.scale_s()),
    {
        let sin_abs = fx_sqrt(fx_sub(FX_ONE, fx_mul(self.direction.z, self.direction.z)));
        let sin_t = if self.direction.x >= 0 {
            sin_abs
        } else {
            fx_neg(sin_abs)
        };
        let sin_p = fx_neg(self.direction.y);
        let cos_p = fx_sqrt(fx_sub(FX_ONE, fx_mul(self.direction.y, self.direction.y)));
        let ry = Mat4x4f::rotate_y_sc(sin_t, self.direction.z);
        let rx = Mat4x4f::rotate_x_sc(sin_p, cos_p);
        let sm = Mat4x4f::new(
            self.scale, 0, 0, 0,
            0, self.scale, 0, 0,
            0, 0, self.scale, 0,
            0, 0, 0, FX_ONE,
        );
        let mut m = ry.matmul(&rx).matmul(&sm);
        m.m03 = self.translation.x;
        m.m13 = self.translation.y;
        m.m23 = self.translation.z;
        m
    }
}

/// The color a texture sample yields: the nearest texel of the grid, or
/// opaque white when no texture is loaded.
pub open spec fn sample_texture_s(texture: Option<Texture>, u: int, v: int) -> Color {
    match texture {
        Some(t) => t.grid()[Texture::sample_index_s(u, v, t.width_s(), t.height_s())],
        None => Color { r: 255, g: 255, b: 255 },
    }
}

} // verus!
