//! Colors and texture sampling.
//!
//! A texture is a dense width-by-height grid of 8-bit RGB colors; sampling
//! clamps the fixed-point surface coordinates into `[0, 1]` and picks the
//! nearest texel without interpolation.
use vstd::prelude::*;

use crate::fx::{clamp_s, fx_clamp, tdiv, FX_ONE};

verus! {

/// An 8-bit RGB color.
#[derive(Clone, Copy, PartialEq, Eq, Structural, Debug)]
pub struct Color {
    pub r: u8,
    pub g: u8,
    pub b: u8,
}

/// One channel scaled by a brightness factor: the factor is clamped into
/// `[0, FX_ONE]` and the product is rescaled, truncating toward zero.
pub open spec fn shade_channel_s(c: int, k: int) -> int {
    tdiv(c * clamp_s(k, 0, FX_ONE as int), FX_ONE as int)
}

/// A color scaled by a fixed-point brightness, with the rule that a
/// non-black source must not darken to pure black: such a result is lifted
/// to the minimum visible color so it stays distinguishable from the
/// background.
pub open spec fn color_mul_s(c: Color, k: int) -> Color {
    let s = Color {
        r: shade_channel_s(c.r as int, k) as u8,
        g: shade_channel_s(c.g as int, k) as u8,
        b: shade_channel_s(c.b as int, k) as u8,
    };
    if c.is_not_black_s() && !s.is_not_black_s() {
        Color { r: 1, g: 1, b: 1 }
    } else {
        s
    }
}

impl Color {
    /// Builds a color from its three channels.
    pub fn new(r: u8, g: u8, b: u8) -> (c: Self)
        ensures
            c == (Color { r, g, b }),
    {
        Color { r, g, b }
    }

    /// Opaque white, the base color of untextured geometry.
    pub fn white() -> (c: Self)
        ensures
            c == (Color { r: 255u8, g: 255u8, b: 255u8 }),
    {
        Color { r: 255, g: 255, b: 255 }
    }

    /// Pure black, the accumulator zero for color blending.
    pub fn black() -> (c: Self)
        ensures
            c == (Color { r: 0u8, g: 0u8, b: 0u8 }),
    {
        Color { r: 0, g: 0, b: 0 }
    }

    /// Whether any channel is non-zero.
    pub open spec fn is_not_black_s(self) -> bool {
        !(self.r == 0 && self.g == 0 && self.b == 0)
    }

    /// Whether any channel is non-zero.
    pub fn is_not_black(&self) -> (result: bool)
        ensures
            result == self.is_not_black_s(),
    {
        !(self.r == 0 && self.g == 0 && self.b == 0)
    }

    /// Scales the color by a fixed-point brightness factor, keeping a
    /// non-black source visibly non-black.
    pub fn mul(self, rhs: i64) -> (c: Self)
        ensures
            c == color_mul_s(self, rhs as int),
    {
        let k = fx_clamp(rhs, 0, FX_ONE);
        let r = shade_channel(self.r, k);
        let g = shade_channel(self.g, k);
        let b = shade_channel(self.b, k);
        let shaded = Color { r, g, b };
        if self.is_not_black() && !shaded.is_not_black() {
            Color { r: 1, g: 1, b: 1 }
        } else {
            shaded
        }
    }

    /// Adds another color channel-wise; callers keep each sum within the
    /// 8-bit range.
    pub fn add_assign(&mut self, rhs: Color)
        requires
            old(self).r + rhs.r <= 255,
            old(self).g + rhs.g <= 255,
            old(self).b + rhs.b <= 255,
        ensures
            *final(self) == (Color {
                r: (old(self).r + rhs.r) as u8,
                g: (old(self).g + rhs.g) as u8,
                b: (old(self).b + rhs.b) as u8,
            }),
    {
        self.r = self.r + rhs.r;
        self.g = self.g + rhs.g;
        self.b = self.b + rhs.b;
    }
}

/// One channel scaled by an already clamped brightness factor.
fn shade_channel(c: u8, k: i64) -> (r: u8)
    requires
        0 <= k <= FX_ONE,
    ensures
        r as int == shade_channel_s(c as int, k as int),
{
    proof {
        let ci = c as int;
        let ki = k as int;
        let f = FX_ONE as int;
        assert(0 <= ci * ki <= 255 * f) by (nonlinear_arith)
            requires
                0 <= ci <= 255,
                0 <= ki <= f,
        ;
        vstd::arithmetic::div_mod::lemma_div_is_ordered(ci * ki, 255 * f, f);
        vstd::arithmetic::div_mod::lemma_div_by_multiple(255, f);
        vstd::arithmetic::div_mod::lemma_div_pos_is_pos(ci * ki, f);
        assert(clamp_s(ki, 0, f) == ki);
    }
    let p: i64 = (c as i64) * k;
    let d: i64 = p / FX_ONE;
    d as u8
}

/// A dense grid of colors sampled by normalized surface coordinates.
pub struct Texture {
    data: Vec<Color>,
    width: usize,
    height: usize,
}

impl Texture {
    /// The grid holds one color per texel and is never empty.
    pub closed spec fn wf(self) -> bool {
        self.data@.len() == self.width * self.height && self.width >= 1 && self.height >= 1
    }

    /// The texel grid as a sequence in row-major order.
    pub closed spec fn grid(self) -> Seq<Color> {
        self.data@
    }

    /// The grid width in texels.
    pub closed spec fn width_s(self) -> int {
        self.width as int
    }

    /// The grid height in texels.
    pub closed spec fn height_s(self) -> int {
        self.height as int
    }

    /// Builds a texture from a row-major color grid; the data length must
    /// equal `width * height` and both dimensions must be positive.
    pub fn new(data: Vec<Color>, width: usize, height: usize) -> (t: Option<Texture>)
        ensures
            t is Some <==> data@.len() == width * height && width >= 1 && height >= 1,
            t is Some ==> {
                let tex = t->0;
                &&& tex.wf()
                &&& tex.grid() == data@
                &&& tex.width_s() == width as int
                &&& tex.height_s() == height as int
            },
    {
        if width >= 1 && height >= 1 && data.len() / width == height && data.len() % width == 0 {
            proof {
                vstd::arithmetic::div_mod::lemma_fundamental_div_mod(data@.len() as int, width as int);
            }
            Some(Texture { data, width, height })
        } else {
            proof {
                if width >= 1 && height >= 1 && data@.len() == width * height {
                    vstd::arithmetic::div_mod::lemma_div_by_multiple(height as int, width as int);
                    vstd::arithmetic::div_mod::lemma_mod_multiples_basic(height as int, width as int);
                    assert(width * height == height * width) by (nonlinear_arith);
                }
            }
            None
        }
    }

    /// The texel picked by a sample: coordinates clamped into `[0, 1]`,
    /// then scaled to the last row and column and truncated.
    pub open spec fn sample_index_s(u: int, v: int, width: int, height: int) -> int {
        let x = tdiv(clamp_s(u, 0, FX_ONE as int) * (width - 1), FX_ONE as int);
        let y = tdiv(clamp_s(v, 0, FX_ONE as int) * (height - 1), FX_ONE as int);
        y * width + x
    }

    /// Samples the nearest texel to the fixed-point surface coordinates
    /// `(u, v)`, clamped into `[0, 1]`.
    pub fn sample(&self, u: i64, v: i64) -> (c: Color)
        requires
            self.wf(),
        ensures
            c == self.grid()[Self::sample_index_s(
                u as int,
                v as int,
                self.width_s(),
                self.height_s(),
            )],
    {
        let uu = fx_clamp(u, 0, FX_ONE);
        let vv = fx_clamp(v, 0, FX_ONE);
        proof {
            lemma_sample_coord(uu as int, self.width as int);
            lemma_sample_coord(vv as int, self.height as int);
        }
        let x: usize = (((uu as i128) * (self.width as i128 - 1)) / 65536) as usize;
        let y: usize = (((vv as i128) * (self.height as i128 - 1)) / 65536) as usize;
        proof {
            let xi = x as int;
            let yi = y as int;
            let wi = self.width as int;
            let hi = self.height as int;
            assert(0 <= yi * wi && yi * wi + xi < hi * wi && wi * hi == hi * wi) by (nonlinear_arith)
                requires
                    0 <= xi < wi,
                    0 <= yi < hi,
            ;
        }
        let n: usize = self.data.len();
        proof {
            assert(y * self.width + x < n);
        }
        let index: usize = y * self.width + x;
        self.data[index]
    }
}

/// A clamped coordinate scaled to the last texel and truncated lands
/// inside the grid.
proof fn lemma_sample_coord(u: int, w: int)
    requires
        0 <= u <= FX_ONE as int,
        w >= 1,
    ensures
        0 <= u * (w - 1) <= FX_ONE as int * (w - 1),
        0 <= tdiv(u * (w - 1), FX_ONE as int) < w,
        tdiv(u * (w - 1), FX_ONE as int) == u * (w - 1) / (FX_ONE as int),
{
    let f = FX_ONE as int;
    assert(0 <= u * (w - 1) <= f * (w - 1)) by (nonlinear_arith)
        requires
            0 <= u <= f,
            w >= 1,
    ;
    vstd::arithmetic::div_mod::lemma_div_pos_is_pos(u * (w - 1), f);
    vstd::arithmetic::div_mod::lemma_div_is_ordered(u * (w - 1), f * (w - 1), f);
    assert(f * (w - 1) == (w - 1) * f) by (nonlinear_arith);
    vstd::arithmetic::div_mod::lemma_div_by_multiple(w - 1, f);
}

} // verus!
