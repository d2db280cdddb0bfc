//! The render target: a logical pixel buffer with a parallel depth buffer,
//! the projection matrix and the camera, and the pipeline that transforms,
//! culls, projects, shades and scan-converts triangles into the buffers.
//!
//! Every mutation of the buffers goes through one depth-tested write whose
//! exact semantics is the spec function `set_s`; the rasterizing routines
//! are specified as folds of `set_s` over the pixels they touch.
use vstd::prelude::*;

use crate::entity::{local_transform_s, sample_texture_s, Entity};
use crate::fx::{clamp_s, fx_add, fx_add_s, fx_clamp, fx_div, fx_mul, fx_mul_s, fx_neg, tdiv, FX_ONE};
use crate::math::{
    m4_apply_s, m4_projection_s, v3_cross_s, v3_dot_s, v3_normalize_s, v3_sub_s, Mat4x4f, Vec3f,
    M4, V3,
};
use crate::shapes::Shape;
use crate::texture::{color_mul_s, Color, Texture};

verus! {

/// The two pixel-addressed buffers of a canvas: the logical pixels (empty
/// means background) and the depth stored for each.
pub struct Raster {
    pub pixels: Seq<Option<Color>>,
    pub depth: Seq<i64>,
}

/// One depth-tested pixel write: out-of-bounds coordinates are clipped
/// silently, and an in-bounds write lands only when the new depth is at
/// least the stored depth (larger stored value wins).
pub open spec fn set_s(r: Raster, w: int, h: int, x: int, y: int, color: Color, depth: i64) -> Raster {
    if 0 <= x < w && 0 <= y < h {
        let idx = y * w + x;
        if r.depth[idx] > depth {
            r
        } else {
            Raster {
                pixels: r.pixels.update(idx, Some(color)),
                depth: r.depth.update(idx, depth),
            }
        }
    } else {
        r
    }
}

/// Writing the same pixel, color and depth twice leaves the buffers as one
/// write does.
pub proof fn lemma_set_idempotent(r: Raster, w: int, h: int, x: int, y: int, color: Color, depth: i64)
    requires
        r.pixels.len() == w * h,
        r.depth.len() == w * h,
    ensures
        set_s(set_s(r, w, h, x, y, color, depth), w, h, x, y, color, depth) == set_s(
            r,
            w,
            h,
            x,
            y,
            color,
            depth,
        ),
{
    if 0 <= x < w && 0 <= y < h {
        let idx = y * w + x;
        lemma_index_in_bounds(w, h, x, y);
        let once = set_s(r, w, h, x, y, color, depth);
        if r.depth[idx] > depth {
        } else {
            assert(once.depth[idx] == depth);
            let twice = set_s(once, w, h, x, y, color, depth);
            assert(twice.pixels =~= once.pixels);
            assert(twice.depth =~= once.depth);
        }
    }
}

/// An in-bounds pixel coordinate addresses a buffer entry.
proof fn lemma_index_in_bounds(w: int, h: int, x: int, y: int)
    requires
        0 <= x < w,
        0 <= y < h,
    ensures
        0 <= y * w + x < w * h,
{
    assert(0 <= y * w && y * w + x < h * w && h * w == w * h) by (nonlinear_arith)
        requires
            0 <= x < w,
            0 <= y < h,
    ;
}

/// Two writes to the same pixel with depths `d1 < d2` end, in either
/// order, in the state of the `d2` write alone: the nearer write wins.
pub proof fn lemma_set_monotonic(
    r: Raster,
    w: int,
    h: int,
    x: int,
    y: int,
    c1: Color,
    d1: i64,
    c2: Color,
    d2: i64,
)
    requires
        d1 < d2,
        r.pixels.len() == w * h,
        r.depth.len() == w * h,
    ensures
        set_s(set_s(r, w, h, x, y, c1, d1), w, h, x, y, c2, d2) == set_s(r, w, h, x, y, c2, d2),
        set_s(set_s(r, w, h, x, y, c2, d2), w, h, x, y, c1, d1) == set_s(r, w, h, x, y, c2, d2),
{
    if 0 <= x < w && 0 <= y < h {
        lemma_index_in_bounds(w, h, x, y);
        let a = set_s(set_s(r, w, h, x, y, c1, d1), w, h, x, y, c2, d2);
        let b = set_s(r, w, h, x, y, c2, d2);
        assert(a.pixels =~= b.pixels);
        assert(a.depth =~= b.depth);
        let c = set_s(set_s(r, w, h, x, y, c2, d2), w, h, x, y, c1, d1);
        assert(c.pixels =~= b.pixels);
        assert(c.depth =~= b.depth);
    }
}

/// Whether two canvases agree on everything but the pixel and depth
/// buffers: the dimensions, the reference window, the projection and the
/// camera.
pub closed spec fn same_frame(a: Canvas, b: Canvas) -> bool {
    &&& a.width == b.width
    &&& a.height == b.height
    &&& a.win_x == b.win_x
    &&& a.win_y == b.win_y
    &&& a.pix_w == b.pix_w
    &&& a.pix_h == b.pix_h
    &&& a.projection_matrix == b.projection_matrix
    &&& a.camera == b.camera
}

/// The virtual camera: a position and a facing direction.
pub struct Camera {
    pub position: Vec3f,
    pub direction: Vec3f,
}

/// The render target. The pixel grid is twice the terminal's character
/// columns and four times its rows, so one character cell holds a 2x4
/// block of logical pixels.
pub struct Canvas {
    pixels: Vec<Option<Color>>,
    width: usize,
    height: usize,
    win_x: i64,
    win_y: i64,
    pix_w: i64,
    pix_h: i64,
    projection_matrix: Mat4x4f,
    camera: Camera,
    depth_buffer: Vec<i64>,
}

impl Canvas {
    /// The pixel and depth buffers.
    pub closed spec fn raster(self) -> Raster {
        Raster { pixels: self.pixels@, depth: self.depth_buffer@ }
    }

    /// The pixel grid width.
    pub closed spec fn width_s(self) -> int {
        self.width as int
    }

    /// The pixel grid height.
    pub closed spec fn height_s(self) -> int {
        self.height as int
    }

    /// The projection matrix.
    pub closed spec fn projection_s(self) -> M4 {
        self.projection_matrix@
    }

    /// The camera position.
    pub closed spec fn camera_pos_s(self) -> V3 {
        self.camera.position@
    }

    /// Both buffers hold one entry per pixel and the pipeline's coordinate
    /// arithmetic stays far from the integer limits.
    pub open spec fn wf(self) -> bool {
        &&& self.raster().pixels.len() == self.width_s() * self.height_s()
        &&& self.raster().depth.len() == self.width_s() * self.height_s()
        &&& 2 <= self.width_s() <= 8192
        &&& 4 <= self.height_s() <= 16384
        &&& self.pix_dims_pos()
    }

    /// The reference window used by `pix2cell` is positive and, like its
    /// origin, far from the integer limits.
    pub closed spec fn pix_dims_pos(self) -> bool {
        &&& 0 < self.pix_w <= 1073741824
        &&& 0 < self.pix_h <= 1073741824
        &&& -1073741824 <= self.win_x <= 1073741824
        &&& -1073741824 <= self.win_y <= 1073741824
    }

    /// Builds a canvas for a terminal of `term_width` by `term_height`
    /// character cells: the pixel grid is doubled horizontally and
    /// quadrupled vertically, both buffers start empty, and the projection
    /// is built for a 90 degree field of view between depths 0.1 and 1000
    /// over a fixed reference window.
    pub fn new(term_width: usize, term_height: usize) -> (c: Canvas)
        requires
            1 <= term_width <= 4096,
            1 <= term_height <= 4096,
        ensures
            c.wf(),
            c.width_s() == 2 * term_width,
            c.height_s() == 4 * term_height,
            forall|i: int| 0 <= i < c.raster().pixels.len() ==> c.raster().pixels[i] is None,
            forall|i: int| 0 <= i < c.raster().depth.len() ==> c.raster().depth[i] == i64::MIN,
            c.projection_s() == m4_projection_s(
                crate::fx::fx_div_s(1353 * FX_ONE as int, 758 * FX_ONE as int),
                90 * FX_ONE as int,
                6553,
                1000 * FX_ONE as int,
            ),
            c.camera_pos_s() == (V3 { x: 0, y: 0, z: 0 }),
    {
        let width: usize = term_width * 2;
        let height: usize = term_height * 4;
        proof {
            assert(width as int * (height as int) <= 8192 * 16384) by (nonlinear_arith)
                requires
                    width <= 8192,
                    height <= 16384,
            ;
        }
        let n: usize = width * height;
        let pixels: Vec<Option<Color>> = vec![None; n];
        let depth_buffer: Vec<i64> = vec![i64::MIN; n];
        let projection_matrix = Mat4x4f::projection(
            fx_div(1353 * FX_ONE, 758 * FX_ONE),
            90 * FX_ONE,
            6553,
            1000 * FX_ONE,
        );
        let camera = Camera { position: Vec3f::zero(), direction: Vec3f::new(0, 0, FX_ONE) };
        Canvas {
            pixels,
            width,
            height,
            win_x: 0,
            win_y: 0,
            pix_w: 1353,
            pix_h: 758,
            projection_matrix,
            camera,
            depth_buffer,
        }
    }

    /// Maps a window-relative point in reference-window units onto the
    /// character-cell grid by scaling each axis.
    pub fn pix2cell(&mut self, p: (i64, i64)) -> (cell: (i64, i64))
        requires
            old(self).wf(),
            -1073741824 <= p.0 <= 1073741824,
            -1073741824 <= p.1 <= 1073741824,
        ensures
            *final(self) == *old(self),
            cell.0 as int == tdiv((p.0 - old(self).win_x_s()) * old(self).width_s(), old(self).pix_w_s()),
            cell.1 as int == tdiv((p.1 - old(self).win_y_s()) * old(self).height_s(), old(self).pix_h_s()),
    {
        proof {
            assert((p.0 as int - self.win_x as int) * (self.width as int) <= 2305843009213693952
                && (p.0 as int - self.win_x as int) * (self.width as int)
                >= -2305843009213693952) by (nonlinear_arith)
                requires
                    -2147483648 <= p.0 as int - self.win_x as int <= 2147483648,
                    0 <= self.width as int <= 8192,
            ;
            assert((p.1 as int - self.win_y as int) * (self.height as int) <= 2305843009213693952
                && (p.1 as int - self.win_y as int) * (self.height as int)
                >= -2305843009213693952) by (nonlinear_arith)
                requires
                    -2147483648 <= p.1 as int - self.win_y as int <= 2147483648,
                    0 <= self.height as int <= 16384,
            ;
        }
        let x: i64 = tdiv_small((p.0 - self.win_x) * (self.width as i64), self.pix_w);
        let y: i64 = tdiv_small((p.1 - self.win_y) * (self.height as i64), self.pix_h);
        (x, y)
    }

    /// The reference window origin, x axis.
    pub closed spec fn win_x_s(self) -> int {
        self.win_x as int
    }

    /// The reference window origin, y axis.
    pub closed spec fn win_y_s(self) -> int {
        self.win_y as int
    }

    /// The reference window width.
    pub closed spec fn pix_w_s(self) -> int {
        self.pix_w as int
    }

    /// The reference window height.
    pub closed spec fn pix_h_s(self) -> int {
        self.pix_h as int
    }

    /// One depth-tested pixel write, exactly `set_s`: clipped when out of
    /// bounds, discarded when a strictly larger depth is stored.
    pub fn set(&mut self, x: i64, y: i64, color: Color, depth: i64)
        requires
            old(self).wf(),
        ensures
            final(self).wf(),
            final(self).raster() == set_s(
                old(self).raster(),
                old(self).width_s(),
                old(self).height_s(),
                x as int,
                y as int,
                color,
                depth,
            ),
            same_frame(*final(self), *old(self)),
            final(self).width_s() == old(self).width_s(),
            final(self).height_s() == old(self).height_s(),
            final(self).projection_s() == old(self).projection_s(),
            final(self).camera_pos_s() == old(self).camera_pos_s(),
            final(self).win_x_s() == old(self).win_x_s(),
            final(self).win_y_s() == old(self).win_y_s(),
            final(self).pix_w_s() == old(self).pix_w_s(),
            final(self).pix_h_s() == old(self).pix_h_s(),
    {
        if !(x >= 0 && x < self.width as i64 && y >= 0 && y < self.height as i64) {
            return;
        }
        proof {
            let xi = x as int;
            let yi = y as int;
            let wi = self.width as int;
            let hi = self.height as int;
            assert(0 <= yi * wi && yi * wi + xi < hi * wi && hi * wi == wi * hi)
                by (nonlinear_arith)
                requires
                    0 <= xi < wi,
                    0 <= yi < hi,
            ;
        }
        let n: usize = self.pixels.len();
        proof {
            assert((y as int) * (self.width as int) + (x as int) < n as int);
        }
        let index: usize = (y as usize) * self.width + (x as usize);
        if self.depth_buffer[index] > depth {
            return;
        }
        self.pixels[index] = Some(color);
        self.depth_buffer[index] = depth;
    }

    /// Resets the pixel buffer to empty and the depth buffer to the
    /// "nothing drawn" sentinel, the most negative depth.
    pub fn clear(&mut self)
        requires
            old(self).wf(),
        ensures
            final(self).wf(),
            forall|i: int|
                0 <= i < final(self).raster().pixels.len() ==> final(self).raster().pixels[i]
                    is None,
            forall|i: int|
                0 <= i < final(self).raster().depth.len() ==> final(self).raster().depth[i]
                    == i64::MIN,
            same_frame(*final(self), *old(self)),
            final(self).width_s() == old(self).width_s(),
            final(self).height_s() == old(self).height_s(),
            final(self).projection_s() == old(self).projection_s(),
            final(self).camera_pos_s() == old(self).camera_pos_s(),
            final(self).win_x_s() == old(self).win_x_s(),
            final(self).win_y_s() == old(self).win_y_s(),
            final(self).pix_w_s() == old(self).pix_w_s(),
            final(self).pix_h_s() == old(self).pix_h_s(),
    {
        let n: usize = self.pixels.len();
        self.pixels = vec![None; n];
        self.depth_buffer = vec![i64::MIN; n];
    }
}

/// Truncating division by a positive divisor.
fn tdiv_small(a: i64, b: i64) -> (r: i64)
    requires
        b > 0,
    ensures
        r as int == tdiv(a as int, b as int),
{
    if a >= 0 {
        let d: u64 = (a as u64) / (b as u64);
        proof {
            vstd::arithmetic::div_mod::lemma_div_is_ordered_by_denominator(a as int, 1, b as int);
            vstd::arithmetic::div_mod::lemma_div_pos_is_pos(a as int, b as int);
        }
        d as i64
    } else {
        let m: u128 = (-(a as i128)) as u128;
        let d: u128 = m / (b as u128);
        proof {
            vstd::arithmetic::div_mod::lemma_div_is_ordered_by_denominator(m as int, 1, b as int);
            vstd::arithmetic::div_mod::lemma_div_pos_is_pos(m as int, b as int);
        }
        let n: i128 = -(d as i128);
        n as i64
    }
}

} // verus!

verus! {

/// Boundary interpolation: the value of the line through `(a0, b0)` and
/// `(a1, b1)` at `a`, rounded to the nearest integer (half rounds up). A
/// flat or degenerate span answers its first endpoint, and the endpoints
/// answer themselves exactly.
pub open spec fn plerp_s(a0: int, b0: int, a1: int, b1: int, a: int) -> int {
    let da = a1 - a0;
    let db = b1 - b0;
    if a == a0 || db == 0 {
        b0
    } else if a == a1 {
        b1
    } else if da == 0 {
        b0
    } else {
        b0 + (2 * db * (a - a0) + da) / (2 * da)
    }
}

/// Floor division by a positive divisor.
fn div_floor(a: i128, b: i128) -> (r: i128)
    requires
        0 < b <= 170141183460469231731687303715884105727i128,
        -85070591730234615865843651857942052864i128 <= a
            <= 85070591730234615865843651857942052864i128,
    ensures
        r as int == a as int / b as int,
{
    if a >= 0 {
        let d: u128 = (a as u128) / (b as u128);
        proof {
            vstd::arithmetic::div_mod::lemma_div_is_ordered_by_denominator(a as int, 1, b as int);
            vstd::arithmetic::div_mod::lemma_div_pos_is_pos(a as int, b as int);
        }
        d as i128
    } else {
        let m: u128 = (-a) as u128;
        let q: u128 = m / (b as u128);
        let rem: u128 = m % (b as u128);
        proof {
            let bi = b as int;
            let mi = m as int;
            vstd::arithmetic::div_mod::lemma_div_is_ordered_by_denominator(mi, 1, bi);
            vstd::arithmetic::div_mod::lemma_div_pos_is_pos(mi, bi);
            vstd::arithmetic::div_mod::lemma_fundamental_div_mod(mi, bi);
            let qi = q as int;
            let ri = rem as int;
            assert(a as int == (-qi) * bi + (-ri)) by (nonlinear_arith)
                requires
                    mi == qi * bi + ri,
                    a as int == -mi,
            ;
            if rem == 0 {
                vstd::arithmetic::div_mod::lemma_fundamental_div_mod_converse(a as int, bi, -qi, 0);
            } else {
                assert(a as int == (-qi - 1) * bi + (bi - ri)) by (nonlinear_arith)
                    requires
                        a as int == (-qi) * bi + (-ri),
                ;
                vstd::arithmetic::div_mod::lemma_fundamental_div_mod_converse(
                    a as int,
                    bi,
                    -qi - 1,
                    bi - ri,
                );
            }
        }
        if rem == 0 {
            -(q as i128)
        } else {
            -(q as i128) - 1
        }
    }
}

/// Boundary interpolation, exactly `plerp_s`, for coordinates far from
/// the integer limits and a probe inside the span.
fn plerp(a0: i64, b0: i64, a1: i64, b1: i64, a: i64) -> (r: i64)
    requires
        -1073741824 <= a0 <= 1073741824,
        -1073741824 <= b0 <= 1073741824,
        -1073741824 <= a1 <= 1073741824,
        -1073741824 <= b1 <= 1073741824,
        a0 <= a <= a1,
    ensures
        r as int == plerp_s(a0 as int, b0 as int, a1 as int, b1 as int, a as int),
        -5000000000000000000 <= r <= 5000000000000000000,
{
    let da: i64 = a1 - a0;
    let db: i64 = b1 - b0;
    if a == a0 || db == 0 {
        b0
    } else if a == a1 {
        b1
    } else {
        proof {
            assert(-9223372036854775808 <= 2 * (db as int) * (a as int - a0 as int)
                <= 9223372036854775808) by (nonlinear_arith)
                requires
                    -2147483648 <= db as int <= 2147483648,
                    0 <= a as int - a0 as int <= 2147483648,
            ;
        }
        let num: i128 = 2 * (db as i128) * ((a - a0) as i128);
        let den: i128 = 2 * (da as i128);
        let q: i128 = div_floor(num + (da as i128), den);
        proof {
            let di = den as int;
            let ai = num as int + da as int;
            let qi = q as int;
            vstd::arithmetic::div_mod::lemma_fundamental_div_mod(ai, di);
            assert(-4700000000000000000 <= qi <= 4700000000000000000) by (nonlinear_arith)
                requires
                    ai == qi * di + ai % di,
                    0 <= ai % di < di,
                    2 <= di,
                    -9223372040000000000 <= ai <= 9223372040000000000,
            ;
        }
        let r: i64 = b0 + (q as i64);
        r
    }
}

} // verus!

verus! {

/// The projected triangle's corners sorted by ascending scanline through
/// three pairwise comparisons; ties swap.
pub open spec fn tri_sorted_s(x0: int, y0: int, x1: int, y1: int, x2: int, y2: int) -> (
    int,
    int,
    int,
    int,
    int,
    int,
) {
    let (ax0, ay0, ax1, ay1) = if y0 < y1 {
        (x0, y0, x1, y1)
    } else {
        (x1, y1, x0, y0)
    };
    let (bx0, by0, bx2, by2) = if ay0 < y2 {
        (ax0, ay0, x2, y2)
    } else {
        (x2, y2, ax0, ay0)
    };
    let (cx1, cy1, cx2, cy2) = if ay1 < by2 {
        (ax1, ay1, bx2, by2)
    } else {
        (bx2, by2, ax1, ay1)
    };
    (bx0, by0, cx1, cy1, cx2, cy2)
}

/// The boundary given by the two short edges at scanline `y`: the top
/// short edge up to the middle corner, the bottom one from there on.
pub open spec fn xs012_s(
    sx0: int,
    sy0: int,
    sx1: int,
    sy1: int,
    sx2: int,
    sy2: int,
    y: int,
) -> int {
    if y < sy1 {
        plerp_s(sy0, sx0, sy1, sx1, y)
    } else {
        plerp_s(sy1, sx1, sy2, sx2, y)
    }
}

/// The boundary given by the long top-to-bottom edge at scanline `y`.
pub open spec fn xs02_s(sx0: int, sy0: int, sx2: int, sy2: int, y: int) -> int {
    plerp_s(sy0, sx0, sy2, sx2, y)
}

/// The left and right fill boundaries at scanline `y`: the side whose
/// boundary is smaller at the scanline nearest the triangle's vertical
/// midpoint is the left one.
pub open spec fn bounds_at_s(
    sx0: int,
    sy0: int,
    sx1: int,
    sy1: int,
    sx2: int,
    sy2: int,
    y: int,
) -> (int, int) {
    let m = sy0 + (sy2 - sy0 + 1) / 2;
    let long = xs02_s(sx0, sy0, sx2, sy2, y);
    let short = xs012_s(sx0, sy0, sx1, sy1, sx2, sy2, y);
    if xs02_s(sx0, sy0, sx2, sy2, m) < xs012_s(sx0, sy0, sx1, sy1, sx2, sy2, m) {
        (long, short)
    } else {
        (short, long)
    }
}

/// Depth-tested writes across one scanline, from `x` through `xr`.
pub open spec fn fill_span_s(
    r: Raster,
    w: int,
    h: int,
    y: int,
    x: int,
    xr: int,
    color: Color,
    depth: i64,
) -> Raster
    decreases xr + 1 - x,
{
    if x > xr {
        r
    } else {
        fill_span_s(set_s(r, w, h, x, y, color, depth), w, h, y, x + 1, xr, color, depth)
    }
}

/// One filled scanline after the other, from `y` through the bottom
/// corner's scanline.
pub open spec fn fill_rows_s(
    r: Raster,
    w: int,
    h: int,
    sx0: int,
    sy0: int,
    sx1: int,
    sy1: int,
    sx2: int,
    sy2: int,
    y: int,
    color: Color,
    depth: i64,
) -> Raster
    decreases sy2 + 1 - y,
{
    if y > sy2 {
        r
    } else {
        let (xl, xr) = bounds_at_s(sx0, sy0, sx1, sy1, sx2, sy2, y);
        fill_rows_s(
            fill_span_s(r, w, h, y, xl, xr, color, depth),
            w,
            h,
            sx0,
            sy0,
            sx1,
            sy1,
            sx2,
            sy2,
            y + 1,
            color,
            depth,
        )
    }
}

/// The whole triangle fill: the three corner pixels written first, then
/// the scanlines between the sorted top and bottom corners.
pub open spec fn fill_triangle_s(
    r: Raster,
    w: int,
    h: int,
    x0: int,
    y0: int,
    x1: int,
    y1: int,
    x2: int,
    y2: int,
    color: Color,
    depth: i64,
) -> Raster {
    let r1 = set_s(
        set_s(set_s(r, w, h, x0, y0, color, depth), w, h, x1, y1, color, depth),
        w,
        h,
        x2,
        y2,
        color,
        depth,
    );
    let (sx0, sy0, sx1, sy1, sx2, sy2) = tri_sorted_s(x0, y0, x1, y1, x2, y2);
    fill_rows_s(r1, w, h, sx0, sy0, sx1, sy1, sx2, sy2, sy0, color, depth)
}

impl Canvas {
    /// Scan-converts a triangle: writes its three corner pixels, sorts the
    /// corners by scanline, and fills every scanline between the boundary
    /// columns inclusively, all through the depth-tested write.
    pub fn fill_triangle(
        &mut self,
        x0: i64,
        y0: i64,
        x1: i64,
        y1: i64,
        x2: i64,
        y2: i64,
        color: Color,
        depth: i64,
    )
        requires
            old(self).wf(),
            -1073741824 <= x0 <= 1073741824,
            -1073741824 <= y0 <= 1073741824,
            -1073741824 <= x1 <= 1073741824,
            -1073741824 <= y1 <= 1073741824,
            -1073741824 <= x2 <= 1073741824,
            -1073741824 <= y2 <= 1073741824,
        ensures
            final(self).wf(),
            final(self).raster() == fill_triangle_s(
                old(self).raster(),
                old(self).width_s(),
                old(self).height_s(),
                x0 as int,
                y0 as int,
                x1 as int,
                y1 as int,
                x2 as int,
                y2 as int,
                color,
                depth,
            ),
            same_frame(*final(self), *old(self)),
            final(self).width_s() == old(self).width_s(),
            final(self).height_s() == old(self).height_s(),
            final(self).projection_s() == old(self).projection_s(),
            final(self).camera_pos_s() == old(self).camera_pos_s(),
            final(self).win_x_s() == old(self).win_x_s(),
            final(self).win_y_s() == old(self).win_y_s(),
            final(self).pix_w_s() == old(self).pix_w_s(),
            final(self).pix_h_s() == old(self).pix_h_s(),
    {
        let ghost w = self.width_s();
        let ghost h = self.height_s();
        self.set(x0, y0, color, depth);
        self.set(x1, y1, color, depth);
        self.set(x2, y2, color, depth);

        let (ax0, ay0, ax1, ay1) = if y0 < y1 {
            (x0, y0, x1, y1)
        } else {
            (x1, y1, x0, y0)
        };
        let (sx0, sy0, bx2, by2) = if ay0 < y2 {
            (ax0, ay0, x2, y2)
        } else {
            (x2, y2, ax0, ay0)
        };
        let (sx1, sy1, sx2, sy2) = if ay1 < by2 {
            (ax1, ay1, bx2, by2)
        } else {
            (bx2, by2, ax1, ay1)
        };
        assert((sx0 as int, sy0 as int, sx1 as int, sy1 as int, sx2 as int, sy2 as int)
            == tri_sorted_s(x0 as int, y0 as int, x1 as int, y1 as int, x2 as int, y2 as int));
        assert(sy0 <= sy1 <= sy2);

        let ym: i64 = sy0 + crate::fx::div_pos(sy2 - sy0 + 1, 2);
        let long_m = plerp(sy0, sx0, sy2, sx2, ym);
        let short_m = if ym < sy1 {
            plerp(sy0, sx0, sy1, sx1, ym)
        } else {
            plerp(sy1, sx1, sy2, sx2, ym)
        };
        let long_is_left = long_m < short_m;

        let ghost target = fill_rows_s(
            self.raster(),
            w,
            h,
            sx0 as int,
            sy0 as int,
            sx1 as int,
            sy1 as int,
            sx2 as int,
            sy2 as int,
            sy0 as int,
            color,
            depth,
        );
        let mut y: i64 = sy0;
        while y <= sy2
            invariant
                self.wf(),
                self.width_s() == w,
                self.height_s() == h,
                same_frame(*self, *old(self)),
                -1073741824 <= sx0 <= 1073741824,
                -1073741824 <= sx1 <= 1073741824,
                -1073741824 <= sx2 <= 1073741824,
                -1073741824 <= sy0 <= 1073741824,
                -1073741824 <= sy1 <= 1073741824,
                -1073741824 <= sy2 <= 1073741824,
                sy0 <= sy1 <= sy2,
                sy0 <= y <= sy2 + 1,
                ym as int == sy0 as int + (sy2 as int - sy0 as int + 1) / 2,
                long_is_left == (xs02_s(sx0 as int, sy0 as int, sx2 as int, sy2 as int, ym as int)
                    < xs012_s(sx0 as int, sy0 as int, sx1 as int, sy1 as int, sx2 as int,
                    sy2 as int, ym as int)),
                fill_rows_s(self.raster(), w, h, sx0 as int, sy0 as int, sx1 as int, sy1 as int,
                    sx2 as int, sy2 as int, y as int, color, depth) == target,
            decreases sy2 as int + 1 - y as int,
        {
            let xa = if y < sy1 {
                plerp(sy0, sx0, sy1, sx1, y)
            } else {
                plerp(sy1, sx1, sy2, sx2, y)
            };
            let xb = plerp(sy0, sx0, sy2, sx2, y);
            let (xl, xr) = if long_is_left {
                (xb, xa)
            } else {
                (xa, xb)
            };
            assert((xl as int, xr as int) == bounds_at_s(sx0 as int, sy0 as int, sx1 as int,
                sy1 as int, sx2 as int, sy2 as int, y as int));
            let ghost row_start = self.raster();
            let ghost row_target = fill_span_s(row_start, w, h, y as int, xl as int, xr as int,
                color, depth);
            let mut x: i64 = xl;
            while x <= xr
                invariant
                    self.wf(),
                    self.width_s() == w,
                    self.height_s() == h,
                    same_frame(*self, *old(self)),
                    -5000000000000000000 <= x,
                    x <= xr + 1 || x == xl,
                    xr <= 5000000000000000000,
                    fill_span_s(self.raster(), w, h, y as int, x as int, xr as int, color, depth)
                        == row_target,
                decreases xr as int + 1 - x as int,
            {
                self.set(x, y, color, depth);
                x = x + 1;
            }
            proof {
                assert(self.raster() == row_target);
                assert(fill_rows_s(self.raster(), w, h, sx0 as int, sy0 as int, sx1 as int,
                    sy1 as int, sx2 as int, sy2 as int, y as int + 1, color, depth) == target);
            }
            y = y + 1;
        }
        assert(self.raster() == target);
    }
}

} // verus!

verus! {

/// Whether the pixel `(x, y)` holds exactly the given color and depth.
pub open spec fn locked_s(r: Raster, w: int, x: int, y: int, color: Color, depth: i64) -> bool {
    r.pixels[y * w + x] == Some(color) && r.depth[y * w + x] == depth
}

/// A depth-tested write with a given color and depth can never unsettle a
/// pixel that already holds that color and depth: it either misses the
/// pixel or writes the same values again.
proof fn lemma_set_keeps_locked(
    r: Raster,
    w: int,
    h: int,
    px: int,
    py: int,
    x: int,
    y: int,
    color: Color,
    depth: i64,
)
    requires
        r.pixels.len() == w * h,
        r.depth.len() == w * h,
        0 <= px < w,
        0 <= py < h,
        locked_s(r, w, px, py, color, depth),
    ensures
        locked_s(set_s(r, w, h, x, y, color, depth), w, px, py, color, depth),
        set_s(r, w, h, x, y, color, depth).pixels.len() == w * h,
        set_s(r, w, h, x, y, color, depth).depth.len() == w * h,
{
    lemma_index_in_bounds(w, h, px, py);
    if 0 <= x < w && 0 <= y < h {
        lemma_index_in_bounds(w, h, x, y);
    }
}

/// A scanline fill with a given color and depth keeps a pixel locked on
/// that color and depth.
proof fn lemma_span_keeps_locked(
    r: Raster,
    w: int,
    h: int,
    y: int,
    x: int,
    xr: int,
    px: int,
    py: int,
    color: Color,
    depth: i64,
)
    requires
        r.pixels.len() == w * h,
        r.depth.len() == w * h,
        0 <= px < w,
        0 <= py < h,
        locked_s(r, w, px, py, color, depth),
    ensures
        locked_s(fill_span_s(r, w, h, y, x, xr, color, depth), w, px, py, color, depth),
        fill_span_s(r, w, h, y, x, xr, color, depth).pixels.len() == w * h,
        fill_span_s(r, w, h, y, x, xr, color, depth).depth.len() == w * h,
    decreases xr + 1 - x,
{
    if x > xr {
    } else {
        lemma_set_keeps_locked(r, w, h, px, py, x, y, color, depth);
        lemma_span_keeps_locked(
            set_s(r, w, h, x, y, color, depth),
            w,
            h,
            y,
            x + 1,
            xr,
            px,
            py,
            color,
            depth,
        );
    }
}

/// Filling the scanlines with a given color and depth keeps a pixel locked
/// on that color and depth.
proof fn lemma_rows_keeps_locked(
    r: Raster,
    w: int,
    h: int,
    sx0: int,
    sy0: int,
    sx1: int,
    sy1: int,
    sx2: int,
    sy2: int,
    y: int,
    px: int,
    py: int,
    color: Color,
    depth: i64,
)
    requires
        r.pixels.len() == w * h,
        r.depth.len() == w * h,
        0 <= px < w,
        0 <= py < h,
        locked_s(r, w, px, py, color, depth),
    ensures
        locked_s(
            fill_rows_s(r, w, h, sx0, sy0, sx1, sy1, sx2, sy2, y, color, depth),
            w,
            px,
            py,
            color,
            depth,
        ),
    decreases sy2 + 1 - y,
{
    if y > sy2 {
    } else {
        let (xl, xr) = bounds_at_s(sx0, sy0, sx1, sy1, sx2, sy2, y);
        lemma_span_keeps_locked(r, w, h, y, xl, xr, px, py, color, depth);
        lemma_rows_keeps_locked(
            fill_span_s(r, w, h, y, xl, xr, color, depth),
            w,
            h,
            sx0,
            sy0,
            sx1,
            sy1,
            sx2,
            sy2,
            y + 1,
            px,
            py,
            color,
            depth,
        );
    }
}

/// Scanline boundary inclusion at the corners: when a triangle's three
/// corner pixels lie inside the canvas and none of them stores a depth
/// beyond the write's, all three pixels hold the triangle's color and
/// depth after the fill.
pub proof fn lemma_fill_triangle_vertices(
    r: Raster,
    w: int,
    h: int,
    x0: int,
    y0: int,
    x1: int,
    y1: int,
    x2: int,
    y2: int,
    color: Color,
    depth: i64,
)
    requires
        r.pixels.len() == w * h,
        r.depth.len() == w * h,
        0 <= x0 < w && 0 <= y0 < h,
        0 <= x1 < w && 0 <= y1 < h,
        0 <= x2 < w && 0 <= y2 < h,
        r.depth[y0 * w + x0] <= depth,
        r.depth[y1 * w + x1] <= depth,
        r.depth[y2 * w + x2] <= depth,
    ensures
        locked_s(
            fill_triangle_s(r, w, h, x0, y0, x1, y1, x2, y2, color, depth),
            w,
            x0,
            y0,
            color,
            depth,
        ),
        locked_s(
            fill_triangle_s(r, w, h, x0, y0, x1, y1, x2, y2, color, depth),
            w,
            x1,
            y1,
            color,
            depth,
        ),
        locked_s(
            fill_triangle_s(r, w, h, x0, y0, x1, y1, x2, y2, color, depth),
            w,
            x2,
            y2,
            color,
            depth,
        ),
{
    lemma_index_in_bounds(w, h, x0, y0);
    lemma_index_in_bounds(w, h, x1, y1);
    lemma_index_in_bounds(w, h, x2, y2);
    let ra = set_s(r, w, h, x0, y0, color, depth);
    assert(locked_s(ra, w, x0, y0, color, depth));
    assert(ra.depth[y1 * w + x1] <= depth);
    assert(ra.depth[y2 * w + x2] <= depth);
    let rb = set_s(ra, w, h, x1, y1, color, depth);
    lemma_set_keeps_locked(ra, w, h, x0, y0, x1, y1, color, depth);
    assert(locked_s(rb, w, x1, y1, color, depth));
    assert(rb.depth[y2 * w + x2] <= depth);
    let rc = set_s(rb, w, h, x2, y2, color, depth);
    lemma_set_keeps_locked(rb, w, h, x0, y0, x2, y2, color, depth);
    lemma_set_keeps_locked(rb, w, h, x1, y1, x2, y2, color, depth);
    assert(locked_s(rc, w, x2, y2, color, depth));
    let (sx0, sy0, sx1, sy1, sx2, sy2) = tri_sorted_s(x0, y0, x1, y1, x2, y2);
    lemma_rows_keeps_locked(rc, w, h, sx0, sy0, sx1, sy1, sx2, sy2, sy0, x0, y0, color, depth);
    lemma_rows_keeps_locked(rc, w, h, sx0, sy0, sx1, sy1, sx2, sy2, sy0, x1, y1, color, depth);
    lemma_rows_keeps_locked(rc, w, h, sx0, sy0, sx1, sy1, sx2, sy2, sy0, x2, y2, color, depth);
}

} // verus!

verus! {

/// Truncation of a fixed-point value toward zero into whole units.
fn fx_trunc(a: i64) -> (r: i64)
    ensures
        r as int == tdiv(a as int, FX_ONE as int),
{
    if a >= 0 {
        let d: u64 = (a as u64) / 65536;
        proof {
            vstd::arithmetic::div_mod::lemma_div_is_ordered_by_denominator(a as int, 1, 65536);
            vstd::arithmetic::div_mod::lemma_div_pos_is_pos(a as int, 65536);
        }
        d as i64
    } else {
        let m: u128 = (-(a as i128)) as u128;
        let d: u128 = m / 65536;
        proof {
            vstd::arithmetic::div_mod::lemma_div_is_ordered_by_denominator(m as int, 1, 65536);
            vstd::arithmetic::div_mod::lemma_div_pos_is_pos(m as int, 65536);
        }
        let n: i128 = -(d as i128);
        n as i64
    }
}

/// The remaining steps of a line walked along the x axis: each step moves
/// one pixel column and advances the running fixed-point y by `step`,
/// writing the pixel at the truncated y.
pub open spec fn line_fold_x_s(
    r: Raster,
    w: int,
    h: int,
    cx: int,
    cy: int,
    xdir: int,
    step: int,
    n: nat,
    color: Color,
    depth: i64,
) -> Raster
    decreases n,
{
    if n == 0 {
        r
    } else {
        let cx2 = cx + xdir;
        let cy2 = fx_add_s(cy, step);
        line_fold_x_s(
            set_s(r, w, h, cx2, tdiv(cy2, FX_ONE as int), color, depth),
            w,
            h,
            cx2,
            cy2,
            xdir,
            step,
            (n - 1) as nat,
            color,
            depth,
        )
    }
}

/// The remaining steps of a line walked along the y axis, symmetrically.
pub open spec fn line_fold_y_s(
    r: Raster,
    w: int,
    h: int,
    cx: int,
    cy: int,
    ydir: int,
    step: int,
    n: nat,
    color: Color,
    depth: i64,
) -> Raster
    decreases n,
{
    if n == 0 {
        r
    } else {
        let cy2 = cy + ydir;
        let cx2 = fx_add_s(cx, step);
        line_fold_y_s(
            set_s(r, w, h, tdiv(cx2, FX_ONE as int), cy2, color, depth),
            w,
            h,
            cx2,
            cy2,
            ydir,
            step,
            (n - 1) as nat,
            color,
            depth,
        )
    }
}

/// The whole line: the first endpoint written, then one step per pixel
/// along the longer axis, the other coordinate interpolated in fixed point
/// starting half a pixel in.
pub open spec fn draw_line_s(
    r: Raster,
    w: int,
    h: int,
    x0: int,
    y0: int,
    x1: int,
    y1: int,
    color: Color,
    depth: i64,
) -> Raster {
    let r0 = set_s(r, w, h, x0, y0, color, depth);
    let dx = x1 - x0;
    let dy = y1 - y0;
    let steps = if crate::fx::abs_i(dx) >= crate::fx::abs_i(dy) {
        crate::fx::abs_i(dx)
    } else {
        crate::fx::abs_i(dy)
    };
    if steps == 0 {
        r0
    } else if crate::fx::abs_i(dx) > crate::fx::abs_i(dy) {
        let xdir: int = if dx >= 0 {
            1
        } else {
            -1
        };
        let step = crate::fx::fx_div_s(dy * FX_ONE as int, steps * FX_ONE as int);
        line_fold_x_s(
            r0,
            w,
            h,
            x0,
            y0 * FX_ONE as int + 32768,
            xdir,
            step,
            steps as nat,
            color,
            depth,
        )
    } else {
        let ydir: int = if dy >= 0 {
            1
        } else {
            -1
        };
        let step = crate::fx::fx_div_s(dx * FX_ONE as int, steps * FX_ONE as int);
        line_fold_y_s(
            r0,
            w,
            h,
            x0 * FX_ONE as int + 32768,
            y0,
            ydir,
            step,
            steps as nat,
            color,
            depth,
        )
    }
}

impl Canvas {
    /// Draws a pixel line from `(x0, y0)` to `(x1, y1)` by stepping along
    /// the longer axis, exactly `draw_line_s`.
    pub fn draw_line(&mut self, x0: i64, y0: i64, x1: i64, y1: i64, color: Color, depth: i64)
        requires
            old(self).wf(),
            -1073741824 <= x0 <= 1073741824,
            -1073741824 <= y0 <= 1073741824,
            -1073741824 <= x1 <= 1073741824,
            -1073741824 <= y1 <= 1073741824,
        ensures
            final(self).wf(),
            same_frame(*final(self), *old(self)),
            final(self).width_s() == old(self).width_s(),
            final(self).height_s() == old(self).height_s(),
            final(self).projection_s() == old(self).projection_s(),
            final(self).camera_pos_s() == old(self).camera_pos_s(),
            final(self).raster() == draw_line_s(
                old(self).raster(),
                old(self).width_s(),
                old(self).height_s(),
                x0 as int,
                y0 as int,
                x1 as int,
                y1 as int,
                color,
                depth,
            ),
    {
        let ghost w = self.width_s();
        let ghost h = self.height_s();
        self.set(x0, y0, color, depth);
        let dx = x1 - x0;
        let dy = y1 - y0;
        let dxa = if dx >= 0 {
            dx
        } else {
            -dx
        };
        let dya = if dy >= 0 {
            dy
        } else {
            -dy
        };
        let steps = if dxa >= dya {
            dxa
        } else {
            dya
        };
        if steps == 0 {
            return;
        }
        if dxa > dya {
            let xdir: i64 = if dx >= 0 {
                1
            } else {
                -1
            };
            let step = fx_div(dy * FX_ONE, steps * FX_ONE);
            let mut cx: i64 = x0;
            let mut cy: i64 = y0 * FX_ONE + 32768;
            let ghost target = line_fold_x_s(
                self.raster(),
                w,
                h,
                cx as int,
                cy as int,
                xdir as int,
                step as int,
                steps as nat,
                color,
                depth,
            );
            let mut i: i64 = 0;
            while i < steps
                invariant
                    self.wf(),
                    self.width_s() == w,
                    self.height_s() == h,
                    same_frame(*self, *old(self)),
                    0 <= i <= steps,
                    steps <= 2147483649,
                    xdir == 1 || xdir == -1,
                    x0 as int - i as int <= cx as int <= x0 as int + i as int,
                    -1073741824 <= x0 <= 1073741824,
                    line_fold_x_s(self.raster(), w, h, cx as int, cy as int, xdir as int,
                        step as int, (steps - i) as nat, color, depth) == target,
                decreases steps as int - i as int,
            {
                cx = cx + xdir;
                cy = fx_add(cy, step);
                let ty = fx_trunc(cy);
                self.set(cx, ty, color, depth);
                i = i + 1;
            }
        } else {
            let ydir: i64 = if dy >= 0 {
                1
            } else {
                -1
            };
            let step = fx_div(dx * FX_ONE, steps * FX_ONE);
            let mut cx: i64 = x0 * FX_ONE + 32768;
            let mut cy: i64 = y0;
            let ghost target = line_fold_y_s(
                self.raster(),
                w,
                h,
                cx as int,
                cy as int,
                ydir as int,
                step as int,
                steps as nat,
                color,
                depth,
            );
            let mut i: i64 = 0;
            while i < steps
                invariant
                    self.wf(),
                    self.width_s() == w,
                    self.height_s() == h,
                    same_frame(*self, *old(self)),
                    0 <= i <= steps,
                    steps <= 2147483649,
                    ydir == 1 || ydir == -1,
                    y0 as int - i as int <= cy as int <= y0 as int + i as int,
                    -1073741824 <= y0 <= 1073741824,
                    line_fold_y_s(self.raster(), w, h, cx as int, cy as int, ydir as int,
                        step as int, (steps - i) as nat, color, depth) == target,
                decreases steps as int - i as int,
            {
                cy = cy + ydir;
                cx = fx_add(cx, step);
                let tx = fx_trunc(cx);
                self.set(tx, cy, color, depth);
                i = i + 1;
            }
        }
    }

    /// Draws the three edges of a triangle as pixel lines.
    pub fn draw_triangle(
        &mut self,
        x0: i64,
        y0: i64,
        x1: i64,
        y1: i64,
        x2: i64,
        y2: i64,
        color: Color,
        depth: i64,
    )
        requires
            old(self).wf(),
            -1073741824 <= x0 <= 1073741824,
            -1073741824 <= y0 <= 1073741824,
            -1073741824 <= x1 <= 1073741824,
            -1073741824 <= y1 <= 1073741824,
            -1073741824 <= x2 <= 1073741824,
            -1073741824 <= y2 <= 1073741824,
        ensures
            final(self).wf(),
            same_frame(*final(self), *old(self)),
            final(self).width_s() == old(self).width_s(),
            final(self).height_s() == old(self).height_s(),
            final(self).projection_s() == old(self).projection_s(),
            final(self).camera_pos_s() == old(self).camera_pos_s(),
            final(self).raster() == {
                let w = old(self).width_s();
                let h = old(self).height_s();
                let ra = draw_line_s(old(self).raster(), w, h, x0 as int, y0 as int, x1 as int,
                    y1 as int, color, depth);
                let rb = draw_line_s(ra, w, h, x1 as int, y1 as int, x2 as int, y2 as int, color,
                    depth);
                draw_line_s(rb, w, h, x2 as int, y2 as int, x0 as int, y0 as int, color, depth)
            },
    {
        self.draw_line(x0, y0, x1, y1, color, depth);
        self.draw_line(x1, y1, x2, y2, color, depth);
        self.draw_line(x2, y2, x0, y0, color, depth);
    }
}

} // verus!

verus! {

/// The fixed directional light: the normalized diagonal direction.
pub open spec fn light_dir_s() -> V3 {
    v3_normalize_s(V3 { x: FX_ONE as int, y: -(FX_ONE as int), z: -(FX_ONE as int) })
}

/// A normalized device coordinate remapped to pixel space: shifted from
/// `[-1, 1]` to `[0, 2]` and scaled by half the extent.
pub open spec fn px_remap_s(c: int, extent: int) -> int {
    fx_mul_s(fx_add_s(c, FX_ONE as int), extent * 32768)
}

/// A fixed-point pixel coordinate truncated to whole pixels and clamped
/// into the coordinate range the rasterizer accepts, standing in for the
/// saturating cast of the projected value.
pub open spec fn clamp_coord_s(v: int) -> int {
    clamp_s(tdiv(v, FX_ONE as int), -1073741824, 1073741824)
}

/// The transformed corners of one mesh triangle under the local transform.
pub open spec fn tri_corners_s(lt: M4, shape: Shape, t: (usize, usize, usize)) -> (V3, V3, V3) {
    (
        m4_apply_s(lt, shape.vertices_s()[t.0 as int].position@, true),
        m4_apply_s(lt, shape.vertices_s()[t.1 as int].position@, true),
        m4_apply_s(lt, shape.vertices_s()[t.2 as int].position@, true),
    )
}

/// The unit face normal of the transformed triangle.
pub open spec fn face_normal_s(lt: M4, shape: Shape, t: (usize, usize, usize)) -> V3 {
    let (tp0, tp1, tp2) = tri_corners_s(lt, shape, t);
    v3_normalize_s(v3_cross_s(v3_sub_s(tp1, tp0), v3_sub_s(tp2, tp0)))
}

/// Whether the triangle faces away from the camera: the dot product of its
/// face normal with the direction toward the camera is negative. A dot
/// product of exactly zero counts as facing the camera.
pub open spec fn culled_s(cam: V3, lt: M4, shape: Shape, t: (usize, usize, usize)) -> bool {
    let (tp0, tp1, tp2) = tri_corners_s(lt, shape, t);
    v3_dot_s(face_normal_s(lt, shape, t), v3_sub_s(cam, tp0)) < 0
}

/// One triangle through the pipeline: transform, cull, project, remap to
/// pixels, shade, and scan-convert at the triangle's average depth.
/// The clamped pixel coordinates of the `k`-th corner of the triangle
/// after the local transform, the projection and the remap to pixels.
pub open spec fn tri_pixel_s(
    w: int,
    h: int,
    proj: M4,
    lt: M4,
    shape: Shape,
    t: (usize, usize, usize),
    k: int,
) -> (int, int) {
    let (tp0, tp1, tp2) = tri_corners_s(lt, shape, t);
    let tp = if k == 0 {
        tp0
    } else if k == 1 {
        tp1
    } else {
        tp2
    };
    let pp = m4_apply_s(proj, tp, true);
    (clamp_coord_s(px_remap_s(pp.x, w)), clamp_coord_s(px_remap_s(pp.y, h)))
}

/// The flat depth of the triangle: the truncated mean of its three
/// projected depths.
pub open spec fn tri_depth_s(proj: M4, lt: M4, shape: Shape, t: (usize, usize, usize)) -> int {
    let (tp0, tp1, tp2) = tri_corners_s(lt, shape, t);
    tdiv(
        fx_add_s(
            fx_add_s(m4_apply_s(proj, tp0, true).z, m4_apply_s(proj, tp1, true).z),
            m4_apply_s(proj, tp2, true).z,
        ),
        3,
    )
}

/// The shaded color of the triangle: its base color - the first corner's
/// texture sample, or white - scaled by the clamped brightness against the
/// fixed light.
pub open spec fn tri_color_s(
    lt: M4,
    shape: Shape,
    texture: Option<Texture>,
    t: (usize, usize, usize),
) -> Color {
    let brightness = clamp_s(
        crate::fx::fx_neg_s(v3_dot_s(face_normal_s(lt, shape, t), light_dir_s())),
        0,
        FX_ONE as int,
    );
    let base = match shape.vertices_s()[t.0 as int].texcoord {
        Some(tc) => sample_texture_s(texture, tc.0 as int, tc.1 as int),
        None => Color { r: 255, g: 255, b: 255 },
    };
    color_mul_s(base, brightness)
}

pub open spec fn process_tri_s(
    r: Raster,
    w: int,
    h: int,
    cam: V3,
    proj: M4,
    lt: M4,
    shape: Shape,
    texture: Option<Texture>,
    t: (usize, usize, usize),
) -> Raster {
    if culled_s(cam, lt, shape, t) {
        r
    } else {
        fill_triangle_s(
            r,
            w,
            h,
            tri_pixel_s(w, h, proj, lt, shape, t, 0).0,
            tri_pixel_s(w, h, proj, lt, shape, t, 0).1,
            tri_pixel_s(w, h, proj, lt, shape, t, 1).0,
            tri_pixel_s(w, h, proj, lt, shape, t, 1).1,
            tri_pixel_s(w, h, proj, lt, shape, t, 2).0,
            tri_pixel_s(w, h, proj, lt, shape, t, 2).1,
            tri_color_s(lt, shape, texture, t),
            tri_depth_s(proj, lt, shape, t) as i64,
        )
    }
}

/// Whether the `k`-th corner pixel of the triangle lies inside the canvas
/// with a stored depth the triangle's depth can pass.
pub open spec fn tri_pixel_writable_s(
    r: Raster,
    w: int,
    h: int,
    proj: M4,
    lt: M4,
    shape: Shape,
    t: (usize, usize, usize),
    k: int,
) -> bool {
    let (x, y) = tri_pixel_s(w, h, proj, lt, shape, t, k);
    0 <= x < w && 0 <= y < h && r.depth[y * w + x] <= tri_depth_s(proj, lt, shape, t) as i64
}

/// The other face of the culling property: a triangle that faces the
/// camera is rasterized. When its corner pixels lie inside the canvas and
/// none of them stores a depth beyond the triangle's, the pipeline step
/// leaves the triangle's shaded color and depth at all three - in
/// particular, at least one pixel write occurs, so reversing a winding
/// that fails the cull test flips the outcome.
pub proof fn lemma_facing_triangle_writes(
    r: Raster,
    w: int,
    h: int,
    cam: V3,
    proj: M4,
    lt: M4,
    shape: Shape,
    texture: Option<Texture>,
    t: (usize, usize, usize),
)
    requires
        r.pixels.len() == w * h,
        r.depth.len() == w * h,
        !culled_s(cam, lt, shape, t),
        tri_pixel_writable_s(r, w, h, proj, lt, shape, t, 0),
        tri_pixel_writable_s(r, w, h, proj, lt, shape, t, 1),
        tri_pixel_writable_s(r, w, h, proj, lt, shape, t, 2),
    ensures
        forall|k: int|
            0 <= k < 3 ==> {
                let (x, y) = #[trigger] tri_pixel_s(w, h, proj, lt, shape, t, k);
                locked_s(
                    process_tri_s(r, w, h, cam, proj, lt, shape, texture, t),
                    w,
                    x,
                    y,
                    tri_color_s(lt, shape, texture, t),
                    tri_depth_s(proj, lt, shape, t) as i64,
                )
            },
{
    let (x0, y0) = tri_pixel_s(w, h, proj, lt, shape, t, 0);
    let (x1, y1) = tri_pixel_s(w, h, proj, lt, shape, t, 1);
    let (x2, y2) = tri_pixel_s(w, h, proj, lt, shape, t, 2);
    lemma_fill_triangle_vertices(
        r,
        w,
        h,
        x0,
        y0,
        x1,
        y1,
        x2,
        y2,
        tri_color_s(lt, shape, texture, t),
        tri_depth_s(proj, lt, shape, t) as i64,
    );
}


/// Back-face culling correctness: a triangle whose face normal points
/// away from the camera leaves the buffers untouched - not one pixel is
/// written.
pub proof fn lemma_culled_triangle_draws_nothing(
    r: Raster,
    w: int,
    h: int,
    cam: V3,
    proj: M4,
    lt: M4,
    shape: Shape,
    texture: Option<Texture>,
    t: (usize, usize, usize),
)
    requires
        culled_s(cam, lt, shape, t),
    ensures
        process_tri_s(r, w, h, cam, proj, lt, shape, texture, t) == r,
{
}

/// The remaining triangles of a mesh, from index `i` on, through the
/// pipeline one after the other.
pub open spec fn draw_tris_s(
    r: Raster,
    w: int,
    h: int,
    cam: V3,
    proj: M4,
    lt: M4,
    shape: Shape,
    texture: Option<Texture>,
    i: int,
) -> Raster
    decreases shape.tris_s().len() - i,
{
    if i < 0 || i >= shape.tris_s().len() {
        r
    } else {
        draw_tris_s(
            process_tri_s(r, w, h, cam, proj, lt, shape, texture, shape.tris_s()[i]),
            w,
            h,
            cam,
            proj,
            lt,
            shape,
            texture,
            i + 1,
        )
    }
}

impl Canvas {
    /// Renders an entity: every triangle of its mesh is transformed by the
    /// entity's derived local transform, culled against the camera,
    /// projected, shaded by the fixed light, and scan-converted with the
    /// depth test.
    pub fn draw_entity(&mut self, e: &Entity)
        requires
            old(self).wf(),
            e.wf(),
        ensures
            final(self).wf(),
            same_frame(*final(self), *old(self)),
            final(self).width_s() == old(self).width_s(),
            final(self).height_s() == old(self).height_s(),
            final(self).projection_s() == old(self).projection_s(),
            final(self).camera_pos_s() == old(self).camera_pos_s(),
            final(self).raster() == draw_tris_s(
                old(self).raster(),
                old(self).width_s(),
                old(self).height_s(),
                old(self).camera_pos_s(),
                old(self).projection_s(),
                local_transform_s(e.translation_s(), e.direction_s(), e.scale_s()),
                e.shape_s(),
                e.texture_s(),
                0,
            ),
    {
        let ghost w = self.width_s();
        let ghost h = self.height_s();
        let light = Vec3f::new(FX_ONE, -FX_ONE, -FX_ONE).normalize();
        let lt = e.gen_local_transform();
        let ghost lt_s = local_transform_s(e.translation_s(), e.direction_s(), e.scale_s());
        let ghost target = draw_tris_s(
            self.raster(),
            w,
            h,
            self.camera_pos_s(),
            self.projection_s(),
            lt_s,
            e.shape_s(),
            e.texture_s(),
            0,
        );
        let n = e.geometry().triangle_count();
        let mut ti: usize = 0;
        while ti < n
            invariant
                self.wf(),
                e.wf(),
                self.width_s() == w,
                self.height_s() == h,
                same_frame(*self, *old(self)),
                self.camera_pos_s() == old(self).camera_pos_s(),
                self.projection_s() == old(self).projection_s(),
                0 <= ti <= n,
                n == e.shape_s().tris_s().len(),
                light@ == light_dir_s(),
                lt@ == lt_s,
                draw_tris_s(self.raster(), w, h, self.camera_pos_s(), self.projection_s(), lt_s,
                    e.shape_s(), e.texture_s(), ti as int) == target,
            decreases n - ti,
        {
            let ts = e.geometry().triangles();
            let t = ts[ti];
            assert(crate::shapes::tri_ok(e.shape_s().tris_s()[ti as int],
                e.shape_s().vertices_s().len() as int));
            let v0 = e.geometry().get(t.0);
            let v1 = e.geometry().get(t.1);
            let v2 = e.geometry().get(t.2);
            let tp0 = lt.mul(&v0.position, true);
            let tp1 = lt.mul(&v1.position, true);
            let tp2 = lt.mul(&v2.position, true);
            let face_normal = tp1.sub(&tp0).cross(&tp2.sub(&tp0)).normalize();
            let toward_camera = self.camera.position.sub(&tp0);
            if face_normal.dot(&toward_camera) >= 0 {
                let pp0 = self.projection_matrix.mul(&tp0, true);
                let pp1 = self.projection_matrix.mul(&tp1, true);
                let pp2 = self.projection_matrix.mul(&tp2, true);
                let half_w = (self.width as i64) * 32768;
                let half_h = (self.height as i64) * 32768;
                let px0 = fx_mul(fx_add(pp0.x, FX_ONE), half_w);
                let py0 = fx_mul(fx_add(pp0.y, FX_ONE), half_h);
                let px1 = fx_mul(fx_add(pp1.x, FX_ONE), half_w);
                let py1 = fx_mul(fx_add(pp1.y, FX_ONE), half_h);
                let px2 = fx_mul(fx_add(pp2.x, FX_ONE), half_w);
                let py2 = fx_mul(fx_add(pp2.y, FX_ONE), half_h);
                let depth = tdiv_small(fx_add(fx_add(pp0.z, pp1.z), pp2.z), 3);
                let brightness = fx_clamp(fx_neg(face_normal.dot(&light)), 0, FX_ONE);
                let base = match v0.texcoord {
                    Some(tc) => e.sample_texture(tc),
                    None => Color::white(),
                };
                let color = base.mul(brightness);
                self.fill_triangle(
                    clamp_coord(px0),
                    clamp_coord(py0),
                    clamp_coord(px1),
                    clamp_coord(py1),
                    clamp_coord(px2),
                    clamp_coord(py2),
                    color,
                    depth,
                );
            }
            ti = ti + 1;
        }
    }
}

/// Truncates and clamps a projected fixed-point coordinate into the
/// rasterizer's coordinate range.
fn clamp_coord(v: i64) -> (r: i64)
    ensures
        r as int == clamp_coord_s(v as int),
        -1073741824 <= r <= 1073741824,
{
    fx_clamp(fx_trunc(v), -1073741824, 1073741824)
}

} // verus!

verus! {

/// The decimal digit character for `d`.
pub open spec fn digit_s(d: int) -> char {
    ((48 + d) as u32) as char
}

/// The decimal rendering of a non-negative number, no leading zeros.
pub open spec fn dec_str_s(n: int) -> Seq<char>
    decreases n,
{
    if n < 10 {
        seq![digit_s(n)]
    } else {
        dec_str_s(n / 10) + seq![digit_s(n % 10)]
    }
}

/// The escape sequence that clears the whole screen.
pub open spec fn clear_all_s() -> Seq<char> {
    seq!['\u{1b}', '[', '2', 'J']
}

/// The escape sequence that moves the cursor to column `x`, row `y`,
/// one-based.
pub open spec fn goto_s(x: int, y: int) -> Seq<char> {
    seq!['\u{1b}', '['] + dec_str_s(y) + seq![';'] + dec_str_s(x) + seq!['H']
}

/// The escape sequence that sets the true-color foreground.
pub open spec fn fg_s(r: int, g: int, b: int) -> Seq<char> {
    seq!['\u{1b}', '[', '3', '8', ';', '2', ';'] + dec_str_s(r) + seq![';'] + dec_str_s(g)
        + seq![';'] + dec_str_s(b) + seq!['m']
}

/// Relies on termion's screen-clear control object: its string form is the
/// four-byte clear-screen escape sequence.
#[verifier::external_body]
fn clear_str() -> (s: String)
    ensures
        s@ == clear_all_s(),
{
    termion::clear::All.to_string()
}

/// Relies on termion's cursor-positioning control object: its string form
/// is the escape introducer, the decimal row, a semicolon, the decimal
/// column and a final marker.
#[verifier::external_body]
fn goto_str(x: u16, y: u16) -> (s: String)
    requires
        x >= 1,
        y >= 1,
    ensures
        s@ == goto_s(x as int, y as int),
{
    String::from(termion::cursor::Goto(x, y))
}

/// Relies on termion's true-color foreground object: its string form is
/// the escape introducer, the foreground marker, and the three decimal
/// channels separated by semicolons.
#[verifier::external_body]
fn fg_str(r: u8, g: u8, b: u8) -> (s: String)
    ensures
        s@ == fg_s(r as int, g as int, b as int),
{
    termion::color::Rgb(r, g, b).fg_string()
}

/// Relies on the standard library's character append on `String`.
#[verifier::external_body]
fn push_char(s: &mut String, c: char)
    ensures
        final(s)@ == old(s)@ + seq![c],
{
    s.push(c);
}

/// Relies on the standard library's character decoding: every code in the
/// glyph block is a valid character, equal to its code.
#[verifier::external_body]
fn glyph_char(code: u32) -> (c: char)
    requires
        0x2800 <= code <= 0x28FF,
    ensures
        c == (code as char),
{
    match char::from_u32(code) {
        Some(c) => c,
        None => ' ',
    }
}

} // verus!

verus! {

/// The pixel offset of the `i`-th sub-cell of a 2x4 block, in the fixed
/// bit order of the glyph encoding: the left column top to third row, the
/// right column top to third row, then the two bottom cells.
pub open spec fn block_offset_s(i: int) -> (int, int) {
    if i == 0 {
        (0, 0)
    } else if i == 1 {
        (0, 1)
    } else if i == 2 {
        (0, 2)
    } else if i == 3 {
        (1, 0)
    } else if i == 4 {
        (1, 1)
    } else if i == 5 {
        (1, 2)
    } else if i == 6 {
        (0, 3)
    } else {
        (1, 3)
    }
}

/// Two to the `i`-th power.
pub open spec fn pow2_s(i: int) -> int
    decreases i,
{
    if i <= 0 {
        1
    } else {
        2 * pow2_s(i - 1)
    }
}

/// The buffer index of the `i`-th sub-cell of the block at `(row, col)`.
pub open spec fn block_index_s(w: int, row: int, col: int, i: int) -> int {
    let (dx, dy) = block_offset_s(i);
    (row * 4 + dy) * w + col * 2 + dx
}

/// The glyph code and the blended color after inspecting the first `i`
/// sub-cells of the block at `(row, col)`: every occupied sub-cell sets
/// its bit above the glyph base code and contributes an eighth-weighted
/// share of its color.
pub open spec fn block_acc_s(pix: Seq<Option<Color>>, w: int, row: int, col: int, i: int) -> (
    int,
    Color,
)
    decreases i,
{
    if i <= 0 {
        (0x2800, Color { r: 0, g: 0, b: 0 })
    } else {
        let (code, c) = block_acc_s(pix, w, row, col, i - 1);
        match pix[block_index_s(w, row, col, i - 1)] {
            Some(pc) => {
                let e = color_mul_s(pc, 8192);
                (
                    code + pow2_s(i - 1),
                    Color {
                        r: (c.r + e.r) as u8,
                        g: (c.g + e.g) as u8,
                        b: (c.b + e.b) as u8,
                    },
                )
            },
            None => (code, c),
        }
    }
}

/// Every channel of an eighth-weighted color share stays below 32.
proof fn lemma_eighth_bound(pc: Color)
    ensures
        color_mul_s(pc, 8192).r <= 31,
        color_mul_s(pc, 8192).g <= 31,
        color_mul_s(pc, 8192).b <= 31,
{
    lemma_shade_le(pc.r as int);
    lemma_shade_le(pc.g as int);
    lemma_shade_le(pc.b as int);
}

/// One channel scaled by an eighth stays below 32.
proof fn lemma_shade_le(c: int)
    requires
        0 <= c <= 255,
    ensures
        0 <= crate::texture::shade_channel_s(c, 8192) <= 31,
{
    let f = FX_ONE as int;
    assert(0 <= c * 8192 <= 255 * 8192) by (nonlinear_arith)
        requires
            0 <= c <= 255,
    ;
    vstd::arithmetic::div_mod::lemma_div_pos_is_pos(c * 8192, f);
    vstd::arithmetic::div_mod::lemma_div_is_ordered(c * 8192, 2088960, f);
}

/// The accumulator stays within the glyph block and the 8-bit channels:
/// the code advances by distinct bits and each channel by at most 31 per
/// inspected sub-cell.
proof fn lemma_block_acc_bounds(pix: Seq<Option<Color>>, w: int, row: int, col: int, i: int)
    requires
        0 <= i <= 8,
    ensures
        0x2800 <= block_acc_s(pix, w, row, col, i).0,
        block_acc_s(pix, w, row, col, i).0 < 0x2800 + pow2_s(i),
        block_acc_s(pix, w, row, col, i).1.r <= 31 * i,
        block_acc_s(pix, w, row, col, i).1.g <= 31 * i,
        block_acc_s(pix, w, row, col, i).1.b <= 31 * i,
    decreases i,
{
    lemma_pow2_pos(i);
    if i > 0 {
        lemma_block_acc_bounds(pix, w, row, col, i - 1);
        lemma_pow2_pos(i - 1);
        match pix[block_index_s(w, row, col, i - 1)] {
            Some(pc) => {
                lemma_eighth_bound(pc);
            },
            None => {},
        }
    }
}

/// Powers of two are positive.
proof fn lemma_pow2_pos(i: int)
    ensures
        pow2_s(i) >= 1,
    decreases
        if i > 0 { i } else { 0 },
{
    if i > 0 {
        lemma_pow2_pos(i - 1);
    }
}

/// The sum of the bit values of the occupied sub-cells among the first
/// `i`.
pub open spec fn block_bits_s(pix: Seq<Option<Color>>, w: int, row: int, col: int, i: int) -> int
    decreases i,
{
    if i <= 0 {
        0
    } else {
        block_bits_s(pix, w, row, col, i - 1) + (if pix[block_index_s(w, row, col, i - 1)]
            is Some {
            pow2_s(i - 1)
        } else {
            0
        })
    }
}

/// The glyph code is the base code plus one bit for each occupied
/// sub-cell.
pub proof fn lemma_block_code(pix: Seq<Option<Color>>, w: int, row: int, col: int, i: int)
    requires
        0 <= i <= 8,
    ensures
        block_acc_s(pix, w, row, col, i).0 == 0x2800 + block_bits_s(pix, w, row, col, i),
    decreases i,
{
    if i > 0 {
        lemma_block_code(pix, w, row, col, i - 1);
    }
}

/// Glyph compositing with exactly one occupied sub-cell: the glyph code
/// is the base code plus exactly that sub-cell's bit.
pub proof fn lemma_block_single_bit(pix: Seq<Option<Color>>, w: int, row: int, col: int, j: int)
    requires
        0 <= j < 8,
        pix[block_index_s(w, row, col, j)] is Some,
        forall|i: int|
            0 <= i < 8 && i != j ==> pix[block_index_s(w, row, col, i)] is None,
    ensures
        block_acc_s(pix, w, row, col, 8).0 == 0x2800 + pow2_s(j),
{
    lemma_block_code(pix, w, row, col, 8);
    lemma_block_bits_single(pix, w, row, col, j, 8);
}

/// The bit sum over the first `i` sub-cells when only sub-cell `j` is
/// occupied: the single bit once it is counted, zero before.
proof fn lemma_block_bits_single(
    pix: Seq<Option<Color>>,
    w: int,
    row: int,
    col: int,
    j: int,
    i: int,
)
    requires
        0 <= j < 8,
        0 <= i <= 8,
        pix[block_index_s(w, row, col, j)] is Some,
        forall|k: int|
            0 <= k < 8 && k != j ==> pix[block_index_s(w, row, col, k)] is None,
    ensures
        block_bits_s(pix, w, row, col, i) == if j < i {
            pow2_s(j)
        } else {
            0
        },
    decreases i,
{
    if i > 0 {
        lemma_block_bits_single(pix, w, row, col, j, i - 1);
    }
}

/// The characters one block emits: nothing at all when no sub-cell is
/// occupied, else a cursor move, a foreground color and the single glyph.
pub open spec fn emit_block_s(pix: Seq<Option<Color>>, w: int, row: int, col: int) -> Seq<char> {
    let (code, c) = block_acc_s(pix, w, row, col, 8);
    if code != 0x2800 {
        goto_s(col + 1, row + 1) + fg_s(c.r as int, c.g as int, c.b as int) + seq![
            ((code as u32) as char),
        ]
    } else {
        Seq::empty()
    }
}

/// A block with no occupied sub-cell emits no characters at all.
pub proof fn lemma_empty_block_emits_nothing(pix: Seq<Option<Color>>, w: int, row: int, col: int)
    requires
        forall|i: int| 0 <= i < 8 ==> pix[block_index_s(w, row, col, i)] is None,
    ensures
        emit_block_s(pix, w, row, col) == Seq::<char>::empty(),
{
    lemma_block_code(pix, w, row, col, 8);
    lemma_block_bits_none(pix, w, row, col, 8);
}

/// The bit sum is zero while every inspected sub-cell is empty.
proof fn lemma_block_bits_none(pix: Seq<Option<Color>>, w: int, row: int, col: int, i: int)
    requires
        0 <= i <= 8,
        forall|k: int| 0 <= k < 8 ==> pix[block_index_s(w, row, col, k)] is None,
    ensures
        block_bits_s(pix, w, row, col, i) == 0,
    decreases i,
{
    if i > 0 {
        lemma_block_bits_none(pix, w, row, col, i - 1);
    }
}

/// The emissions of the first `k` blocks, walked row-major over the
/// character grid with `ncols` blocks per row.
pub open spec fn blocks_prefix_s(
    pix: Seq<Option<Color>>,
    w: int,
    ncols: int,
    k: int,
) -> Seq<char>
    decreases k,
{
    if k <= 0 {
        Seq::empty()
    } else {
        blocks_prefix_s(pix, w, ncols, k - 1) + emit_block_s(
            pix,
            w,
            (k - 1) / ncols,
            (k - 1) % ncols,
        )
    }
}

/// The whole composed frame: a full-screen clear escape, then the
/// emissions of every 2x4 block in row-major order.
pub open spec fn to_s_spec(pix: Seq<Option<Color>>, w: int, h: int) -> Seq<char> {
    clear_all_s() + blocks_prefix_s(pix, w, w / 2, (h / 4) * (w / 2))
}

} // verus!

verus! {

/// Two to the `i`-th power, for bit positions inside one glyph block.
fn pow2_u32(i: usize) -> (r: u32)
    requires
        i < 8,
    ensures
        r as int == pow2_s(i as int),
{
    proof {
        reveal_with_fuel(pow2_s, 9);
    }
    if i == 0 {
        1
    } else if i == 1 {
        2
    } else if i == 2 {
        4
    } else if i == 3 {
        8
    } else if i == 4 {
        16
    } else if i == 5 {
        32
    } else if i == 6 {
        64
    } else {
        128
    }
}

impl Canvas {
    /// Composes the frame for the terminal: a full-screen clear escape,
    /// then, for every 2x4 pixel block with at least one occupied pixel, a
    /// cursor move to its character cell, a foreground color blended from
    /// the occupied pixels, and the block's composed glyph.
    pub fn to_s(&self) -> (out: String)
        requires
            self.wf(),
        ensures
            out@ == to_s_spec(self.raster().pixels, self.width_s(), self.height_s()),
    {
        let ghost w = self.width_s();
        let ghost pix = self.raster().pixels;
        let nrows: usize = self.height / 4;
        let ncols: usize = self.width / 2;
        proof {
            assert(nrows as int * (ncols as int) <= 4096 * 4096) by (nonlinear_arith)
                requires
                    nrows <= 4096,
                    ncols <= 4096,
            ;
        }
        let total: usize = nrows * ncols;
        let mut out: String = clear_str();
        let mut k: usize = 0;
        while k < total
            invariant
                self.wf(),
                w == self.width_s(),
                pix == self.raster().pixels,
                nrows == self.height_s() / 4,
                ncols == self.width_s() / 2,
                total == nrows * ncols,
                0 <= k <= total,
                out@ == clear_all_s() + blocks_prefix_s(pix, w, ncols as int, k as int),
            decreases total - k,
        {
            let row: usize = k / ncols;
            let col: usize = k % ncols;
            proof {
                vstd::arithmetic::div_mod::lemma_mod_bound(k as int, ncols as int);
                assert(ncols as int * (nrows as int) == nrows as int * (ncols as int))
                    by (nonlinear_arith);
                vstd::arithmetic::div_mod::lemma_multiply_divide_lt(
                    k as int,
                    ncols as int,
                    nrows as int,
                );
                vstd::arithmetic::div_mod::lemma_fundamental_div_mod(self.height_s(), 4);
                vstd::arithmetic::div_mod::lemma_mod_bound(self.height_s(), 4);
                vstd::arithmetic::div_mod::lemma_fundamental_div_mod(self.width_s(), 2);
                vstd::arithmetic::div_mod::lemma_mod_bound(self.width_s(), 2);
            }
            let mut code: u32 = 0x2800;
            let mut ccol = Color::black();
            let mut i: usize = 0;
            while i < 8
                invariant
                    self.wf(),
                    w == self.width_s(),
                    pix == self.raster().pixels,
                    0 <= i <= 8,
                    row as int * 4 + 3 < self.height_s(),
                    col as int * 2 + 1 < self.width_s(),
                    code as int == block_acc_s(pix, w, row as int, col as int, i as int).0,
                    ccol == block_acc_s(pix, w, row as int, col as int, i as int).1,
                decreases 8 - i,
            {
                let (dx, dy): (usize, usize) = if i == 0 {
                    (0, 0)
                } else if i == 1 {
                    (0, 1)
                } else if i == 2 {
                    (0, 2)
                } else if i == 3 {
                    (1, 0)
                } else if i == 4 {
                    (1, 1)
                } else if i == 5 {
                    (1, 2)
                } else if i == 6 {
                    (0, 3)
                } else {
                    (1, 3)
                };
                assert((dx as int, dy as int) == block_offset_s(i as int));
                proof {
                    let ri = row as int * 4 + dy as int;
                    let ci = col as int * 2 + dx as int;
                    assert(0 <= ri * w && ri * w + ci < self.height_s() * w && self.height_s() * w
                        == w * self.height_s()) by (nonlinear_arith)
                        requires
                            0 <= ci < w,
                            0 <= ri < self.height_s(),
                    ;
                }
                let n: usize = self.pixels.len();
                let idx: usize = (row * 4 + dy) * self.width + col * 2 + dx;
                assert(idx as int == block_index_s(w, row as int, col as int, i as int));
                match self.pixels[idx] {
                    Some(pc) => {
                        proof {
                            lemma_block_acc_bounds(pix, w, row as int, col as int, i as int);
                            lemma_pow2_pos(i as int);
                            assert(pow2_s(8) == 256) by {
                                reveal_with_fuel(pow2_s, 9);
                            }
                            lemma_pow2_le(i as int, 8);
                            lemma_eighth_bound(pc);
                        }
                        code = code + pow2_u32(i);
                        let e = pc.mul(8192);
                        ccol.add_assign(e);
                    },
                    None => {},
                }
                i = i + 1;
            }
            proof {
                lemma_block_acc_bounds(pix, w, row as int, col as int, 8);
                assert(pow2_s(8) == 256) by {
                    reveal_with_fuel(pow2_s, 9);
                }
            }
            if code != 0x2800 {
                let g = goto_str((col + 1) as u16, (row + 1) as u16);
                out.append(g.as_str());
                let f = fg_str(ccol.r, ccol.g, ccol.b);
                out.append(f.as_str());
                let ch = glyph_char(code);
                push_char(&mut out, ch);
            }
            proof {
                assert(out@ =~= clear_all_s() + blocks_prefix_s(pix, w, ncols as int, k as int + 1));
            }
            k = k + 1;
        }
        proof {
            assert(out@ =~= to_s_spec(pix, w, self.height_s()));
        }
        out
    }
}

/// Powers of two are monotone in the exponent.
proof fn lemma_pow2_le(a: int, b: int)
    requires
        a <= b,
    ensures
        pow2_s(a) <= pow2_s(b),
    decreases
        if b > 0 { b } else { 0 },
{
    if b > 0 && a < b {
        lemma_pow2_le(a, b - 1);
        lemma_pow2_pos(b - 1);
    }
}

} // verus!

verus! {

impl Canvas {
    /// The logical pixel at `(x, y)`.
    pub fn get_pixel(&self, x: usize, y: usize) -> (p: Option<Color>)
        requires
            self.wf(),
            x < self.width_s(),
            y < self.height_s(),
        ensures
            p == self.raster().pixels[y * self.width_s() + x],
    {
        proof {
            lemma_index_in_bounds(self.width_s(), self.height_s(), x as int, y as int);
        }
        let n: usize = self.pixels.len();
        proof {
            assert((y as int) * self.width_s() + (x as int) < n as int);
        }
        self.pixels[y * self.width + x]
    }

    /// The stored depth at `(x, y)`.
    pub fn get_depth(&self, x: usize, y: usize) -> (d: i64)
        requires
            self.wf(),
            x < self.width_s(),
            y < self.height_s(),
        ensures
            d == self.raster().depth[y * self.width_s() + x],
    {
        proof {
            lemma_index_in_bounds(self.width_s(), self.height_s(), x as int, y as int);
        }
        let n: usize = self.depth_buffer.len();
        proof {
            assert((y as int) * self.width_s() + (x as int) < n as int);
        }
        self.depth_buffer[y * self.width + x]
    }

    /// The pixel grid width.
    pub fn width(&self) -> (w: usize)
        ensures
            w as int == self.width_s(),
    {
        self.width
    }

    /// The pixel grid height.
    pub fn height(&self) -> (h: usize)
        ensures
            h as int == self.height_s(),
    {
        self.height
    }
}

} // verus!
