//! Indexed triangle meshes and procedural mesh generators.
//!
//! A `Shape` owns a vertex buffer and a list of triangles, each a triple of
//! vertex indices. Every constructor validates the triangle indices against
//! the vertex count and fails fast on the first offending record, so a
//! well-formed `Shape` can be rasterized without bounds faults.
use vstd::prelude::*;

use crate::fx::{
    clamp_s, fx_add, fx_add_s, fx_cos, fx_cos_s, fx_div, fx_div_s, fx_mul, fx_mul_s, fx_neg,
    fx_neg_s, fx_sin, fx_sin_s, fx_sub, fx_sub_s, tdiv, FX_ONE, FX_PI, FX_TWO_PI,
};
use crate::math::{v3_add_s, v3_cross_s, v3_normalize_s, v3_sub_s, vec3_of, Vec3f, V3};
use crate::vertex::{Vertex, VertexArray};

verus! {

/// The midpoint cache of the icosphere refinement: the unordered vertex
/// pair packed into one integer, mapped to the index of the shared
/// midpoint vertex.
type HashMapU64 = std::collections::HashMap<u64, usize>;


/// A construction-time geometry fault, identifying the offending record.
#[derive(Clone, Copy, PartialEq, Eq, Structural, Debug)]
pub enum GeomError {
    /// The per-vertex normal list does not match the position count.
    NormalsLength { expected: usize, got: usize },
    /// The per-vertex surface-coordinate list does not match the position
    /// count.
    TexcoordsLength { expected: usize, got: usize },
    /// A triangle references a vertex index at or beyond the vertex count;
    /// `tri` is the position of the first such triangle in the list and
    /// `index` its first out-of-range vertex reference.
    TriangleIndex { tri: usize, index: usize },
}

/// Whether one triangle's indices all lie below the vertex count `n`.
pub open spec fn tri_ok(t: (usize, usize, usize), n: int) -> bool {
    t.0 < n && t.1 < n && t.2 < n
}

/// Whether every triangle's indices lie below the vertex count `n`.
pub open spec fn tris_ok(ts: Seq<(usize, usize, usize)>, n: int) -> bool {
    forall|i: int| 0 <= i < ts.len() ==> tri_ok(#[trigger] ts[i], n)
}

/// The first out-of-range vertex reference of a triangle, for reporting.
pub open spec fn tri_defect(t: (usize, usize, usize), n: int) -> usize {
    if t.0 >= n {
        t.0
    } else if t.1 >= n {
        t.1
    } else {
        t.2
    }
}

/// Whether `e` names the first triangle whose indices leave the vertex
/// count `n`, and that triangle's first out-of-range reference.
pub open spec fn first_tri_defect_err_s(ts: Seq<(usize, usize, usize)>, n: int, e: GeomError) -> bool {
    exists|i: int|
        #![auto]
        0 <= i < ts.len() && !tri_ok(ts[i], n) && (forall|j: int|
            0 <= j < i ==> tri_ok(#[trigger] ts[j], n)) && e == (GeomError::TriangleIndex {
            tri: i as usize,
            index: tri_defect(ts[i], n),
        })
}

/// Checks every triangle against the vertex count, reporting the first
/// offending record.
fn check_tris(ts: &Vec<(usize, usize, usize)>, n: usize) -> (r: Result<(), GeomError>)
    ensures
        r is Ok <==> tris_ok(ts@, n as int),
        r matches Err(e) ==> first_tri_defect_err_s(ts@, n as int, e),
{
    let mut i: usize = 0;
    while i < ts.len()
        invariant
            0 <= i <= ts@.len(),
            forall|j: int| 0 <= j < i ==> tri_ok(#[trigger] ts@[j], n as int),
        decreases ts@.len() - i,
    {
        let t = ts[i];
        if t.0 >= n || t.1 >= n || t.2 >= n {
            let index = if t.0 >= n {
                t.0
            } else if t.1 >= n {
                t.1
            } else {
                t.2
            };
            assert(index == tri_defect(ts@[i as int], n as int));
            return Err(GeomError::TriangleIndex { tri: i, index });
        }
        i = i + 1;
    }
    Ok(())
}

/// The raw (non-normalized) face normal of a triangle: the cross product
/// of its two edges out of the first vertex.
pub open spec fn face_normal_raw_s(p0: V3, p1: V3, p2: V3) -> V3 {
    v3_cross_s(v3_sub_s(p1, p0), v3_sub_s(p2, p0))
}

/// One triangle's raw face normal added into the running per-vertex sums,
/// one vertex reference after the other.
pub open spec fn accum_tri_s(ns: Seq<V3>, positions: Seq<Vec3f>, t: (usize, usize, usize)) -> Seq<
    V3,
> {
    let fnorm = face_normal_raw_s(
        positions[t.0 as int]@,
        positions[t.1 as int]@,
        positions[t.2 as int]@,
    );
    let s0 = ns.update(t.0 as int, v3_add_s(ns[t.0 as int], fnorm));
    let s1 = s0.update(t.1 as int, v3_add_s(s0[t.1 as int], fnorm));
    s1.update(t.2 as int, v3_add_s(s1[t.2 as int], fnorm))
}

/// The per-vertex sums of raw face normals over all triangles, starting
/// from zero vectors.
pub open spec fn accum_normals_s(positions: Seq<Vec3f>, ts: Seq<(usize, usize, usize)>) -> Seq<V3>
    decreases ts.len(),
{
    if ts.len() == 0 {
        Seq::new(positions.len(), |i: int| V3 { x: 0, y: 0, z: 0 })
    } else {
        accum_tri_s(accum_normals_s(positions, ts.drop_last()), positions, ts.last())
    }
}

/// The derived per-vertex normals: each accumulated sum, normalized.
pub open spec fn gen_normals_s(positions: Seq<Vec3f>, ts: Seq<(usize, usize, usize)>) -> Seq<V3> {
    let acc = accum_normals_s(positions, ts);
    Seq::new(acc.len(), |i: int| v3_normalize_s(acc[i]))
}

/// The views of a sequence of vectors.
pub open spec fn views_of(s: Seq<Vec3f>) -> Seq<V3> {
    Seq::new(s.len(), |i: int| s[i]@)
}

/// Accumulation never changes the length of the sums.
proof fn lemma_accum_len(positions: Seq<Vec3f>, ts: Seq<(usize, usize, usize)>)
    requires
        tris_ok(ts, positions.len() as int),
    ensures
        accum_normals_s(positions, ts).len() == positions.len(),
    decreases ts.len(),
{
    if ts.len() > 0 {
        assert(tris_ok(ts.drop_last(), positions.len() as int));
        lemma_accum_len(positions, ts.drop_last());
    }
}

/// Derives one normal per vertex by summing the raw face normal of every
/// triangle touching the vertex, then normalizing each sum.
fn gen_normals(positions: &Vec<Vec3f>, ts: &Vec<(usize, usize, usize)>) -> (ns: Vec<Vec3f>)
    requires
        tris_ok(ts@, positions@.len() as int),
    ensures
        ns@.len() == positions@.len(),
        views_of(ns@) == gen_normals_s(positions@, ts@),
{
    let n = positions.len();
    let zero = Vec3f::zero();
    let mut ns: Vec<Vec3f> = vec![zero; n];
    assert(views_of(ns@) =~= accum_normals_s(positions@, ts@.take(0)));
    let mut i: usize = 0;
    while i < ts.len()
        invariant
            0 <= i <= ts@.len(),
            ns@.len() == positions@.len(),
            tris_ok(ts@, positions@.len() as int),
            views_of(ns@) == accum_normals_s(positions@, ts@.take(i as int)),
        decreases ts@.len() - i,
    {
        let t = ts[i];
        assert(tri_ok(ts@[i as int], positions@.len() as int));
        let p0 = positions[t.0];
        let p1 = positions[t.1];
        let p2 = positions[t.2];
        let fnorm = p1.sub(&p0).cross(&p2.sub(&p0));
        let ghost before = ns@;
        let n0 = ns[t.0].add(&fnorm);
        ns[t.0] = n0;
        let n1 = ns[t.1].add(&fnorm);
        ns[t.1] = n1;
        let n2 = ns[t.2].add(&fnorm);
        ns[t.2] = n2;
        proof {
            assert(ts@.take(i + 1).drop_last() =~= ts@.take(i as int));
            assert(ts@.take(i + 1).last() == ts@[i as int]);
            assert(views_of(ns@) =~= accum_tri_s(views_of(before), positions@, ts@[i as int]));
        }
        i = i + 1;
    }
    assert(ts@.take(i as int) =~= ts@);
    proof {
        lemma_accum_len(positions@, ts@);
    }
    let ghost acc = accum_normals_s(positions@, ts@);
    let mut k: usize = 0;
    while k < ns.len()
        invariant
            0 <= k <= ns@.len(),
            ns@.len() == acc.len(),
            forall|j: int| 0 <= j < k ==> ns@[j]@ == v3_normalize_s(#[trigger] acc[j]),
            forall|j: int| k <= j < ns@.len() ==> #[trigger] ns@[j]@ == acc[j],
        decreases ns@.len() - k,
    {
        let nk = ns[k].normalize();
        ns[k] = nk;
        k = k + 1;
    }
    assert(views_of(ns@) =~= gen_normals_s(positions@, ts@));
    ns
}

/// An indexed triangle mesh: a vertex buffer and a triangle list whose
/// indices all lie inside the buffer.
pub struct Shape {
    va: VertexArray,
    triangles: Vec<(usize, usize, usize)>,
}

impl Shape {
    /// The vertex buffer.
    pub closed spec fn vertices_s(self) -> Seq<Vertex> {
        self.va@
    }

    /// The triangle list.
    pub closed spec fn tris_s(self) -> Seq<(usize, usize, usize)> {
        self.triangles@
    }

    /// Every triangle's indices lie inside the vertex buffer.
    pub open spec fn wf(self) -> bool {
        tris_ok(self.tris_s(), self.vertices_s().len() as int)
    }

    /// Builds a mesh from positions, per-vertex normals, per-vertex surface
    /// coordinates and a triangle list. Fails fast on a length mismatch or
    /// on the first triangle index at or beyond the vertex count.
    pub fn new(
        positions: Vec<Vec3f>,
        normals: Vec<Vec3f>,
        texcoords: Vec<(i64, i64)>,
        triangles: Vec<(usize, usize, usize)>,
    ) -> (r: Result<Shape, GeomError>)
        ensures
            r is Ok <==> normals@.len() == positions@.len() && texcoords@.len() == positions@.len()
                && tris_ok(triangles@, positions@.len() as int),
            r matches Ok(s) ==> {
                &&& s.wf()
                &&& s.tris_s() == triangles@
                &&& s.vertices_s().len() == positions@.len()
                &&& forall|i: int|
                    0 <= i < positions@.len() ==> #[trigger] s.vertices_s()[i] == (Vertex {
                        position: positions@[i],
                        normal: Some(normals@[i]),
                        texcoord: Some(texcoords@[i]),
                    })
            },
            r matches Err(e) ==> {
                if normals@.len() != positions@.len() {
                    e == (GeomError::NormalsLength {
                        expected: positions@.len() as usize,
                        got: normals@.len() as usize,
                    })
                } else if texcoords@.len() != positions@.len() {
                    e == (GeomError::TexcoordsLength {
                        expected: positions@.len() as usize,
                        got: texcoords@.len() as usize,
                    })
                } else {
                    first_tri_defect_err_s(triangles@, positions@.len() as int, e)
                }
            },
    {
        if normals.len() != positions.len() {
            return Err(GeomError::NormalsLength { expected: positions.len(), got: normals.len() });
        }
        if texcoords.len() != positions.len() {
            return Err(
                GeomError::TexcoordsLength { expected: positions.len(), got: texcoords.len() },
            );
        }
        match check_tris(&triangles, positions.len()) {
            Err(e) => Err(e),
            Ok(()) => {
                let n = positions.len();
                let mut va = VertexArray::new(n);
                let mut i: usize = 0;
                while i < n
                    invariant
                        0 <= i <= n,
                        n == positions@.len(),
                        normals@.len() == n,
                        texcoords@.len() == n,
                        va@.len() == i,
                        forall|j: int|
                            0 <= j < i ==> #[trigger] va@[j] == (Vertex {
                                position: positions@[j],
                                normal: Some(normals@[j]),
                                texcoord: Some(texcoords@[j]),
                            }),
                    decreases n - i,
                {
                    va.push(
                        Vertex {
                            position: positions[i],
                            normal: Some(normals[i]),
                            texcoord: Some(texcoords[i]),
                        },
                    );
                    i = i + 1;
                }
                Ok(Shape { va, triangles })
            },
        }
    }

    /// Builds a mesh from positions, per-vertex normals and a triangle
    /// list; the vertices carry no surface coordinates.
    pub fn with_normals(
        positions: Vec<Vec3f>,
        normals: Vec<Vec3f>,
        triangles: Vec<(usize, usize, usize)>,
    ) -> (r: Result<Shape, GeomError>)
        ensures
            r is Ok <==> normals@.len() == positions@.len() && tris_ok(
                triangles@,
                positions@.len() as int,
            ),
            r matches Ok(s) ==> {
                &&& s.wf()
                &&& s.tris_s() == triangles@
                &&& s.vertices_s().len() == positions@.len()
                &&& forall|i: int|
                    0 <= i < positions@.len() ==> #[trigger] s.vertices_s()[i] == (Vertex {
                        position: positions@[i],
                        normal: Some(normals@[i]),
                        texcoord: None,
                    })
            },
            r matches Err(e) ==> {
                if normals@.len() != positions@.len() {
                    e == (GeomError::NormalsLength {
                        expected: positions@.len() as usize,
                        got: normals@.len() as usize,
                    })
                } else {
                    first_tri_defect_err_s(triangles@, positions@.len() as int, e)
                }
            },
    {
        if normals.len() != positions.len() {
            return Err(GeomError::NormalsLength { expected: positions.len(), got: normals.len() });
        }
        match check_tris(&triangles, positions.len()) {
            Err(e) => Err(e),
            Ok(()) => {
                let n = positions.len();
                let mut va = VertexArray::new(n);
                let mut i: usize = 0;
                while i < n
                    invariant
                        0 <= i <= n,
                        n == positions@.len(),
                        normals@.len() == n,
                        va@.len() == i,
                        forall|j: int|
                            0 <= j < i ==> #[trigger] va@[j] == (Vertex {
                                position: positions@[j],
                                normal: Some(normals@[j]),
                                texcoord: None,
                            }),
                    decreases n - i,
                {
                    va.push(
                        Vertex { position: positions[i], normal: Some(normals[i]), texcoord: None },
                    );
                    i = i + 1;
                }
                Ok(Shape { va, triangles })
            },
        }
    }

    /// Builds a mesh from positions and a triangle list alone, deriving
    /// the per-vertex normals by accumulating raw face normals.
    pub fn with_tris(positions: Vec<Vec3f>, triangles: Vec<(usize, usize, usize)>) -> (r: Result<
        Shape,
        GeomError,
    >)
        ensures
            r is Ok <==> tris_ok(triangles@, positions@.len() as int),
            r matches Ok(s) ==> {
                &&& s.wf()
                &&& s.tris_s() == triangles@
                &&& s.vertices_s().len() == positions@.len()
                &&& forall|i: int|
                    0 <= i < positions@.len() ==> #[trigger] s.vertices_s()[i] == (Vertex {
                        position: positions@[i],
                        normal: Some(vec3_of(gen_normals_s(positions@, triangles@)[i])),
                        texcoord: None,
                    })
            },
            r matches Err(e) ==> first_tri_defect_err_s(triangles@, positions@.len() as int, e),
    {
        match check_tris(&triangles, positions.len()) {
            Err(e) => Err(e),
            Ok(()) => {
                let normals = gen_normals(&positions, &triangles);
                proof {
                    lemma_accum_len(positions@, triangles@);
                    assert(forall|i: int|
                        0 <= i < normals@.len() ==> #[trigger] normals@[i]@ == views_of(normals@)[i]);
                }
                Self::with_normals(positions, normals, triangles)
            },
        }
    }

    /// Builds a mesh from positions, a triangle list and per-vertex surface
    /// coordinates, deriving the normals as `with_tris` does.
    pub fn with_texcoords(
        positions: Vec<Vec3f>,
        triangles: Vec<(usize, usize, usize)>,
        texcoords: Vec<(i64, i64)>,
    ) -> (r: Result<Shape, GeomError>)
        ensures
            r is Ok <==> texcoords@.len() == positions@.len() && tris_ok(
                triangles@,
                positions@.len() as int,
            ),
            r matches Ok(s) ==> {
                &&& s.wf()
                &&& s.tris_s() == triangles@
                &&& s.vertices_s().len() == positions@.len()
                &&& forall|i: int|
                    0 <= i < positions@.len() ==> #[trigger] s.vertices_s()[i] == (Vertex {
                        position: positions@[i],
                        normal: Some(vec3_of(gen_normals_s(positions@, triangles@)[i])),
                        texcoord: Some(texcoords@[i]),
                    })
            },
            r matches Err(e) ==> {
                if texcoords@.len() != positions@.len() {
                    e == (GeomError::TexcoordsLength {
                        expected: positions@.len() as usize,
                        got: texcoords@.len() as usize,
                    })
                } else {
                    first_tri_defect_err_s(triangles@, positions@.len() as int, e)
                }
            },
    {
        if texcoords.len() != positions.len() {
            return Err(
                GeomError::TexcoordsLength { expected: positions.len(), got: texcoords.len() },
            );
        }
        match check_tris(&triangles, positions.len()) {
            Err(e) => Err(e),
            Ok(()) => {
                let normals = gen_normals(&positions, &triangles);
                proof {
                    lemma_accum_len(positions@, triangles@);
                    assert(forall|i: int|
                        0 <= i < normals@.len() ==> #[trigger] normals@[i]@ == views_of(normals@)[i]);
                }
                Self::new(positions, normals, texcoords, triangles)
            },
        }
    }

    /// The triangle list.
    pub fn triangles(&self) -> (ts: &Vec<(usize, usize, usize)>)
        ensures
            ts@ == self.tris_s(),
    {
        &self.triangles
    }

    /// The number of triangles.
    pub fn triangle_count(&self) -> (n: usize)
        ensures
            n == self.tris_s().len(),
    {
        self.triangles.len()
    }

    /// The number of vertices.
    pub fn vertex_count(&self) -> (n: usize)
        ensures
            n == self.vertices_s().len(),
    {
        self.va.len()
    }

    /// The vertex at `index`.
    pub fn get(&self, index: usize) -> (v: &Vertex)
        requires
            index < self.vertices_s().len(),
        ensures
            *v == self.vertices_s()[index as int],
    {
        self.va.get(index)
    }
}

} // verus!

// The procedural generators below lay vertices out on a rectangular grid
// and triangulate each grid cell into two triangles. The shared pieces are
// specified once: `grid_tri_s` gives the `n`-th triangle of a grid with
// `outer` columns of vertices and `inner` vertices per column.
verus! {

/// The pair of fixed-point surface coordinates whose values are the
/// model's; meaningful when both lie in the `i64` range.
pub open spec fn pair_of(t: (int, int)) -> (i64, i64) {
    (t.0 as i64, t.1 as i64)
}

/// The `n`-th triangle of the grid triangulation: cells are visited one
/// grid column after the other, and each cell contributes two triangles
/// that share its main diagonal.
pub open spec fn grid_tri_s(outer: int, inner: int, n: int) -> (usize, usize, usize) {
    let cell = n / 2;
    let col = cell / (inner - 1);
    let row = cell % (inner - 1);
    let i00 = (col + row * outer) as usize;
    let i10 = (col + 1 + row * outer) as usize;
    let i11 = (col + 1 + (row + 1) * outer) as usize;
    let i01 = (col + (row + 1) * outer) as usize;
    if n % 2 == 0 {
        (i00, i10, i11)
    } else {
        (i00, i11, i01)
    }
}

/// The full grid triangulation: two triangles for each of the
/// `(outer - 1) * (inner - 1)` cells.
pub open spec fn grid_tris_s(outer: int, inner: int) -> Seq<(usize, usize, usize)> {
    Seq::new((2 * (outer - 1) * (inner - 1)) as nat, |n: int| grid_tri_s(outer, inner, n))
}

/// Triangulates a vertex grid, two triangles per cell, with every index
/// below `outer * inner`.
fn grid_triangles(outer: usize, inner: usize) -> (ts: Vec<(usize, usize, usize)>)
    requires
        2 <= outer <= 4096,
        2 <= inner <= 4096,
    ensures
        ts@ == grid_tris_s(outer as int, inner as int),
        tris_ok(ts@, outer as int * inner as int),
{
    proof {
        assert((outer as int - 1) * ((inner as int) - 1) <= 4095 * 4095) by (nonlinear_arith)
            requires
                2 <= outer <= 4096,
                2 <= inner <= 4096,
        ;
    }
    let ncells: usize = (outer - 1) * (inner - 1);
    let mut ts: Vec<(usize, usize, usize)> = Vec::with_capacity(2 * ncells);
    let mut cell: usize = 0;
    while cell < ncells
        invariant
            2 <= outer <= 4096,
            2 <= inner <= 4096,
            ncells == (outer - 1) * (inner - 1),
            0 <= cell <= ncells,
            ts@.len() == 2 * cell,
            forall|n: int|
                0 <= n < 2 * cell ==> #[trigger] ts@[n] == grid_tri_s(
                    outer as int,
                    inner as int,
                    n,
                ) && tri_ok(ts@[n], outer as int * inner as int),
        decreases ncells - cell,
    {
        let col: usize = cell / (inner - 1);
        let row: usize = cell % (inner - 1);
        proof {
            vstd::arithmetic::div_mod::lemma_mod_bound(cell as int, inner as int - 1);
            assert((inner as int - 1) * (outer as int - 1) == (outer as int - 1) * (inner as int
                - 1)) by (nonlinear_arith);
            vstd::arithmetic::div_mod::lemma_multiply_divide_lt(
                cell as int,
                inner as int - 1,
                outer as int - 1,
            );
            assert(row as int * (outer as int) + outer as int <= (inner as int - 1) * (
            outer as int)) by (nonlinear_arith)
                requires
                    0 <= row as int,
                    (row as int) < (inner as int) - 1,
                    0 < outer as int,
            ;
            assert((inner as int - 1) * (outer as int) < outer as int * inner as int)
                by (nonlinear_arith)
                requires
                    0 < outer as int,
                    1 < inner as int,
            ;
            assert(outer as int * inner as int <= 16777216) by (nonlinear_arith)
                requires
                    2 <= outer <= 4096,
                    2 <= inner <= 4096,
            ;
            assert((row as int + 1) * (outer as int) == row as int * (outer as int)
                + outer as int) by (nonlinear_arith);
            assert(((inner as int) - 1) * (outer as int) + outer as int == outer as int
                * inner as int) by (nonlinear_arith);
        }
        let i00: usize = col + row * outer;
        let i10: usize = i00 + 1;
        let i01: usize = col + (row + 1) * outer;
        let i11: usize = i01 + 1;
        let ghost n0 = 2 * cell as int;
        ts.push((i00, i10, i11));
        ts.push((i00, i11, i01));
        proof {
            vstd::arithmetic::div_mod::lemma_fundamental_div_mod_converse(n0, 2, cell as int, 0);
            vstd::arithmetic::div_mod::lemma_fundamental_div_mod_converse(
                n0 + 1,
                2,
                cell as int,
                1,
            );
            assert(ts@[n0] == grid_tri_s(outer as int, inner as int, n0));
            assert(ts@[n0 + 1] == grid_tri_s(outer as int, inner as int, n0 + 1));
            assert(tri_ok(ts@[n0], outer as int * inner as int));
            assert(tri_ok(ts@[n0 + 1], outer as int * inner as int));
        }
        cell = cell + 1;
    }
    proof {
        assert(2 * ((outer as int - 1) * ((inner as int) - 1)) == 2 * (outer as int - 1) * ((
        inner as int) - 1)) by (nonlinear_arith);
    }
    assert(ts@ =~= grid_tris_s(outer as int, inner as int));
    ts
}

/// The vertex position of the sphere grid point on longitude ring `i` of
/// `lp` and latitude step `j` of `ltp`: the spherical angles are taken in
/// fixed point and the unit direction is scaled by the radius.
#[verifier::opaque]
pub open spec fn uv_sphere_position_s(radius: int, lp: int, ltp: int, i: int, j: int) -> V3 {
    let phi = fx_div_s(fx_mul_s(FX_PI as int, i * (FX_ONE as int)), (lp - 1) * (FX_ONE as int));
    let theta = fx_div_s(
        fx_mul_s(FX_TWO_PI as int, j * (FX_ONE as int)),
        (ltp - 1) * (FX_ONE as int),
    );
    V3 {
        x: fx_mul_s(fx_mul_s(radius, fx_sin_s(theta)), fx_sin_s(phi)),
        y: fx_neg_s(fx_mul_s(radius, fx_cos_s(phi))),
        z: fx_mul_s(fx_mul_s(radius, fx_cos_s(theta)), fx_sin_s(phi)),
    }
}

/// The surface coordinates of the sphere grid point: each axis mapped
/// linearly onto `[0, 1]`.
#[verifier::opaque]
pub open spec fn uv_sphere_texcoord_s(lp: int, ltp: int, i: int, j: int) -> (int, int) {
    (
        fx_div_s(j * (FX_ONE as int), (ltp - 1) * (FX_ONE as int)),
        fx_div_s(i * (FX_ONE as int), (lp - 1) * (FX_ONE as int)),
    )
}

/// All sphere grid vertex positions in push order: longitude ring by
/// longitude ring.
pub open spec fn uv_sphere_positions_s(radius: int, lp: int, ltp: int) -> Seq<Vec3f> {
    Seq::new((lp * ltp) as nat, |k: int| vec3_of(uv_sphere_position_s(radius, lp, ltp, k / ltp, k % ltp)))
}

/// Generates a UV sphere: a grid of `longitude_splits + 2` rings with
/// `latitude_splits + 2` points each, triangulated cell by cell, with
/// derived normals and surface coordinates. The split counts are capped so
/// every count fits comfortably in memory.
#[verifier::rlimit(100)]
pub fn make_uv_sphere(radius: i64, longitude_splits: u64, latitude_splits: u64) -> (r: Result<
    Shape,
    GeomError,
>)
    requires
        radius > 0,
        2 <= longitude_splits <= 4094,
        1 <= latitude_splits <= 4094,
    ensures
        r is Ok,
        r matches Ok(s) ==> {
            let lp = longitude_splits + 2;
            let ltp = latitude_splits + 2;
            let ps = uv_sphere_positions_s(radius as int, lp as int, ltp as int);
            let ts = grid_tris_s(lp as int, ltp as int);
            &&& s.wf()
            &&& s.tris_s() == ts
            &&& s.vertices_s().len() == lp * ltp
            &&& forall|k: int|
                0 <= k < lp * ltp ==> #[trigger] s.vertices_s()[k] == (Vertex {
                    position: ps[k],
                    normal: Some(vec3_of(gen_normals_s(ps, ts)[k])),
                    texcoord: Some(
                        pair_of(
                            uv_sphere_texcoord_s(
                                lp as int,
                                ltp as int,
                                k / ltp as int,
                                k % ltp as int,
                            ),
                        ),
                    ),
                })
        },
{
    let lp: usize = (longitude_splits + 2) as usize;
    let ltp: usize = (latitude_splits + 2) as usize;
    proof {
        assert(lp as int * ltp as int <= 16777216) by (nonlinear_arith)
            requires
                2 <= lp <= 4096,
                2 <= ltp <= 4096,
        ;
    }
    let n: usize = lp * ltp;
    let ghost pos_spec = uv_sphere_positions_s(radius as int, lp as int, ltp as int);
    let mut positions: Vec<Vec3f> = Vec::with_capacity(n);
    let mut texcoords: Vec<(i64, i64)> = Vec::with_capacity(n);
    let mut k: usize = 0;
    while k < n
        invariant
            2 <= lp <= 4096,
            2 <= ltp <= 4096,
            n == lp * ltp,
            radius > 0,
            0 <= k <= n,
            pos_spec == uv_sphere_positions_s(radius as int, lp as int, ltp as int),
            positions@.len() == k,
            texcoords@.len() == k,
            forall|q: int| 0 <= q < k ==> #[trigger] positions@[q] == pos_spec[q],
            forall|q: int|
                0 <= q < k ==> #[trigger] texcoords@[q] == pair_of(
                    uv_sphere_texcoord_s(lp as int, ltp as int, q / ltp as int, q % ltp as int),
                ),
        decreases n - k,
    {
        let i: usize = k / ltp;
        let j: usize = k % ltp;
        proof {
            vstd::arithmetic::div_mod::lemma_mod_bound(k as int, ltp as int);
            assert(ltp as int * (lp as int) == lp as int * ltp as int) by (nonlinear_arith);
            vstd::arithmetic::div_mod::lemma_multiply_divide_lt(k as int, ltp as int, lp as int);
        }
        let phi = fx_div(fx_mul(FX_PI, (i as i64) * FX_ONE), ((lp - 1) as i64) * FX_ONE);
        let theta = fx_div(fx_mul(FX_TWO_PI, (j as i64) * FX_ONE), ((ltp - 1) as i64) * FX_ONE);
        let sinphi = fx_sin(phi);
        let cosphi = fx_cos(phi);
        let sintheta = fx_sin(theta);
        let costheta = fx_cos(theta);
        let position = Vec3f::new(
            fx_mul(fx_mul(radius, sintheta), sinphi),
            fx_neg(fx_mul(radius, cosphi)),
            fx_mul(fx_mul(radius, costheta), sinphi),
        );
        let tx = fx_div((j as i64) * FX_ONE, ((ltp - 1) as i64) * FX_ONE);
        let ty = fx_div((i as i64) * FX_ONE, ((lp - 1) as i64) * FX_ONE);
        proof {
            reveal(uv_sphere_position_s);
            reveal(uv_sphere_texcoord_s);
            assert(position@ == uv_sphere_position_s(
                radius as int, lp as int, ltp as int, i as int, j as int));
            assert((tx, ty) == pair_of(uv_sphere_texcoord_s(
                lp as int, ltp as int, i as int, j as int)));
            assert(vec3_of(position@) == position);
        }
        positions.push(position);
        texcoords.push((tx, ty));
        k = k + 1;
    }
    let triangles = grid_triangles(lp, ltp);
    proof {
        assert(positions@ =~= pos_spec);
    }
    Shape::with_texcoords(positions, triangles, texcoords)
}

} // verus!

verus! {

/// The grid resolution of a quad: the requested point spacing is the
/// larger side divided by `splits + 1`, and each side's point count is its
/// extent over that spacing, clamped into a machine-reasonable range.
pub open spec fn quad_points_s(width: int, length: int, splits: int) -> (int, int) {
    let m = if width >= length {
        width
    } else {
        length
    };
    let pd = fx_div_s(m, (splits + 1) * (FX_ONE as int));
    let xp = clamp_s(tdiv(fx_div_s(width, pd), FX_ONE as int) + 1, 2, 4096);
    let zp = clamp_s(tdiv(fx_div_s(length, pd), FX_ONE as int) + 1, 2, 4096);
    (xp, zp)
}

/// The vertex position of the quad grid point in column `i` of `xp` and
/// row `j` of `zp`: the grid is centered on the origin in the y = 0 plane.
#[verifier::opaque]
pub open spec fn quad_position_s(width: int, length: int, xp: int, zp: int, i: int, j: int) -> V3 {
    let x0 = fx_neg_s(fx_div_s(width, 2 * (FX_ONE as int)));
    let z0 = fx_neg_s(fx_div_s(length, 2 * (FX_ONE as int)));
    V3 {
        x: fx_add_s(x0, fx_div_s(fx_mul_s(i * (FX_ONE as int), width), (xp - 1) * (FX_ONE as int))),
        y: 0,
        z: fx_add_s(z0, fx_div_s(fx_mul_s(j * (FX_ONE as int), length), (zp - 1) * (FX_ONE as int))),
    }
}

/// The surface coordinates of the quad grid point: each axis mapped
/// linearly onto `[0, 1]`.
#[verifier::opaque]
pub open spec fn quad_texcoord_s(xp: int, zp: int, i: int, j: int) -> (int, int) {
    (
        fx_div_s(i * (FX_ONE as int), (xp - 1) * (FX_ONE as int)),
        fx_div_s(j * (FX_ONE as int), (zp - 1) * (FX_ONE as int)),
    )
}

/// All quad grid vertex positions in push order: column by column.
pub open spec fn quad_positions_s(width: int, length: int, xp: int, zp: int) -> Seq<Vec3f> {
    Seq::new((xp * zp) as nat, |k: int| vec3_of(quad_position_s(width, length, xp, zp, k / zp, k % zp)))
}

/// Generates a flat rectangular grid in the y = 0 plane, triangulated cell
/// by cell, with derived normals and surface coordinates.
#[verifier::rlimit(100)]
pub fn make_quad(width: i64, length: i64, splits: u64) -> (r: Result<Shape, GeomError>)
    requires
        width > 0,
        length > 0,
        splits <= 4094,
    ensures
        r is Ok,
        r matches Ok(s) ==> {
            let (xp, zp) = quad_points_s(width as int, length as int, splits as int);
            let ps = quad_positions_s(width as int, length as int, xp, zp);
            let ts = grid_tris_s(xp, zp);
            &&& s.wf()
            &&& s.tris_s() == ts
            &&& s.vertices_s().len() == xp * zp
            &&& forall|k: int|
                0 <= k < xp * zp ==> #[trigger] s.vertices_s()[k] == (Vertex {
                    position: ps[k],
                    normal: Some(vec3_of(gen_normals_s(ps, ts)[k])),
                    texcoord: Some(pair_of(quad_texcoord_s(xp, zp, k / zp, k % zp))),
                })
        },
{
    let maxwl: i64 = if width >= length {
        width
    } else {
        length
    };
    let pd = fx_div(maxwl, ((splits + 1) as i64) * FX_ONE);
    proof {
        crate::fx::lemma_fx_div_nonneg(maxwl as int, ((splits + 1) as i64) as int * (
        FX_ONE as int));
        crate::fx::lemma_fx_div_nonneg(width as int, pd as int);
        crate::fx::lemma_fx_div_nonneg(length as int, pd as int);
    }
    let xq = fx_div(width, pd);
    let zq = fx_div(length, pd);
    let xw = crate::fx::div_pos(xq, FX_ONE);
    let zw = crate::fx::div_pos(zq, FX_ONE);
    let xp: usize = if xw >= 4095 {
        4096
    } else if xw == 0 {
        2
    } else {
        (xw + 1) as usize
    };
    let zp: usize = if zw >= 4095 {
        4096
    } else if zw == 0 {
        2
    } else {
        (zw + 1) as usize
    };
    assert((xp as int, zp as int) == quad_points_s(width as int, length as int, splits as int));
    proof {
        assert(xp as int * (zp as int) <= 16777216) by (nonlinear_arith)
            requires
                2 <= xp <= 4096,
                2 <= zp <= 4096,
        ;
    }
    let n: usize = xp * zp;
    let ghost pos_spec = quad_positions_s(width as int, length as int, xp as int, zp as int);
    let mut positions: Vec<Vec3f> = Vec::with_capacity(n);
    let mut texcoords: Vec<(i64, i64)> = Vec::with_capacity(n);
    let x0 = fx_neg(fx_div(width, 131072));
    let z0 = fx_neg(fx_div(length, 131072));
    let mut k: usize = 0;
    while k < n
        invariant
            2 <= xp <= 4096,
            2 <= zp <= 4096,
            n == xp * zp,
            0 <= k <= n,
            x0 as int == fx_neg_s(fx_div_s(width as int, 2 * (FX_ONE as int))),
            z0 as int == fx_neg_s(fx_div_s(length as int, 2 * (FX_ONE as int))),
            pos_spec == quad_positions_s(width as int, length as int, xp as int, zp as int),
            positions@.len() == k,
            texcoords@.len() == k,
            forall|q: int| 0 <= q < k ==> #[trigger] positions@[q] == pos_spec[q],
            forall|q: int|
                0 <= q < k ==> #[trigger] texcoords@[q] == pair_of(
                    quad_texcoord_s(xp as int, zp as int, q / zp as int, q % zp as int),
                ),
        decreases n - k,
    {
        let i: usize = k / zp;
        let j: usize = k % zp;
        proof {
            vstd::arithmetic::div_mod::lemma_mod_bound(k as int, zp as int);
            assert(zp as int * (xp as int) == xp as int * zp as int) by (nonlinear_arith);
            vstd::arithmetic::div_mod::lemma_multiply_divide_lt(k as int, zp as int, xp as int);
        }
        let x = fx_add(x0, fx_div(fx_mul((i as i64) * FX_ONE, width), ((xp - 1) as i64) * FX_ONE));
        let z = fx_add(z0, fx_div(fx_mul((j as i64) * FX_ONE, length), ((zp - 1) as i64) * FX_ONE));
        let position = Vec3f::new(x, 0, z);
        let tx = fx_div((i as i64) * FX_ONE, ((xp - 1) as i64) * FX_ONE);
        let tz = fx_div((j as i64) * FX_ONE, ((zp - 1) as i64) * FX_ONE);
        proof {
            reveal(quad_position_s);
            reveal(quad_texcoord_s);
            assert(position@ == quad_position_s(
                width as int, length as int, xp as int, zp as int, i as int, j as int));
            assert((tx, tz) == pair_of(quad_texcoord_s(xp as int, zp as int, i as int, j as int)));
            assert(vec3_of(position@) == position);
        }
        positions.push(position);
        texcoords.push((tx, tz));
        k = k + 1;
    }
    let triangles = grid_triangles(xp, zp);
    proof {
        assert(positions@ =~= pos_spec);
    }
    Shape::with_texcoords(positions, triangles, texcoords)
}

} // verus!

verus! {

broadcast use vstd::std_specs::hash::group_hash_axioms;

/// Four to the `n`-th power: the triangle growth factor of one icosphere
/// refinement round.
pub open spec fn pow4(n: nat) -> nat
    decreases n,
{
    if n == 0 {
        1
    } else {
        4 * pow4((n - 1) as nat)
    }
}

/// Every midpoint cache value points into the vertex buffer.
spec fn cache_ok(cache: Map<u64, usize>, n: int) -> bool {
    forall|k: u64| cache.contains_key(k) ==> (#[trigger] cache[k]) < n
}

/// The cache key of an unordered vertex pair: the smaller index in the
/// upper half, the larger in the lower.
pub open spec fn edge_key_s(a: int, b: int) -> int {
    if a <= b {
        a * 4294967296 + b
    } else {
        b * 4294967296 + a
    }
}

/// The two half-edge lengths of the golden rectangles that span a regular
/// icosahedron, scaled so its corners lie on the sphere of the given
/// radius.
pub open spec fn icosahedron_axes_s(radius: int) -> (int, int) {
    let five = 5 * FX_ONE as int;
    let sqrt5 = crate::fx::fx_sqrt_s(five);
    (
        fx_mul_s(crate::fx::fx_sqrt_s(fx_div_s(fx_sub_s(five, sqrt5), 10 * FX_ONE as int)), radius),
        fx_mul_s(crate::fx::fx_sqrt_s(fx_div_s(fx_add_s(five, sqrt5), 10 * FX_ONE as int)), radius),
    )
}

/// The twelve corners of the base icosahedron: the corners of three
/// mutually orthogonal golden rectangles.
pub open spec fn icosahedron_base_s(radius: int) -> Seq<Vec3f> {
    let (s, t) = icosahedron_axes_s(radius);
    let sn = fx_neg_s(s);
    let tn = fx_neg_s(t);
    seq![
        vec3_of(V3 { x: sn, y: t, z: 0 }),
        vec3_of(V3 { x: s, y: t, z: 0 }),
        vec3_of(V3 { x: sn, y: tn, z: 0 }),
        vec3_of(V3 { x: s, y: tn, z: 0 }),
        vec3_of(V3 { x: 0, y: sn, z: t }),
        vec3_of(V3 { x: 0, y: s, z: t }),
        vec3_of(V3 { x: 0, y: sn, z: tn }),
        vec3_of(V3 { x: 0, y: s, z: tn }),
        vec3_of(V3 { x: t, y: 0, z: sn }),
        vec3_of(V3 { x: t, y: 0, z: s }),
        vec3_of(V3 { x: tn, y: 0, z: sn }),
        vec3_of(V3 { x: tn, y: 0, z: s }),
    ]
}

/// The midpoint of two vertices pushed back onto the sphere: their sum,
/// rescaled to unit length, scaled by the radius.
pub open spec fn midpoint_vertex_s(p0: Vec3f, p1: Vec3f, radius: int) -> Vec3f {
    vec3_of(crate::math::v3_scale_s(v3_normalize_s(v3_add_s(p0@, p1@)), radius))
}

/// Whether the `k`-th vertex is the sphere-projected midpoint of two
/// earlier vertices.
pub open spec fn is_sphere_midpoint_s(ps: Seq<Vec3f>, radius: int, k: int) -> bool {
    exists|i: int, j: int|
        #![auto]
        0 <= i < k && 0 <= j < k && ps[k] == midpoint_vertex_s(ps[i], ps[j], radius)
}

/// The vertex discipline of an icosphere: the first twelve vertices are
/// the base icosahedron's corners, and every vertex after them is the
/// sphere-projected midpoint of two earlier vertices.
pub open spec fn icosphere_positions_ok(ps: Seq<Vec3f>, radius: int) -> bool {
    &&& ps.len() >= 12
    &&& forall|k: int| 0 <= k < 12 ==> #[trigger] ps[k] == icosahedron_base_s(radius)[k]
    &&& forall|k: int| 12 <= k < ps.len() ==> #[trigger] is_sphere_midpoint_s(ps, radius, k)
}

/// The positions of a vertex buffer.
pub open spec fn positions_of_s(vs: Seq<Vertex>) -> Seq<Vec3f> {
    Seq::new(vs.len(), |i: int| vs[i].position)
}

/// Appending a sphere-projected midpoint of two existing vertices keeps
/// the icosphere vertex discipline.
proof fn lemma_icosphere_push(ps: Seq<Vec3f>, radius: int, i: int, j: int)
    requires
        icosphere_positions_ok(ps, radius),
        0 <= i < ps.len(),
        0 <= j < ps.len(),
    ensures
        icosphere_positions_ok(ps.push(midpoint_vertex_s(ps[i], ps[j], radius)), radius),
{
    let q = ps.push(midpoint_vertex_s(ps[i], ps[j], radius));
    assert forall|k: int| 0 <= k < 12 implies #[trigger] q[k] == icosahedron_base_s(radius)[k] by {
        assert(q[k] == ps[k]);
    }
    assert forall|k: int| 12 <= k < q.len() implies #[trigger] is_sphere_midpoint_s(
        q,
        radius,
        k,
    ) by {
        if k < ps.len() {
            assert(is_sphere_midpoint_s(ps, radius, k));
            let (x, y) = choose|x: int, y: int|
                #![auto]
                0 <= x < k && 0 <= y < k && ps[k] == midpoint_vertex_s(ps[x], ps[y], radius);
            assert(q[k] == midpoint_vertex_s(q[x], q[y], radius));
        } else {
            assert(q[k] == midpoint_vertex_s(q[i], q[j], radius));
        }
    }
}

/// Looks up or creates the midpoint vertex of the edge `(a, b)`: the cache
/// is keyed by the unordered index pair; a hit returns the shared vertex
/// untouched, a miss appends the sphere-projected midpoint of the two
/// endpoints and records it under the edge's key.
fn find_middle_point(
    a: usize,
    b: usize,
    radius: i64,
    positions: &mut Vec<Vec3f>,
    cache: &mut HashMapU64,
) -> (idx: usize)
    requires
        a < old(positions)@.len(),
        b < old(positions)@.len(),
        old(positions)@.len() < 0xFFFF_FFFF,
        cache_ok(old(cache)@, old(positions)@.len() as int),
    ensures
        ({
            let key = edge_key_s(a as int, b as int) as u64;
            let lo: int = if a <= b {
                a as int
            } else {
                b as int
            };
            let hi: int = if a <= b {
                b as int
            } else {
                a as int
            };
            if old(cache)@.contains_key(key) {
                &&& final(positions)@ == old(positions)@
                &&& final(cache)@ == old(cache)@
                &&& idx == old(cache)@[key]
            } else {
                &&& final(positions)@ == old(positions)@.push(
                    midpoint_vertex_s(old(positions)@[lo], old(positions)@[hi], radius as int),
                )
                &&& idx == old(positions)@.len()
                &&& final(cache)@ == old(cache)@.insert(key, idx)
            }
        }),
        idx < final(positions)@.len(),
        old(positions)@.len() <= final(positions)@.len() <= old(positions)@.len() + 1,
        cache_ok(final(cache)@, final(positions)@.len() as int),
        icosphere_positions_ok(old(positions)@, radius as int) ==> icosphere_positions_ok(
            final(positions)@,
            radius as int,
        ),
{
    let (lo, hi) = if a <= b {
        (a, b)
    } else {
        (b, a)
    };
    let key: u64 = (lo as u64) * 4294967296 + (hi as u64);
    assert(key as int == edge_key_s(a as int, b as int));
    match cache.get(&key) {
        Some(idx) => *idx,
        None => {
            let p0 = positions[lo];
            let p1 = positions[hi];
            let mid = p0.add(&p1).normalize().scale(radius);
            proof {
                assert(mid == midpoint_vertex_s(p0, p1, radius as int));
                if icosphere_positions_ok(positions@, radius as int) {
                    lemma_icosphere_push(positions@, radius as int, lo as int, hi as int);
                }
            }
            positions.push(mid);
            let idx = positions.len() - 1;
            cache.insert(key, idx);
            idx
        },
    }
}

/// Generates an icosphere: a regular icosahedron whose triangles are
/// subdivided `refinement_depth` times, every new vertex being the
/// sphere-projected midpoint of an edge, shared between neighboring
/// triangles through a cache keyed by the unordered edge.
pub fn make_icosphere(radius: i64, refinement_depth: u8) -> (r: Result<Shape, GeomError>)
    requires
        radius > 0,
        refinement_depth <= 7,
    ensures
        r is Ok,
        r matches Ok(s) ==> {
            &&& s.wf()
            &&& s.tris_s().len() == 20 * pow4(refinement_depth as nat)
            &&& icosphere_positions_ok(positions_of_s(s.vertices_s()), radius as int)
        },
{
    let five = 5 * FX_ONE;
    let sqrt5 = crate::fx::fx_sqrt(five);
    let s_len = fx_mul(crate::fx::fx_sqrt(fx_div(fx_sub(five, sqrt5), 10 * FX_ONE)), radius);
    let t_len = fx_mul(crate::fx::fx_sqrt(fx_div(fx_add(five, sqrt5), 10 * FX_ONE)), radius);
    let s_neg = fx_neg(s_len);
    let t_neg = fx_neg(t_len);
    proof {
        assert(s_len as int == icosahedron_axes_s(radius as int).0);
        assert(t_len as int == icosahedron_axes_s(radius as int).1);
    }

    let mut positions: Vec<Vec3f> = Vec::with_capacity(12);
    positions.push(Vec3f::new(s_neg, t_len, 0));
    positions.push(Vec3f::new(s_len, t_len, 0));
    positions.push(Vec3f::new(s_neg, t_neg, 0));
    positions.push(Vec3f::new(s_len, t_neg, 0));
    positions.push(Vec3f::new(0, s_neg, t_len));
    positions.push(Vec3f::new(0, s_len, t_len));
    positions.push(Vec3f::new(0, s_neg, t_neg));
    positions.push(Vec3f::new(0, s_len, t_neg));
    positions.push(Vec3f::new(t_len, 0, s_neg));
    positions.push(Vec3f::new(t_len, 0, s_len));
    positions.push(Vec3f::new(t_neg, 0, s_neg));
    positions.push(Vec3f::new(t_neg, 0, s_len));
    proof {
        assert(positions@ =~= icosahedron_base_s(radius as int));
        assert(icosphere_positions_ok(positions@, radius as int));
    }

    let mut triangles: Vec<(usize, usize, usize)> = Vec::with_capacity(20);
    triangles.push((0, 11, 5));
    triangles.push((0, 5, 1));
    triangles.push((0, 1, 7));
    triangles.push((0, 7, 10));
    triangles.push((0, 10, 11));
    triangles.push((1, 5, 9));
    triangles.push((5, 11, 4));
    triangles.push((11, 10, 2));
    triangles.push((10, 7, 6));
    triangles.push((7, 1, 8));
    triangles.push((3, 9, 4));
    triangles.push((3, 4, 2));
    triangles.push((3, 2, 6));
    triangles.push((3, 6, 8));
    triangles.push((3, 8, 9));
    triangles.push((4, 9, 5));
    triangles.push((2, 4, 11));
    triangles.push((6, 2, 10));
    triangles.push((8, 6, 7));
    triangles.push((9, 8, 1));

    assert(triangles@.len() == 20 * pow4(0)) by {
        reveal_with_fuel(pow4, 1);
    }
    assert(tris_ok(triangles@, positions@.len() as int));

    let mut round: usize = 0;
    while round < refinement_depth as usize
        invariant
            radius > 0,
            refinement_depth <= 7,
            0 <= round <= refinement_depth as int,
            icosphere_positions_ok(positions@, radius as int),
            positions@.len() as int <= 12 + 20 * (pow4(round as nat) as int - 1),
            tris_ok(triangles@, positions@.len() as int),
            triangles@.len() == 20 * pow4(round as nat),
        decreases refinement_depth as int - round,
    {
        proof {
            lemma_pow4_mono(round as nat, 6);
            assert(pow4(6) == 4096) by {
                reveal_with_fuel(pow4, 7);
            }
        }
        let mut new_triangles: Vec<(usize, usize, usize)> = Vec::with_capacity(
            4 * triangles.len(),
        );
        let mut cache: HashMapU64 = std::collections::HashMap::new();
        let ghost start_len = positions@.len() as int;
        let mut ti: usize = 0;
        while ti < triangles.len()
            invariant
                radius > 0,
                icosphere_positions_ok(positions@, radius as int),
                start_len <= positions@.len() as int <= start_len + 3 * ti,
                start_len <= 12 + 20 * (pow4(round as nat) as int - 1),
                pow4(round as nat) <= 4096,
                tris_ok(triangles@, positions@.len() as int),
                cache_ok(cache@, positions@.len() as int),
                0 <= ti <= triangles@.len(),
                triangles@.len() == 20 * pow4(round as nat),
                new_triangles@.len() == 4 * ti,
                tris_ok(new_triangles@, positions@.len() as int),
            decreases triangles@.len() - ti,
        {
            let t = triangles[ti];
            assert(tri_ok(triangles@[ti as int], positions@.len() as int));
            let ma = find_middle_point(t.0, t.1, radius, &mut positions, &mut cache);
            let mb = find_middle_point(t.1, t.2, radius, &mut positions, &mut cache);
            let mc = find_middle_point(t.2, t.0, radius, &mut positions, &mut cache);
            new_triangles.push((t.0, ma, mc));
            new_triangles.push((t.1, mb, ma));
            new_triangles.push((t.2, mc, mb));
            new_triangles.push((ma, mb, mc));
            ti = ti + 1;
        }
        proof {
            assert(4 * (20 * pow4(round as nat)) == 20 * pow4((round + 1) as nat));
            assert(pow4((round + 1) as nat) as int == 4 * pow4(round as nat) as int);
        }
        triangles = new_triangles;
        round = round + 1;
    }
    let ghost final_ps = positions@;
    let r = Shape::with_tris(positions, triangles);
    proof {
        let s = r->Ok_0;
        assert(positions_of_s(s.vertices_s()) =~= final_ps);
    }
    r
}

/// `pow4` is monotone.
proof fn lemma_pow4_mono(a: nat, b: nat)
    requires
        a <= b,
    ensures
        pow4(a) <= pow4(b),
    decreases b,
{
    if a < b && b > 0 {
        lemma_pow4_mono(a, (b - 1) as nat);
    }
}

} // verus!
