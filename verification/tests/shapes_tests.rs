use braillir::fx::FX_ONE;
use braillir::math::Vec3f;
use braillir::obj::{parse_obj, ObjError};
use braillir::shapes::{make_icosphere, make_quad, make_uv_sphere, GeomError, Shape};

const FX: i64 = FX_ONE;

fn right_triangle_positions() -> Vec<Vec3f> {
    vec![Vec3f::new(0, 0, 0), Vec3f::new(FX, 0, 0), Vec3f::new(0, FX, 0)]
}

#[test]
fn with_tris_derives_normals() {
    let shape = Shape::with_tris(right_triangle_positions(), vec![(0, 1, 2)]).unwrap();
    assert_eq!(shape.vertex_count(), 3);
    assert_eq!(shape.triangle_count(), 1);
    for i in 0..3 {
        let v = shape.get(i);
        let n = v.normal.unwrap();
        // The face lies in the z = 0 plane with counter-clockwise winding,
        // so every derived vertex normal is the +z unit vector.
        assert_eq!((n.x, n.y, n.z), (0, 0, FX));
        assert!(v.texcoord.is_none());
    }
}

#[test]
fn constructor_rejects_out_of_range_triangle() {
    let r = Shape::with_tris(right_triangle_positions(), vec![(0, 1, 2), (0, 3, 1)]);
    match r {
        Err(GeomError::TriangleIndex { tri, index }) => {
            assert_eq!(tri, 1);
            assert_eq!(index, 3);
        },
        _ => panic!("expected a triangle index fault"),
    }
}

#[test]
fn constructor_rejects_length_mismatch() {
    let r = Shape::with_normals(
        right_triangle_positions(),
        vec![Vec3f::new(0, 0, FX)],
        vec![(0, 1, 2)],
    );
    match r {
        Err(GeomError::NormalsLength { expected, got }) => {
            assert_eq!(expected, 3);
            assert_eq!(got, 1);
        },
        _ => panic!("expected a normals length fault"),
    }
    let r = Shape::with_texcoords(right_triangle_positions(), vec![(0, 1, 2)], vec![(0, 0)]);
    match r {
        Err(GeomError::TexcoordsLength { expected, got }) => {
            assert_eq!(expected, 3);
            assert_eq!(got, 1);
        },
        _ => panic!("expected a texcoords length fault"),
    }
}

#[test]
fn uv_sphere_counts() {
    let s = make_uv_sphere(5 * FX, 3, 3).unwrap();
    // 3 longitude splits and 3 latitude splits give a 5 by 5 grid.
    assert_eq!(s.vertex_count(), 25);
    assert_eq!(s.triangle_count(), 2 * 4 * 4);
    for t in s.triangles() {
        assert!(t.0 < 25 && t.1 < 25 && t.2 < 25);
    }
    // Every vertex sits on the sphere within a small tolerance.
    for i in 0..25 {
        let p = s.get(i).position;
        let len = p.length();
        assert!((len - 5 * FX).abs() < FX / 8, "radius off: {}", len);
    }
}

#[test]
fn quad_counts() {
    let s = make_quad(10 * FX, 20 * FX, 3).unwrap();
    assert!(s.vertex_count() >= 4);
    assert!(s.triangle_count() >= 2);
    let n = s.vertex_count();
    for t in s.triangles() {
        assert!(t.0 < n && t.1 < n && t.2 < n);
    }
    // The grid is flat: every vertex has y = 0.
    for i in 0..n {
        assert_eq!(s.get(i).position.y, 0);
    }
}

#[test]
fn icosphere_counts() {
    let s = make_icosphere(4 * FX, 0).unwrap();
    assert_eq!(s.vertex_count(), 12);
    assert_eq!(s.triangle_count(), 20);
    let s = make_icosphere(4 * FX, 2).unwrap();
    assert_eq!(s.triangle_count(), 20 * 16);
    let n = s.vertex_count();
    for t in s.triangles() {
        assert!(t.0 < n && t.1 < n && t.2 < n);
    }
    // Every refined vertex is pushed back onto the sphere.
    for i in 0..n {
        let len = s.get(i).position.length();
        assert!((len - 4 * FX).abs() < FX / 8, "radius off: {}", len);
    }
}

#[test]
fn icosphere_shares_midpoints() {
    // The base icosahedron has 30 edges; each refinement pass adds exactly
    // one shared midpoint per edge and quadruples the edge count, so the
    // vertex counts are 12, 42, 162, ... Duplicate midpoints would inflate
    // them.
    let s = make_icosphere(4 * FX, 1).unwrap();
    assert_eq!(s.vertex_count(), 42);
    assert_eq!(s.triangle_count(), 80);
    let s = make_icosphere(4 * FX, 2).unwrap();
    assert_eq!(s.vertex_count(), 162);
}

fn lines(rows: &[&str]) -> Vec<Vec<u8>> {
    rows.iter().map(|r| r.as_bytes().to_vec()).collect()
}

#[test]
fn obj_round_trip() {
    let input = lines(&["v 0 0 0", "v 1 0 0", "v 0 1 0", "f 1 2 3"]);
    let s = parse_obj(&input).unwrap();
    assert_eq!(s.vertex_count(), 3);
    assert_eq!(s.triangle_count(), 1);
    assert_eq!(s.triangles()[0], (0, 1, 2));
    let p0 = s.get(0).position;
    let p1 = s.get(1).position;
    let p2 = s.get(2).position;
    assert_eq!((p0.x, p0.y, p0.z), (0, 0, 0));
    assert_eq!((p1.x, p1.y, p1.z), (FX, 0, 0));
    assert_eq!((p2.x, p2.y, p2.z), (0, FX, 0));
}

#[test]
fn obj_negative_indices_resolve_to_same_triangle() {
    let input = lines(&["v 0 0 0", "v 1 0 0", "v 0 1 0", "f -1 -2 -3"]);
    let s = parse_obj(&input).unwrap();
    assert_eq!(s.triangle_count(), 1);
    let t = s.triangles()[0];
    // Counting back from the end of the three-vertex buffer gives the
    // same three corners, walked from the last one.
    assert_eq!(t, (2, 1, 0));
    let mut corners = [t.0, t.1, t.2];
    corners.sort();
    assert_eq!(corners, [0, 1, 2]);
}

#[test]
fn obj_quad_fan_triangulates() {
    let input = lines(&["v 0 0 0", "v 1 0 0", "v 1 1 0", "v 0 1 0", "f 1 2 3 4"]);
    let s = parse_obj(&input).unwrap();
    assert_eq!(s.triangle_count(), 2);
    assert_eq!(s.triangles()[0], (0, 1, 2));
    assert_eq!(s.triangles()[1], (0, 2, 3));
}

#[test]
fn obj_fractions_and_signs() {
    let input = lines(&["v 0.5 -0.25 1", "v +2 0 0", "v 0 0 0", "f 1 2 3"]);
    let s = parse_obj(&input).unwrap();
    let p = s.get(0).position;
    assert_eq!((p.x, p.y, p.z), (FX / 2, -FX / 4, FX));
    assert_eq!(s.get(1).position.x, 2 * FX);
}

#[test]
fn obj_texcoords_carried_through() {
    let input = lines(&[
        "v 0 0 0",
        "v 1 0 0",
        "v 0 1 0",
        "vt 0 0",
        "vt 1 0",
        "vt 0 1",
        "f 1/1 2/2 3/3",
    ]);
    let s = parse_obj(&input).unwrap();
    assert_eq!(s.get(0).texcoord, Some((0, 0)));
    assert_eq!(s.get(1).texcoord, Some((FX, 0)));
    assert_eq!(s.get(2).texcoord, Some((0, FX)));
}

#[test]
fn obj_bad_number_reports_line() {
    let input = lines(&["v 0 0 0", "v x 0 0"]);
    assert!(matches!(parse_obj(&input), Err(ObjError::BadNumber { line: 1 })));
}

#[test]
fn obj_missing_fields_reports_line() {
    let input = lines(&["v 1 2"]);
    assert!(matches!(parse_obj(&input), Err(ObjError::MissingFields { line: 0 })));
}

#[test]
fn obj_zero_index_is_bad() {
    let input = lines(&["v 0 0 0", "f 0 1 1"]);
    assert!(matches!(parse_obj(&input), Err(ObjError::BadIndex { line: 1 })));
}

#[test]
fn obj_texcoord_reference_out_of_range() {
    let input = lines(&["v 0 0 0", "vt 0 0", "f 1/2 1/1 1/1"]);
    assert!(matches!(parse_obj(&input), Err(ObjError::BadIndex { line: 2 })));
}

#[test]
fn obj_dangling_vertex_reference_is_geometry_fault() {
    let input = lines(&["v 0 0 0", "f 1 2 3"]);
    match parse_obj(&input) {
        Err(ObjError::Geometry { fault: GeomError::TriangleIndex { tri, index } }) => {
            assert_eq!(tri, 0);
            assert_eq!(index, 1);
        },
        _ => panic!("expected a geometry fault"),
    }
}

#[test]
fn obj_ignores_unknown_lines() {
    let input = lines(&["# comment", "o name", "v 0 0 0", "v 1 0 0", "v 0 1 0", "f 1 2 3", ""]);
    let s = parse_obj(&input).unwrap();
    assert_eq!(s.vertex_count(), 3);
    assert_eq!(s.triangle_count(), 1);
}
