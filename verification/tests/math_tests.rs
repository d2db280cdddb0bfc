use braillir::fx::{fx_add, fx_cos, fx_div, fx_mul, fx_neg, fx_sin, fx_sqrt, fx_sub, FX_ONE};
use braillir::math::{Mat4x4f, Vec3f};

const FX: i64 = FX_ONE;

#[test]
fn fx_basic_arithmetic() {
    assert_eq!(fx_add(FX, FX), 2 * FX);
    assert_eq!(fx_mul(2 * FX, 3 * FX), 6 * FX);
    assert_eq!(fx_mul(FX / 2, FX / 2), FX / 4);
    assert_eq!(fx_div(6 * FX, 3 * FX), 2 * FX);
    assert_eq!(fx_div(FX, 0), 0);
    assert_eq!(fx_add(i64::MAX, i64::MAX), i64::MAX);
}

#[test]
fn fx_saturation_edges() {
    assert_eq!(fx_neg(i64::MIN), i64::MAX);
    assert_eq!(fx_sub(i64::MIN, 1), i64::MIN);
    assert_eq!(fx_sub(i64::MAX, -1), i64::MAX);
    assert_eq!(fx_mul(i64::MAX, 2 * FX), i64::MAX);
    assert_eq!(fx_mul(i64::MIN, 2 * FX), i64::MIN);
    // Truncation toward zero keeps signs symmetric.
    assert_eq!(fx_mul(-3, 3), -(fx_mul(3, 3)));
    assert_eq!(fx_div(-FX, 3 * FX), -fx_div(FX, 3 * FX));
}

#[test]
fn fx_sqrt_exact_squares() {
    assert_eq!(fx_sqrt(4 * FX), 2 * FX);
    assert_eq!(fx_sqrt(9 * FX), 3 * FX);
    assert_eq!(fx_sqrt(FX), FX);
    assert_eq!(fx_sqrt(0), 0);
    assert_eq!(fx_sqrt(-5), 0);
}

#[test]
fn fx_trig_values() {
    assert_eq!(fx_sin(0), 0);
    // cos 0 and sin(pi/2) are one within a few fixed-point steps.
    assert!((fx_cos(0) - FX).abs() < 16);
    assert!((fx_sin(205887 / 2) - FX).abs() < 16);
    // sin pi is zero within tolerance; sin(3 pi / 2) is minus one.
    assert!(fx_sin(205887).abs() < 16);
    assert!((fx_sin(3 * 205887 / 2) + FX).abs() < 16);
    // A quarter turn: sin(pi/4) is sqrt(2)/2, about 46341 steps.
    assert!((fx_sin(205887 / 4) - 46341).abs() < 32);
}

#[test]
fn normalize_keeps_unit_vectors() {
    let v = Vec3f::new(FX, 0, 0);
    let n = v.normalize();
    assert_eq!((n.x, n.y, n.z), (FX, 0, 0));

    let v = Vec3f::new(0, -FX, 0);
    let n = v.normalize();
    assert_eq!((n.x, n.y, n.z), (0, -FX, 0));
}

#[test]
fn normalize_of_nearly_unit_vector_is_close() {
    // A diagonal vector: after normalizing, the length is one within
    // a small fixed-point tolerance.
    let v = Vec3f::new(3 * FX, 4 * FX, 0);
    let n = v.normalize();
    assert!((n.length() - FX).abs() < 8);
    assert!((n.x - (3 * FX) / 5).abs() < 8);
    assert!((n.y - (4 * FX) / 5).abs() < 8);
}

#[test]
fn normalize_zero_vector_degenerates() {
    let v = Vec3f::zero();
    let n = v.normalize();
    assert_eq!((n.x, n.y, n.z), (0, 0, 0));
}

#[test]
fn vector_operations() {
    let a = Vec3f::new(FX, 2 * FX, 3 * FX);
    let b = Vec3f::new(4 * FX, 5 * FX, 6 * FX);
    let s = a.add(&b);
    assert_eq!((s.x, s.y, s.z), (5 * FX, 7 * FX, 9 * FX));
    let d = b.sub(&a);
    assert_eq!((d.x, d.y, d.z), (3 * FX, 3 * FX, 3 * FX));
    assert_eq!(a.dot(&b), 32 * FX);
    let c = a.cross(&b);
    assert_eq!((c.x, c.y, c.z), (-3 * FX, 6 * FX, -3 * FX));
    let n = a.neg();
    assert_eq!((n.x, n.y, n.z), (-FX, -2 * FX, -3 * FX));
    let k = a.scale(2 * FX);
    assert_eq!((k.x, k.y, k.z), (2 * FX, 4 * FX, 6 * FX));
}

fn example_matrix() -> Mat4x4f {
    Mat4x4f::new(
        FX, 2 * FX, 3 * FX, 4 * FX,
        5 * FX, 6 * FX, 7 * FX, 8 * FX,
        9 * FX, 10 * FX, 11 * FX, 12 * FX,
        13 * FX, 14 * FX, 15 * FX, 16 * FX,
    )
}

fn mats_equal(a: &Mat4x4f, b: &Mat4x4f) -> bool {
    a == b
}

#[test]
fn matmul_identity_both_sides() {
    let m = example_matrix();
    let i = Mat4x4f::identity();
    assert!(mats_equal(&i.matmul(&m), &m));
    assert!(mats_equal(&m.matmul(&i), &m));
}

#[test]
fn matmul_composes() {
    // Two axis scalings compose into their product.
    let a = Mat4x4f::new(
        2 * FX, 0, 0, 0,
        0, 3 * FX, 0, 0,
        0, 0, 4 * FX, 0,
        0, 0, 0, FX,
    );
    let b = Mat4x4f::new(
        5 * FX, 0, 0, 0,
        0, 5 * FX, 0, 0,
        0, 0, 5 * FX, 0,
        0, 0, 0, FX,
    );
    let c = a.matmul(&b);
    assert_eq!(c.m00, 10 * FX);
    assert_eq!(c.m11, 15 * FX);
    assert_eq!(c.m22, 20 * FX);
    assert_eq!(c.m33, FX);
}

#[test]
fn matrix_vector_translation_flag() {
    let mut m = Mat4x4f::identity();
    m.m03 = 10 * FX;
    let v = Vec3f::new(FX, 2 * FX, 3 * FX);
    let with_t = m.mul(&v, true);
    assert_eq!((with_t.x, with_t.y, with_t.z), (11 * FX, 2 * FX, 3 * FX));
    let without_t = m.mul(&v, false);
    assert_eq!((without_t.x, without_t.y, without_t.z), (FX, 2 * FX, 3 * FX));
}

#[test]
fn matrix_vector_perspective_divide() {
    // A projection-style bottom row divides by the camera-space depth.
    let m = Mat4x4f::new(
        FX, 0, 0, 0,
        0, FX, 0, 0,
        0, 0, FX, 0,
        0, 0, FX, 0,
    );
    let v = Vec3f::new(4 * FX, 8 * FX, 2 * FX);
    let p = m.mul(&v, true);
    assert_eq!((p.x, p.y, p.z), (2 * FX, 4 * FX, FX));
}

#[test]
fn rotation_quarter_turn() {
    // A quarter turn about y sends +z toward +x.
    let r = Mat4x4f::rotate_y(205887 / 2);
    let v = Vec3f::new(0, 0, FX);
    let w = r.mul(&v, false);
    assert!((w.x - FX).abs() < 32);
    assert_eq!(w.y, 0);
    assert!(w.z.abs() < 32);
}
