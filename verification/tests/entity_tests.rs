use braillir::entity::Entity;
use braillir::fx::FX_ONE;
use braillir::math::Vec3f;
use braillir::shapes::Shape;
use braillir::texture::{Color, Texture};
use braillir::vertex::{Vertex, VertexArray};
use braillir::window::Window;

const FX: i64 = FX_ONE;

fn triangle_shape() -> Shape {
    Shape::with_tris(
        vec![Vec3f::new(0, 0, 0), Vec3f::new(FX, 0, 0), Vec3f::new(0, FX, 0)],
        vec![(0, 1, 2)],
    )
    .unwrap()
}

#[test]
fn pose_setters_and_getters() {
    let mut e = Entity::with_geometry(triangle_shape());
    let t = e.get_translation();
    assert_eq!((t.x, t.y, t.z), (0, 0, 0));
    let d = e.get_direction();
    assert_eq!((d.x, d.y, d.z), (0, 0, FX));

    e.set_translation(FX, 2 * FX, 3 * FX);
    let t = e.get_translation();
    assert_eq!((t.x, t.y, t.z), (FX, 2 * FX, 3 * FX));

    e.translate(FX, 0, -FX);
    let t = e.get_translation();
    assert_eq!((t.x, t.y, t.z), (2 * FX, 2 * FX, 2 * FX));

    e.set_direction(0, 0, 5 * FX);
    let d = e.get_direction();
    assert_eq!((d.x, d.y, d.z), (0, 0, FX));
}

#[test]
fn set_direction_rejects_zero_length() {
    let mut e = Entity::with_geometry(triangle_shape());
    e.set_direction(FX, 0, 0);
    // A zero-length input keeps the previous direction, so the stored
    // direction never loses its unit length.
    e.set_direction(0, 0, 0);
    let d = e.get_direction();
    assert_eq!((d.x, d.y, d.z), (FX, 0, 0));
}

#[test]
fn scale_clamps_to_positive() {
    let mut e = Entity::with_geometry(triangle_shape());
    e.set_scale(-3);
    // A non-positive scale is clamped up to the smallest positive step;
    // scaling by two afterwards keeps the value positive.
    e.set_scale(2 * FX);
    e.scale(2 * FX);
    let m = e.gen_local_transform();
    assert_eq!(m.m00, 4 * FX);
    assert_eq!(m.m11, 4 * FX);
    assert_eq!(m.m22, 4 * FX);
}

#[test]
fn local_transform_carries_translation() {
    let mut e = Entity::with_geometry(triangle_shape());
    e.set_translation(7 * FX, -8 * FX, 9 * FX);
    let m = e.gen_local_transform();
    assert_eq!(m.m03, 7 * FX);
    assert_eq!(m.m13, -8 * FX);
    assert_eq!(m.m23, 9 * FX);
    // The default pose faces +z, so the rotation part is the identity.
    assert_eq!(m.m00, FX);
    assert_eq!(m.m11, FX);
    assert_eq!(m.m22, FX);
    assert_eq!(m.m01, 0);
    assert_eq!(m.m10, 0);
}

#[test]
fn local_transform_yaw_quarter_turn() {
    let mut e = Entity::with_geometry(triangle_shape());
    // Facing +x: the yaw decomposition puts the sine of the angle at the
    // x component's magnitude.
    e.set_direction(FX, 0, 0);
    let m = e.gen_local_transform();
    assert!(m.m00.abs() < 16, "cos is zero: {}", m.m00);
    assert!((m.m02 - FX).abs() < 16, "sin is one: {}", m.m02);
    let v = m.mul(&Vec3f::new(0, 0, FX), false);
    assert!((v.x - FX).abs() < 16);
    assert!(v.z.abs() < 16);
}

#[test]
fn untextured_entity_samples_white() {
    let e = Entity::with_geometry(triangle_shape());
    assert_eq!(e.sample_texture((0, 0)), Color::new(255, 255, 255));
    assert_eq!(e.sample_texture((FX, FX)), Color::new(255, 255, 255));
}

#[test]
fn textured_entity_samples_nearest_texel() {
    let mut e = Entity::with_geometry(triangle_shape());
    let grid = vec![
        Color::new(10, 0, 0),
        Color::new(0, 20, 0),
        Color::new(0, 0, 30),
        Color::new(40, 40, 40),
    ];
    let tex = Texture::new(grid, 2, 2).unwrap();
    e.load_texture(tex);
    assert_eq!(e.sample_texture((0, 0)), Color::new(10, 0, 0));
    assert_eq!(e.sample_texture((FX, 0)), Color::new(0, 20, 0));
    assert_eq!(e.sample_texture((0, FX)), Color::new(0, 0, 30));
    assert_eq!(e.sample_texture((FX, FX)), Color::new(40, 40, 40));
    // Coordinates are clamped into the unit square before lookup.
    assert_eq!(e.sample_texture((-5 * FX, 9 * FX)), Color::new(0, 0, 30));
}

#[test]
fn texture_rejects_inconsistent_grid() {
    assert!(Texture::new(vec![Color::new(0, 0, 0); 3], 2, 2).is_none());
    assert!(Texture::new(vec![Color::new(0, 0, 0); 4], 2, 2).is_some());
    assert!(Texture::new(vec![], 0, 0).is_none());
}

#[test]
fn color_shading_rules() {
    let c = Color::new(200, 100, 0);
    assert_eq!(c.mul(FX), Color::new(200, 100, 0));
    assert_eq!(c.mul(FX / 2), Color::new(100, 50, 0));
    assert_eq!(c.mul(2 * FX), Color::new(200, 100, 0));
    // Shading a non-black color to nothing lifts it to the minimum
    // visible color; true black stays black.
    assert_eq!(c.mul(0), Color::new(1, 1, 1));
    assert_eq!(Color::new(0, 0, 0).mul(0), Color::new(0, 0, 0));
    assert_eq!(c.mul(-FX), Color::new(1, 1, 1));
    assert!(c.is_not_black());
    assert!(!Color::new(0, 0, 0).is_not_black());
}

#[test]
fn color_accumulates_channelwise() {
    let mut c = Color::new(10, 20, 30);
    c.add_assign(Color::new(1, 2, 3));
    assert_eq!(c, Color::new(11, 22, 33));
}

#[test]
fn vertex_array_push_and_get() {
    let mut va = VertexArray::new(2);
    assert_eq!(va.len(), 0);
    let v = Vertex::new(Vec3f::new(FX, 0, 0), None, Some((0, FX)));
    va.push(v);
    assert_eq!(va.len(), 1);
    assert_eq!(va.get(0).position.x, FX);
    assert_eq!(va.get(0).texcoord, Some((0, FX)));
    let w = Vertex::new(Vec3f::new(0, FX, 0), Some(Vec3f::new(0, 0, FX)), None);
    va.set(0, w);
    assert_eq!(va.get(0).position.y, FX);
    assert_eq!(va.vertices().len(), 1);
}

#[test]
fn window_default_constructs() {
    let _w = Window::default();
}
