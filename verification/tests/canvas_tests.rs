use braillir::canvas::Canvas;
use braillir::entity::Entity;
use braillir::fx::FX_ONE;
use braillir::math::Vec3f;
use braillir::shapes::{make_uv_sphere, Shape};
use braillir::texture::Color;

const FX: i64 = FX_ONE;

fn small_canvas() -> Canvas {
    // A 4 by 4 character terminal: an 8 by 16 pixel grid.
    Canvas::new(4, 4)
}

fn white() -> Color {
    Color::new(255, 255, 255)
}

#[test]
fn set_respects_bounds_and_depth() {
    let mut c = small_canvas();
    c.clear();
    c.set(-1, 0, white(), 0);
    c.set(0, -1, white(), 0);
    c.set(100, 0, white(), 0);
    c.set(0, 100, white(), 0);
    for y in 0..16 {
        for x in 0..8 {
            assert!(c.get_pixel(x, y).is_none());
        }
    }
    c.set(3, 5, white(), 7);
    assert_eq!(c.get_pixel(3, 5), Some(white()));
    assert_eq!(c.get_depth(3, 5), 7);
    // A farther write loses; a nearer write wins.
    c.set(3, 5, Color::new(1, 2, 3), 3);
    assert_eq!(c.get_pixel(3, 5), Some(white()));
    assert_eq!(c.get_depth(3, 5), 7);
    c.set(3, 5, Color::new(1, 2, 3), 9);
    assert_eq!(c.get_pixel(3, 5), Some(Color::new(1, 2, 3)));
    assert_eq!(c.get_depth(3, 5), 9);
}

#[test]
fn set_twice_is_idempotent() {
    let mut once = small_canvas();
    once.clear();
    once.set(2, 3, white(), 11);
    let mut twice = small_canvas();
    twice.clear();
    twice.set(2, 3, white(), 11);
    twice.set(2, 3, white(), 11);
    for y in 0..16 {
        for x in 0..8 {
            assert_eq!(once.get_pixel(x, y), twice.get_pixel(x, y));
            assert_eq!(once.get_depth(x, y), twice.get_depth(x, y));
        }
    }
}

#[test]
fn depth_order_does_not_matter() {
    let c1 = Color::new(10, 20, 30);
    let c2 = Color::new(40, 50, 60);
    let mut a = small_canvas();
    a.clear();
    a.set(1, 1, c1, 5);
    a.set(1, 1, c2, 8);
    let mut b = small_canvas();
    b.clear();
    b.set(1, 1, c2, 8);
    b.set(1, 1, c1, 5);
    assert_eq!(a.get_pixel(1, 1), Some(c2));
    assert_eq!(b.get_pixel(1, 1), Some(c2));
    assert_eq!(a.get_depth(1, 1), 8);
    assert_eq!(b.get_depth(1, 1), 8);
}

#[test]
fn clear_resets_buffers() {
    let mut c = small_canvas();
    c.clear();
    c.set(2, 2, white(), 4);
    c.clear();
    for y in 0..16 {
        for x in 0..8 {
            assert!(c.get_pixel(x, y).is_none());
            assert_eq!(c.get_depth(x, y), i64::MIN);
        }
    }
}

#[test]
fn fill_triangle_sets_all_three_vertices() {
    let mut c = Canvas::new(8, 8);
    c.clear();
    let color = Color::new(200, 100, 50);
    c.fill_triangle(1, 1, 5, 2, 3, 6, color, 0);
    assert_eq!(c.get_pixel(1, 1), Some(color));
    assert_eq!(c.get_pixel(5, 2), Some(color));
    assert_eq!(c.get_pixel(3, 6), Some(color));
}

#[test]
fn fill_triangle_fills_interior() {
    let mut c = Canvas::new(8, 8);
    c.clear();
    let color = white();
    c.fill_triangle(0, 0, 10, 0, 0, 10, color, 0);
    // A pixel clearly inside the triangle is set.
    assert_eq!(c.get_pixel(2, 2), Some(color));
    // A pixel clearly outside stays empty.
    assert!(c.get_pixel(12, 12).is_none());
}

#[test]
fn draw_line_covers_both_axes() {
    let mut c = Canvas::new(8, 8);
    c.clear();
    c.draw_line(0, 2, 6, 2, white(), 0);
    for x in 0..7 {
        assert_eq!(c.get_pixel(x, 2), Some(white()), "column {}", x);
    }
    c.clear();
    c.draw_line(3, 0, 3, 6, white(), 0);
    for y in 0..7 {
        assert_eq!(c.get_pixel(3, y), Some(white()), "row {}", y);
    }
}

#[test]
fn draw_triangle_outlines() {
    let mut c = Canvas::new(8, 8);
    c.clear();
    c.draw_triangle(0, 0, 8, 0, 0, 8, white(), 0);
    assert_eq!(c.get_pixel(0, 0), Some(white()));
    assert_eq!(c.get_pixel(8, 0), Some(white()));
    assert_eq!(c.get_pixel(0, 8), Some(white()));
    assert_eq!(c.get_pixel(4, 0), Some(white()));
    assert_eq!(c.get_pixel(0, 4), Some(white()));
}

fn single_triangle_entity(winding_up: bool) -> Entity {
    let positions = vec![
        Vec3f::new(-2 * FX, -2 * FX, 0),
        Vec3f::new(2 * FX, -2 * FX, 0),
        Vec3f::new(0, 2 * FX, 0),
    ];
    let tris = if winding_up {
        vec![(0usize, 1usize, 2usize)]
    } else {
        vec![(0usize, 2usize, 1usize)]
    };
    let shape = Shape::with_tris(positions, tris).unwrap();
    let mut e = Entity::with_geometry(shape);
    e.set_translation(0, 0, -20 * FX);
    e
}

fn occupied_pixels(c: &Canvas) -> Vec<(usize, usize)> {
    let mut out = Vec::new();
    for y in 0..c.height() {
        for x in 0..c.width() {
            if c.get_pixel(x, y).is_some() {
                out.push((x, y));
            }
        }
    }
    out
}

#[test]
fn backface_culling_discards_and_keeps() {
    let mut c = Canvas::new(30, 30);
    c.clear();
    c.draw_entity(&single_triangle_entity(false));
    let culled = occupied_pixels(&c);
    assert_eq!(culled.len(), 0, "a culled triangle writes no pixel");

    c.clear();
    c.draw_entity(&single_triangle_entity(true));
    let drawn = occupied_pixels(&c);
    assert!(drawn.len() > 0, "the reversed winding rasterizes");
}

#[test]
fn sphere_scene_renders_centered() {
    let mut c = Canvas::new(40, 20);
    c.clear();
    let sphere = make_uv_sphere(5 * FX, 3, 3).unwrap();
    let mut e = Entity::with_geometry(sphere);
    e.set_translation(0, 0, -50 * FX);
    c.draw_entity(&e);
    let pix = occupied_pixels(&c);
    assert!(pix.len() > 0, "the sphere renders to a non-empty pixel set");
    let (mut min_x, mut max_x, mut min_y, mut max_y) = (usize::MAX, 0usize, usize::MAX, 0usize);
    for (x, y) in &pix {
        min_x = min_x.min(*x);
        max_x = max_x.max(*x);
        min_y = min_y.min(*y);
        max_y = max_y.max(*y);
    }
    let cx = (min_x + max_x) as f64 / 2.0;
    let cy = (min_y + max_y) as f64 / 2.0;
    let w = c.width() as f64;
    let h = c.height() as f64;
    assert!(cx > w * 0.25 && cx < w * 0.75, "bounding box centered in x: {}", cx);
    assert!(cy > h * 0.25 && cy < h * 0.75, "bounding box centered in y: {}", cy);
}

#[test]
fn to_s_of_empty_canvas_is_only_the_clear_escape() {
    let mut c = small_canvas();
    c.clear();
    assert_eq!(c.to_s(), "\u{1b}[2J");
}

#[test]
fn to_s_emits_one_glyph_per_occupied_block() {
    let mut c = small_canvas();
    c.clear();
    // One pixel in the block of the top-left character cell, at the
    // sub-cell with offset (1, 2): bit 5 of the glyph.
    c.set(1, 2, white(), 0);
    let expected = format!("\u{1b}[2J\u{1b}[1;1H\u{1b}[38;2;31;31;31m{}", char::from_u32(0x2800 + 32).unwrap());
    assert_eq!(c.to_s(), expected);
}

#[test]
fn to_s_blends_block_color_by_eighths() {
    let mut c = small_canvas();
    c.clear();
    // Two pixels of the second block column: bits 0 and 1 of the glyph at
    // cell (2, 1), each contributing an eighth of pure red.
    c.set(2, 0, Color::new(255, 0, 0), 0);
    c.set(2, 1, Color::new(255, 0, 0), 0);
    let expected = format!("\u{1b}[2J\u{1b}[1;2H\u{1b}[38;2;62;0;0m{}", char::from_u32(0x2803).unwrap());
    assert_eq!(c.to_s(), expected);
}

#[test]
fn pix2cell_scales_into_the_character_grid() {
    let mut c = Canvas::new(4, 4);
    // The reference window is 1353 by 758: its center lands in the middle
    // of the 8 by 16 pixel grid.
    let (x, y) = c.pix2cell((676, 379));
    assert_eq!(x, 3);
    assert_eq!(y, 8);
    let (x, y) = c.pix2cell((0, 0));
    assert_eq!(x, 0);
    assert_eq!(y, 0);
}
