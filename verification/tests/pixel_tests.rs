use render_pipeline::geometry::{Paint, PaintStyle, Point, Rect};
use render_pipeline::surface::{ColorLayout, ImageDescription, Surface, SurfaceOrigin};

const BLUE: u32 = 0xFF0000FF;

fn small_surface() -> Surface {
    let desc = ImageDescription::new(10, 10, ColorLayout::Rgba8888Premul, SurfaceOrigin::TopLeft);
    Surface::new_raster(&desc).unwrap()
}

fn blue_fill() -> Paint {
    let mut paint = Paint::new();
    paint.set_color(BLUE);
    paint
}

#[test]
fn fresh_snapshot_pixels_are_background() {
    let surface = small_surface();
    let snap = surface.image_snapshot();
    assert_eq!(snap.pixel_probe(0, 0), Some(0));
    assert_eq!(snap.pixel_probe(5, 5), Some(0));
    assert_eq!(snap.pixel_probe(9, 9), Some(0));
}

#[test]
fn translated_rect_covers_its_box_only() {
    let mut surface = small_surface();
    let canvas = surface.canvas();
    canvas.translate(2000, 1000);
    let rect = Rect::from_point_and_size(Point::new(0, 0), 3000, 2000);
    canvas.draw_rect(rect, blue_fill());
    let snap = surface.image_snapshot();
    // Device box: x in [2000, 5000], y in [1000, 3000], in thousandths.
    assert_eq!(snap.pixel_probe(2, 1), Some(BLUE));
    assert_eq!(snap.pixel_probe(4, 2), Some(BLUE));
    assert_eq!(snap.pixel_probe(0, 0), Some(0));
    assert_eq!(snap.pixel_probe(5, 3), Some(0));
    assert_eq!(snap.pixel_probe(2, 4), Some(0));
}

#[test]
fn later_draw_wins_over_earlier() {
    let mut surface = small_surface();
    let canvas = surface.canvas();
    let rect = Rect::from_point_and_size(Point::new(0, 0), 4000, 4000);
    canvas.draw_rect(rect, blue_fill());
    let mut red = Paint::new();
    red.set_color(0xFFFF0000);
    let top = Rect::from_point_and_size(Point::new(0, 0), 2000, 2000);
    canvas.draw_rect(top, red);
    let snap = surface.image_snapshot();
    assert_eq!(snap.pixel_probe(1, 1), Some(0xFFFF0000));
    assert_eq!(snap.pixel_probe(3, 3), Some(BLUE));
}

#[test]
fn stroke_paint_has_no_fill_coverage() {
    let mut surface = small_surface();
    let canvas = surface.canvas();
    let mut paint = blue_fill();
    paint.set_style(PaintStyle::Stroke);
    let rect = Rect::from_point_and_size(Point::new(0, 0), 4000, 4000);
    canvas.draw_rect(rect, paint);
    let snap = surface.image_snapshot();
    assert_eq!(snap.pixel_probe(2, 2), Some(0));
}

#[test]
fn transform_order_changes_covered_pixels() {
    // Translate then rotate.
    let mut first = small_surface();
    {
        let canvas = first.canvas();
        canvas.translate(5000, 0);
        canvas.rotate(90, None);
        canvas.draw_rect(Rect::from_point_and_size(Point::new(0, 0), 1000, 1000), blue_fill());
    }
    // Rotate then translate.
    let mut second = small_surface();
    {
        let canvas = second.canvas();
        canvas.rotate(90, None);
        canvas.translate(5000, 0);
        canvas.draw_rect(Rect::from_point_and_size(Point::new(0, 0), 1000, 1000), blue_fill());
    }
    let snap_first = first.image_snapshot();
    let snap_second = second.image_snapshot();
    // The first order fills the box x in [4000, 5000], y in [0, 1000]; the
    // second shifts the square along the other axis, off this surface.
    assert_eq!(snap_first.pixel_probe(4, 0), Some(BLUE));
    assert_eq!(snap_second.pixel_probe(4, 0), Some(0));
}

#[test]
fn sample_scene_probe_shows_the_silhouette() {
    let surface = render_pipeline::scene::render_sample_raster().unwrap();
    let snap = surface.image_snapshot();
    // The rotated square covers the image center and spares the corners.
    assert_eq!(snap.pixel_probe(128, 128), Some(BLUE));
    assert_eq!(snap.pixel_probe(0, 0), Some(0));
    assert_eq!(snap.pixel_probe(255, 0), Some(0));
    assert_eq!(snap.pixel_probe(0, 255), Some(0));
    assert_eq!(snap.pixel_probe(255, 255), Some(0));
    // Between the inner and outer disks the placement is indefinite and
    // the probe refuses to answer rather than guess.
    assert_eq!(snap.pixel_probe(228, 128), None);
}
