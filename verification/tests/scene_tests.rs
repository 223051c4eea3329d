use render_pipeline::geometry::PaintStyle;
use render_pipeline::scene::{render_sample_gpu, render_sample_raster};
use render_pipeline::surface::SurfaceKind;
use render_pipeline::transform::TransformOp;
use render_pipeline::window::{DisplayMode, WindowSystem};

#[test]
fn raster_sample_records_the_scene() {
    let surface = render_sample_raster().unwrap();
    assert!(matches!(surface.kind, SurfaceKind::Raster));
    assert_eq!(surface.desc.width, 256);
    assert_eq!(surface.desc.height, 256);
    assert_eq!(surface.canvas.draws.len(), 1);
    let draw = &surface.canvas.draws[0];
    assert_eq!(
        draw.ops,
        vec![
            TransformOp::Scale { sx: 2000, sy: 2000 },
            TransformOp::Translate { dx: 64000, dy: 64000 },
            TransformOp::Rotate { degrees: 45 },
        ]
    );
    assert_eq!(draw.rect.x, -45250);
    assert_eq!(draw.rect.y, -45250);
    assert_eq!(draw.rect.width, 90500);
    assert_eq!(draw.rect.height, 90500);
    assert_eq!(draw.paint.color, 0xFF0000FF);
    assert!(matches!(draw.paint.style, PaintStyle::Fill));
    assert_eq!(surface.canvas.ops, vec![TransformOp::Scale { sx: 2000, sy: 2000 }]);
    assert_eq!(surface.canvas.saved.len(), 0);
}

#[test]
fn raster_sample_snapshot_keeps_dimensions_and_records() {
    let surface = render_sample_raster().unwrap();
    let snap = surface.image_snapshot();
    assert_eq!(snap.width, 256);
    assert_eq!(snap.height, 256);
    assert_eq!(snap.draws.len(), 1);
    assert_eq!(snap.draws[0].ops, surface.canvas.draws[0].ops);
    assert_eq!(snap.draws[0].rect, surface.canvas.draws[0].rect);
    assert_eq!(snap.draws[0].paint.color, surface.canvas.draws[0].paint.color);
}

#[test]
fn gpu_sample_needs_live_context_and_matches_raster() {
    let mut sys = WindowSystem::new();
    let w = sys.create_window(300, 300, String::from("RUST_SKIA_GLFW"), DisplayMode::Windowed);
    let ctx = sys.create_context(&w);
    assert!(render_sample_gpu(&sys, &ctx).is_err());

    sys.make_current(&ctx);
    let mut gpu_surface = render_sample_gpu(&sys, &ctx).unwrap();
    assert!(matches!(gpu_surface.kind, SurfaceKind::Gpu { .. }));
    assert_eq!(gpu_surface.completed_draws, 0);

    ctx.flush(&mut gpu_surface);
    assert_eq!(gpu_surface.completed_draws, gpu_surface.canvas.draws.len());
    let gpu_snap = gpu_surface.image_snapshot();

    let raster_surface = render_sample_raster().unwrap();
    let raster_snap = raster_surface.image_snapshot();

    assert_eq!(gpu_snap.width, raster_snap.width);
    assert_eq!(gpu_snap.height, raster_snap.height);
    assert_eq!(gpu_snap.draws.len(), raster_snap.draws.len());
    for (a, b) in gpu_snap.draws.iter().zip(raster_snap.draws.iter()) {
        assert_eq!(a.ops, b.ops);
        assert_eq!(a.rect, b.rect);
        assert_eq!(a.paint.color, b.paint.color);
    }
}
