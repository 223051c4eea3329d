use render_pipeline::error::PipelineError;
use render_pipeline::pipeline::{next_action, step, PipelineAction, PipelineStage, PlatformEvent};
use render_pipeline::snapshot::{finish_encode, output_file_name, EncodedImageFormat};
use render_pipeline::surface::{
    BudgetHint, ColorLayout, ImageDescription, Surface, SurfaceOrigin,
};
use render_pipeline::window::{DisplayMode, WindowSystem};

#[test]
fn zero_width_surface_is_refused() {
    let desc = ImageDescription::new(0, 256, ColorLayout::Rgba8888Premul, SurfaceOrigin::TopLeft);
    let r = Surface::new_raster(&desc);
    assert!(matches!(r, Err(PipelineError::SurfaceAllocationFailed)));
}

#[test]
fn zero_height_render_target_is_refused() {
    let mut sys = WindowSystem::new();
    let w = sys.create_window(300, 300, String::from("w"), DisplayMode::Windowed);
    let ctx = sys.create_context(&w);
    sys.make_current(&ctx);
    let desc = ImageDescription::new(256, 0, ColorLayout::Rgba8888Premul, SurfaceOrigin::TopLeft);
    let r = Surface::new_render_target(&sys, &ctx, BudgetHint::Budgeted, &desc);
    assert!(matches!(r, Err(PipelineError::SurfaceAllocationFailed)));
}

#[test]
fn render_target_needs_current_context() {
    let mut sys = WindowSystem::new();
    let w = sys.create_window(300, 300, String::from("w"), DisplayMode::Windowed);
    let ctx = sys.create_context(&w);
    let desc =
        ImageDescription::new(256, 256, ColorLayout::Rgba8888Premul, SurfaceOrigin::TopLeft);
    let refused = Surface::new_render_target(&sys, &ctx, BudgetHint::Budgeted, &desc);
    assert!(matches!(refused, Err(PipelineError::SurfaceAllocationFailed)));
    sys.make_current(&ctx);
    let granted = Surface::new_render_target(&sys, &ctx, BudgetHint::Budgeted, &desc);
    assert!(granted.is_ok());
}

#[test]
fn fresh_surface_snapshot_is_empty_and_sized() {
    let desc = ImageDescription::new(3, 2, ColorLayout::Rgba8888Premul, SurfaceOrigin::TopLeft);
    let surface = Surface::new_raster(&desc).unwrap();
    let snap = surface.image_snapshot();
    assert_eq!(snap.width, 3);
    assert_eq!(snap.height, 2);
    assert_eq!(snap.draws.len(), 0);
}

#[test]
fn make_current_displaces_previous_context() {
    let mut sys = WindowSystem::new();
    let w = sys.create_window(300, 300, String::from("w"), DisplayMode::Windowed);
    let a = sys.create_context(&w);
    let b = sys.create_context(&w);
    sys.make_current(&a);
    assert!(sys.is_current(&a));
    assert!(!sys.is_current(&b));
    sys.make_current(&b);
    assert!(!sys.is_current(&a));
    assert!(sys.is_current(&b));
}

#[test]
fn window_carries_its_parameters() {
    let mut sys = WindowSystem::new();
    let mut w =
        sys.create_window(300, 300, String::from("Hello this is window"), DisplayMode::Windowed);
    assert_eq!(w.width, 300);
    assert_eq!(w.height, 300);
    assert_eq!(w.title, "Hello this is window");
    assert!(matches!(w.mode, DisplayMode::Windowed));
    assert_eq!(w.presented, 0);
    w.swap_buffers();
    assert_eq!(w.presented, 1);
}

#[test]
fn finish_encode_passes_bytes_through() {
    let bytes = vec![137u8, 80, 78, 71];
    let r = finish_encode(EncodedImageFormat::Png, Some(bytes.clone())).unwrap();
    assert_eq!(r.bytes, bytes);
    assert!(matches!(r.format, EncodedImageFormat::Png));
}

#[test]
fn finish_encode_maps_refusal_to_encode_failed() {
    let r = finish_encode(EncodedImageFormat::Png, None);
    assert!(matches!(r, Err(PipelineError::EncodeFailed)));
}

#[test]
fn output_file_name_is_fixed() {
    assert_eq!(output_file_name(), "testing.png");
}

#[test]
fn error_messages_name_the_stage() {
    assert_eq!(PipelineError::WindowCreationFailed.message(), "window creation failed");
    assert_eq!(PipelineError::ContextBindFailed.message(), "context bind failed");
    assert_eq!(PipelineError::SurfaceAllocationFailed.message(), "surface allocation failed");
    assert_eq!(PipelineError::EncodeFailed.message(), "encode failed");
    assert_eq!(PipelineError::IoFailed.message(), "io failed");
}

#[test]
fn pipeline_happy_path_runs_in_order() {
    let mut s = PipelineStage::Init;
    let script = [
        (PipelineAction::CreateWindow, PlatformEvent::WindowCreated),
        (PipelineAction::BindContext, PlatformEvent::ContextBound),
        (PipelineAction::AllocateSurface, PlatformEvent::SurfaceAllocated),
        (PipelineAction::Draw, PlatformEvent::DrawIssued),
        (PipelineAction::Flush, PlatformEvent::FlushCompleted),
        (PipelineAction::Snapshot, PlatformEvent::SnapshotTaken),
        (PipelineAction::Encode, PlatformEvent::EncodeProduced),
        (PipelineAction::Write, PlatformEvent::BytesWritten),
    ];
    for (expected_action, event) in script {
        assert_eq!(next_action(&s), expected_action);
        s = step(s, event);
    }
    assert_eq!(s, PipelineStage::Done);
    assert_eq!(next_action(&s), PipelineAction::Stop);
}

#[test]
fn each_refusal_fails_with_its_stage_error() {
    assert_eq!(
        step(PipelineStage::Init, PlatformEvent::WindowRejected),
        PipelineStage::Failed(PipelineError::WindowCreationFailed)
    );
    assert_eq!(
        step(PipelineStage::WindowReady, PlatformEvent::ContextRejected),
        PipelineStage::Failed(PipelineError::ContextBindFailed)
    );
    assert_eq!(
        step(PipelineStage::ContextReady, PlatformEvent::SurfaceRejected),
        PipelineStage::Failed(PipelineError::SurfaceAllocationFailed)
    );
    assert_eq!(
        step(PipelineStage::Snapshotted, PlatformEvent::EncodeRejected),
        PipelineStage::Failed(PipelineError::EncodeFailed)
    );
    assert_eq!(
        step(PipelineStage::Encoded, PlatformEvent::WriteRejected),
        PipelineStage::Failed(PipelineError::IoFailed)
    );
}

#[test]
fn failure_is_fatal_for_the_run() {
    let failed = PipelineStage::Failed(PipelineError::EncodeFailed);
    assert_eq!(step(failed, PlatformEvent::WindowCreated), failed);
    assert_eq!(step(failed, PlatformEvent::BytesWritten), failed);
    assert_eq!(next_action(&failed), PipelineAction::Stop);
}

#[test]
fn unexpected_event_does_not_advance() {
    assert_eq!(step(PipelineStage::Init, PlatformEvent::FlushCompleted), PipelineStage::Init);
    assert_eq!(
        step(PipelineStage::Drawn, PlatformEvent::SnapshotTaken),
        PipelineStage::Drawn
    );
}
