use vstd::prelude::*;

use crate::canvas::Canvas;
use crate::error::PipelineError;
use crate::geometry::COLOR_BLUE;
use crate::geometry::Paint;
use crate::geometry::PaintStyle;
use crate::geometry::Point;
use crate::geometry::Rect;
use crate::snapshot::apply_op_disk;
use crate::snapshot::background;
use crate::snapshot::coverage;
use crate::snapshot::disk_after;
use crate::snapshot::pixel_known;
use crate::snapshot::pixel_of;
use crate::snapshot::recs;
use crate::snapshot::rect_disk;
use crate::snapshot::DiskBound;
use crate::snapshot::DrawRec;
use crate::snapshot::ImageSnapshot;
use crate::surface::BudgetHint;
use crate::surface::ColorLayout;
use crate::surface::ImageDescription;
use crate::surface::Surface;
use crate::surface::SurfaceKind;
use crate::surface::SurfaceOrigin;
use crate::transform::op_exact;
use crate::transform::ops_exact;
use crate::transform::TransformOp;
use crate::window::GraphicsContext;
use crate::window::WindowSystem;

verus! {

/// The sample scene: on a doubled canvas, a blue square rotated an eighth
/// of a turn, landing as a 181-by-181-device-pixel square centered at
/// pixel (128, 128) of the 256-pixel image.  Because the doubled scale is
/// already in effect when the square is drawn, the draw works in half
/// coordinates: it translates by 64 pixels and draws from a 90.5-pixel
/// square.  All lengths are in thousandths of a pixel.
pub const SAMPLE_SCALE: i64 = 2000;

pub const SAMPLE_CENTER: i64 = 64000;

pub const SAMPLE_ANGLE: i64 = 45;

pub const SAMPLE_RECT_ORIGIN: i64 = -45250;

pub const SAMPLE_RECT_SIZE: i64 = 90500;

pub const SAMPLE_SURFACE_SIZE: u32 = 256;

/// The square the sample scene draws, centered on the origin of the
/// transformed space.
pub open spec fn sample_rect() -> Rect {
    Rect {
        x: SAMPLE_RECT_ORIGIN as i64,
        y: SAMPLE_RECT_ORIGIN as i64,
        width: SAMPLE_RECT_SIZE as i64,
        height: SAMPLE_RECT_SIZE as i64,
    }
}

/// The ops the sample draw composes inside its save/restore pair.
pub open spec fn sample_ops() -> Seq<TransformOp> {
    seq![
        TransformOp::Translate { dx: SAMPLE_CENTER as i64, dy: SAMPLE_CENTER as i64 },
        TransformOp::Rotate { degrees: SAMPLE_ANGLE as i64 },
    ]
}

/// Draws the sample square: inside a save/restore pair, the canvas is
/// translated to the surface center and rotated, and the square is filled
/// blue.  The pair is balanced, so the transform state comes back exactly
/// to what it was; only the draw record remains.
pub fn draw_sample_rect(canvas: &mut Canvas)
    requires
        old(canvas).wf(),
    ensures
        final(canvas).tstate() == old(canvas).tstate(),
        final(canvas).wf(),
        final(canvas).draws@.len() == old(canvas).draws@.len() + 1,
        forall|i: int|
            0 <= i < old(canvas).draws@.len() ==> final(canvas).draws@[i] == old(
                canvas,
            ).draws@[i],
        final(canvas).draws@.last().ops@ == old(canvas).ops@ + sample_ops(),
        final(canvas).draws@.last().rect == sample_rect(),
        final(canvas).draws@.last().paint.color == COLOR_BLUE,
        final(canvas).draws@.last().paint.style is Fill,
{
    let ghost t0 = old(canvas).tstate();
    canvas.save();
    canvas.translate(SAMPLE_CENTER, SAMPLE_CENTER);
    canvas.rotate(SAMPLE_ANGLE, None);

    let origin = Point::new(SAMPLE_RECT_ORIGIN, SAMPLE_RECT_ORIGIN);
    let rect = Rect::from_point_and_size(origin, SAMPLE_RECT_SIZE, SAMPLE_RECT_SIZE);

    let mut paint = Paint::new();
    paint.set_color(COLOR_BLUE);

    canvas.draw_rect(rect, paint);
    canvas.restore();
    proof {
        assert(canvas.draws@.last().ops@ =~= t0.ops + sample_ops());
        assert(canvas.tstate().ops =~= t0.ops);
        assert(canvas.tstate().saved =~= t0.saved);
        assert(canvas.tstate() =~= t0);
    }
}

/// The description both sample surfaces share.
pub fn sample_description() -> (r: ImageDescription)
    ensures
        r.width == SAMPLE_SURFACE_SIZE,
        r.height == SAMPLE_SURFACE_SIZE,
        r.layout is Rgba8888Premul,
        r.origin is TopLeft,
    {
    ImageDescription::new(
        SAMPLE_SURFACE_SIZE,
        SAMPLE_SURFACE_SIZE,
        ColorLayout::Rgba8888Premul,
        SurfaceOrigin::TopLeft,
    )
}

/// Whether a surface holds exactly the sample scene: one draw of the blue
/// square under scale, translate, rotate, with the scale still in effect
/// and the save stack balanced away.
pub open spec fn holds_sample_scene(s: Surface) -> bool {
    &&& s.canvas.draws@.len() == 1
    &&& s.canvas.draws@.last().ops@ == seq![
        TransformOp::Scale { sx: SAMPLE_SCALE as i64, sy: SAMPLE_SCALE as i64 },
    ] + sample_ops()
    &&& s.canvas.draws@.last().rect == sample_rect()
    &&& s.canvas.draws@.last().paint.color == COLOR_BLUE
    &&& s.canvas.draws@.last().paint.style is Fill
    &&& s.canvas.ops@ == seq![
        TransformOp::Scale { sx: SAMPLE_SCALE as i64, sy: SAMPLE_SCALE as i64 },
    ]
    &&& s.canvas.saved@.len() == 0
}

/// Renders the sample scene on a CPU raster surface: the compute half of
/// the raster export pass, ready for snapshot and encode.
pub fn render_sample_raster() -> (r: Result<Surface, PipelineError>)
    ensures
        r is Ok,
        r matches Ok(s) ==> {
            &&& s.kind is Raster
            &&& s.desc.width == SAMPLE_SURFACE_SIZE
            &&& s.desc.height == SAMPLE_SURFACE_SIZE
            &&& s.desc.layout is Rgba8888Premul
            &&& s.wf()
            &&& s.readable()
            &&& holds_sample_scene(s)
        },
{
    let desc = sample_description();
    match Surface::new_raster(&desc) {
        Ok(mut surface) => {
            let canvas = surface.canvas();
            canvas.scale(SAMPLE_SCALE, SAMPLE_SCALE);
            draw_sample_rect(canvas);
            proof {
                assert(surface.canvas.ops@ =~= seq![
                    TransformOp::Scale { sx: SAMPLE_SCALE as i64, sy: SAMPLE_SCALE as i64 },
                ]);
                assert(surface.canvas.saved@.map_values(|n: usize| n as int) =~= Seq::<
                    int,
                >::empty());
                assert(surface.canvas.draws@.last().ops@ =~= seq![
                    TransformOp::Scale { sx: SAMPLE_SCALE as i64, sy: SAMPLE_SCALE as i64 },
                ] + sample_ops());
            }
            Ok(surface)
        },
        Err(e) => {
            proof {
                assert(false);
            }
            Err(e)
        },
    }
}

/// Renders the sample scene on a GPU render target of a live context: the
/// compute half of the windowed export pass.  The draw is issued but not
/// yet complete, so the surface is not readable until the context flushes
/// it.  Fails exactly when the context is not current.
pub fn render_sample_gpu(sys: &WindowSystem, ctx: &GraphicsContext) -> (r: Result<
    Surface,
    PipelineError,
>)
    ensures
        r is Ok <==> sys.is_current_spec(*ctx),
        r matches Ok(s) ==> {
            &&& s.kind == (SurfaceKind::Gpu { context_id: ctx.id })
            &&& s.desc.width == SAMPLE_SURFACE_SIZE
            &&& s.desc.height == SAMPLE_SURFACE_SIZE
            &&& s.desc.layout is Rgba8888Premul
            &&& s.wf()
            &&& s.completed_draws == 0
            &&& holds_sample_scene(s)
        },
        r matches Err(e) ==> e is SurfaceAllocationFailed,
{
    let desc = sample_description();
    match Surface::new_render_target(sys, ctx, BudgetHint::Budgeted, &desc) {
        Ok(mut surface) => {
            let canvas = surface.canvas();
            canvas.scale(SAMPLE_SCALE, SAMPLE_SCALE);
            draw_sample_rect(canvas);
            proof {
                assert(surface.canvas.ops@ =~= seq![
                    TransformOp::Scale { sx: SAMPLE_SCALE as i64, sy: SAMPLE_SCALE as i64 },
                ]);
                assert(surface.canvas.saved@.map_values(|n: usize| n as int) =~= Seq::<
                    int,
                >::empty());
                assert(surface.canvas.draws@.last().ops@ =~= seq![
                    TransformOp::Scale { sx: SAMPLE_SCALE as i64, sy: SAMPLE_SCALE as i64 },
                ] + sample_ops());
            }
            Ok(surface)
        },
        Err(e) => Err(e),
    }
}

/// The one draw record the sample scene leaves behind.
pub open spec fn sample_draw_rec() -> DrawRec {
    DrawRec {
        ops: seq![
            TransformOp::Scale { sx: SAMPLE_SCALE as i64, sy: SAMPLE_SCALE as i64 },
        ] + sample_ops(),
        rect: sample_rect(),
        paint: Paint { color: COLOR_BLUE, style: PaintStyle::Fill },
    }
}

/// A surface holding the sample scene holds exactly its one draw record.
pub proof fn lemma_sample_scene_records(s: Surface)
    requires
        holds_sample_scene(s),
    ensures
        recs(s.canvas.draws@) == seq![sample_draw_rec()],
{
    assert(s.canvas.draws@.last() == s.canvas.draws@[0]);
    assert(s.canvas.draws@[0].paint.style == PaintStyle::Fill);
    assert(s.canvas.draws@[0].rec() == sample_draw_rec());
    assert(recs(s.canvas.draws@) =~= seq![sample_draw_rec()]);
}

/// The export scenario's visible outcome: a snapshot of the sample scene
/// shows the blue square at the image center and the background at all
/// four image corners — the rotated silhouette is present and does not
/// reach the corners.  The rotation is no right-angle multiple, so the
/// placement comes from the disk bracket around the drawn square.
#[verifier::rlimit(50)]
pub proof fn lemma_sample_snapshot_silhouette(snap: ImageSnapshot)
    requires
        recs(snap.draws@) == seq![sample_draw_rec()],
    ensures
        snap.pixel_known_at(128, 128),
        snap.pixel_at(128, 128) == COLOR_BLUE,
        snap.pixel_known_at(0, 0) && snap.pixel_at(0, 0) == background(snap.layout),
        snap.pixel_known_at(255, 0) && snap.pixel_at(255, 0) == background(snap.layout),
        snap.pixel_known_at(0, 255) && snap.pixel_at(0, 255) == background(snap.layout),
        snap.pixel_known_at(255, 255) && snap.pixel_at(255, 255) == background(snap.layout),
{
    let rec = sample_draw_rec();
    assert(rec.ops =~= seq![
        TransformOp::Scale { sx: SAMPLE_SCALE as i64, sy: SAMPLE_SCALE as i64 },
        TransformOp::Translate { dx: SAMPLE_CENTER as i64, dy: SAMPLE_CENTER as i64 },
        TransformOp::Rotate { degrees: SAMPLE_ANGLE as i64 },
    ]);
    assert(!op_exact(rec.ops[2]));
    assert(!ops_exact(rec.ops));

    // The disk bracket: the square starts centered on the origin, keeps
    // its bracket through the rotation there, moves to (64, 64), and the
    // doubled scale lands it at (128, 128) with radii 90.5 and 128 pixels.
    let d0 = rect_disk(rec.rect);
    assert(d0.center == (0int, 0int));
    assert(d0.rin == 45250int);
    assert(d0.rout2 == 4095125000int);
    reveal_with_fuel(disk_after, 4);
    assert(rec.ops.drop_first() =~= seq![
        TransformOp::Translate { dx: SAMPLE_CENTER as i64, dy: SAMPLE_CENTER as i64 },
        TransformOp::Rotate { degrees: SAMPLE_ANGLE as i64 },
    ]);
    assert(rec.ops.drop_first().drop_first() =~= seq![
        TransformOp::Rotate { degrees: SAMPLE_ANGLE as i64 },
    ]);
    assert(rec.ops.drop_first().drop_first().drop_first() =~= Seq::<TransformOp>::empty());
    assert(disk_after(rec.ops.drop_first().drop_first().drop_first(), d0) == Some(d0));
    assert(disk_after(rec.ops.drop_first().drop_first(), d0) == Some(d0));
    let moved = DiskBound { center: (64000int, 64000int), rin: 45250int, rout2: 4095125000int };
    assert(disk_after(rec.ops.drop_first(), d0) == Some(moved));
    let placed = DiskBound {
        center: (128000int, 128000int),
        rin: 90500int,
        rout2: 16380500000int,
    };
    assert(apply_op_disk(rec.ops.first(), moved) == Some(placed));
    assert(disk_after(rec.ops, d0) == Some(placed));

    // The center pixel sits inside the inner disk; each corner pixel sits
    // beyond the outer disk.
    assert(rec.rect.width as int % 2 == 0 && rec.rect.height as int % 2 == 0);
    assert(coverage(rec, 128, 128) is Covered) by {
        assert((128500int - 128000) * (128500int - 128000) + (128500int - 128000) * (128500int
            - 128000) == 500000int) by (nonlinear_arith);
        assert(500000int <= 90500int * 90500int) by (nonlinear_arith);
    }
    assert(coverage(rec, 0, 0) is Clear) by {
        assert((500int - 128000) * (500int - 128000) + (500int - 128000) * (500int - 128000)
            == 32512500000int) by (nonlinear_arith);
    }
    assert(coverage(rec, 255, 0) is Clear) by {
        assert((255500int - 128000) * (255500int - 128000) + (500int - 128000) * (500int - 128000)
            == 32512500000int) by (nonlinear_arith);
    }
    assert(coverage(rec, 0, 255) is Clear) by {
        assert((500int - 128000) * (500int - 128000) + (255500int - 128000) * (255500int - 128000)
            == 32512500000int) by (nonlinear_arith);
    }
    assert(coverage(rec, 255, 255) is Clear) by {
        assert((255500int - 128000) * (255500int - 128000) + (255500int - 128000) * (255500int
            - 128000) == 32512500000int) by (nonlinear_arith);
    }

    let rs = recs(snap.draws@);
    assert(rs.last() == rec);
    assert(rs.drop_last() =~= Seq::<DrawRec>::empty());
    reveal_with_fuel(pixel_known, 2);
    reveal_with_fuel(pixel_of, 2);
}

} // verus!
