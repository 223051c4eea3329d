use vstd::prelude::*;

use crate::canvas::Canvas;
use crate::error::PipelineError;
use crate::window::GraphicsContext;
use crate::window::WindowSystem;

verus! {

/// The pixel layout of a surface: 32 bits per pixel with premultiplied
/// alpha, in one of the two common channel orders.
#[derive(Clone, Copy, Debug, PartialEq, Eq, Structural)]
pub enum ColorLayout {
    Rgba8888Premul,
    Bgra8888Premul,
}

/// Where a surface's first row sits in device space.
#[derive(Clone, Copy, Debug, PartialEq, Eq, Structural)]
pub enum SurfaceOrigin {
    TopLeft,
    BottomLeft,
}

/// Whether the GPU allocator may evict or reuse the surface's backing
/// memory under pressure.  A hint, not a guarantee.
#[derive(Clone, Copy, Debug, PartialEq, Eq, Structural)]
pub enum BudgetHint {
    Budgeted,
    Unbudgeted,
}

/// An immutable description of a surface's pixel storage, fixed at
/// construction: it fully determines the memory layout.
#[derive(Clone, Copy, Debug, PartialEq, Eq, Structural)]
pub struct ImageDescription {
    pub width: u32,
    pub height: u32,
    pub layout: ColorLayout,
    pub origin: SurfaceOrigin,
}

impl ImageDescription {
    pub fn new(width: u32, height: u32, layout: ColorLayout, origin: SurfaceOrigin) -> (r:
        ImageDescription)
        ensures
            r == (ImageDescription { width, height, layout, origin }),
    {
        ImageDescription { width, height, layout, origin }
    }
}

/// What backs a surface's pixels: CPU memory, or GPU memory owned by the
/// context the surface was allocated against.
#[derive(Clone, Copy, Debug, PartialEq, Eq, Structural)]
pub enum SurfaceKind {
    Raster,
    Gpu { context_id: u64 },
}

/// A drawing target.  It owns its canvas (the canvas is a view, not a
/// separate owner) and counts how many of the recorded draws are known to
/// have completed; on a GPU surface the rest are still in flight until a
/// flush.
pub struct Surface {
    pub desc: ImageDescription,
    pub kind: SurfaceKind,
    pub budget: BudgetHint,
    pub canvas: Canvas,
    /// How many of `canvas.draws` have completed execution.
    pub completed_draws: usize,
}

impl Surface {
    pub open spec fn wf(self) -> bool {
        &&& self.canvas.wf()
        &&& self.completed_draws <= self.canvas.draws@.len()
    }

    /// Whether the pixels may be read back: CPU work completes as it is
    /// issued, while a GPU surface must have been flushed since its last
    /// draw, else reading races the GPU.
    pub open spec fn readable(self) -> bool {
        self.kind is Gpu ==> self.completed_draws == self.canvas.draws@.len()
    }

    /// Allocates a CPU-backed raster surface: no context needed.  Fails
    /// with `SurfaceAllocationFailed` exactly on an empty description, and
    /// then nothing is allocated.
    pub fn new_raster(desc: &ImageDescription) -> (r: Result<Surface, PipelineError>)
        ensures
            r is Ok <==> desc.width > 0 && desc.height > 0,
            r matches Ok(s) ==> {
                &&& s.desc == *desc
                &&& s.kind is Raster
                &&& s.canvas.draws@.len() == 0
                &&& s.canvas.ops@.len() == 0
                &&& s.canvas.saved@.len() == 0
                &&& s.wf()
                &&& s.readable()
            },
            r matches Err(e) ==> e is SurfaceAllocationFailed,
    {
        if desc.width == 0 || desc.height == 0 {
            Err(PipelineError::SurfaceAllocationFailed)
        } else {
            Ok(
                Surface {
                    desc: *desc,
                    kind: SurfaceKind::Raster,
                    budget: BudgetHint::Unbudgeted,
                    canvas: Canvas::new(),
                    completed_draws: 0,
                },
            )
        }
    }

    /// Allocates a GPU-backed render target against a context.  Fails with
    /// `SurfaceAllocationFailed` exactly when the description is empty or
    /// the context is not current on this thread, and then nothing is
    /// allocated.
    pub fn new_render_target(
        sys: &WindowSystem,
        ctx: &GraphicsContext,
        budget: BudgetHint,
        desc: &ImageDescription,
    ) -> (r: Result<Surface, PipelineError>)
        ensures
            r is Ok <==> desc.width > 0 && desc.height > 0 && sys.is_current_spec(*ctx),
            r matches Ok(s) ==> {
                &&& s.desc == *desc
                &&& s.kind == (SurfaceKind::Gpu { context_id: ctx.id })
                &&& s.budget == budget
                &&& s.canvas.draws@.len() == 0
                &&& s.canvas.ops@.len() == 0
                &&& s.canvas.saved@.len() == 0
                &&& s.wf()
                &&& s.readable()
            },
            r matches Err(e) ==> e is SurfaceAllocationFailed,
    {
        if desc.width == 0 || desc.height == 0 {
            Err(PipelineError::SurfaceAllocationFailed)
        } else if !sys.is_current(ctx) {
            Err(PipelineError::SurfaceAllocationFailed)
        } else {
            Ok(
                Surface {
                    desc: *desc,
                    kind: SurfaceKind::Gpu { context_id: ctx.id },
                    budget,
                    canvas: Canvas::new(),
                    completed_draws: 0,
                },
            )
        }
    }

    /// The surface's one live canvas.  Always succeeds for a live surface.
    pub fn canvas(&mut self) -> (c: &mut Canvas)
        ensures
            *c == old(self).canvas,
            final(self).canvas == *final(c),
            final(self).desc == old(self).desc,
            final(self).kind == old(self).kind,
            final(self).budget == old(self).budget,
            final(self).completed_draws == old(self).completed_draws,
    {
        &mut self.canvas
    }
}

impl GraphicsContext {
    /// Blocks until every drawing command issued against this context's
    /// surface has completed on the GPU, making the surface readable.
    pub fn flush(&self, surface: &mut Surface)
        requires
            old(surface).kind == (SurfaceKind::Gpu { context_id: self.id }),
        ensures
            final(surface).completed_draws == final(surface).canvas.draws@.len(),
            final(surface).canvas == old(surface).canvas,
            final(surface).desc == old(surface).desc,
            final(surface).kind == old(surface).kind,
            final(surface).budget == old(surface).budget,
            final(surface).readable(),
            old(surface).canvas.wf() ==> final(surface).wf(),
    {
        let n = surface.canvas.draws.len();
        surface.completed_draws = n;
    }
}

} // verus!
