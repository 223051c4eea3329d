use vstd::prelude::*;

verus! {

/// How a window is shown.
#[derive(Clone, Copy, Debug, PartialEq, Eq, Structural)]
pub enum DisplayMode {
    Windowed,
    Fullscreen,
}

/// A native window: created once, owner of the underlying handle.
pub struct Window {
    pub id: u64,
    pub width: u32,
    pub height: u32,
    pub title: String,
    pub mode: DisplayMode,
    /// How many frames have been presented with `swap_buffers`.
    pub presented: u64,
}

impl Window {
    /// Presents the window's front buffer.  Relevant only when rendering
    /// into the window's own surface; an offscreen surface is read back
    /// through a snapshot instead.
    pub fn swap_buffers(&mut self)
        requires
            old(self).presented < u64::MAX,
        ensures
            final(self).presented == old(self).presented + 1,
            final(self).id == old(self).id,
            final(self).width == old(self).width,
            final(self).height == old(self).height,
            final(self).title == old(self).title,
            final(self).mode == old(self).mode,
    {
        self.presented = self.presented + 1;
    }
}

/// A graphics context, bound one-to-one to the window it was created for.
/// GPU allocation and drawing against it are meaningful only while it is
/// the thread's current context.
pub struct GraphicsContext {
    pub id: u64,
    pub window_id: u64,
}

/// The windowing state of the calling thread: an explicit owner for the
/// "current context" that platform libraries keep as hidden global state.
/// At most one context is current at a time, which holding it as an
/// `Option` makes true by construction.
pub struct WindowSystem {
    pub next_id: u64,
    pub current: Option<u64>,
}

impl WindowSystem {
    /// Which context is current, if any.
    pub open spec fn current_id(self) -> Option<u64> {
        self.current
    }

    pub open spec fn is_current_spec(self, ctx: GraphicsContext) -> bool {
        self.current == Some(ctx.id)
    }

    /// A fresh windowing state: no window yet, no context current.
    pub fn new() -> (r: WindowSystem)
        ensures
            r.next_id == 0,
            r.current is None,
    {
        WindowSystem { next_id: 0, current: None }
    }

    /// Registers a window of the given positive size with the platform.
    /// Platform refusals are reported by the driver as a pipeline event,
    /// not by this model.
    pub fn create_window(
        &mut self,
        width: u32,
        height: u32,
        title: String,
        mode: DisplayMode,
    ) -> (w: Window)
        requires
            width > 0,
            height > 0,
            old(self).next_id < u64::MAX,
        ensures
            w.id == old(self).next_id,
            w.width == width,
            w.height == height,
            w.title == title,
            w.mode == mode,
            w.presented == 0,
            final(self).next_id == old(self).next_id + 1,
            final(self).current == old(self).current,
    {
        let id = self.next_id;
        self.next_id = self.next_id + 1;
        Window { id, width, height, title, mode, presented: 0 }
    }

    /// Creates the graphics context bound to a window.
    pub fn create_context(&mut self, w: &Window) -> (ctx: GraphicsContext)
        requires
            old(self).next_id < u64::MAX,
        ensures
            ctx.window_id == w.id,
            ctx.id == old(self).next_id,
            final(self).next_id == old(self).next_id + 1,
            final(self).current == old(self).current,
    {
        let id = self.next_id;
        self.next_id = self.next_id + 1;
        GraphicsContext { id, window_id: w.id }
    }

    /// Makes a context current on this thread, displacing whichever was
    /// current before: afterwards exactly this one is current.
    pub fn make_current(&mut self, ctx: &GraphicsContext)
        ensures
            final(self).current == Some(ctx.id),
            final(self).is_current_spec(*ctx),
            final(self).next_id == old(self).next_id,
    {
        self.current = Some(ctx.id);
    }

    /// Whether the given context is the thread's current one.
    pub fn is_current(&self, ctx: &GraphicsContext) -> (r: bool)
        ensures
            r == self.is_current_spec(*ctx),
    {
        match self.current {
            Some(id) => id == ctx.id,
            None => false,
        }
    }
}

} // verus!
