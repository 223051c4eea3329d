use vstd::prelude::*;

verus! {

/// A point in fixed-point coordinates (thousandths of a pixel).
#[derive(Clone, Copy, Debug, PartialEq, Eq, Structural)]
pub struct Point {
    pub x: i64,
    pub y: i64,
}

impl Point {
    pub fn new(x: i64, y: i64) -> (r: Point)
        ensures
            r.x == x && r.y == y,
    {
        Point { x, y }
    }
}

/// An axis-aligned rectangle: origin corner plus a non-negative extent,
/// all in fixed-point coordinates (thousandths of a pixel).
#[derive(Clone, Copy, Debug, PartialEq, Eq, Structural)]
pub struct Rect {
    pub x: i64,
    pub y: i64,
    pub width: i64,
    pub height: i64,
}

impl Rect {
    /// A rectangle is well formed when its extent is non-negative.
    pub open spec fn wf(self) -> bool {
        self.width >= 0 && self.height >= 0
    }

    /// Builds the rectangle with the given origin corner and size.
    pub fn from_point_and_size(origin: Point, width: i64, height: i64) -> (r: Rect)
        requires
            width >= 0,
            height >= 0,
        ensures
            r == (Rect { x: origin.x, y: origin.y, width, height }),
            r.wf(),
    {
        Rect { x: origin.x, y: origin.y, width, height }
    }
}

/// Whether a paint fills the interior of a shape or strokes its outline.
#[derive(Clone, Copy, Debug, PartialEq, Eq, Structural)]
pub enum PaintStyle {
    Fill,
    Stroke,
}

/// Opaque blue in ARGB order.
pub const COLOR_BLUE: u32 = 0xFF0000FF;

/// Fully transparent black: the background every fresh surface is
/// cleared to.
pub const COLOR_CLEAR: u32 = 0;

/// An immutable value describing how a primitive is drawn: a 32-bit ARGB
/// color and a style.  The canvas never retains a paint.
#[derive(Clone, Copy, Debug, PartialEq, Eq, Structural)]
pub struct Paint {
    pub color: u32,
    pub style: PaintStyle,
}

impl Paint {
    /// The default paint: opaque black fill.
    pub fn new() -> (r: Paint)
        ensures
            r.color == 0xFF000000u32,
            r.style is Fill,
    {
        Paint { color: 0xFF000000, style: PaintStyle::Fill }
    }

    pub fn set_color(&mut self, color: u32)
        ensures
            final(self).color == color,
            final(self).style == old(self).style,
    {
        self.color = color;
    }

    pub fn set_style(&mut self, style: PaintStyle)
        ensures
            final(self).style == style,
            final(self).color == old(self).color,
    {
        self.style = style;
    }
}

} // verus!
