use vstd::prelude::*;

use crate::canvas::DrawCmd;
use crate::error::PipelineError;
use crate::geometry::COLOR_CLEAR;
use crate::geometry::Paint;
use crate::geometry::PaintStyle;
use crate::geometry::Point;
use crate::geometry::Rect;
use crate::surface::ColorLayout;
use crate::surface::Surface;
use crate::surface::SurfaceOrigin;
use crate::transform::apply_ops;
use crate::transform::op_exact;
use crate::transform::ops_exact;
use crate::transform::rotate_point;
use crate::transform::steps_in_range;
use crate::transform::unit_rect;
use crate::transform::transform_point;
use crate::transform::TransformOp;

verus! {

/// A recorded draw, as mathematics.
pub struct DrawRec {
    pub ops: Seq<TransformOp>,
    pub rect: Rect,
    pub paint: Paint,
}

impl DrawCmd {
    /// The mathematical content of a recorded draw.
    pub open spec fn rec(self) -> DrawRec {
        DrawRec { ops: self.ops@, rect: self.rect, paint: self.paint }
    }
}

pub open spec fn recs(cmds: Seq<DrawCmd>) -> Seq<DrawRec> {
    cmds.map_values(|c: DrawCmd| c.rec())
}

/// The value every pixel of a fresh surface holds: transparent black, for
/// both premultiplied layouts.
pub open spec fn background(layout: ColorLayout) -> u32 {
    COLOR_CLEAR
}

/// What the model knows of one draw at one pixel.  `Unknown` is a draw the
/// model cannot place exactly at that pixel; the pixel's value is then not
/// determined by the model, never falsely called background.
pub enum Coverage {
    Covered,
    Clear,
    Unknown,
}

/// Whether the pixel center `(cx, cy)` lies in the device box a filled
/// rectangle spans under an exact (right-angle) transform: the box between
/// the images of its two opposite corners.
pub open spec fn in_device_box(cmd: DrawRec, cx: int, cy: int) -> bool {
    let a = apply_ops(cmd.ops, (cmd.rect.x as int, cmd.rect.y as int));
    let b = apply_ops(cmd.ops, (cmd.rect.x + cmd.rect.width, cmd.rect.y + cmd.rect.height));
    &&& (if a.0 <= b.0 {
        a.0 <= cx <= b.0
    } else {
        b.0 <= cx <= a.0
    })
    &&& (if a.1 <= b.1 {
        a.1 <= cy <= b.1
    } else {
        b.1 <= cy <= a.1
    })
}

/// Two disks bracketing a drawn rectangle in device space: the rectangle
/// contains the disk of radius `rin` about `center` and is contained in
/// the disk of squared radius `rout2`.  Rotations about the disk center
/// keep both bounds whatever the angle, which is how the model places
/// draws whose rotation is not a right-angle multiple.
pub struct DiskBound {
    pub center: (int, int),
    pub rin: int,
    pub rout2: int,
}

/// The two disks bracketing a rectangle of even, non-negative extents.
pub open spec fn rect_disk(r: Rect) -> DiskBound {
    DiskBound {
        center: (r.x + r.width / 2, r.y + r.height / 2),
        rin: if r.width <= r.height {
            r.width / 2
        } else {
            r.height / 2
        },
        rout2: (r.width / 2) * (r.width / 2) + (r.height / 2) * (r.height / 2),
    }
}

/// Where one op takes the bracketing disks.  Exact for translations, for
/// uniform whole-pixel scales, for right-angle rotations, and for any
/// rotation about the disk center itself; `None` where the op would bend
/// the bounds inexactly.
pub open spec fn apply_op_disk(op: TransformOp, d: DiskBound) -> Option<DiskBound> {
    match op {
        TransformOp::Translate { dx, dy } => Some(
            DiskBound { center: (d.center.0 + dx, d.center.1 + dy), rin: d.rin, rout2: d.rout2 },
        ),
        TransformOp::Scale { sx, sy } => {
            if sx == sy && sx > 0 && sx as int % 1000 == 0 {
                let k = sx as int / 1000;
                Some(
                    DiskBound {
                        center: (k * d.center.0, k * d.center.1),
                        rin: k * d.rin,
                        rout2: k * k * d.rout2,
                    },
                )
            } else {
                None
            }
        },
        TransformOp::Rotate { degrees } => {
            if degrees as int % 90 == 0 {
                Some(
                    DiskBound {
                        center: rotate_point(degrees as int, d.center),
                        rin: d.rin,
                        rout2: d.rout2,
                    },
                )
            } else if d.center == (0int, 0int) {
                Some(d)
            } else {
                None
            }
        },
    }
}

/// The bracketing disks after a whole op sequence, earliest op outermost,
/// as in `apply_ops`.
pub open spec fn disk_after(ops: Seq<TransformOp>, d: DiskBound) -> Option<DiskBound>
    decreases ops.len(),
{
    if ops.len() == 0 {
        Some(d)
    } else {
        match disk_after(ops.drop_first(), d) {
            Some(inner) => apply_op_disk(ops.first(), inner),
            None => None,
        }
    }
}

/// What the model knows of a draw at the pixel in column `x`, row `y`,
/// sampled at the pixel center.  A stroke paints no interior.  A filled
/// rectangle under an exact transform covers exactly its device box.  For
/// any other rotation the model brackets the drawn square between two
/// disks: inside the inner disk is covered, beyond the outer disk is
/// clear, and between them — or where no exact bracket exists — the draw
/// is `Unknown` at that pixel.
pub open spec fn coverage(cmd: DrawRec, x: int, y: int) -> Coverage {
    let cx = 1000 * x + 500;
    let cy = 1000 * y + 500;
    if !(cmd.paint.style is Fill) {
        Coverage::Clear
    } else if ops_exact(cmd.ops) {
        if in_device_box(cmd, cx, cy) {
            Coverage::Covered
        } else {
            Coverage::Clear
        }
    } else if cmd.rect.width >= 0 && cmd.rect.height >= 0 && cmd.rect.width as int % 2 == 0
        && cmd.rect.height as int % 2 == 0 {
        match disk_after(cmd.ops, rect_disk(cmd.rect)) {
            Some(d) => {
                let dist2 = (cx - d.center.0) * (cx - d.center.0) + (cy - d.center.1) * (cy
                    - d.center.1);
                if dist2 <= d.rin * d.rin {
                    Coverage::Covered
                } else if dist2 > d.rout2 {
                    Coverage::Clear
                } else {
                    Coverage::Unknown
                }
            },
            None => Coverage::Unknown,
        }
    } else {
        Coverage::Unknown
    }
}

/// Whether the model determines the pixel at all: every draw from the last
/// down to the first covering one must be placed definitely.
pub open spec fn pixel_known(cmds: Seq<DrawRec>, x: int, y: int) -> bool
    decreases cmds.len(),
{
    if cmds.len() == 0 {
        true
    } else {
        match coverage(cmds.last(), x, y) {
            Coverage::Covered => true,
            Coverage::Clear => pixel_known(cmds.drop_last(), x, y),
            Coverage::Unknown => false,
        }
    }
}

/// The color at a pixel after a sequence of draws: the last covering draw
/// wins; with none, the background shows.  Meaningful where `pixel_known`
/// holds; every claim the library makes of it is guarded so.
pub open spec fn pixel_of(cmds: Seq<DrawRec>, layout: ColorLayout, x: int, y: int) -> u32
    decreases cmds.len(),
{
    if cmds.len() == 0 {
        background(layout)
    } else if coverage(cmds.last(), x, y) is Covered {
        cmds.last().paint.color
    } else {
        pixel_of(cmds.drop_last(), layout, x, y)
    }
}

/// Whether a draw's box coverage can be decided entirely in machine
/// arithmetic: it is a stroke, or a filled rectangle under an exact
/// transform whose corner sums and corner images fit `i64` at every step.
pub open spec fn coverage_evaluable(cmd: DrawRec) -> bool {
    cmd.paint.style is Fill ==> {
        &&& ops_exact(cmd.ops)
        &&& i64::MIN <= cmd.rect.x + cmd.rect.width <= i64::MAX
        &&& i64::MIN <= cmd.rect.y + cmd.rect.height <= i64::MAX
        &&& steps_in_range(cmd.ops, (cmd.rect.x as int, cmd.rect.y as int))
        &&& steps_in_range(cmd.ops, (cmd.rect.x + cmd.rect.width, cmd.rect.y + cmd.rect.height))
    }
}

/// An immutable copy of a surface's pixels at the moment of capture, as
/// the description and the draws that produced them.  It owns its copy of
/// the draw records, so later drawing into the surface cannot reach it.
pub struct ImageSnapshot {
    pub width: u32,
    pub height: u32,
    pub layout: ColorLayout,
    pub origin: SurfaceOrigin,
    pub draws: Vec<DrawCmd>,
}

impl ImageSnapshot {
    /// Whether the model determines the pixel at column `x`, row `y`.
    pub open spec fn pixel_known_at(self, x: int, y: int) -> bool {
        pixel_known(recs(self.draws@), x, y)
    }

    /// The color of the pixel at column `x`, row `y`, where the model
    /// determines it.
    pub open spec fn pixel_at(self, x: int, y: int) -> u32 {
        pixel_of(recs(self.draws@), self.layout, x, y)
    }

    /// Reads the model's color at a pixel with machine arithmetic.  An
    /// answer is definite: the model determines the pixel and this is its
    /// color.  An answer is owed whenever every draw's coverage is
    /// evaluable; where a draw is `Unknown` at this pixel the probe
    /// refuses rather than report a background the render may paint.
    pub fn pixel_probe(&self, x: u32, y: u32) -> (r: Option<u32>)
        ensures
            r matches Some(c) ==> self.pixel_known_at(x as int, y as int) && c == self.pixel_at(
                x as int,
                y as int,
            ),
            (forall|k: int|
                0 <= k < self.draws@.len() ==> coverage_evaluable(
                    #[trigger] self.draws@[k].rec(),
                )) ==> r is Some,
    {
        let ghost rs = recs(self.draws@);
        let ghost px: int = x as int;
        let ghost py: int = y as int;
        let mut i: usize = self.draws.len();
        proof {
            assert(rs.take(i as int) =~= rs);
        }
        while i > 0
            invariant
                i <= self.draws@.len(),
                rs == recs(self.draws@),
                px == x as int,
                py == y as int,
                pixel_of(rs, self.layout, px, py) == pixel_of(
                    rs.take(i as int),
                    self.layout,
                    px,
                    py,
                ),
                pixel_known(rs, px, py) == pixel_known(rs.take(i as int), px, py),
            decreases i,
        {
            let covered: Option<bool> = covers_exec(&self.draws[i - 1], x, y);
            proof {
                assert(rs[i - 1] == self.draws@[i - 1].rec());
                assert(rs.take(i as int).last() == rs[i - 1]);
            }
            match covered {
                None => {
                    proof {
                        assert(!coverage_evaluable(self.draws@[i - 1].rec()));
                    }
                    return None;
                },
                Some(true) => {
                    return Some(self.draws[i - 1].paint.color);
                },
                Some(false) => {
                    proof {
                        assert(rs.take(i as int).drop_last() =~= rs.take(i - 1));
                    }
                    i = i - 1;
                },
            }
        }
        proof {
            assert(rs.take(0) =~= Seq::<DrawRec>::empty());
        }
        Some(COLOR_CLEAR)
    }
}

/// Decides a draw's coverage at a pixel: a definite answer matches the
/// model's `coverage`, and one is owed whenever the draw is evaluable.
fn covers_exec(cmd: &DrawCmd, x: u32, y: u32) -> (r: Option<bool>)
    ensures
        r matches Some(b) ==> coverage(cmd.rec(), x as int, y as int) == (if b {
            Coverage::Covered
        } else {
            Coverage::Clear
        }),
        coverage_evaluable(cmd.rec()) ==> r is Some,
{
    match cmd.paint.style {
        PaintStyle::Stroke => {
            return Some(false);
        },
        PaintStyle::Fill => {},
    }
    let mut exact: bool = true;
    let mut k: usize = 0;
    while k < cmd.ops.len()
        invariant
            k <= cmd.ops@.len(),
            exact ==> forall|j: int| 0 <= j < k ==> op_exact(#[trigger] cmd.ops@[j]),
            !exact ==> !ops_exact(cmd.ops@),
        decreases cmd.ops@.len() - k,
    {
        let step_exact: bool = match cmd.ops[k] {
            TransformOp::Rotate { degrees } => {
                match degrees.checked_rem_euclid(90) {
                    Some(m) => m == 0,
                    None => false,
                }
            },
            _ => true,
        };
        if !step_exact {
            proof {
                assert(!op_exact(cmd.ops@[k as int]));
            }
            exact = false;
        }
        k = k + 1;
    }
    if exact {
        proof {
            assert(ops_exact(cmd.rec().ops));
        }
        covers_box_exec(cmd, x, y)
    } else {
        covers_disk_exec(cmd, x, y)
    }
}

/// The exact-transform half of `covers_exec`: decides the device box, and
/// owes an answer whenever corner sums and corner images fit `i64`.
fn covers_box_exec(cmd: &DrawCmd, x: u32, y: u32) -> (r: Option<bool>)
    requires
        cmd.paint.style is Fill,
        ops_exact(cmd.ops@),
    ensures
        r matches Some(b) ==> coverage(cmd.rec(), x as int, y as int) == (if b {
            Coverage::Covered
        } else {
            Coverage::Clear
        }),
        coverage_evaluable(cmd.rec()) ==> r is Some,
{
    let cx: i64 = 1000 * (x as i64) + 500;
    let cy: i64 = 1000 * (y as i64) + 500;
    let x2: i64 = match cmd.rect.x.checked_add(cmd.rect.width) {
        Some(v) => v,
        None => {
            return None;
        },
    };
    let y2: i64 = match cmd.rect.y.checked_add(cmd.rect.height) {
        Some(v) => v,
        None => {
            return None;
        },
    };
    let a: Point = match transform_point(&cmd.ops, Point::new(cmd.rect.x, cmd.rect.y)) {
        Some(p) => p,
        None => {
            return None;
        },
    };
    let b: Point = match transform_point(&cmd.ops, Point::new(x2, y2)) {
        Some(p) => p,
        None => {
            return None;
        },
    };
    let in_x: bool = if a.x <= b.x {
        a.x <= cx && cx <= b.x
    } else {
        b.x <= cx && cx <= a.x
    };
    let in_y: bool = if a.y <= b.y {
        a.y <= cy && cy <= b.y
    } else {
        b.y <= cy && cy <= a.y
    };
    Some(in_x && in_y)
}

/// The disk half of `covers_exec`: brackets a draw whose rotation is not
/// a right-angle multiple, answering only where the bracket is definite
/// and computable in machine arithmetic.
fn covers_disk_exec(cmd: &DrawCmd, x: u32, y: u32) -> (r: Option<bool>)
    requires
        cmd.paint.style is Fill,
        !ops_exact(cmd.ops@),
    ensures
        r matches Some(b) ==> coverage(cmd.rec(), x as int, y as int) == (if b {
            Coverage::Covered
        } else {
            Coverage::Clear
        }),
{
    let cx: i64 = 1000 * (x as i64) + 500;
    let cy: i64 = 1000 * (y as i64) + 500;
    let w: i64 = cmd.rect.width;
    let h: i64 = cmd.rect.height;
    if w < 0 || h < 0 {
        return None;
    }
    let even_w: bool = match w.checked_rem_euclid(2) {
        Some(m) => m == 0,
        None => false,
    };
    let even_h: bool = match h.checked_rem_euclid(2) {
        Some(m) => m == 0,
        None => false,
    };
    if !even_w || !even_h {
        return None;
    }
    let half_w: i64 = ((w as u64) / 2) as i64;
    let half_h: i64 = ((h as u64) / 2) as i64;
    let c0x: i64 = match cmd.rect.x.checked_add(half_w) {
        Some(v) => v,
        None => {
            return None;
        },
    };
    let c0y: i64 = match cmd.rect.y.checked_add(half_h) {
        Some(v) => v,
        None => {
            return None;
        },
    };
    let rin0: i64 = if half_w <= half_h {
        half_w
    } else {
        half_h
    };
    proof {
        assert(0 <= (half_w as int) * (half_w as int) + (half_h as int) * (half_h as int)
            <= i128::MAX) by (nonlinear_arith)
            requires
                0 <= half_w <= i64::MAX,
                0 <= half_h <= i64::MAX,
        ;
    }
    let rout20: i128 = (half_w as i128) * (half_w as i128) + (half_h as i128) * (half_h as i128);
    proof {
        assert(rect_disk(cmd.rect) == (DiskBound {
            center: (c0x as int, c0y as int),
            rin: rin0 as int,
            rout2: rout20 as int,
        }));
    }
    let after: Option<(i64, i64, i64, i128)> = disk_exec(&cmd.ops, c0x, c0y, rin0, rout20);
    let (dcx, dcy, rin, rout2) = match after {
        Some(d) => d,
        None => {
            return None;
        },
    };
    let ddx: i128 = (cx as i128) - (dcx as i128);
    let ddy: i128 = (cy as i128) - (dcy as i128);
    let dx2: i128 = match ddx.checked_mul(ddx) {
        Some(v) => v,
        None => {
            return None;
        },
    };
    let dy2: i128 = match ddy.checked_mul(ddy) {
        Some(v) => v,
        None => {
            return None;
        },
    };
    let dist2: i128 = match dx2.checked_add(dy2) {
        Some(v) => v,
        None => {
            return None;
        },
    };
    proof {
        assert(0 <= (rin as int) * (rin as int) <= i128::MAX) by (nonlinear_arith)
            requires
                i64::MIN <= rin <= i64::MAX,
        ;
    }
    let rin2: i128 = (rin as i128) * (rin as i128);
    if dist2 <= rin2 {
        Some(true)
    } else if dist2 > rout2 {
        Some(false)
    } else {
        None
    }
}

/// Runs the disk bracket through a transform sequence with machine
/// arithmetic: exactly `disk_after` whenever it answers.
fn disk_exec(ops: &Vec<TransformOp>, c0x: i64, c0y: i64, rin0: i64, rout20: i128) -> (r: Option<
    (i64, i64, i64, i128),
>)
    ensures
        r matches Some(d) ==> disk_after(
            ops@,
            DiskBound { center: (c0x as int, c0y as int), rin: rin0 as int, rout2: rout20 as int },
        ) == Some(
            DiskBound { center: (d.0 as int, d.1 as int), rin: d.2 as int, rout2: d.3 as int },
        ),
{
    let ghost d0 = DiskBound {
        center: (c0x as int, c0y as int),
        rin: rin0 as int,
        rout2: rout20 as int,
    };
    let mut cx: i64 = c0x;
    let mut cy: i64 = c0y;
    let mut rin: i64 = rin0;
    let mut rout2: i128 = rout20;
    let mut i: usize = ops.len();
    proof {
        assert(ops@.skip(ops@.len() as int) =~= Seq::<TransformOp>::empty());
    }
    while i > 0
        invariant
            i <= ops@.len(),
            d0 == (DiskBound {
                center: (c0x as int, c0y as int),
                rin: rin0 as int,
                rout2: rout20 as int,
            }),
            disk_after(ops@.skip(i as int), d0) == Some(
                DiskBound { center: (cx as int, cy as int), rin: rin as int, rout2: rout2 as int },
            ),
        decreases i,
    {
        i = i - 1;
        let op = ops[i];
        let ghost pre = DiskBound {
            center: (cx as int, cy as int),
            rin: rin as int,
            rout2: rout2 as int,
        };
        proof {
            assert(ops@.skip(i as int).first() == ops@[i as int]);
            assert(ops@.skip(i as int).drop_first() =~= ops@.skip(i + 1));
            assert(disk_after(ops@.skip(i + 1), d0) == Some(pre));
        }
        match op {
            TransformOp::Translate { dx, dy } => {
                let nx = match cx.checked_add(dx) {
                    Some(v) => v,
                    None => {
                        return None;
                    },
                };
                let ny = match cy.checked_add(dy) {
                    Some(v) => v,
                    None => {
                        return None;
                    },
                };
                cx = nx;
                cy = ny;
                proof {
                    assert(apply_op_disk(ops@[i as int], pre) matches Some(q) && q.center == (
                        cx as int,
                        cy as int,
                    ) && q.rin == rin as int && q.rout2 == rout2 as int);
                }
            },
            TransformOp::Scale { sx, sy } => {
                if sx != sy || sx <= 0 {
                    return None;
                }
                let whole: bool = match sx.checked_rem_euclid(1000) {
                    Some(m) => m == 0,
                    None => false,
                };
                if !whole {
                    return None;
                }
                let k: i64 = match sx.checked_div_euclid(1000) {
                    Some(v) => v,
                    None => {
                        return None;
                    },
                };
                let nx = match cx.checked_mul(k) {
                    Some(v) => v,
                    None => {
                        return None;
                    },
                };
                let ny = match cy.checked_mul(k) {
                    Some(v) => v,
                    None => {
                        return None;
                    },
                };
                let nrin = match rin.checked_mul(k) {
                    Some(v) => v,
                    None => {
                        return None;
                    },
                };
                let scaled = match rout2.checked_mul(k as i128) {
                    Some(v) => v.checked_mul(k as i128),
                    None => None,
                };
                let nrout2 = match scaled {
                    Some(v) => v,
                    None => {
                        return None;
                    },
                };
                proof {
                    assert(k as int == sx as int / 1000);
                    assert(nx as int == (k as int) * pre.center.0) by (nonlinear_arith)
                        requires
                            nx as int == pre.center.0 * (k as int),
                    ;
                    assert(ny as int == (k as int) * pre.center.1) by (nonlinear_arith)
                        requires
                            ny as int == pre.center.1 * (k as int),
                    ;
                    assert(nrin as int == (k as int) * pre.rin) by (nonlinear_arith)
                        requires
                            nrin as int == pre.rin * (k as int),
                    ;
                    assert(nrout2 as int == (k as int) * (k as int) * pre.rout2)
                        by (nonlinear_arith)
                        requires
                            nrout2 as int == (pre.rout2 * (k as int)) * (k as int),
                    ;
                }
                cx = nx;
                cy = ny;
                rin = nrin;
                rout2 = nrout2;
                proof {
                    assert(apply_op_disk(ops@[i as int], pre) matches Some(q) && q.center == (
                        cx as int,
                        cy as int,
                    ) && q.rin == rin as int && q.rout2 == rout2 as int);
                }
            },
            TransformOp::Rotate { degrees } => {
                let m: i64 = match degrees.checked_rem_euclid(90) {
                    Some(v) => v,
                    None => 0,
                };
                if m == 0 {
                    let t: i64 = match degrees.checked_rem_euclid(360) {
                        Some(v) => v,
                        None => 0,
                    };
                    if t == 90 {
                        if cy == i64::MIN {
                            return None;
                        }
                        let nx: i64 = -cy;
                        cy = cx;
                        cx = nx;
                    } else if t == 180 {
                        if cx == i64::MIN || cy == i64::MIN {
                            return None;
                        }
                        cx = -cx;
                        cy = -cy;
                    } else if t == 270 {
                        if cx == i64::MIN {
                            return None;
                        }
                        let nx: i64 = cy;
                        cy = -cx;
                        cx = nx;
                    }
                } else {
                    if cx != 0 || cy != 0 {
                        return None;
                    }
                }
                proof {
                    assert(apply_op_disk(ops@[i as int], pre) matches Some(q) && q.center == (
                        cx as int,
                        cy as int,
                    ) && q.rin == rin as int && q.rout2 == rout2 as int);
                }
            },
        }
    }
    proof {
        assert(ops@.skip(0) =~= ops@);
    }
    Some((cx, cy, rin, rout2))
}

/// A fill of the unit rectangle under the given transform ops.
pub open spec fn unit_fill_after(ops: Seq<TransformOp>) -> DrawRec {
    DrawRec {
        ops,
        rect: unit_rect(),
        paint: Paint { color: 0xFF000000u32, style: PaintStyle::Fill },
    }
}

/// Translation by `d` thousandths, then a quarter turn.
pub open spec fn translate_then_quarter(d: i64) -> Seq<TransformOp> {
    seq![TransformOp::Translate { dx: d, dy: 0 }, TransformOp::Rotate { degrees: 90 }]
}

/// A quarter turn, then translation by `d` thousandths.
pub open spec fn quarter_then_translate(d: i64) -> Seq<TransformOp> {
    seq![TransformOp::Rotate { degrees: 90 }, TransformOp::Translate { dx: d, dy: 0 }]
}

/// Order sensitivity at the pixel level: for a translation of at least one
/// whole pixel, drawing the unit rectangle after translate-then-rotate
/// covers a pixel that rotate-then-translate leaves clear, so the two
/// orders change different pixel sets.  A whole pixel is asked because a
/// sub-pixel move can leave the covered pixels unchanged even though the
/// corner footprints differ.
pub proof fn lemma_order_sensitivity_pixels(d: i64)
    requires
        d >= 1000 || d <= -1000,
    ensures
        exists|px: int, py: int|
            (#[trigger] coverage(unit_fill_after(translate_then_quarter(d)), px, py))
                is Covered && coverage(
                unit_fill_after(quarter_then_translate(d)),
                px,
                py,
            ) is Clear,
{
    let tr = translate_then_quarter(d);
    let rt = quarter_then_translate(d);
    let r1 = unit_fill_after(tr);
    let r2 = unit_fill_after(rt);
    assert(ops_exact(tr) && ops_exact(rt));
    reveal_with_fuel(apply_ops, 3);
    // Translate-then-rotate spans device x in [d - 1000, d]; the other
    // order spans x in [-1000, 0].
    assert(apply_ops(tr, (0int, 0int)) == ((d as int), 0int));
    assert(apply_ops(tr, (1000int, 1000int)) == (d - 1000, 1000int));
    assert(apply_ops(rt, (0int, 0int)) == (0int, d as int));
    assert(apply_ops(rt, (1000int, 1000int)) == (-1000int, d + 1000));
    // The pixel whose center is within half a pixel left of x = d lies in
    // the first span; one whole pixel of distance puts that center out of
    // the second span.
    let px: int = (d - 500) / 1000;
    vstd::arithmetic::div_mod::lemma_fundamental_div_mod(d - 500, 1000);
    let rem: int = (d - 500) % 1000;
    assert(d - 500 == 1000 * px + rem);
    assert(0 <= rem < 1000);
    assert(1000 * px + 500 == d - rem);
    assert(coverage(r1, px, 0) is Covered);
    if d >= 1000 {
        assert(1000 * px + 500 >= 1);
    } else {
        assert(d <= -1000);
        if 1000 * px + 500 == -1000 {
            assert(rem == d + 1000);
            assert(d == -1000 && rem == 0);
            assert(false);
        }
        assert(1000 * px + 500 < -1000);
    }
    assert(coverage(r2, px, 0) is Clear);
}

/// What one more draw does to a pixel: where it covers, the pixel takes
/// its color; where it is clear, the pixel keeps whatever the earlier
/// draws gave it, determined or not.  A draw touches no pixel outside its
/// coverage.
pub proof fn lemma_draw_effect(
    cmds: Seq<DrawRec>,
    cmd: DrawRec,
    layout: ColorLayout,
    x: int,
    y: int,
)
    ensures
        coverage(cmd, x, y) is Covered ==> pixel_known(cmds.push(cmd), x, y) && pixel_of(
            cmds.push(cmd),
            layout,
            x,
            y,
        ) == cmd.paint.color,
        coverage(cmd, x, y) is Clear ==> pixel_known(cmds.push(cmd), x, y) == pixel_known(
            cmds,
            x,
            y,
        ) && pixel_of(cmds.push(cmd), layout, x, y) == pixel_of(cmds, layout, x, y),
        coverage(cmd, x, y) is Unknown ==> !pixel_known(cmds.push(cmd), x, y),
{
    assert(cmds.push(cmd).last() == cmd);
    assert(cmds.push(cmd).drop_last() =~= cmds);
}

/// A snapshot taken with nothing drawn shows the background at every
/// pixel, and the model determines every pixel.
pub proof fn lemma_fresh_snapshot_clear(snap: ImageSnapshot, x: int, y: int)
    requires
        snap.draws@.len() == 0,
    ensures
        snap.pixel_known_at(x, y),
        snap.pixel_at(x, y) == background(snap.layout),
{
    assert(recs(snap.draws@).len() == 0);
}

/// Two snapshots of the same layout that hold the same draw records show
/// the same color at every pixel, and determine the same pixels: a GPU
/// pass that records the same scene as a raster pass reads back
/// pixel-identical output.
pub proof fn lemma_equal_records_equal_pixels(a: ImageSnapshot, b: ImageSnapshot, x: int, y: int)
    requires
        recs(a.draws@) == recs(b.draws@),
        a.layout == b.layout,
    ensures
        a.pixel_known_at(x, y) == b.pixel_known_at(x, y),
        a.pixel_at(x, y) == b.pixel_at(x, y),
{
}

impl Surface {
    /// Captures the surface's pixels.  On a GPU surface every draw must
    /// have been flushed first, else the read races the GPU; the
    /// `readable` precondition makes omitting the flush a verification
    /// error.  The snapshot is independent of the surface: it holds its
    /// own copy of the records.
    pub fn image_snapshot(&self) -> (snap: ImageSnapshot)
        requires
            self.readable(),
        ensures
            snap.width == self.desc.width,
            snap.height == self.desc.height,
            snap.layout == self.desc.layout,
            snap.origin == self.desc.origin,
            recs(snap.draws@) == recs(self.canvas.draws@),
    {
        let draws = copy_cmds(&self.canvas.draws);
        proof {
            assert(recs(draws@) =~= recs(self.canvas.draws@));
        }
        ImageSnapshot {
            width: self.desc.width,
            height: self.desc.height,
            layout: self.desc.layout,
            origin: self.desc.origin,
            draws,
        }
    }
}

/// Copies draw records element for element.
fn copy_cmds(cmds: &Vec<DrawCmd>) -> (r: Vec<DrawCmd>)
    ensures
        r@.len() == cmds@.len(),
        forall|i: int| 0 <= i < cmds@.len() ==> #[trigger] r@[i].rec() == cmds@[i].rec(),
{
    let mut r: Vec<DrawCmd> = Vec::new();
    let mut i: usize = 0;
    while i < cmds.len()
        invariant
            i <= cmds@.len(),
            r@.len() == i,
            forall|j: int| 0 <= j < i ==> #[trigger] r@[j].rec() == cmds@[j].rec(),
        decreases cmds@.len() - i,
    {
        let c = &cmds[i];
        let mut ops: Vec<TransformOp> = Vec::new();
        let mut k: usize = 0;
        while k < c.ops.len()
            invariant
                k <= c.ops@.len(),
                ops@ == c.ops@.take(k as int),
            decreases c.ops@.len() - k,
        {
            ops.push(c.ops[k]);
            k = k + 1;
            proof {
                assert(ops@ =~= c.ops@.take(k as int));
            }
        }
        proof {
            assert(c.ops@.take(c.ops@.len() as int) =~= c.ops@);
        }
        r.push(DrawCmd { ops, rect: c.rect, paint: c.paint });
        i = i + 1;
    }
    r
}

/// The compressed raster format a snapshot is encoded into: lossless and
/// alpha-capable.
#[derive(Clone, Copy, Debug, PartialEq, Eq, Structural)]
pub enum EncodedImageFormat {
    Png,
}

/// The bytes an encoder produced from one snapshot, tagged with their
/// format; opaque to the pipeline beyond that.
pub struct EncodedBuffer {
    pub format: EncodedImageFormat,
    pub bytes: Vec<u8>,
}

/// Turns a codec's outcome into the pipeline's: the bytes pass through
/// untouched, and a codec refusal is exactly an `EncodeFailed` error.
/// The encoding itself is the codec's work, done by the driver; this is
/// where its outcome enters the verified pipeline.
pub fn finish_encode(format: EncodedImageFormat, encoder_output: Option<Vec<u8>>) -> (r: Result<
    EncodedBuffer,
    PipelineError,
>)
    ensures
        r is Ok <==> encoder_output is Some,
        encoder_output matches Some(b) ==> r matches Ok(buf) && buf.bytes@ == b@ && buf.format
            == format,
        r matches Err(e) ==> e is EncodeFailed,
{
    match encoder_output {
        Some(bytes) => Ok(EncodedBuffer { format, bytes }),
        None => Err(PipelineError::EncodeFailed),
    }
}

/// The fixed relative output path, with the extension naming the encoded
/// format.
pub fn output_file_name() -> (r: String)
    ensures
        r@ == "testing.png"@,
{
    "testing.png".to_string()
}

} // verus!
