use vstd::prelude::*;

use crate::geometry::Point;
use crate::geometry::Rect;

verus! {

/// One primitive affine transform, in fixed-point units (thousandths):
/// `Scale { sx: 2000, .. }` doubles x coordinates, `Translate { dx: 128000, .. }`
/// moves by 128 pixels.  Rotation angles are whole degrees.
#[derive(Clone, Copy, Debug, PartialEq, Eq, Structural)]
pub enum TransformOp {
    Translate { dx: i64, dy: i64 },
    Scale { sx: i64, sy: i64 },
    Rotate { degrees: i64 },
}

/// Truncating division by the fixed-point unit, matching machine division:
/// rounds toward zero.
pub open spec fn milli_div(a: int) -> int {
    if a >= 0 {
        a / 1000
    } else {
        -((-a) / 1000)
    }
}

/// Whether the point semantics of an op is exact.  Translations and scales
/// always are; a rotation is exact exactly when its angle is a right-angle
/// multiple, where its matrix has entries -1, 0 and 1.
pub open spec fn op_exact(op: TransformOp) -> bool {
    match op {
        TransformOp::Rotate { degrees } => degrees as int % 90 == 0,
        _ => true,
    }
}

pub open spec fn ops_exact(ops: Seq<TransformOp>) -> bool {
    forall|i: int| 0 <= i < ops.len() ==> op_exact(#[trigger] ops[i])
}

/// Rotation of a point about the origin by a right-angle multiple, in the
/// usual raster convention (y grows downward, positive angles turn from
/// +x toward +y).  For angles that are not right-angle multiples the model
/// leaves the point unchanged; statements about such rotations must be
/// guarded by `op_exact`.
pub open spec fn rotate_point(degrees: int, p: (int, int)) -> (int, int) {
    let t: int = degrees % 360;
    if t == 90 {
        (-p.1, p.0)
    } else if t == 180 {
        (-p.0, -p.1)
    } else if t == 270 {
        (p.1, -p.0)
    } else {
        p
    }
}

/// Where one op sends a point.
pub open spec fn apply_op(op: TransformOp, p: (int, int)) -> (int, int) {
    match op {
        TransformOp::Translate { dx, dy } => (p.0 + dx, p.1 + dy),
        TransformOp::Scale { sx, sy } => (milli_div(sx * p.0), milli_div(sy * p.1)),
        TransformOp::Rotate { degrees } => rotate_point(degrees as int, p),
    }
}

/// Where a sequence of ops, applied in the order the canvas received them,
/// sends a point.  An op applied earlier establishes the coordinate space
/// in which the later ops work, so the earliest op acts last on the way to
/// device space: `apply_ops([a, b], p) == apply_op(a, apply_op(b, p))`.
pub open spec fn apply_ops(ops: Seq<TransformOp>, p: (int, int)) -> (int, int)
    decreases ops.len(),
{
    if ops.len() == 0 {
        p
    } else {
        apply_op(ops.first(), apply_ops(ops.drop_first(), p))
    }
}

/// The device-space footprint of a rectangle drawn under a transform,
/// represented by the images of its four corners.  Two draws with
/// different footprints span different geometric regions; whether they
/// also cover different whole pixels depends on the distances involved
/// (a sub-pixel move can leave the covered pixels unchanged).
pub open spec fn footprint(ops: Seq<TransformOp>, r: Rect) -> Set<(int, int)> {
    set![
        apply_ops(ops, (r.x as int, r.y as int)),
        apply_ops(ops, (r.x + r.width, r.y as int)),
        apply_ops(ops, (r.x as int, r.y + r.height)),
        apply_ops(ops, (r.x + r.width, r.y + r.height)),
    ]
}

/// The unit rectangle: one pixel at the origin.
pub open spec fn unit_rect() -> Rect {
    Rect { x: 0, y: 0, width: 1000, height: 1000 }
}

/// Transform composition is order sensitive: translating and then rotating
/// by a right angle leaves a different footprint for the unit rectangle
/// than rotating and then translating, whenever the translation distance
/// is not zero.
pub proof fn lemma_order_sensitivity(d: i64)
    requires
        d != 0,
    ensures
        footprint(
            seq![TransformOp::Translate { dx: d, dy: 0 }, TransformOp::Rotate { degrees: 90 }],
            unit_rect(),
        ) != footprint(
            seq![TransformOp::Rotate { degrees: 90 }, TransformOp::Translate { dx: d, dy: 0 }],
            unit_rect(),
        ),
{
    let tr = seq![
        TransformOp::Translate { dx: d, dy: 0 },
        TransformOp::Rotate { degrees: 90 },
    ];
    let rt = seq![
        TransformOp::Rotate { degrees: 90 },
        TransformOp::Translate { dx: d, dy: 0 },
    ];
    let u = unit_rect();
    reveal_with_fuel(apply_ops, 3);
    // Translate-then-rotate maps p to (d - p.y, p.x); the other order maps
    // p to (-p.y, p.x + d).
    assert(apply_ops(tr, (0int, 0int)) == ((d as int), 0int));
    assert(apply_ops(tr, (0int, 1000int)) == (d - 1000, 0int));
    assert(apply_ops(tr, (1000int, 0int)) == ((d as int), 1000int));
    assert(apply_ops(tr, (1000int, 1000int)) == (d - 1000, 1000int));
    assert(apply_ops(rt, (0int, 0int)) == (0int, d as int));
    assert(apply_ops(rt, (1000int, 0int)) == (0int, d + 1000));
    assert(apply_ops(rt, (0int, 1000int)) == (-1000int, d as int));
    assert(apply_ops(rt, (1000int, 1000int)) == (-1000int, d + 1000));
    // Every point of the second footprint has x equal to 0 or -1000; the
    // first footprint holds a witness whose x avoids both.
    if d > 0 {
        let w = ((d as int), 0int);
        assert(footprint(tr, u).contains(w));
        assert(!footprint(rt, u).contains(w));
        assert(footprint(tr, u) != footprint(rt, u));
    } else {
        let w = (d - 1000, 0int);
        assert(footprint(tr, u).contains(w));
        assert(!footprint(rt, u).contains(w));
        assert(footprint(tr, u) != footprint(rt, u));
    }
}

/// Whether a mathematical point fits the machine coordinates.
pub open spec fn point_in_i64(p: (int, int)) -> bool {
    &&& i64::MIN <= p.0 <= i64::MAX
    &&& i64::MIN <= p.1 <= i64::MAX
}

/// Whether a transform sequence can be run on a point entirely in machine
/// coordinates: the point after each suffix of the ops (each intermediate
/// of the evaluation, which applies the last op first) fits `i64`.
pub open spec fn steps_in_range(ops: Seq<TransformOp>, p: (int, int)) -> bool {
    forall|i: int| 0 <= i < ops.len() ==> point_in_i64(#[trigger] apply_ops(ops.skip(i), p))
}

/// Runs a transform sequence on a point with machine arithmetic, earliest
/// op outermost, exactly as the model does.  It answers exactly when every
/// rotation is a right-angle multiple and no intermediate leaves `i64`,
/// and the answer is the exact transformed point.
pub fn transform_point(ops: &Vec<TransformOp>, p: Point) -> (r: Option<Point>)
    ensures
        r is Some <==> ops_exact(ops@) && steps_in_range(ops@, (p.x as int, p.y as int)),
        r matches Some(q) ==> (q.x as int, q.y as int) == apply_ops(
            ops@,
            (p.x as int, p.y as int),
        ),
{
    let ghost p0: (int, int) = (p.x as int, p.y as int);
    let mut x: i64 = p.x;
    let mut y: i64 = p.y;
    let mut i: usize = ops.len();
    proof {
        assert(ops@.skip(ops@.len() as int) =~= Seq::<TransformOp>::empty());
    }
    while i > 0
        invariant
            i <= ops@.len(),
            p0 == (p.x as int, p.y as int),
            (x as int, y as int) == apply_ops(ops@.skip(i as int), p0),
            forall|j: int| i <= j < ops@.len() ==> op_exact(#[trigger] ops@[j]),
            forall|j: int|
                i <= j < ops@.len() ==> point_in_i64(#[trigger] apply_ops(ops@.skip(j), p0)),
        decreases i,
    {
        i = i - 1;
        let op = ops[i];
        proof {
            assert(ops@.skip(i as int).first() == ops@[i as int]);
            assert(ops@.skip(i as int).drop_first() =~= ops@.skip(i + 1));
        }
        let stepped: Option<(i64, i64)> = apply_op_exec(op, x, y);
        match stepped {
            Some((nx, ny)) => {
                x = nx;
                y = ny;
            },
            None => {
                proof {
                    assert(!(op_exact(ops@[i as int]) && point_in_i64(
                        apply_ops(ops@.skip(i as int), p0),
                    )));
                }
                return None;
            },
        }
    }
    proof {
        assert(ops@.skip(0) =~= ops@);
    }
    Some(Point { x, y })
}

/// One step of `transform_point`: `apply_op` with machine arithmetic.  It
/// answers exactly when the op is exact and its result fits `i64`.
fn apply_op_exec(op: TransformOp, x: i64, y: i64) -> (r: Option<(i64, i64)>)
    ensures
        r is Some <==> op_exact(op) && point_in_i64(apply_op(op, (x as int, y as int))),
        r matches Some(q) ==> (q.0 as int, q.1 as int) == apply_op(op, (x as int, y as int)),
{
    match op {
        TransformOp::Translate { dx, dy } => {
            match (x.checked_add(dx), y.checked_add(dy)) {
                (Some(nx), Some(ny)) => Some((nx, ny)),
                _ => None,
            }
        },
        TransformOp::Scale { sx, sy } => {
            match (scale_coord(sx, x), scale_coord(sy, y)) {
                (Some(nx), Some(ny)) => Some((nx, ny)),
                _ => None,
            }
        },
        TransformOp::Rotate { degrees } => {
            let right_angle: i64 = match degrees.checked_rem_euclid(90) {
                Some(m) => m,
                None => 0,
            };
            if right_angle != 0 {
                return None;
            }
            let turn: i64 = match degrees.checked_rem_euclid(360) {
                Some(t) => t,
                None => 0,
            };
            if turn == 90 {
                if y == i64::MIN {
                    None
                } else {
                    Some((-y, x))
                }
            } else if turn == 180 {
                if x == i64::MIN || y == i64::MIN {
                    None
                } else {
                    Some((-x, -y))
                }
            } else if turn == 270 {
                if x == i64::MIN {
                    None
                } else {
                    Some((y, -x))
                }
            } else {
                Some((x, y))
            }
        },
    }
}

/// Multiplies a coordinate by a fixed-point scale factor and divides by
/// the unit, rounding toward zero.  It answers exactly when the result
/// fits `i64`.
fn scale_coord(s: i64, v: i64) -> (r: Option<i64>)
    ensures
        r is Some <==> i64::MIN <= milli_div(s * v) <= i64::MAX,
        r matches Some(n) ==> n as int == milli_div(s * v),
{
    proof {
        assert((s as int) * (v as int) <= i128::MAX && (s as int) * (v as int) > i128::MIN)
            by (nonlinear_arith)
            requires
                i64::MIN <= s <= i64::MAX,
                i64::MIN <= v <= i64::MAX,
        ;
    }
    let prod: i128 = (s as i128) * (v as i128);
    if prod >= 0 {
        let q: u128 = (prod as u128) / 1000;
        if q <= 0x7FFF_FFFF_FFFF_FFFFu128 {
            Some(q as i64)
        } else {
            None
        }
    } else {
        let mag: u128 = (-prod) as u128;
        let q: u128 = mag / 1000;
        if q <= 0x7FFF_FFFF_FFFF_FFFFu128 {
            Some(-(q as i64))
        } else if q == 0x8000_0000_0000_0000u128 {
            Some(i64::MIN)
        } else {
            None
        }
    }
}

} // verus!
