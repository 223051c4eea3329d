use vstd::prelude::*;

use crate::geometry::Paint;
use crate::geometry::Point;
use crate::geometry::Rect;
use crate::transform::TransformOp;

verus! {

/// One recorded draw call: the transform ops in effect when it was issued,
/// the rectangle in the transformed space, and the paint.
pub struct DrawCmd {
    pub ops: Vec<TransformOp>,
    pub rect: Rect,
    pub paint: Paint,
}

/// The transform part of a canvas, as mathematics: the ops composing the
/// current transform, and the save stack.  Each stack entry is the length
/// the op sequence had when `save` was called; `restore` cuts the sequence
/// back to the popped length.
#[verifier::ext_equal]
pub struct TransformState {
    pub ops: Seq<TransformOp>,
    pub saved: Seq<int>,
}

/// One canvas call, as the transform state sees it.  `Concat` stands for
/// `translate`, `scale` and pivot-free `rotate` alike; a draw call leaves
/// the transform state alone.
pub enum CanvasAction {
    Save,
    Restore,
    Concat(TransformOp),
    Draw,
}

/// A transform state is well formed when the save stack is nondecreasing
/// and every entry points into the op sequence.
pub open spec fn state_wf(s: TransformState) -> bool {
    &&& forall|i: int| 0 <= i < s.saved.len() ==> 0 <= #[trigger] s.saved[i] <= s.ops.len()
    &&& forall|i: int, j: int|
        0 <= i <= j < s.saved.len() ==> #[trigger] s.saved[i] <= #[trigger] s.saved[j]
}

/// What one canvas call does to the transform state.  `restore` on an
/// empty stack is a no-op.
pub open spec fn state_apply(s: TransformState, a: CanvasAction) -> TransformState {
    match a {
        CanvasAction::Save => TransformState {
            ops: s.ops,
            saved: s.saved.push(s.ops.len() as int),
        },
        CanvasAction::Restore => {
            if s.saved.len() == 0 {
                s
            } else {
                TransformState { ops: s.ops.take(s.saved.last()), saved: s.saved.drop_last() }
            }
        },
        CanvasAction::Concat(op) => TransformState { ops: s.ops.push(op), saved: s.saved },
        CanvasAction::Draw => s,
    }
}

/// The transform state after a whole sequence of canvas calls.
pub open spec fn state_run(s: TransformState, actions: Seq<CanvasAction>) -> TransformState
    decreases actions.len(),
{
    if actions.len() == 0 {
        s
    } else {
        state_run(state_apply(s, actions.first()), actions.drop_first())
    }
}

/// Whether a sequence of canvas calls is balanced when entered at save
/// depth `d`: no `restore` reaches below depth zero, and the sequence ends
/// back at depth zero.
pub open spec fn balanced_from(actions: Seq<CanvasAction>, d: int) -> bool
    decreases actions.len(),
{
    if actions.len() == 0 {
        d == 0
    } else {
        match actions.first() {
            CanvasAction::Save => balanced_from(actions.drop_first(), d + 1),
            CanvasAction::Restore => d >= 1 && balanced_from(actions.drop_first(), d - 1),
            _ => balanced_from(actions.drop_first(), d),
        }
    }
}

/// Every canvas call keeps the transform state well formed.
pub proof fn lemma_apply_preserves_wf(s: TransformState, a: CanvasAction)
    requires
        state_wf(s),
    ensures
        state_wf(state_apply(s, a)),
{
}

/// Running a balanced body never pops the stack below its starting floor:
/// the stack keeps `floor` as a prefix, every entry above the floor stays
/// at least `mark`, the op sequence keeps its first `mark` ops, and the
/// run ends with the stack back at exactly the floor.
proof fn lemma_run_keeps_floor(
    s: TransformState,
    body: Seq<CanvasAction>,
    floor: Seq<int>,
    mark: int,
)
    requires
        balanced_from(body, s.saved.len() - floor.len()),
        0 <= mark <= s.ops.len(),
        floor.len() <= s.saved.len(),
        s.saved.take(floor.len() as int) == floor,
        forall|k: int| floor.len() <= k < s.saved.len() ==> mark <= #[trigger] s.saved[k],
        forall|i: int, j: int|
            floor.len() <= i <= j < s.saved.len() ==> #[trigger] s.saved[i] <= #[trigger] s.saved[j],
        forall|k: int| floor.len() <= k < s.saved.len() ==> #[trigger] s.saved[k] <= s.ops.len(),
    ensures
        state_run(s, body).saved == floor,
        state_run(s, body).ops.len() >= mark,
        state_run(s, body).ops.take(mark) == s.ops.take(mark),
    decreases body.len(),
{
    if body.len() == 0 {
        assert(s.saved =~= floor);
    } else {
        let a = body.first();
        let s2 = state_apply(s, a);
        match a {
            CanvasAction::Save => {
                assert(s2.saved.take(floor.len() as int) =~= floor);
                lemma_run_keeps_floor(s2, body.drop_first(), floor, mark);
                assert(s2.ops.take(mark) =~= s.ops.take(mark));
            },
            CanvasAction::Restore => {
                assert(s.saved.len() - floor.len() >= 1);
                let v = s.saved.last();
                assert(mark <= v <= s.ops.len());
                assert(s2.ops == s.ops.take(v));
                assert(s2.ops.take(mark) =~= s.ops.take(mark));
                assert(s2.saved.take(floor.len() as int) =~= floor);
                lemma_run_keeps_floor(s2, body.drop_first(), floor, mark);
            },
            CanvasAction::Concat(op) => {
                assert(s2.saved.take(floor.len() as int) =~= floor);
                assert(s2.ops.take(mark) =~= s.ops.take(mark));
                lemma_run_keeps_floor(s2, body.drop_first(), floor, mark);
            },
            CanvasAction::Draw => {
                lemma_run_keeps_floor(s2, body.drop_first(), floor, mark);
            },
        }
    }
}

/// Running a concatenation of two sequences runs one after the other.
pub proof fn lemma_run_append(s: TransformState, a: Seq<CanvasAction>, b: Seq<CanvasAction>)
    ensures
        state_run(s, a + b) == state_run(state_run(s, a), b),
    decreases a.len(),
{
    if a.len() == 0 {
        assert(a + b =~= b);
    } else {
        assert((a + b).first() == a.first());
        assert((a + b).drop_first() =~= a.drop_first() + b);
        lemma_run_append(state_apply(s, a.first()), a.drop_first(), b);
    }
}

/// The save/restore law: from any well-formed transform state, a `save`,
/// then any balanced body of canvas calls, then the matching `restore`
/// puts the transform state back exactly where it was.
pub proof fn lemma_balanced_save_restore(s: TransformState, body: Seq<CanvasAction>)
    requires
        state_wf(s),
        balanced_from(body, 0),
    ensures
        state_run(s, seq![CanvasAction::Save] + body + seq![CanvasAction::Restore]) == s,
{
    let prologue = seq![CanvasAction::Save];
    let epilogue = seq![CanvasAction::Restore];
    let t = state_apply(s, CanvasAction::Save);
    assert(state_run(s, prologue) == state_run(t, prologue.drop_first()));
    assert(prologue.drop_first() =~= Seq::<CanvasAction>::empty());
    let floor = s.saved.push(s.ops.len() as int);
    let mark = s.ops.len() as int;
    assert(t.saved.take(floor.len() as int) =~= floor);
    lemma_run_keeps_floor(t, body, floor, mark);
    let u = state_run(t, body);
    assert(u.saved == floor);
    assert(u.saved.last() == mark);
    let v = state_apply(u, CanvasAction::Restore);
    assert(v.ops =~= s.ops) by {
        assert(u.ops.take(mark) == t.ops.take(mark));
        assert(t.ops.take(mark) =~= s.ops);
    }
    assert(v.saved =~= s.saved);
    assert(v =~= s);
    lemma_run_append(s, prologue + body, epilogue);
    lemma_run_append(s, prologue, body);
    assert(state_run(s, prologue + body) == state_run(t, body));
    assert(epilogue.first() == CanvasAction::Restore);
    assert(epilogue.drop_first() =~= Seq::<CanvasAction>::empty());
    assert(state_run(u, epilogue) == state_run(v, epilogue.drop_first()));
    assert(state_run(v, Seq::<CanvasAction>::empty()) == v);
}

/// A transform-stack view of a surface: the ops composing the current
/// transform, the save stack, and the draws recorded so far.
pub struct Canvas {
    pub ops: Vec<TransformOp>,
    pub saved: Vec<usize>,
    pub draws: Vec<DrawCmd>,
}

impl Canvas {
    /// The transform state this canvas is in.
    pub open spec fn tstate(self) -> TransformState {
        TransformState { ops: self.ops@, saved: self.saved@.map_values(|n: usize| n as int) }
    }

    pub open spec fn wf(self) -> bool {
        state_wf(self.tstate())
    }

    /// A fresh canvas: identity transform, empty stack, nothing drawn.
    pub fn new() -> (r: Canvas)
        ensures
            r.ops@.len() == 0,
            r.saved@.len() == 0,
            r.draws@.len() == 0,
            r.wf(),
    {
        let r = Canvas { ops: Vec::new(), saved: Vec::new(), draws: Vec::new() };
        proof {
            assert(r.saved@.map_values(|n: usize| n as int) =~= Seq::<int>::empty());
        }
        r
    }

    /// Composes a translation onto the current transform.
    pub fn translate(&mut self, dx: i64, dy: i64)
        ensures
            final(self).tstate() == state_apply(
                old(self).tstate(),
                CanvasAction::Concat(TransformOp::Translate { dx, dy }),
            ),
            final(self).draws@ == old(self).draws@,
            old(self).wf() ==> final(self).wf(),
    {
        self.ops.push(TransformOp::Translate { dx, dy });
        proof {
            if old(self).wf() {
                lemma_apply_preserves_wf(
                    old(self).tstate(),
                    CanvasAction::Concat(TransformOp::Translate { dx, dy }),
                );
            }
        }
    }

    /// Composes a scale onto the current transform.
    pub fn scale(&mut self, sx: i64, sy: i64)
        ensures
            final(self).tstate() == state_apply(
                old(self).tstate(),
                CanvasAction::Concat(TransformOp::Scale { sx, sy }),
            ),
            final(self).draws@ == old(self).draws@,
            old(self).wf() ==> final(self).wf(),
    {
        self.ops.push(TransformOp::Scale { sx, sy });
        proof {
            if old(self).wf() {
                lemma_apply_preserves_wf(
                    old(self).tstate(),
                    CanvasAction::Concat(TransformOp::Scale { sx, sy }),
                );
            }
        }
    }

    /// Composes a rotation onto the current transform.  With a pivot the
    /// rotation happens about that point, which composes as a translation
    /// to the pivot, the rotation, and the translation back.
    pub fn rotate(&mut self, degrees: i64, pivot: Option<Point>)
        requires
            pivot matches Some(p) ==> p.x > i64::MIN && p.y > i64::MIN,
        ensures
            pivot is None ==> final(self).tstate() == state_apply(
                old(self).tstate(),
                CanvasAction::Concat(TransformOp::Rotate { degrees }),
            ),
            pivot matches Some(p) ==> final(self).ops@ == old(self).ops@ + seq![
                TransformOp::Translate { dx: p.x, dy: p.y },
                TransformOp::Rotate { degrees },
                TransformOp::Translate { dx: (-p.x) as i64, dy: (-p.y) as i64 },
            ],
            final(self).saved@ == old(self).saved@,
            final(self).draws@ == old(self).draws@,
            old(self).wf() ==> final(self).wf(),
    {
        match pivot {
            None => {
                self.ops.push(TransformOp::Rotate { degrees });
                proof {
                    if old(self).wf() {
                        lemma_apply_preserves_wf(
                            old(self).tstate(),
                            CanvasAction::Concat(TransformOp::Rotate { degrees }),
                        );
                    }
                }
            },
            Some(p) => {
                self.ops.push(TransformOp::Translate { dx: p.x, dy: p.y });
                self.ops.push(TransformOp::Rotate { degrees });
                self.ops.push(TransformOp::Translate { dx: -p.x, dy: -p.y });
                proof {
                    assert(final(self).ops@ =~= old(self).ops@ + seq![
                        TransformOp::Translate { dx: p.x, dy: p.y },
                        TransformOp::Rotate { degrees },
                        TransformOp::Translate { dx: (-p.x) as i64, dy: (-p.y) as i64 },
                    ]);
                    if old(self).wf() {
                        let os = old(self).tstate();
                        let ns = final(self).tstate();
                        assert(ns.saved =~= os.saved);
                        assert(ns.ops.len() == os.ops.len() + 3);
                        assert(state_wf(ns));
                    }
                }
            },
        }
    }

    /// Pushes the current transform onto the save stack.
    pub fn save(&mut self)
        ensures
            final(self).tstate() == state_apply(old(self).tstate(), CanvasAction::Save),
            final(self).draws@ == old(self).draws@,
            old(self).wf() ==> final(self).wf(),
    {
        let n = self.ops.len();
        self.saved.push(n);
        proof {
            assert(final(self).saved@.map_values(|m: usize| m as int) =~= old(
                self,
            ).saved@.map_values(|m: usize| m as int).push(old(self).ops@.len() as int));
            if old(self).wf() {
                lemma_apply_preserves_wf(old(self).tstate(), CanvasAction::Save);
            }
        }
    }

    /// Pops the save stack, restoring the transform in effect at the
    /// matching `save`.  With an empty stack this is a no-op.
    pub fn restore(&mut self)
        requires
            old(self).wf(),
        ensures
            final(self).tstate() == state_apply(old(self).tstate(), CanvasAction::Restore),
            final(self).draws@ == old(self).draws@,
            final(self).wf(),
    {
        let popped: Option<usize> = self.saved.pop();
        match popped {
            Some(n) => {
                proof {
                    let os = old(self).tstate();
                    assert(os.saved[os.saved.len() - 1] <= os.ops.len());
                    assert(n as int == os.saved.last());
                }
                self.ops.truncate(n);
                proof {
                    assert(final(self).saved@.map_values(|m: usize| m as int) =~= old(
                        self,
                    ).tstate().saved.drop_last());
                    assert(final(self).ops@ =~= old(self).tstate().ops.take(
                        old(self).tstate().saved.last(),
                    ));
                    lemma_apply_preserves_wf(old(self).tstate(), CanvasAction::Restore);
                }
            },
            None => {
                proof {
                    assert(old(self).tstate().saved.len() == 0);
                }
            },
        }
    }

    /// Records a draw of an axis-aligned rectangle, interpreted in the
    /// current transformed space, with the given paint.  The transform
    /// state is untouched and the paint is not retained beyond the record.
    pub fn draw_rect(&mut self, rect: Rect, paint: Paint)
        ensures
            final(self).tstate() == state_apply(old(self).tstate(), CanvasAction::Draw),
            final(self).draws@.len() == old(self).draws@.len() + 1,
            forall|i: int|
                0 <= i < old(self).draws@.len() ==> final(self).draws@[i] == old(
                    self,
                ).draws@[i],
            final(self).draws@.last().ops@ == old(self).ops@,
            final(self).draws@.last().rect == rect,
            final(self).draws@.last().paint == paint,
            old(self).wf() ==> final(self).wf(),
    {
        let ops_now = copy_ops(&self.ops);
        self.draws.push(DrawCmd { ops: ops_now, rect, paint });
    }
}

/// Copies an op sequence element for element.
fn copy_ops(ops: &Vec<TransformOp>) -> (r: Vec<TransformOp>)
    ensures
        r@ == ops@,
{
    let mut r: Vec<TransformOp> = Vec::new();
    let mut i: usize = 0;
    while i < ops.len()
        invariant
            i <= ops@.len(),
            r@ == ops@.take(i as int),
        decreases ops@.len() - i,
    {
        r.push(ops[i]);
        i = i + 1;
        proof {
            assert(r@ =~= ops@.take(i as int));
        }
    }
    proof {
        assert(ops@.take(ops@.len() as int) =~= ops@);
    }
    r
}

} // verus!
