use vstd::prelude::*;

use crate::error::PipelineError;

verus! {

/// Where a single render-then-export pass stands.  The pipeline is
/// one-shot: it advances stage by stage, and the first failure is final.
#[derive(Clone, Copy, Debug, PartialEq, Eq, Structural)]
pub enum PipelineStage {
    Init,
    WindowReady,
    ContextReady,
    SurfaceReady,
    Drawn,
    Flushed,
    Snapshotted,
    Encoded,
    Done,
    Failed(PipelineError),
}

/// What the driver must do next for a given stage.
#[derive(Clone, Copy, Debug, PartialEq, Eq, Structural)]
pub enum PipelineAction {
    CreateWindow,
    BindContext,
    AllocateSurface,
    Draw,
    Flush,
    Snapshot,
    Encode,
    Write,
    Stop,
}

/// What the driver reports back after attempting an action.
#[derive(Clone, Copy, Debug, PartialEq, Eq, Structural)]
pub enum PlatformEvent {
    WindowCreated,
    WindowRejected,
    ContextBound,
    ContextRejected,
    SurfaceAllocated,
    SurfaceRejected,
    DrawIssued,
    FlushCompleted,
    SnapshotTaken,
    EncodeProduced,
    EncodeRejected,
    BytesWritten,
    WriteRejected,
}

/// The action owed at each stage: the pipeline's fixed order.  A failed
/// or finished pipeline asks for nothing more.
pub open spec fn action_of(s: PipelineStage) -> PipelineAction {
    match s {
        PipelineStage::Init => PipelineAction::CreateWindow,
        PipelineStage::WindowReady => PipelineAction::BindContext,
        PipelineStage::ContextReady => PipelineAction::AllocateSurface,
        PipelineStage::SurfaceReady => PipelineAction::Draw,
        PipelineStage::Drawn => PipelineAction::Flush,
        PipelineStage::Flushed => PipelineAction::Snapshot,
        PipelineStage::Snapshotted => PipelineAction::Encode,
        PipelineStage::Encoded => PipelineAction::Write,
        PipelineStage::Done => PipelineAction::Stop,
        PipelineStage::Failed(_) => PipelineAction::Stop,
    }
}

/// How the pipeline advances: the event answering the stage's action moves
/// to the next stage; the corresponding refusal fails the run with that
/// stage's error; any other event is not an answer to what was asked and
/// leaves the stage unchanged.  A failed stage absorbs every event.
pub open spec fn step_spec(s: PipelineStage, e: PlatformEvent) -> PipelineStage {
    match (s, e) {
        (PipelineStage::Init, PlatformEvent::WindowCreated) => PipelineStage::WindowReady,
        (PipelineStage::Init, PlatformEvent::WindowRejected) => PipelineStage::Failed(
            PipelineError::WindowCreationFailed,
        ),
        (PipelineStage::WindowReady, PlatformEvent::ContextBound) => PipelineStage::ContextReady,
        (PipelineStage::WindowReady, PlatformEvent::ContextRejected) => PipelineStage::Failed(
            PipelineError::ContextBindFailed,
        ),
        (PipelineStage::ContextReady, PlatformEvent::SurfaceAllocated) => PipelineStage::SurfaceReady,
        (PipelineStage::ContextReady, PlatformEvent::SurfaceRejected) => PipelineStage::Failed(
            PipelineError::SurfaceAllocationFailed,
        ),
        (PipelineStage::SurfaceReady, PlatformEvent::DrawIssued) => PipelineStage::Drawn,
        (PipelineStage::Drawn, PlatformEvent::FlushCompleted) => PipelineStage::Flushed,
        (PipelineStage::Flushed, PlatformEvent::SnapshotTaken) => PipelineStage::Snapshotted,
        (PipelineStage::Snapshotted, PlatformEvent::EncodeProduced) => PipelineStage::Encoded,
        (PipelineStage::Snapshotted, PlatformEvent::EncodeRejected) => PipelineStage::Failed(
            PipelineError::EncodeFailed,
        ),
        (PipelineStage::Encoded, PlatformEvent::BytesWritten) => PipelineStage::Done,
        (PipelineStage::Encoded, PlatformEvent::WriteRejected) => PipelineStage::Failed(
            PipelineError::IoFailed,
        ),
        _ => s,
    }
}

/// The action owed at a stage, as the driver calls it.
pub fn next_action(s: &PipelineStage) -> (a: PipelineAction)
    ensures
        a == action_of(*s),
{
    match s {
        PipelineStage::Init => PipelineAction::CreateWindow,
        PipelineStage::WindowReady => PipelineAction::BindContext,
        PipelineStage::ContextReady => PipelineAction::AllocateSurface,
        PipelineStage::SurfaceReady => PipelineAction::Draw,
        PipelineStage::Drawn => PipelineAction::Flush,
        PipelineStage::Flushed => PipelineAction::Snapshot,
        PipelineStage::Snapshotted => PipelineAction::Encode,
        PipelineStage::Encoded => PipelineAction::Write,
        PipelineStage::Done => PipelineAction::Stop,
        PipelineStage::Failed(_) => PipelineAction::Stop,
    }
}

/// Advances the pipeline on one event, exactly as `step_spec` says.
pub fn step(s: PipelineStage, e: PlatformEvent) -> (r: PipelineStage)
    ensures
        r == step_spec(s, e),
{
    match (s, e) {
        (PipelineStage::Init, PlatformEvent::WindowCreated) => PipelineStage::WindowReady,
        (PipelineStage::Init, PlatformEvent::WindowRejected) => PipelineStage::Failed(
            PipelineError::WindowCreationFailed,
        ),
        (PipelineStage::WindowReady, PlatformEvent::ContextBound) => PipelineStage::ContextReady,
        (PipelineStage::WindowReady, PlatformEvent::ContextRejected) => PipelineStage::Failed(
            PipelineError::ContextBindFailed,
        ),
        (PipelineStage::ContextReady, PlatformEvent::SurfaceAllocated) => PipelineStage::SurfaceReady,
        (PipelineStage::ContextReady, PlatformEvent::SurfaceRejected) => PipelineStage::Failed(
            PipelineError::SurfaceAllocationFailed,
        ),
        (PipelineStage::SurfaceReady, PlatformEvent::DrawIssued) => PipelineStage::Drawn,
        (PipelineStage::Drawn, PlatformEvent::FlushCompleted) => PipelineStage::Flushed,
        (PipelineStage::Flushed, PlatformEvent::SnapshotTaken) => PipelineStage::Snapshotted,
        (PipelineStage::Snapshotted, PlatformEvent::EncodeProduced) => PipelineStage::Encoded,
        (PipelineStage::Snapshotted, PlatformEvent::EncodeRejected) => PipelineStage::Failed(
            PipelineError::EncodeFailed,
        ),
        (PipelineStage::Encoded, PlatformEvent::BytesWritten) => PipelineStage::Done,
        (PipelineStage::Encoded, PlatformEvent::WriteRejected) => PipelineStage::Failed(
            PipelineError::IoFailed,
        ),
        _ => s,
    }
}

/// Failure is fatal: a failed pipeline stays failed, with the same error,
/// whatever else the driver reports.
pub proof fn lemma_failure_is_fatal(err: PipelineError, e: PlatformEvent)
    ensures
        step_spec(PipelineStage::Failed(err), e) == PipelineStage::Failed(err),
{
}

/// A snapshot is taken only once the flush has completed: the stage after
/// which the driver snapshots is reached from the flushed stage alone.
pub proof fn lemma_snapshot_needs_flush(s: PipelineStage, e: PlatformEvent)
    ensures
        step_spec(s, e) is Snapshotted ==> (s is Flushed && e is SnapshotTaken) || s is Snapshotted,
{
}

/// The stage after a whole sequence of driver events.
pub open spec fn run_stages(s: PipelineStage, events: Seq<PlatformEvent>) -> PipelineStage
    decreases events.len(),
{
    if events.len() == 0 {
        s
    } else {
        step_spec(run_stages(s, events.drop_last()), events.last())
    }
}

/// Over any whole run from the start, the pipeline stands at the snapshot
/// stage only if, at the moment the snapshot was reported, the flush had
/// completed: there is no run that reads the surface back without it.
pub proof fn lemma_run_snapshots_after_flush(events: Seq<PlatformEvent>)
    ensures
        run_stages(PipelineStage::Init, events) is Snapshotted ==> exists|i: int|
            0 <= i < events.len() && run_stages(PipelineStage::Init, #[trigger] events.take(i))
                is Flushed && events[i] is SnapshotTaken,
    decreases events.len(),
{
    if events.len() == 0 {
        // The starting stage is not the snapshot stage.
    } else if run_stages(PipelineStage::Init, events) is Snapshotted {
        let n = events.len() as int;
        let prev = run_stages(PipelineStage::Init, events.drop_last());
        lemma_snapshot_needs_flush(prev, events.last());
        if prev is Flushed && events.last() is SnapshotTaken {
            assert(events.take(n - 1) =~= events.drop_last());
            assert(run_stages(PipelineStage::Init, events.take(n - 1)) is Flushed);
            assert(events[n - 1] is SnapshotTaken);
        } else {
            lemma_run_snapshots_after_flush(events.drop_last());
            let w = choose|i: int|
                0 <= i < events.drop_last().len() && run_stages(
                    PipelineStage::Init,
                    #[trigger] events.drop_last().take(i),
                ) is Flushed && events.drop_last()[i] is SnapshotTaken;
            assert(events.drop_last().take(w) =~= events.take(w));
            assert(run_stages(PipelineStage::Init, events.take(w)) is Flushed);
            assert(events[w] is SnapshotTaken);
        }
    }
}

} // verus!
