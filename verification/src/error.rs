use vstd::prelude::*;

verus! {

/// The stages at which the pipeline can fail.  Every failure is fatal for
/// the run: there is no retry and no degraded mode, so a caller that sees
/// any of these reports the stage and stops.
#[derive(Clone, Copy, Debug, PartialEq, Eq, Structural)]
pub enum PipelineError {
    /// The platform refused to create the native window.
    WindowCreationFailed,
    /// The platform refused to bind a graphics context to the thread.
    ContextBindFailed,
    /// The surface allocator refused the request (zero-sized description,
    /// context not current, or the platform allocator failed).
    SurfaceAllocationFailed,
    /// The codec could not encode the snapshot.
    EncodeFailed,
    /// Creating the target directory or writing the file failed.
    IoFailed,
}

impl PipelineError {
    /// A short human-readable report of which stage failed.
    pub fn message(&self) -> (r: String)
        ensures
            *self is WindowCreationFailed ==> r@ == "window creation failed"@,
            *self is ContextBindFailed ==> r@ == "context bind failed"@,
            *self is SurfaceAllocationFailed ==> r@ == "surface allocation failed"@,
            *self is EncodeFailed ==> r@ == "encode failed"@,
            *self is IoFailed ==> r@ == "io failed"@,
    {
        match self {
            PipelineError::WindowCreationFailed => "window creation failed".to_string(),
            PipelineError::ContextBindFailed => "context bind failed".to_string(),
            PipelineError::SurfaceAllocationFailed => "surface allocation failed".to_string(),
            PipelineError::EncodeFailed => "encode failed".to_string(),
            PipelineError::IoFailed => "io failed".to_string(),
        }
    }
}

} // verus!
