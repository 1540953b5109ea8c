//! How a failure is reported to the derivation pipeline.
use vstd::prelude::*;

verus! {

/// What went wrong in a stage of the pipeline.
#[derive(Clone, Debug, PartialEq, Eq)]
pub enum PipelineError {
    /// There is no more data for this stage.
    Eof,
    /// A provider failed; the text says how.
    Provider(String),
}

/// What the driver is to do about an error: try again, give up, or rewind.
#[derive(Clone, Debug, PartialEq, Eq)]
pub enum PipelineErrorKind {
    /// The step can be tried again.
    Temporary(PipelineError),
    /// The derivation attempt cannot go on.
    Critical(PipelineError),
    /// The pipeline has to be reset before it goes on.
    Reset(PipelineError),
}

impl PipelineErrorKind {
    /// Whether the driver may try the step again.
    pub fn is_temporary(&self) -> (r: bool)
        ensures
            r == (self is Temporary),
    {
        match self {
            PipelineErrorKind::Temporary(_) => true,
            _ => false,
        }
    }

    /// Whether the derivation attempt has to be given up.
    pub fn is_critical(&self) -> (r: bool)
        ensures
            r == (self is Critical),
    {
        match self {
            PipelineErrorKind::Critical(_) => true,
            _ => false,
        }
    }

    /// Whether the pipeline has to be reset.
    pub fn is_reset(&self) -> (r: bool)
        ensures
            r == (self is Reset),
    {
        match self {
            PipelineErrorKind::Reset(_) => true,
            _ => false,
        }
    }
}

} // verus!
