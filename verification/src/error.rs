//! The errors of the pipeline.

use vstd::prelude::*;

verus! {

/// The reasons for which a pipeline operation ends without a result.
///
/// Every one of them is terminal for the operation that raised it: nothing is
/// retried, and the state the operation worked on is left as it was.
#[derive(Clone, Copy, Debug, PartialEq, Eq, Structural)]
pub enum PipelineError {
    /// No compute device could be acquired.
    DeviceUnavailable,
    /// The device refused to create a buffer.
    AllocationFailed,
    /// The kernel source did not build.
    CompileFailed,
    /// A region, or an offset into one, reaches past the end of its buffer.
    RegionOutOfBounds,
    /// The guard was committed before, or is not live on the surface.
    GuardAlreadyReleased,
    /// A compute pass was requested while a committed write was still in flight.
    UseBeforeFlush,
    /// The built kernel does not take the arguments that the multiply binds.
    KernelArgMismatch,
    /// The device queue rejected the dispatch.
    EnqueueFailed,
    /// A host array does not have the length of the buffer it is copied with.
    LengthMismatch,
}

impl PipelineError {
    /// The error in words, as it is shown to a user.
    pub open spec fn message_text(self) -> Seq<char> {
        match self {
            PipelineError::DeviceUnavailable => "no compute device could be acquired"@,
            PipelineError::AllocationFailed => "the device refused to create a buffer"@,
            PipelineError::CompileFailed => "the kernel source did not build"@,
            PipelineError::RegionOutOfBounds => "the region reaches past the end of the buffer"@,
            PipelineError::GuardAlreadyReleased => "the guard was released before"@,
            PipelineError::UseBeforeFlush => "a committed write is still in flight"@,
            PipelineError::KernelArgMismatch => "the arguments do not match the kernel as built"@,
            PipelineError::EnqueueFailed => "the device queue rejected the dispatch"@,
            PipelineError::LengthMismatch => "the host array has another length than the buffer"@,
        }
    }

    /// The error in words, as it is shown to a user.
    pub fn message(&self) -> (s: &'static str)
        ensures
            s@ == self.message_text(),
    {
        match self {
            PipelineError::DeviceUnavailable => "no compute device could be acquired",
            PipelineError::AllocationFailed => "the device refused to create a buffer",
            PipelineError::CompileFailed => "the kernel source did not build",
            PipelineError::RegionOutOfBounds => "the region reaches past the end of the buffer",
            PipelineError::GuardAlreadyReleased => "the guard was released before",
            PipelineError::UseBeforeFlush => "a committed write is still in flight",
            PipelineError::KernelArgMismatch => "the arguments do not match the kernel as built",
            PipelineError::EnqueueFailed => "the device queue rejected the dispatch",
            PipelineError::LengthMismatch => "the host array has another length than the buffer",
        }
    }
}

} // verus!
