//! A scalar-multiply accelerator front end.
//!
//! Producers stage writes into a shared source buffer under region-exclusive
//! guards, committed writes are flushed to the device-resident buffer, and one
//! kernel pass multiplies every element by a coefficient into a result buffer
//! that is finally copied back to host memory.
//!
//! The crate keeps the whole protocol on plain values: buffers are vectors of
//! `i32`, regions are index ranges, and what an accelerator reports about
//! itself arrives as a [`DeviceConfig`]. Every function carries a contract
//! over sequences and regions, and the rules that hold across functions are
//! stated as proof functions beside them.
//!
//! - [`region`]: index ranges and when two of them overlap.
//! - [`buffer`]: device buffers and the elementwise product.
//! - [`surface`]: the write surface with its guards and pending transfers.
//! - [`kernel`]: the device resources and the dispatch of the multiply.
//! - [`orchestrator`]: the stages of a run, each with the steps it admits.
//! - [`pipeline`]: a whole run from a list of writes to the result.
//! - [`report`]: the text layout of device information.
//!
//! Nothing here waits or talks to a device. A caller that shares a stage
//! between threads waits by itself when a guard is not granted at once, and a
//! caller that drives a real device performs each transfer and dispatch after
//! the step that admits it.

pub mod buffer;
pub mod error;
pub mod kernel;
pub mod orchestrator;
pub mod pipeline;
pub mod region;
pub mod report;
pub mod surface;

pub use buffer::{DeviceBuffer, MemAccess};
pub use error::PipelineError;
pub use kernel::{CommandQueue, DeviceConfig, MultiplyKernel, ParamKind, PendingCompute};
pub use orchestrator::{
    CompleteStage, FlushStage, IdleStage, PipelineState, QueuedStage, ReadStage, WriteStage,
};
pub use pipeline::{run_pipeline, PipelineReport, WriteJob};
pub use region::Region;
pub use surface::{Acquisition, PendingFlush, WriteGuard, WriteSurface};
