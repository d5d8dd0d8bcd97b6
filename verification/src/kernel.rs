//! The device resources of the multiply and the dispatch of its kernel.
//!
//! What a device can do is not found out here: it arrives as a
//! [`DeviceConfig`], and every refusal is decided from it and from the state
//! of the resources.

use vstd::prelude::*;
use crate::buffer::{scaled, zeros, DeviceBuffer, MemAccess};
use crate::error::PipelineError;
use crate::surface::{SurfaceView, WriteSurface};

verus! {

/// The kind of one kernel parameter.
#[derive(Clone, Copy, Debug, PartialEq, Eq, Structural)]
pub enum ParamKind {
    /// A value passed by itself, such as the coefficient.
    Scalar,
    /// A buffer on the device.
    Buffer,
}

/// The name of the kernel function in the kernel source.
pub const KERNEL_NAME: &'static str = "multiply_by_scalar";

/// The kernel source: one function that takes the coefficient, the source
/// buffer and the result buffer, in this order, and stores the scaled copy of
/// the source in the result.
pub const KERNEL_SOURCE: &'static str =
    "__kernel void multiply_by_scalar(\n    __private int const coeff,\n    __global int const* const src,\n    __global int* const res)\n{\n    uint const idx = get_global_id(0);\n    res[idx] = src[idx] * coeff;\n}\n";

/// The parameters that the multiply binds, in order: the coefficient, the
/// source buffer and the result buffer.
pub open spec fn expected_params() -> Seq<ParamKind> {
    seq![ParamKind::Scalar, ParamKind::Buffer, ParamKind::Buffer]
}

/// What is known of the compute device and of the kernel built for it.
#[derive(Debug)]
pub struct DeviceConfig {
    /// The number of compute devices that can be acquired.
    pub devices: usize,
    /// The most elements that the device puts into one buffer.
    pub max_buffer_len: usize,
    /// The parameters of the kernel as built, or `None` where the kernel
    /// source does not build.
    pub kernel_params: Option<Vec<ParamKind>>,
    /// The number of dispatches that the device queue holds at a time.
    pub queue_depth: usize,
}

/// The reason for which no kernel can be created for `work_size` elements on
/// the device that `config` describes, if there is one. The device is
/// acquired first, the kernel is built next, the buffers are created last,
/// and the first step that fails gives the reason.
pub open spec fn create_refusal(
    config: DeviceConfig,
    work_size: usize,
    vec_source: Option<Seq<i32>>,
) -> Option<PipelineError> {
    if config.devices == 0 {
        Some(PipelineError::DeviceUnavailable)
    } else if config.kernel_params is None {
        Some(PipelineError::CompileFailed)
    } else if work_size == 0 || work_size > config.max_buffer_len {
        Some(PipelineError::AllocationFailed)
    } else if vec_source matches Some(s) && s.len() != work_size {
        Some(PipelineError::AllocationFailed)
    } else {
        None
    }
}

/// What the source buffer holds when it is created: the caller's data, or zeros.
pub open spec fn initial_contents(work_size: usize, vec_source: Option<Seq<i32>>) -> Seq<i32> {
    match vec_source {
        Some(s) => s,
        None => zeros(work_size as nat),
    }
}

/// The device resources as they are created: the source buffer holds its
/// first contents on both sides, the result buffer holds zeros, kernels may
/// read and write both buffers, no guard is live and nothing is in flight.
pub open spec fn created(config: DeviceConfig, work_size: usize, vec_source: Option<Seq<i32>>) -> KernelView {
    KernelView {
        surface: SurfaceView {
            staged: initial_contents(work_size, vec_source),
            flushed: initial_contents(work_size, vec_source),
            live: Seq::empty(),
            pending: Seq::empty(),
        },
        source_access: MemAccess::ReadWrite,
        result: zeros(work_size as nat),
        result_access: MemAccess::ReadWrite,
        queue: QueueView {
            params: config.kernel_params->Some_0@,
            depth: config.queue_depth as nat,
            in_flight: 0,
        },
    }
}

/// The handle of one dispatch of the multiply kernel as plain values.
pub struct ComputeView {
    /// The coefficient the dispatch multiplies by.
    pub coeff: i32,
    /// Whether the dispatch is known to have run to its end.
    pub complete: bool,
}

/// The handle of one dispatch of the multiply kernel.
#[derive(Debug)]
pub struct PendingCompute {
    coeff: i32,
    complete: bool,
}

impl View for PendingCompute {
    type V = ComputeView;

    closed spec fn view(&self) -> ComputeView {
        ComputeView { coeff: self.coeff, complete: self.complete }
    }
}

/// The command queue of the device as plain values.
pub struct QueueView {
    /// The parameters of the kernel as built.
    pub params: Seq<ParamKind>,
    /// The number of dispatches that the queue holds at a time.
    pub depth: nat,
    /// The number of dispatches that were accepted and not yet waited for.
    pub in_flight: nat,
}

/// The command queue of the device, with the kernel that was built once for
/// all dispatches.
#[derive(Debug)]
pub struct CommandQueue {
    params: Vec<ParamKind>,
    depth: usize,
    in_flight: usize,
}

impl View for CommandQueue {
    type V = QueueView;

    closed spec fn view(&self) -> QueueView {
        QueueView {
            params: self.params@,
            depth: self.depth as nat,
            in_flight: self.in_flight as nat,
        }
    }
}

impl CommandQueue {
    /// A queue never holds more dispatches than its depth.
    pub open spec fn wf(&self) -> bool {
        self@.in_flight <= self@.depth
    }

    /// The number of dispatches that were accepted and not yet waited for.
    pub fn in_flight(&self) -> (n: usize)
        ensures
            n == self@.in_flight,
    {
        self.in_flight
    }

    /// The number of dispatches that the queue holds at a time.
    pub fn depth(&self) -> (n: usize)
        ensures
            n == self@.depth,
    {
        self.depth
    }
}

/// The device resources of the scalar multiply: the write surface with the
/// source buffer behind it, the result buffer, and the command queue.
#[derive(Debug)]
pub struct MultiplyKernel {
    /// The gateway for writes to the source buffer.
    pub buffer_sink: WriteSurface,
    /// The buffer that a dispatch fills with the scaled copy of the source.
    pub result_buffer: DeviceBuffer,
    /// The queue that takes the dispatches.
    pub queue: CommandQueue,
}

/// The device resources as plain values.
pub struct KernelView {
    /// The write surface, with the source buffer behind it.
    pub surface: SurfaceView,
    /// How kernels may use the source buffer.
    pub source_access: MemAccess,
    /// The result buffer.
    pub result: Seq<i32>,
    /// How kernels may use the result buffer.
    pub result_access: MemAccess,
    /// The command queue.
    pub queue: QueueView,
}

impl KernelView {
    /// The invariant of the handle: the surface is well formed, the queue
    /// holds no more than its depth, and both buffers have one length.
    pub open spec fn wf(self) -> bool {
        &&& self.surface.wf()
        &&& self.queue.in_flight <= self.queue.depth
        &&& self.result.len() == self.surface.len()
    }

    /// The reason for which a dispatch is refused in this state, if there is
    /// one: a committed write still in flight, a kernel that does not take
    /// the coefficient and the two buffers, or a full queue, in this order.
    pub open spec fn dispatch_refusal(self) -> Option<PipelineError> {
        if !self.surface.synced() {
            Some(PipelineError::UseBeforeFlush)
        } else if self.queue.params != expected_params() {
            Some(PipelineError::KernelArgMismatch)
        } else if self.queue.in_flight >= self.queue.depth {
            Some(PipelineError::EnqueueFailed)
        } else {
            None
        }
    }

    /// The handle after a dispatch with `coeff` was accepted: the result is
    /// the scaled copy of the source as the device holds it, and the queue
    /// holds one dispatch more.
    pub open spec fn dispatch(self, coeff: i32) -> KernelView {
        KernelView {
            result: scaled(self.surface.flushed, coeff),
            queue: QueueView { in_flight: self.queue.in_flight + 1, ..self.queue },
            ..self
        }
    }
}

/// A dispatch is refused for a write in flight exactly while a committed
/// write is in flight, whatever else holds of the kernel and the queue.
pub proof fn lemma_dispatch_waits_for_flushes(kernel: KernelView)
    ensures
        kernel.dispatch_refusal() == Some(PipelineError::UseBeforeFlush)
            <==> kernel.surface.pending.len() > 0,
{
}

impl View for MultiplyKernel {
    type V = KernelView;

    open spec fn view(&self) -> KernelView {
        KernelView {
            surface: self.buffer_sink@,
            source_access: self.buffer_sink.source_access(),
            result: self.result_buffer@,
            result_access: self.result_buffer.access_flags(),
            queue: self.queue@,
        }
    }
}

impl MultiplyKernel {
    /// The invariant of the handle, stated on its view.
    pub open spec fn wf(&self) -> bool {
        self@.wf()
    }

    /// Sets up the device side for buffers of `work_size` elements.
    ///
    /// This fails with `DeviceUnavailable` when `config` offers no device,
    /// with `CompileFailed` when the kernel did not build, and with
    /// `AllocationFailed` when `work_size` is zero or more than the device
    /// puts into one buffer, or when `vec_source` is given and has another
    /// length. Otherwise the source buffer holds `vec_source`, or zeros where
    /// none is given, the result buffer holds zeros, no guard is live and
    /// nothing is in flight.
    pub fn create(config: &DeviceConfig, work_size: usize, vec_source: Option<&Vec<i32>>) -> (r:
        Result<MultiplyKernel, PipelineError>)
        ensures
            match create_refusal(*config, work_size, source_view(vec_source)) {
                Some(e) => r == Err::<MultiplyKernel, PipelineError>(e),
                None => {
                    &&& r matches Ok(kernel)
                    &&& kernel.wf()
                    &&& kernel@ == created(*config, work_size, source_view(vec_source))
                },
            },
    {
        if config.devices == 0 {
            return Err(PipelineError::DeviceUnavailable);
        }
        let params = match &config.kernel_params {
            None => {
                return Err(PipelineError::CompileFailed);
            },
            Some(built) => copy_params(built),
        };
        if work_size == 0 || work_size > config.max_buffer_len {
            return Err(PipelineError::AllocationFailed);
        }
        let buffer_sink = match vec_source {
            Some(source) => {
                if source.len() != work_size {
                    return Err(PipelineError::AllocationFailed);
                }
                WriteSurface::new(source.as_slice())
            },
            None => {
                let blank = DeviceBuffer::zeroed(work_size);
                WriteSurface::from_buffer(blank)
            },
        };
        let result_buffer = DeviceBuffer::zeroed(work_size);
        let queue = CommandQueue { params, depth: config.queue_depth, in_flight: 0 };
        Ok(MultiplyKernel { buffer_sink, result_buffer, queue })
    }

    /// The number of elements of each buffer.
    pub fn work_size(&self) -> (n: usize)
        ensures
            n == self.buffer_sink@.len(),
    {
        self.buffer_sink.len()
    }

    /// Dispatches the kernel once: every element of the result buffer
    /// becomes the wrapped product of the source element and `coeff`.
    ///
    /// The dispatch is refused with `UseBeforeFlush` while a committed write
    /// is still in flight, else with `KernelArgMismatch` when the kernel as
    /// built does not take a scalar and two buffers, else with
    /// `EnqueueFailed` when the queue already holds as many dispatches as it
    /// can. A refused dispatch changes nothing. The source is read as the
    /// device holds it: what a live guard has not committed is not seen.
    pub fn multiply(&mut self, coeff: i32) -> (r: Result<PendingCompute, PipelineError>)
        requires
            old(self).wf(),
        ensures
            final(self).wf(),
            match old(self)@.dispatch_refusal() {
                Some(e) => {
                    &&& r == Err::<PendingCompute, PipelineError>(e)
                    &&& final(self)@ == old(self)@
                },
                None => {
                    &&& r matches Ok(pending)
                    &&& pending@ == (ComputeView { coeff, complete: false })
                    &&& final(self)@ == old(self)@.dispatch(coeff)
                },
            },
    {
        if !self.buffer_sink.is_synced() {
            return Err(PipelineError::UseBeforeFlush);
        }
        if !takes_expected(&self.queue.params) {
            return Err(PipelineError::KernelArgMismatch);
        }
        if self.queue.in_flight >= self.queue.depth {
            return Err(PipelineError::EnqueueFailed);
        }
        self.result_buffer.fill_scaled(self.buffer_sink.source(), coeff);
        self.queue.in_flight = self.queue.in_flight + 1;
        Ok(PendingCompute { coeff, complete: false })
    }
}

impl PendingCompute {
    /// The coefficient the dispatch multiplies by.
    pub fn coeff(&self) -> (c: i32)
        ensures
            c == self@.coeff,
    {
        self.coeff
    }

    /// Whether the dispatch is known to have run to its end.
    pub fn is_complete(&self) -> (b: bool)
        ensures
            b == self@.complete,
    {
        self.complete
    }

    /// Sees the dispatch through and gives its place in the queue back.
    /// Waiting again finds nothing left to do.
    pub fn wait(&mut self, queue: &mut CommandQueue)
        requires
            old(queue).wf(),
        ensures
            final(queue).wf(),
            final(self)@ == (ComputeView { coeff: old(self)@.coeff, complete: true }),
            final(queue)@ == (QueueView {
                in_flight: if !old(self)@.complete && old(queue)@.in_flight > 0 {
                    (old(queue)@.in_flight - 1) as nat
                } else {
                    old(queue)@.in_flight
                },
                ..old(queue)@
            }),
    {
        if !self.complete {
            self.complete = true;
            if queue.in_flight > 0 {
                queue.in_flight = queue.in_flight - 1;
            }
        }
    }
}

/// The view of the caller's source data, where there is any.
pub open spec fn source_view(vec_source: Option<&Vec<i32>>) -> Option<Seq<i32>> {
    match vec_source {
        Some(v) => Some(v@),
        None => None,
    }
}

/// A copy of the parameter list.
fn copy_params(params: &Vec<ParamKind>) -> (v: Vec<ParamKind>)
    ensures
        v@ == params@,
{
    let mut v: Vec<ParamKind> = Vec::new();
    let mut i: usize = 0;
    while i < params.len()
        invariant
            i <= params@.len(),
            v@ == params@.subrange(0, i as int),
        decreases params@.len() - i,
    {
        v.push(params[i]);
        i = i + 1;
    }
    assert(params@.subrange(0, params@.len() as int) == params@);
    v
}

/// Whether the parameters are a scalar followed by two buffers.
fn takes_expected(params: &Vec<ParamKind>) -> (b: bool)
    ensures
        b == (params@ == expected_params()),
{
    if params.len() != 3 {
        return false;
    }
    let first = matches!(params[0], ParamKind::Scalar);
    let second = matches!(params[1], ParamKind::Buffer);
    let third = matches!(params[2], ParamKind::Buffer);
    proof {
        if first && second && third {
            assert(params@ =~= expected_params());
        }
    }
    first && second && third
}

} // verus!
