//! The stages of a pipeline run.
//!
//! A run passes `Idle`, `WritesInFlight`, `FlushesPending`, `ComputeQueued`,
//! `ComputeComplete` and `ResultsRead` in this order. Each stage is a type of
//! its own that offers the steps of that stage and no others, and a step
//! that leaves the stage takes it by value and gives the next one back: a
//! run cannot skip a stage, go back, or dispatch the multiply while a
//! producer still holds a guard.

use vstd::prelude::*;
use crate::buffer::{product, scaled};
use crate::error::PipelineError;
use crate::kernel::{
    create_refusal, created, source_view, DeviceConfig, KernelView, MultiplyKernel,
    PendingCompute, QueueView,
};
use crate::region::Region;
use crate::surface::{
    clear_of, lemma_synced_surface_agrees, write_fault, Acquisition, FlushView, GuardView,
    PendingFlush, WriteGuard,
};

verus! {

/// The stages of one pipeline run, in the order in which a run passes them.
#[derive(Clone, Copy, Debug, PartialEq, Eq, Structural)]
pub enum PipelineState {
    /// Nothing was written yet.
    Idle,
    /// Producers are writing through their guards.
    WritesInFlight,
    /// Every producer has committed; transfers to the device are awaited.
    FlushesPending,
    /// The multiply was accepted by the device queue.
    ComputeQueued,
    /// The multiply ran to its end.
    ComputeComplete,
    /// The result buffer was copied back to host memory.
    ResultsRead,
}

impl PipelineState {
    /// The place of the stage in the order of a run, from 0 for `Idle`.
    pub open spec fn rank(self) -> int {
        match self {
            PipelineState::Idle => 0,
            PipelineState::WritesInFlight => 1,
            PipelineState::FlushesPending => 2,
            PipelineState::ComputeQueued => 3,
            PipelineState::ComputeComplete => 4,
            PipelineState::ResultsRead => 5,
        }
    }

    /// The one stage that may follow this one, if any does.
    pub open spec fn successor(self) -> Option<PipelineState> {
        match self {
            PipelineState::Idle => Some(PipelineState::WritesInFlight),
            PipelineState::WritesInFlight => Some(PipelineState::FlushesPending),
            PipelineState::FlushesPending => Some(PipelineState::ComputeQueued),
            PipelineState::ComputeQueued => Some(PipelineState::ComputeComplete),
            PipelineState::ComputeComplete => Some(PipelineState::ResultsRead),
            PipelineState::ResultsRead => None,
        }
    }

    /// The one stage that may follow this one, if any does.
    pub fn next(&self) -> (r: Option<PipelineState>)
        ensures
            r == self.successor(),
    {
        match self {
            PipelineState::Idle => Some(PipelineState::WritesInFlight),
            PipelineState::WritesInFlight => Some(PipelineState::FlushesPending),
            PipelineState::FlushesPending => Some(PipelineState::ComputeQueued),
            PipelineState::ComputeQueued => Some(PipelineState::ComputeComplete),
            PipelineState::ComputeComplete => Some(PipelineState::ResultsRead),
            PipelineState::ResultsRead => None,
        }
    }
}

/// A stage is followed by the stage of the next rank and by no other, so no
/// stage is ever skipped or passed twice.
pub proof fn lemma_stages_in_order(from: PipelineState, to: PipelineState)
    ensures
        from.successor() == Some(to) <==> to.rank() == from.rank() + 1,
        from.successor() is None <==> from == PipelineState::ResultsRead,
{
}

/// The stage in which nothing was written yet.
#[derive(Debug)]
pub struct IdleStage {
    kernel: MultiplyKernel,
}

/// The stage in which producers write through their guards.
#[derive(Debug)]
pub struct WriteStage {
    kernel: MultiplyKernel,
}

/// The stage in which every producer has committed and the transfers to the
/// device are awaited.
#[derive(Debug)]
pub struct FlushStage {
    kernel: MultiplyKernel,
}

/// The stage in which the device queue holds the multiply.
#[derive(Debug)]
pub struct QueuedStage {
    kernel: MultiplyKernel,
    pending: PendingCompute,
}

/// The stage in which the multiply has run to its end.
#[derive(Debug)]
pub struct CompleteStage {
    kernel: MultiplyKernel,
    coeff: i32,
}

/// The stage in which the result was copied back to host memory.
#[derive(Debug)]
pub struct ReadStage {
    kernel: MultiplyKernel,
    coeff: i32,
}

/// A stage after the dispatch as plain values.
pub struct ComputedView {
    /// The device resources.
    pub kernel: KernelView,
    /// The coefficient of the dispatch.
    pub coeff: i32,
}

impl ComputedView {
    /// What holds from the dispatch on: no guard is live, nothing that was
    /// committed is in flight, and the result buffer holds the scaled copy of
    /// everything that was written.
    pub open spec fn wf(self) -> bool {
        &&& self.kernel.wf()
        &&& self.kernel.surface.live.len() == 0
        &&& self.kernel.surface.synced()
        &&& self.kernel.result == scaled(self.kernel.surface.staged, self.coeff)
    }
}

/// From the dispatch on, every element of the result buffer is the wrapped
/// product of the coefficient and the element that the producers left at its
/// index, in whatever order they wrote, and the device holds what they left.
pub proof fn lemma_result_follows_writes(v: ComputedView)
    requires
        v.wf(),
    ensures
        v.kernel.surface.flushed == v.kernel.surface.staged,
        v.kernel.result.len() == v.kernel.surface.staged.len(),
        forall|i: int|
            0 <= i < v.kernel.result.len() ==> #[trigger] v.kernel.result[i] == product(
                v.kernel.surface.staged[i],
                v.coeff,
            ),
{
    lemma_synced_surface_agrees(v.kernel.surface);
}

impl View for IdleStage {
    type V = KernelView;

    closed spec fn view(&self) -> KernelView {
        self.kernel@
    }
}

impl View for WriteStage {
    type V = KernelView;

    closed spec fn view(&self) -> KernelView {
        self.kernel@
    }
}

impl View for FlushStage {
    type V = KernelView;

    closed spec fn view(&self) -> KernelView {
        self.kernel@
    }
}

impl View for QueuedStage {
    type V = ComputedView;

    closed spec fn view(&self) -> ComputedView {
        ComputedView { kernel: self.kernel@, coeff: self.pending@.coeff }
    }
}

impl View for CompleteStage {
    type V = ComputedView;

    closed spec fn view(&self) -> ComputedView {
        ComputedView { kernel: self.kernel@, coeff: self.coeff }
    }
}

impl View for ReadStage {
    type V = ComputedView;

    closed spec fn view(&self) -> ComputedView {
        ComputedView { kernel: self.kernel@, coeff: self.coeff }
    }
}

impl IdleStage {
    /// Before the first write no guard is live and nothing is in flight.
    pub open spec fn wf(&self) -> bool {
        &&& self@.wf()
        &&& self@.surface.live.len() == 0
        &&& self@.surface.synced()
        &&& self@.queue.in_flight == 0
    }

    /// Sets up the device resources for a run over `work_size` elements, as
    /// `MultiplyKernel::create` does and with its errors.
    pub fn create(config: &DeviceConfig, work_size: usize, vec_source: Option<&Vec<i32>>) -> (r:
        Result<IdleStage, PipelineError>)
        ensures
            r is Ok <==> create_refusal(*config, work_size, source_view(vec_source)) is None,
            match r {
                Ok(stage) => stage.wf() && stage@ == created(
                    *config,
                    work_size,
                    source_view(vec_source),
                ),
                Err(e) => create_refusal(*config, work_size, source_view(vec_source)) == Some(e),
            },
    {
        match MultiplyKernel::create(config, work_size, vec_source) {
            Ok(kernel) => Ok(IdleStage { kernel }),
            Err(e) => Err(e),
        }
    }

    /// The stage of the run.
    pub fn state(&self) -> (s: PipelineState)
        ensures
            s == PipelineState::Idle,
    {
        PipelineState::Idle
    }

    /// The device resources.
    pub fn kernel(&self) -> (k: &MultiplyKernel)
        ensures
            k@ == self@,
    {
        &self.kernel
    }

    /// Opens the run for producers.
    pub fn begin_writes(self) -> (next: WriteStage)
        requires
            self.wf(),
        ensures
            next.wf(),
            next@ == self@,
    {
        WriteStage { kernel: self.kernel }
    }
}

impl WriteStage {
    /// While producers write, nothing was dispatched yet.
    pub open spec fn wf(&self) -> bool {
        &&& self@.wf()
        &&& self@.queue.in_flight == 0
    }

    /// The stage of the run.
    pub fn state(&self) -> (s: PipelineState)
        ensures
            s == PipelineState::WritesInFlight,
    {
        PipelineState::WritesInFlight
    }

    /// The device resources.
    pub fn kernel(&self) -> (k: &MultiplyKernel)
        ensures
            k@ == self@,
    {
        &self.kernel
    }

    /// Asks the write surface for exclusive access to `region`, as
    /// `WriteSurface::acquire_write` does.
    pub fn acquire_write(&mut self, region: Region) -> (r: Result<Acquisition, PipelineError>)
        requires
            old(self).wf(),
        ensures
            final(self).wf(),
            match r {
                Err(e) => {
                    &&& e == PipelineError::RegionOutOfBounds
                    &&& !region.within(old(self)@.surface.len())
                    &&& final(self)@ == old(self)@
                },
                Ok(Acquisition::MustWait) => {
                    &&& region.within(old(self)@.surface.len())
                    &&& !clear_of(old(self)@.surface.live, region)
                    &&& final(self)@ == old(self)@
                },
                Ok(Acquisition::Granted(guard)) => {
                    &&& old(self)@.surface.grants(region)
                    &&& final(self)@ == (KernelView {
                        surface: old(self)@.surface.acquire(region),
                        ..old(self)@
                    })
                    &&& guard.wf()
                    &&& guard@ == (GuardView {
                        region,
                        data: old(self)@.surface.staged.subrange(region.start as int, region.end()),
                        released: false,
                    })
                },
            },
    {
        self.kernel.buffer_sink.acquire_write(region)
    }

    /// Writes `data` over `region` in a single step, as
    /// `WriteSurface::write_region` does.
    pub fn write_region(&mut self, region: Region, data: &[i32]) -> (r: Result<
        Option<PendingFlush>,
        PipelineError,
    >)
        requires
            old(self).wf(),
        ensures
            final(self).wf(),
            match write_fault(region, data@, old(self)@.surface.len()) {
                Some(e) => r == Err::<Option<PendingFlush>, PipelineError>(e) && final(self)@
                    == old(self)@,
                None => if clear_of(old(self)@.surface.live, region) {
                    &&& r matches Ok(Some(flush))
                    &&& flush@ == (FlushView { region, confirmed: false })
                    &&& final(self)@ == (KernelView {
                        surface: old(self)@.surface.acquire(region).commit(region, data@),
                        ..old(self)@
                    })
                } else {
                    &&& r matches Ok(None)
                    &&& final(self)@ == old(self)@
                },
            },
    {
        self.kernel.buffer_sink.write_region(region, data)
    }

    /// Commits `guard` to the write surface, as `WriteGuard::commit` does.
    pub fn commit(&mut self, guard: &mut WriteGuard) -> (r: Result<PendingFlush, PipelineError>)
        requires
            old(self).wf(),
            old(guard).wf(),
        ensures
            final(self).wf(),
            final(guard).wf(),
            if old(guard)@.committable(old(self)@.surface) {
                &&& r matches Ok(flush)
                &&& flush@ == (FlushView { region: old(guard)@.region, confirmed: false })
                &&& final(guard)@ == old(guard)@.committed()
                &&& final(self)@ == (KernelView {
                    surface: old(self)@.surface.commit(old(guard)@.region, old(guard)@.data),
                    ..old(self)@
                })
            } else {
                &&& r == Err::<PendingFlush, PipelineError>(PipelineError::GuardAlreadyReleased)
                &&& final(guard)@ == old(guard)@
                &&& final(self)@ == old(self)@
            },
    {
        guard.commit(&mut self.kernel.buffer_sink)
    }

    /// Sees the transfer of a committed write through, as
    /// `PendingFlush::wait` does.
    pub fn wait_flush(&mut self, flush: &mut PendingFlush)
        requires
            old(self).wf(),
        ensures
            final(self).wf(),
            final(flush)@ == (FlushView { region: old(flush)@.region, confirmed: true }),
            final(self)@ == (KernelView {
                surface: if !old(flush)@.confirmed && old(self)@.surface.pending.contains(
                    old(flush)@.region,
                ) {
                    old(self)@.surface.confirm(old(flush)@.region)
                } else {
                    old(self)@.surface
                },
                ..old(self)@
            }),
    {
        flush.wait(&mut self.kernel.buffer_sink);
    }

    /// Closes the run for producers. This succeeds once no guard is live;
    /// while one is, the stage is handed back as it was.
    pub fn end_writes(self) -> (r: Result<FlushStage, WriteStage>)
        requires
            self.wf(),
        ensures
            match r {
                Ok(next) => self@.surface.live.len() == 0 && next.wf() && next@ == self@,
                Err(same) => self@.surface.live.len() > 0 && same.wf() && same@ == self@,
            },
    {
        if self.kernel.buffer_sink.live_guards() == 0 {
            Ok(FlushStage { kernel: self.kernel })
        } else {
            Err(self)
        }
    }
}

impl FlushStage {
    /// Once the producers are done no guard is live, and nothing was
    /// dispatched yet.
    pub open spec fn wf(&self) -> bool {
        &&& self@.wf()
        &&& self@.surface.live.len() == 0
        &&& self@.queue.in_flight == 0
    }

    /// The stage of the run.
    pub fn state(&self) -> (s: PipelineState)
        ensures
            s == PipelineState::FlushesPending,
    {
        PipelineState::FlushesPending
    }

    /// The device resources.
    pub fn kernel(&self) -> (k: &MultiplyKernel)
        ensures
            k@ == self@,
    {
        &self.kernel
    }

    /// Sees the transfer of a committed write through, as
    /// `PendingFlush::wait` does.
    pub fn wait_flush(&mut self, flush: &mut PendingFlush)
        requires
            old(self).wf(),
        ensures
            final(self).wf(),
            final(flush)@ == (FlushView { region: old(flush)@.region, confirmed: true }),
            final(self)@ == (KernelView {
                surface: if !old(flush)@.confirmed && old(self)@.surface.pending.contains(
                    old(flush)@.region,
                ) {
                    old(self)@.surface.confirm(old(flush)@.region)
                } else {
                    old(self)@.surface
                },
                ..old(self)@
            }),
    {
        flush.wait(&mut self.kernel.buffer_sink);
    }

    /// Dispatches the multiply by `coeff`, as `MultiplyKernel::multiply` does
    /// and with its errors: above all, the dispatch is refused with
    /// `UseBeforeFlush` until every transfer was waited for. A refused
    /// dispatch hands the stage back as it was, together with the error.
    pub fn dispatch(self, coeff: i32) -> (r: Result<QueuedStage, (FlushStage, PipelineError)>)
        requires
            self.wf(),
        ensures
            match self@.dispatch_refusal() {
                Some(e) => r matches Err((same, err)) && err == e && same.wf() && same@ == self@,
                None => {
                    &&& r matches Ok(next)
                    &&& next.wf()
                    &&& next@ == (ComputedView { kernel: self@.dispatch(coeff), coeff })
                    &&& next@.kernel.result == scaled(self@.surface.staged, coeff)
                },
            },
    {
        let mut kernel = self.kernel;
        proof {
            if kernel@.surface.synced() {
                lemma_synced_surface_agrees(kernel@.surface);
            }
        }
        match kernel.multiply(coeff) {
            Ok(pending) => Ok(QueuedStage { kernel, pending }),
            Err(e) => Err((FlushStage { kernel }, e)),
        }
    }
}

impl QueuedStage {
    /// Whether the handle of the dispatch is the one that the queue holds.
    pub closed spec fn holds_handle(&self) -> bool {
        !self.pending@.complete
    }

    /// While the multiply is queued, the queue holds this one dispatch.
    pub open spec fn wf(&self) -> bool {
        &&& self@.wf()
        &&& self@.kernel.queue.in_flight == 1
        &&& self.holds_handle()
    }

    /// The stage of the run.
    pub fn state(&self) -> (s: PipelineState)
        ensures
            s == PipelineState::ComputeQueued,
    {
        PipelineState::ComputeQueued
    }

    /// The device resources.
    pub fn kernel(&self) -> (k: &MultiplyKernel)
        ensures
            k@ == self@.kernel,
    {
        &self.kernel
    }

    /// The coefficient of the dispatch.
    pub fn coeff(&self) -> (c: i32)
        ensures
            c == self@.coeff,
    {
        self.pending.coeff()
    }

    /// Sees the dispatch through: the queue is empty again, and the buffers
    /// are as the dispatch left them.
    pub fn await_compute(self) -> (next: CompleteStage)
        requires
            self.wf(),
        ensures
            next.wf(),
            next@ == (ComputedView {
                kernel: KernelView {
                    queue: QueueView { in_flight: 0, ..self@.kernel.queue },
                    ..self@.kernel
                },
                coeff: self@.coeff,
            }),
    {
        let mut kernel = self.kernel;
        let mut pending = self.pending;
        pending.wait(&mut kernel.queue);
        CompleteStage { kernel, coeff: pending.coeff() }
    }
}

impl CompleteStage {
    /// After the multiply the queue is empty.
    pub open spec fn wf(&self) -> bool {
        &&& self@.wf()
        &&& self@.kernel.queue.in_flight == 0
    }

    /// The stage of the run.
    pub fn state(&self) -> (s: PipelineState)
        ensures
            s == PipelineState::ComputeComplete,
    {
        PipelineState::ComputeComplete
    }

    /// The device resources.
    pub fn kernel(&self) -> (k: &MultiplyKernel)
        ensures
            k@ == self@.kernel,
    {
        &self.kernel
    }

    /// The coefficient of the dispatch.
    pub fn coeff(&self) -> (c: i32)
        ensures
            c == self@.coeff,
    {
        self.coeff
    }

    /// Copies the result buffer into `dest`, which must have the length of
    /// the buffer. With any other length nothing is copied, and the stage is
    /// handed back as it was, together with `LengthMismatch`.
    pub fn read_back(self, dest: &mut Vec<i32>) -> (r: Result<
        ReadStage,
        (CompleteStage, PipelineError),
    >)
        requires
            self.wf(),
        ensures
            match r {
                Ok(next) => {
                    &&& old(dest)@.len() == self@.kernel.surface.len()
                    &&& final(dest)@ == scaled(self@.kernel.surface.staged, self@.coeff)
                    &&& next.wf()
                    &&& next@ == self@
                },
                Err((same, e)) => {
                    &&& old(dest)@.len() != self@.kernel.surface.len()
                    &&& e == PipelineError::LengthMismatch
                    &&& final(dest)@ == old(dest)@
                    &&& same.wf()
                    &&& same@ == self@
                },
            },
    {
        match self.kernel.result_buffer.read(dest) {
            Ok(()) => Ok(ReadStage { kernel: self.kernel, coeff: self.coeff }),
            Err(e) => Err((self, e)),
        }
    }
}

impl ReadStage {
    /// After the read-back the buffers are as the multiply left them.
    pub open spec fn wf(&self) -> bool {
        &&& self@.wf()
        &&& self@.kernel.queue.in_flight == 0
    }

    /// The stage of the run.
    pub fn state(&self) -> (s: PipelineState)
        ensures
            s == PipelineState::ResultsRead,
    {
        PipelineState::ResultsRead
    }

    /// The device resources.
    pub fn kernel(&self) -> (k: &MultiplyKernel)
        ensures
            k@ == self@.kernel,
    {
        &self.kernel
    }

    /// The coefficient of the dispatch.
    pub fn coeff(&self) -> (c: i32)
        ensures
            c == self@.coeff,
    {
        self.coeff
    }
}

} // verus!
