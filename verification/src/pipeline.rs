//! A whole pipeline run, from a list of writes to the result read back.

use vstd::prelude::*;
use crate::buffer::{overwrite, product, scaled, zeros};
use crate::error::PipelineError;
use crate::kernel::{
    create_refusal, created, expected_params, initial_contents, source_view, DeviceConfig,
    KernelView,
};
use crate::orchestrator::{IdleStage, PipelineState, WriteStage};
use crate::region::Region;
use crate::surface::{
    covers, lemma_first_occurrence, pairwise_disjoint, write_fault, PendingFlush, SurfaceView,
};

verus! {

/// What one producer writes: `data` over `region`.
#[derive(Debug)]
pub struct WriteJob {
    /// The indices that the producer writes.
    pub region: Region,
    /// The elements it writes there, one for each index of the region.
    pub data: Vec<i32>,
}

/// The reason for which the write of `job` to a buffer of `length` elements
/// is refused, if there is one.
pub open spec fn job_fault(job: WriteJob, length: int) -> Option<PipelineError> {
    write_fault(job.region, job.data@, length)
}

/// The fault of the first job that has one, in the order of `jobs`.
pub open spec fn first_fault(jobs: Seq<WriteJob>, length: int) -> Option<PipelineError>
    decreases jobs.len(),
{
    if jobs.len() == 0 {
        None
    } else {
        match first_fault(jobs.drop_last(), length) {
            Some(e) => Some(e),
            None => job_fault(jobs.last(), length),
        }
    }
}

/// The source buffer after the jobs were written over `initial`, one after
/// the other in the order of `jobs`.
pub open spec fn written(initial: Seq<i32>, jobs: Seq<WriteJob>) -> Seq<i32>
    decreases jobs.len(),
{
    if jobs.len() == 0 {
        initial
    } else {
        overwrite(
            written(initial, jobs.drop_last()),
            jobs.last().region.start as int,
            jobs.last().data@,
        )
    }
}

/// The stage at which a run ends and what it ends with.
///
/// A run fails with the first error that any of its steps meets, at the stage
/// of that step: creating the device resources in `Idle`, a producer's write
/// in `WritesInFlight`, the dispatch in `FlushesPending`. A run that meets no
/// error ends in `ResultsRead` with the scaled copy of what was written.
pub open spec fn pipeline_model(
    config: DeviceConfig,
    work_size: usize,
    vec_source: Option<Seq<i32>>,
    jobs: Seq<WriteJob>,
    coeff: i32,
) -> (PipelineState, Result<Seq<i32>, PipelineError>) {
    match create_refusal(config, work_size, vec_source) {
        Some(e) => (PipelineState::Idle, Err(e)),
        None => match first_fault(jobs, work_size as int) {
            Some(e) => (PipelineState::WritesInFlight, Err(e)),
            None => if config.kernel_params->Some_0@ != expected_params() {
                (PipelineState::FlushesPending, Err(PipelineError::KernelArgMismatch))
            } else if config.queue_depth == 0 {
                (PipelineState::FlushesPending, Err(PipelineError::EnqueueFailed))
            } else {
                (
                    PipelineState::ResultsRead,
                    Ok(scaled(written(initial_contents(work_size, vec_source), jobs), coeff)),
                )
            },
        },
    }
}

/// How a pipeline run ended.
#[derive(Debug)]
pub struct PipelineReport {
    /// The stage that the run had reached when it ended.
    pub state: PipelineState,
    /// The result buffer as read back, or the error that ended the run.
    pub outcome: Result<Vec<i32>, PipelineError>,
}

impl PipelineReport {
    /// The report as plain values.
    pub open spec fn model(&self) -> (PipelineState, Result<Seq<i32>, PipelineError>) {
        (
            self.state,
            match self.outcome {
                Ok(v) => Ok(v@),
                Err(e) => Err(e),
            },
        )
    }
}

/// The regions of the jobs, in order.
pub open spec fn job_regions(jobs: Seq<WriteJob>) -> Seq<Region> {
    Seq::new(jobs.len(), |k: int| jobs[k].region)
}

/// Writing jobs leaves the length of the buffer as it was.
pub proof fn lemma_written_len(initial: Seq<i32>, jobs: Seq<WriteJob>)
    ensures
        written(initial, jobs).len() == initial.len(),
    decreases jobs.len(),
{
    if jobs.len() > 0 {
        lemma_written_len(initial, jobs.drop_last());
    }
}

/// Where the jobs have no fault and their regions share no index, every
/// job's data stands in the buffer just as the job gave it, whatever the
/// order of the jobs was.
pub proof fn lemma_disjoint_writes_land(initial: Seq<i32>, jobs: Seq<WriteJob>, k: int, i: int)
    requires
        first_fault(jobs, initial.len() as int) is None,
        pairwise_disjoint(job_regions(jobs)),
        0 <= k < jobs.len(),
        jobs[k].region.contains(i),
    ensures
        0 <= i < initial.len(),
        0 <= i - jobs[k].region.start < jobs[k].data@.len(),
        written(initial, jobs)[i] == jobs[k].data@[i - jobs[k].region.start],
    decreases jobs.len(),
{
    let front = jobs.drop_last();
    let last = jobs.last();
    lemma_written_len(initial, front);
    assert(job_fault(last, initial.len() as int) is None);
    if k == jobs.len() - 1 {
    } else {
        assert(front[k] == jobs[k]);
        assert(job_regions(jobs)[k] == jobs[k].region);
        assert(job_regions(jobs)[jobs.len() - 1] == last.region);
        assert(!jobs[k].region.overlaps(last.region));
        assert(!last.region.contains(i));
        assert forall|a: int, b: int| 0 <= a < b < front.len() implies !(
        #[trigger] job_regions(front)[a]).overlaps(#[trigger] job_regions(front)[b]) by {
            assert(job_regions(front)[a] == job_regions(jobs)[a]);
            assert(job_regions(front)[b] == job_regions(jobs)[b]);
        }
        lemma_disjoint_writes_land(initial, front, k, i);
    }
}

/// Where the jobs have no fault, an element that no job's region contains
/// keeps the value it had before the jobs were written.
pub proof fn lemma_untouched_elements_stay(initial: Seq<i32>, jobs: Seq<WriteJob>, i: int)
    requires
        first_fault(jobs, initial.len() as int) is None,
        0 <= i < initial.len(),
        !covers(job_regions(jobs), i),
    ensures
        written(initial, jobs)[i] == initial[i],
    decreases jobs.len(),
{
    if jobs.len() > 0 {
        let front = jobs.drop_last();
        let last = jobs.last();
        lemma_written_len(initial, front);
        assert(job_fault(last, initial.len() as int) is None);
        assert(job_regions(jobs)[jobs.len() - 1] == last.region);
        assert(!last.region.contains(i));
        assert forall|k: int| 0 <= k < front.len() implies !(#[trigger] job_regions(
            front,
        )[k]).contains(i) by {
            assert(job_regions(front)[k] == job_regions(jobs)[k]);
        }
        lemma_untouched_elements_stay(initial, front, i);
    }
}

/// One producer's whole write in a stage in which no guard is live: the
/// guard is acquired, filled with the job's data and committed.
fn produce(stage: &mut WriteStage, job: &WriteJob) -> (r: Result<PendingFlush, PipelineError>)
    requires
        old(stage).wf(),
        old(stage)@.surface.live.len() == 0,
    ensures
        final(stage).wf(),
        match job_fault(*job, old(stage)@.surface.len()) {
            Some(e) => r == Err::<PendingFlush, PipelineError>(e) && final(stage)@ == old(stage)@,
            None => {
                &&& r matches Ok(flush)
                &&& flush@.region == job.region
                &&& !flush@.confirmed
                &&& final(stage)@ == (KernelView {
                    surface: SurfaceView {
                        staged: overwrite(
                            old(stage)@.surface.staged,
                            job.region.start as int,
                            job.data@,
                        ),
                        pending: old(stage)@.surface.pending.push(job.region),
                        ..old(stage)@.surface
                    },
                    ..old(stage)@
                })
            },
        },
{
    let ghost before = stage@.surface;
    proof {
        let mid = before.acquire(job.region);
        assert(mid.live[0] == job.region);
        lemma_first_occurrence(mid.live, job.region, 0);
        assert(mid.live.remove(0) == before.live);
    }
    match stage.write_region(job.region, job.data.as_slice()) {
        Ok(Some(flush)) => Ok(flush),
        Err(e) => Err(e),
        // No guard is live, so the region is free.
        Ok(None) => unreached(),
    }
}

/// Runs the whole pipeline once and reports how it ended.
///
/// The device resources are created for `work_size` elements, with
/// `vec_source` as the first contents of the source buffer where it is given.
/// Each job is then written through a guard of its own and committed, in the
/// order of `jobs`, which is one of the orders that the guards admit for
/// producers that run side by side. Every transfer is waited for before the
/// multiply by `coeff` is dispatched; the dispatch is waited for, and the
/// result buffer is read back. The first error ends the run, and nothing of a
/// result is handed out with it.
pub fn run_pipeline(
    config: &DeviceConfig,
    work_size: usize,
    vec_source: Option<&Vec<i32>>,
    jobs: &Vec<WriteJob>,
    coeff: i32,
) -> (report: PipelineReport)
    ensures
        report.model() == pipeline_model(*config, work_size, source_view(vec_source), jobs@, coeff),
{
    let ghost initial = initial_contents(work_size, source_view(vec_source));
    let idle = match IdleStage::create(config, work_size, vec_source) {
        Ok(idle) => idle,
        Err(e) => {
            return PipelineReport { state: PipelineState::Idle, outcome: Err(e) };
        },
    };
    let ghost start = idle@;
    let mut writing = idle.begin_writes();
    let mut flushes: Vec<PendingFlush> = Vec::new();
    let mut k: usize = 0;
    proof {
        assert(job_regions(jobs@.take(0)) == Seq::<Region>::empty());
        assert(start.surface == (SurfaceView {
            staged: written(initial, jobs@.take(0)),
            pending: job_regions(jobs@.take(0)),
            ..start.surface
        }));
    }
    while k < jobs.len()
        invariant
            k <= jobs@.len(),
            create_refusal(*config, work_size, source_view(vec_source)) is None,
            start == created(*config, work_size, source_view(vec_source)),
            writing.wf(),
            writing@ == (KernelView {
                surface: SurfaceView {
                    staged: written(initial, jobs@.take(k as int)),
                    pending: job_regions(jobs@.take(k as int)),
                    ..start.surface
                },
                ..start
            }),
            first_fault(jobs@.take(k as int), work_size as int) is None,
            flushes@.len() == k,
            forall|j: int|
                0 <= j < k ==> (#[trigger] flushes@[j])@.region == jobs@[j].region
                    && !flushes@[j]@.confirmed,
        decreases jobs@.len() - k,
    {
        let ghost done = jobs@.take(k as int);
        let ghost more = jobs@.take(k + 1);
        proof {
            assert(more.drop_last() == done);
            assert(more.last() == jobs@[k as int]);
            lemma_written_len(initial, done);
        }
        let produced = produce(&mut writing, &jobs[k]);
        match produced {
            Err(e) => {
                proof {
                    assert(first_fault(more, work_size as int) == job_fault(
                        jobs@[k as int],
                        work_size as int,
                    ));
                    lemma_fault_stays(jobs@, k + 1, work_size as int);
                }
                return PipelineReport { state: writing.state(), outcome: Err(e) };
            },
            Ok(flush) => {
                flushes.push(flush);
                assert(job_regions(more) == job_regions(done).push(jobs@[k as int].region));
            },
        }
        k = k + 1;
    }
    assert(jobs@.take(k as int) == jobs@);
    let mut flushing = match writing.end_writes() {
        Ok(flushing) => flushing,
        // Every guard of this run was committed by its producer.
        Err(_) => unreached(),
    };
    let ghost regions = job_regions(jobs@);
    let mut j: usize = 0;
    while j < flushes.len()
        invariant
            j <= flushes@.len(),
            flushes@.len() == regions.len(),
            flushing.wf(),
            flushing@.surface.staged == written(initial, jobs@),
            flushing@.surface.pending == regions.skip(j as int),
            flushing@.queue == start.queue,
            forall|i: int|
                j <= i < flushes@.len() ==> (#[trigger] flushes@[i])@.region == regions[i]
                    && !flushes@[i]@.confirmed,
        decreases flushes@.len() - j,
    {
        proof {
            let pending = flushing@.surface.pending;
            assert(pending[0] == regions[j as int]);
            lemma_first_occurrence(pending, regions[j as int], 0);
            assert(pending.remove(0) == regions.skip(j + 1));
        }
        flushing.wait_flush(&mut flushes[j]);
        j = j + 1;
    }
    let queued = match flushing.dispatch(coeff) {
        Ok(queued) => queued,
        Err((flushing, e)) => {
            return PipelineReport { state: flushing.state(), outcome: Err(e) };
        },
    };
    let complete = queued.await_compute();
    let mut results: Vec<i32> = Vec::new();
    let mut n: usize = 0;
    while n < work_size
        invariant
            n <= work_size,
            results@.len() == n,
        decreases work_size - n,
    {
        results.push(0);
        n = n + 1;
    }
    proof {
        lemma_written_len(initial, jobs@);
    }
    match complete.read_back(&mut results) {
        Ok(read) => PipelineReport { state: read.state(), outcome: Ok(results) },
        // The host array was made with the length of the buffer.
        Err(_) => unreached(),
    }
}

/// A fault among the first `n` jobs is the first fault of all the jobs.
proof fn lemma_fault_stays(jobs: Seq<WriteJob>, n: int, length: int)
    requires
        0 <= n <= jobs.len(),
        first_fault(jobs.take(n), length) is Some,
    ensures
        first_fault(jobs, length) == first_fault(jobs.take(n), length),
    decreases jobs.len() - n,
{
    if n < jobs.len() {
        let more = jobs.take(n + 1);
        assert(more.drop_last() == jobs.take(n));
        lemma_fault_stays(jobs, n + 1, length);
    } else {
        assert(jobs.take(n) == jobs);
    }
}

/// After a run that meets no error, every element of the result is the wrapped
/// product of the coefficient and the element that was written at its index.
pub proof fn lemma_run_scales_every_element(
    config: DeviceConfig,
    work_size: usize,
    vec_source: Option<Seq<i32>>,
    jobs: Seq<WriteJob>,
    coeff: i32,
)
    requires
        pipeline_model(config, work_size, vec_source, jobs, coeff).1 is Ok,
    ensures
        work_size >= 1,
        pipeline_model(config, work_size, vec_source, jobs, coeff).0 == PipelineState::ResultsRead,
        ({
            let result = pipeline_model(config, work_size, vec_source, jobs, coeff).1->Ok_0;
            let source = written(initial_contents(work_size, vec_source), jobs);
            &&& result.len() == work_size
            &&& source.len() == work_size
            &&& forall|i: int| 0 <= i < work_size ==> #[trigger] result[i] == product(source[i], coeff)
        }),
{
    lemma_written_len(initial_contents(work_size, vec_source), jobs);
}

/// With the coefficient zero every element of the scaled copy is zero,
/// whatever the source holds.
pub proof fn lemma_zero_coefficient(source: Seq<i32>)
    ensures
        scaled(source, 0) == zeros(source.len()),
{
    assert forall|i: int| 0 <= i < source.len() implies #[trigger] scaled(source, 0)[i] == 0 by {
        assert(source[i] * 0 == 0) by (nonlinear_arith);
    }
    assert(scaled(source, 0) =~= zeros(source.len()));
}

} // verus!
