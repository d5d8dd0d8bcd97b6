use multiply::{
    run_pipeline, DeviceConfig, ParamKind, PipelineError, PipelineState, Region, WriteJob,
};

fn capable_device() -> DeviceConfig {
    DeviceConfig {
        devices: 1,
        max_buffer_len: 1 << 24,
        kernel_params: Some(vec![ParamKind::Scalar, ParamKind::Buffer, ParamKind::Buffer]),
        queue_depth: 4,
    }
}

fn job(start: usize, data: Vec<i32>) -> WriteJob {
    WriteJob { region: Region::new(start, data.len()), data }
}

/// Values in `[0, 20)` from a linear congruential sequence.
fn scrambled(seed: u64, size: usize) -> Vec<i32> {
    let mut state = seed;
    let mut out = Vec::with_capacity(size);
    for _ in 0..size {
        state = state.wrapping_mul(6364136223846793005).wrapping_add(1442695040888963407);
        out.push(((state >> 33) % 20) as i32);
    }
    out
}

/// Values from a linear congruential sequence, as indices.
fn scrambled_cuts(seed: u64, count: usize) -> Vec<usize> {
    let mut state = seed;
    let mut out = Vec::with_capacity(count);
    for _ in 0..count {
        state = state.wrapping_mul(6364136223846793005).wrapping_add(1442695040888963407);
        out.push((state >> 33) as usize);
    }
    out
}

#[test]
fn stages_follow_each_other_in_one_order() {
    let order = [
        PipelineState::Idle,
        PipelineState::WritesInFlight,
        PipelineState::FlushesPending,
        PipelineState::ComputeQueued,
        PipelineState::ComputeComplete,
        PipelineState::ResultsRead,
    ];
    for i in 0..order.len() {
        let expected = if i + 1 < order.len() { Some(order[i + 1]) } else { None };
        assert_eq!(order[i].next(), expected);
    }
}

#[test]
fn zero_coefficient_gives_zeros() {
    let source = vec![7, -3, 12, i32::MAX];
    let report = run_pipeline(&capable_device(), 4, Some(&source), &Vec::new(), 0);
    assert_eq!(report.state, PipelineState::ResultsRead);
    assert_eq!(report.outcome, Ok(vec![0, 0, 0, 0]));
}

#[test]
fn zero_coefficient_gives_zeros_after_writes_too() {
    let jobs = vec![job(0, vec![i32::MIN, 5]), job(2, vec![-1, 99])];
    let report = run_pipeline(&capable_device(), 4, None, &jobs, 0);
    assert_eq!(report.state, PipelineState::ResultsRead);
    assert_eq!(report.outcome, Ok(vec![0, 0, 0, 0]));
}

#[test]
fn run_scales_what_was_written() {
    let source = vec![1, 2, 3, 4, 5, 6, 7, 8];
    let jobs = vec![job(0, vec![10, 20]), job(5, vec![-1, -2, -3])];
    let report = run_pipeline(&capable_device(), 8, Some(&source), &jobs, 3);
    assert_eq!(report.state, PipelineState::ResultsRead);
    assert_eq!(report.outcome, Ok(vec![30, 60, 9, 12, 15, -3, -6, -9]));
}

#[test]
fn run_of_a_single_element() {
    let report = run_pipeline(&capable_device(), 1, None, &vec![job(0, vec![-4])], -5);
    assert_eq!(report.state, PipelineState::ResultsRead);
    assert_eq!(report.outcome, Ok(vec![20]));
}

#[test]
fn run_without_source_starts_from_zeros() {
    let jobs = vec![job(1, vec![4])];
    let report = run_pipeline(&capable_device(), 3, None, &jobs, 7);
    assert_eq!(report.outcome, Ok(vec![0, 28, 0]));
}

#[test]
fn later_job_wins_where_jobs_overlap() {
    let jobs = vec![job(0, vec![1, 1, 1]), job(2, vec![2, 2]), job(1, vec![3])];
    let report = run_pipeline(&capable_device(), 4, None, &jobs, 1);
    assert_eq!(report.outcome, Ok(vec![1, 3, 2, 2]));
}

#[test]
fn order_of_disjoint_jobs_does_not_matter() {
    let forward = vec![job(0, vec![1, 2]), job(2, vec![3]), job(4, vec![5, 6])];
    let backward = vec![job(4, vec![5, 6]), job(2, vec![3]), job(0, vec![1, 2])];
    let a = run_pipeline(&capable_device(), 6, None, &forward, 11);
    let b = run_pipeline(&capable_device(), 6, None, &backward, 11);
    assert_eq!(a.outcome, Ok(vec![11, 22, 33, 0, 55, 66]));
    assert_eq!(a.outcome, b.outcome);
}

#[test]
fn run_wraps_like_the_element_type() {
    let jobs = vec![job(0, vec![i32::MAX, i32::MIN, 123456789])];
    let report = run_pipeline(&capable_device(), 3, None, &jobs, 1000);
    assert_eq!(report.outcome, Ok(vec![-1000, 0, -1097262584]));
}

#[test]
fn thirty_two_producers_over_a_million_elements() {
    let work_size: usize = 1 << 20;
    let producers: usize = 32;
    let coeff = 321;

    // Scrambled cut points split the buffer into one sub-range for each producer.
    let mut cuts: Vec<usize> =
        scrambled_cuts(7, producers - 1).into_iter().map(|c| c % work_size).collect();
    cuts.push(0);
    cuts.push(work_size);
    cuts.sort();

    let mut jobs = Vec::new();
    let mut expected_source = vec![0; work_size];
    // The producers come in another order than their sub-ranges lie.
    for p in 0..producers {
        let slot = (p * 13 + 5) % producers;
        let (start, end) = (cuts[slot], cuts[slot + 1]);
        let data = scrambled(p as u64 + 1, end - start);
        expected_source[start..end].copy_from_slice(&data);
        jobs.push(job(start, data));
    }
    let report = run_pipeline(&capable_device(), work_size, None, &jobs, coeff);
    assert_eq!(report.state, PipelineState::ResultsRead);
    let result = report.outcome.unwrap();
    assert_eq!(result.len(), work_size);
    for i in 0..work_size {
        assert_eq!(result[i], expected_source[i] * coeff);
    }
}

#[test]
fn run_without_a_device_ends_idle() {
    let config = DeviceConfig { devices: 0, ..capable_device() };
    let report = run_pipeline(&config, 4, None, &vec![job(9, vec![1])], 2);
    assert_eq!(report.state, PipelineState::Idle);
    assert_eq!(report.outcome, Err(PipelineError::DeviceUnavailable));
}

#[test]
fn run_with_a_kernel_that_did_not_build_ends_idle() {
    let config = DeviceConfig { kernel_params: None, ..capable_device() };
    let report = run_pipeline(&config, 4, None, &Vec::new(), 2);
    assert_eq!(report.state, PipelineState::Idle);
    assert_eq!(report.outcome, Err(PipelineError::CompileFailed));
}

#[test]
fn run_over_an_empty_buffer_ends_idle() {
    let report = run_pipeline(&capable_device(), 0, None, &Vec::new(), 2);
    assert_eq!(report.state, PipelineState::Idle);
    assert_eq!(report.outcome, Err(PipelineError::AllocationFailed));
}

#[test]
fn region_past_the_end_aborts_the_run() {
    let jobs = vec![job(3, vec![1, 2])];
    let report = run_pipeline(&capable_device(), 4, None, &jobs, 3);
    assert_eq!(report.state, PipelineState::WritesInFlight);
    assert_eq!(report.outcome, Err(PipelineError::RegionOutOfBounds));
}

#[test]
fn data_of_another_length_than_the_region_aborts_the_run() {
    let jobs = vec![WriteJob { region: Region::new(0, 3), data: vec![1, 2] }];
    let report = run_pipeline(&capable_device(), 4, None, &jobs, 3);
    assert_eq!(report.state, PipelineState::WritesInFlight);
    assert_eq!(report.outcome, Err(PipelineError::LengthMismatch));
}

#[test]
fn first_faulty_job_gives_the_error() {
    let jobs = vec![
        job(0, vec![1]),
        WriteJob { region: Region::new(1, 2), data: vec![1] },
        job(7, vec![1]),
    ];
    let report = run_pipeline(&capable_device(), 4, None, &jobs, 3);
    assert_eq!(report.outcome, Err(PipelineError::LengthMismatch));
    let jobs = vec![
        job(0, vec![1]),
        job(7, vec![1]),
        WriteJob { region: Region::new(1, 2), data: vec![1] },
    ];
    let report = run_pipeline(&capable_device(), 4, None, &jobs, 3);
    assert_eq!(report.outcome, Err(PipelineError::RegionOutOfBounds));
}

#[test]
fn region_past_the_end_comes_before_its_data_length() {
    let jobs = vec![WriteJob { region: Region::new(3, 2), data: vec![1] }];
    let report = run_pipeline(&capable_device(), 4, None, &jobs, 3);
    assert_eq!(report.outcome, Err(PipelineError::RegionOutOfBounds));
}

#[test]
fn kernel_with_other_parameters_ends_the_run_before_the_dispatch() {
    let config = DeviceConfig {
        kernel_params: Some(vec![ParamKind::Buffer, ParamKind::Scalar]),
        ..capable_device()
    };
    let report = run_pipeline(&config, 4, None, &vec![job(0, vec![1])], 3);
    assert_eq!(report.state, PipelineState::FlushesPending);
    assert_eq!(report.outcome, Err(PipelineError::KernelArgMismatch));
}

#[test]
fn queue_without_a_slot_ends_the_run_before_the_dispatch() {
    let config = DeviceConfig { queue_depth: 0, ..capable_device() };
    let report = run_pipeline(&config, 4, None, &vec![job(0, vec![1])], 3);
    assert_eq!(report.state, PipelineState::FlushesPending);
    assert_eq!(report.outcome, Err(PipelineError::EnqueueFailed));
}

#[test]
fn faulty_job_comes_before_a_kernel_with_other_parameters() {
    let config = DeviceConfig { kernel_params: Some(Vec::new()), queue_depth: 0, ..capable_device() };
    let report = run_pipeline(&config, 4, None, &vec![job(4, vec![1])], 3);
    assert_eq!(report.state, PipelineState::WritesInFlight);
    assert_eq!(report.outcome, Err(PipelineError::RegionOutOfBounds));
    let report = run_pipeline(&config, 4, None, &Vec::new(), 3);
    assert_eq!(report.outcome, Err(PipelineError::KernelArgMismatch));
}

#[test]
fn empty_job_changes_nothing() {
    let source = vec![1, 2, 3];
    let jobs = vec![job(3, Vec::new()), job(0, Vec::new())];
    let report = run_pipeline(&capable_device(), 3, Some(&source), &jobs, 2);
    assert_eq!(report.outcome, Ok(vec![2, 4, 6]));
}
