use multiply::buffer::multiply_element;
use multiply::kernel::{KERNEL_NAME, KERNEL_SOURCE};
use multiply::{Acquisition, DeviceConfig, MultiplyKernel, ParamKind, PipelineError, Region};

fn device(queue_depth: usize) -> DeviceConfig {
    DeviceConfig {
        devices: 1,
        max_buffer_len: 1 << 20,
        kernel_params: Some(vec![ParamKind::Scalar, ParamKind::Buffer, ParamKind::Buffer]),
        queue_depth,
    }
}

fn device_with_kernel(params: Vec<ParamKind>) -> DeviceConfig {
    DeviceConfig { devices: 1, max_buffer_len: 1 << 20, kernel_params: Some(params), queue_depth: 1 }
}

fn results(kernel: &MultiplyKernel) -> Vec<i32> {
    let mut out = vec![0; kernel.result_buffer.len()];
    assert_eq!(kernel.result_buffer.read(&mut out), Ok(()));
    out
}

fn refusal(r: Result<MultiplyKernel, PipelineError>) -> PipelineError {
    match r {
        Ok(_) => panic!("the kernel was created"),
        Err(e) => e,
    }
}

#[test]
fn element_product_is_exact_where_it_fits() {
    assert_eq!(multiply_element(7, 6), 42);
    assert_eq!(multiply_element(-7, 6), -42);
    assert_eq!(multiply_element(19, 321), 6099);
    assert_eq!(multiply_element(46340, 46340), 2147395600);
    assert_eq!(multiply_element(i32::MIN, 1), i32::MIN);
    assert_eq!(multiply_element(i32::MAX, -1), -i32::MAX);
}

#[test]
fn element_product_wraps_at_the_width_of_the_element() {
    assert_eq!(multiply_element(i32::MAX, 2), -2);
    assert_eq!(multiply_element(i32::MIN, -1), i32::MIN);
    assert_eq!(multiply_element(i32::MIN, 2), 0);
    assert_eq!(multiply_element(65536, 65536), 0);
    assert_eq!(multiply_element(46341, 46341), -2147479015);
    assert_eq!(multiply_element(123456789, 1000), -1097262584);
}

#[test]
fn element_product_with_zero_and_one() {
    for x in [0, 1, -1, 20, i32::MAX, i32::MIN] {
        assert_eq!(multiply_element(x, 0), 0);
        assert_eq!(multiply_element(0, x), 0);
        assert_eq!(multiply_element(x, 1), x);
    }
}

#[test]
fn create_without_a_device_fails() {
    let config = DeviceConfig { devices: 0, ..device(1) };
    assert_eq!(refusal(MultiplyKernel::create(&config, 4, None)), PipelineError::DeviceUnavailable);
}

#[test]
fn create_with_a_kernel_that_did_not_build_fails() {
    let config = DeviceConfig { kernel_params: None, ..device(1) };
    assert_eq!(refusal(MultiplyKernel::create(&config, 4, None)), PipelineError::CompileFailed);
}

#[test]
fn create_of_an_empty_buffer_fails() {
    assert_eq!(refusal(MultiplyKernel::create(&device(1), 0, None)), PipelineError::AllocationFailed);
    let nothing: Vec<i32> = Vec::new();
    assert_eq!(
        refusal(MultiplyKernel::create(&device(1), 0, Some(&nothing))),
        PipelineError::AllocationFailed
    );
}

#[test]
fn create_of_a_buffer_larger_than_the_device_takes_fails() {
    let config = DeviceConfig { max_buffer_len: 4, ..device(1) };
    assert_eq!(refusal(MultiplyKernel::create(&config, 5, None)), PipelineError::AllocationFailed);
    assert!(MultiplyKernel::create(&config, 4, None).is_ok());
}

#[test]
fn create_with_source_data_of_another_length_fails() {
    let source = vec![1, 2, 3];
    assert_eq!(
        refusal(MultiplyKernel::create(&device(1), 4, Some(&source))),
        PipelineError::AllocationFailed
    );
    assert_eq!(
        refusal(MultiplyKernel::create(&device(1), 2, Some(&source))),
        PipelineError::AllocationFailed
    );
}

#[test]
fn create_reports_the_first_step_that_fails() {
    let nothing_works =
        DeviceConfig { devices: 0, max_buffer_len: 0, kernel_params: None, queue_depth: 0 };
    assert_eq!(
        refusal(MultiplyKernel::create(&nothing_works, 0, None)),
        PipelineError::DeviceUnavailable
    );
    let no_kernel = DeviceConfig { devices: 2, ..nothing_works };
    assert_eq!(refusal(MultiplyKernel::create(&no_kernel, 0, None)), PipelineError::CompileFailed);
}

#[test]
fn created_buffers_hold_zeros_where_no_source_is_given() {
    let kernel = MultiplyKernel::create(&device(1), 5, None).unwrap();
    assert_eq!(kernel.work_size(), 5);
    assert_eq!(kernel.result_buffer.len(), 5);
    assert_eq!(results(&kernel), vec![0; 5]);
    for i in 0..5 {
        assert_eq!(kernel.buffer_sink.staged_at(i), Some(0));
        assert_eq!(kernel.buffer_sink.source().get(i), Some(0));
    }
    assert_eq!(kernel.buffer_sink.live_guards(), 0);
    assert!(kernel.buffer_sink.is_synced());
    assert_eq!(kernel.queue.in_flight(), 0);
    assert_eq!(kernel.queue.depth(), 1);
}

#[test]
fn created_source_holds_the_data_of_the_caller() {
    let source = vec![3, 1, 4, 1, 5];
    let kernel = MultiplyKernel::create(&device(1), 5, Some(&source)).unwrap();
    for i in 0..5 {
        assert_eq!(kernel.buffer_sink.staged_at(i), Some(source[i]));
        assert_eq!(kernel.buffer_sink.source().get(i), Some(source[i]));
    }
    assert_eq!(results(&kernel), vec![0; 5]);
}

#[test]
fn kernel_without_a_queue_slot_is_still_created() {
    let kernel = MultiplyKernel::create(&device(0), 3, None).unwrap();
    assert_eq!(kernel.queue.depth(), 0);
}

#[test]
fn multiply_scales_every_element() {
    let source = vec![0, 1, -2, 19, 1000];
    let mut kernel = MultiplyKernel::create(&device(1), 5, Some(&source)).unwrap();
    let pending = kernel.multiply(321).unwrap();
    assert_eq!(pending.coeff(), 321);
    assert!(!pending.is_complete());
    assert_eq!(results(&kernel), vec![0, 321, -642, 6099, 321000]);
    assert_eq!(kernel.queue.in_flight(), 1);
    for i in 0..5 {
        assert_eq!(kernel.buffer_sink.source().get(i), Some(source[i]));
    }
}

#[test]
fn multiply_wraps_like_the_element_type() {
    let source = vec![i32::MAX, i32::MIN, 65536, -65536];
    let mut kernel = MultiplyKernel::create(&device(1), 4, Some(&source)).unwrap();
    assert!(kernel.multiply(65536).is_ok());
    assert_eq!(results(&kernel), vec![-65536, 0, 0, 0]);
}

#[test]
fn multiply_before_the_flush_is_waited_for_fails() {
    let source = vec![1, 2, 3, 4];
    let mut kernel = MultiplyKernel::create(&device(2), 4, Some(&source)).unwrap();
    assert!(kernel.multiply(2).is_ok());
    let mut guard = match kernel.buffer_sink.acquire_write(Region::new(0, 2)) {
        Ok(Acquisition::Granted(guard)) => guard,
        other => panic!("no guard: {:?}", other),
    };
    assert_eq!(guard.copy_from_slice(&[10, 20]), Ok(()));
    let mut flush = guard.commit(&mut kernel.buffer_sink).unwrap();
    let early = kernel.multiply(3);
    assert!(matches!(early, Err(PipelineError::UseBeforeFlush)));
    assert_eq!(results(&kernel), vec![2, 4, 6, 8]);
    assert_eq!(kernel.queue.in_flight(), 1);
    let early_again = kernel.multiply(3);
    assert!(matches!(early_again, Err(PipelineError::UseBeforeFlush)));
    flush.wait(&mut kernel.buffer_sink);
    assert!(kernel.multiply(3).is_ok());
    assert_eq!(results(&kernel), vec![30, 60, 9, 12]);
}

#[test]
fn multiply_does_not_see_what_a_live_guard_holds() {
    let source = vec![1, 2, 3];
    let mut kernel = MultiplyKernel::create(&device(1), 3, Some(&source)).unwrap();
    let mut guard = match kernel.buffer_sink.acquire_write(Region::new(0, 3)) {
        Ok(Acquisition::Granted(guard)) => guard,
        other => panic!("no guard: {:?}", other),
    };
    assert_eq!(guard.copy_from_slice(&[7, 7, 7]), Ok(()));
    assert!(kernel.multiply(2).is_ok());
    assert_eq!(results(&kernel), vec![2, 4, 6]);
}

#[test]
fn kernel_with_other_parameters_is_not_dispatched() {
    let wrong = [
        vec![],
        vec![ParamKind::Scalar],
        vec![ParamKind::Scalar, ParamKind::Buffer],
        vec![ParamKind::Buffer, ParamKind::Scalar, ParamKind::Buffer],
        vec![ParamKind::Buffer, ParamKind::Buffer, ParamKind::Scalar],
        vec![ParamKind::Scalar, ParamKind::Scalar, ParamKind::Buffer],
        vec![ParamKind::Scalar, ParamKind::Buffer, ParamKind::Scalar],
        vec![ParamKind::Buffer, ParamKind::Buffer, ParamKind::Buffer],
        vec![ParamKind::Scalar, ParamKind::Buffer, ParamKind::Buffer, ParamKind::Buffer],
    ];
    for params in wrong {
        let source = vec![1, 2];
        let mut kernel =
            MultiplyKernel::create(&device_with_kernel(params), 2, Some(&source)).unwrap();
        let r = kernel.multiply(5);
        assert!(matches!(r, Err(PipelineError::KernelArgMismatch)));
        assert_eq!(results(&kernel), vec![0, 0]);
        assert_eq!(kernel.queue.in_flight(), 0);
    }
}

#[test]
fn queue_without_a_slot_rejects_the_dispatch() {
    let source = vec![1, 2];
    let mut kernel = MultiplyKernel::create(&device(0), 2, Some(&source)).unwrap();
    let r = kernel.multiply(5);
    assert!(matches!(r, Err(PipelineError::EnqueueFailed)));
    assert_eq!(results(&kernel), vec![0, 0]);
}

#[test]
fn full_queue_rejects_the_dispatch_until_one_is_waited_for() {
    let source = vec![1, 2];
    let mut kernel = MultiplyKernel::create(&device(1), 2, Some(&source)).unwrap();
    let mut first = kernel.multiply(5).unwrap();
    let second = kernel.multiply(7);
    assert!(matches!(second, Err(PipelineError::EnqueueFailed)));
    assert_eq!(results(&kernel), vec![5, 10]);
    first.wait(&mut kernel.queue);
    assert!(first.is_complete());
    assert_eq!(kernel.queue.in_flight(), 0);
    assert!(kernel.multiply(7).is_ok());
    assert_eq!(results(&kernel), vec![7, 14]);
}

#[test]
fn waiting_twice_for_a_dispatch_frees_one_slot() {
    let source = vec![1];
    let mut kernel = MultiplyKernel::create(&device(3), 1, Some(&source)).unwrap();
    let mut first = kernel.multiply(2).unwrap();
    let _second = kernel.multiply(3).unwrap();
    assert_eq!(kernel.queue.in_flight(), 2);
    first.wait(&mut kernel.queue);
    first.wait(&mut kernel.queue);
    assert_eq!(kernel.queue.in_flight(), 1);
}

#[test]
fn dispatch_refusals_come_in_a_fixed_order() {
    let config = DeviceConfig {
        devices: 1,
        max_buffer_len: 8,
        kernel_params: Some(vec![ParamKind::Buffer]),
        queue_depth: 0,
    };
    let mut kernel = MultiplyKernel::create(&config, 2, None).unwrap();
    let mut guard = match kernel.buffer_sink.acquire_write(Region::new(0, 1)) {
        Ok(Acquisition::Granted(guard)) => guard,
        other => panic!("no guard: {:?}", other),
    };
    let mut flush = guard.commit(&mut kernel.buffer_sink).unwrap();
    assert!(matches!(kernel.multiply(1), Err(PipelineError::UseBeforeFlush)));
    flush.wait(&mut kernel.buffer_sink);
    assert!(matches!(kernel.multiply(1), Err(PipelineError::KernelArgMismatch)));
}

#[test]
fn read_back_needs_an_array_of_the_length_of_the_buffer() {
    let source = vec![1, 2, 3];
    let mut kernel = MultiplyKernel::create(&device(1), 3, Some(&source)).unwrap();
    assert!(kernel.multiply(2).is_ok());
    let mut short = vec![9, 9];
    assert_eq!(kernel.result_buffer.read(&mut short), Err(PipelineError::LengthMismatch));
    assert_eq!(short, vec![9, 9]);
    let mut long = vec![9; 4];
    assert_eq!(kernel.result_buffer.read(&mut long), Err(PipelineError::LengthMismatch));
    assert_eq!(long, vec![9; 4]);
    let mut exact = vec![9; 3];
    assert_eq!(kernel.result_buffer.read(&mut exact), Ok(()));
    assert_eq!(exact, vec![2, 4, 6]);
    assert_eq!(kernel.result_buffer.get(1), Some(4));
    assert_eq!(kernel.result_buffer.get(3), None);
}

#[test]
fn created_buffers_are_read_and_written_by_kernels() {
    let kernel = MultiplyKernel::create(&device(1), 2, None).unwrap();
    assert_eq!(kernel.result_buffer.access(), multiply::MemAccess::ReadWrite);
    assert_eq!(kernel.buffer_sink.source().access(), multiply::MemAccess::ReadWrite);
}

#[test]
fn kernel_source_declares_the_kernel_by_its_name() {
    assert_eq!(KERNEL_NAME, "multiply_by_scalar");
    assert!(KERNEL_SOURCE.contains("__kernel void multiply_by_scalar("));
    let coeff = KERNEL_SOURCE.find("coeff,").unwrap();
    let src = KERNEL_SOURCE.find("src,").unwrap();
    let res = KERNEL_SOURCE.find("res)").unwrap();
    assert!(coeff < src && src < res);
    assert!(KERNEL_SOURCE.contains("res[idx] = src[idx] * coeff;"));
}
