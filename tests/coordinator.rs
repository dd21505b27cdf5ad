use brot_rs::{validate_request, AlgorithmType, Dispatch, RenderError, RendererThread};

#[test]
fn zero_width_is_refused_before_dispatch() {
    let mut worker = RendererThread::new();
    assert_eq!(
        worker.plan(0, 4, AlgorithmType::NaiveCPU, 1, true, true),
        Err(RenderError::ZeroWidth)
    );
    assert_eq!(
        worker.plan(0, 4, AlgorithmType::OpenCL, 1, true, true),
        Err(RenderError::ZeroWidth)
    );
    // The refused device request built nothing: the next one still rebuilds.
    assert_eq!(
        worker.plan(4, 4, AlgorithmType::OpenCL, 1, true, true),
        Ok(Dispatch::Device { rebuild: true })
    );
}

#[test]
fn each_configuration_error() {
    assert_eq!(validate_request(0, 0, 0, false, false), Err(RenderError::ZeroWidth));
    assert_eq!(validate_request(4, 0, 1, true, true), Err(RenderError::ZeroHeight));
    assert_eq!(validate_request(65536, 65536, 1, true, true), Err(RenderError::TooManyPixels));
    assert_eq!(validate_request(4, 4, 0, true, true), Err(RenderError::ZeroSupersample));
    assert_eq!(validate_request(4, 4, -3, true, true), Err(RenderError::ZeroSupersample));
    assert_eq!(validate_request(4, 4, 1, false, true), Err(RenderError::NonPositiveZoom));
    assert_eq!(validate_request(4, 4, 1, true, false), Err(RenderError::NonPositiveIterations));
    assert_eq!(validate_request(4, 4, 1, true, true), Ok(()));
    assert_eq!(validate_request(65536, 65535, 32, true, true), Ok(()));
}

#[test]
fn host_requests_never_touch_the_device_cache() {
    let mut worker = RendererThread::default();
    assert_eq!(worker.plan(8, 8, AlgorithmType::NaiveCPU, 2, true, true), Ok(Dispatch::Host));
    assert_eq!(
        worker.plan(8, 8, AlgorithmType::OpenCL, 2, true, true),
        Ok(Dispatch::Device { rebuild: true })
    );
    assert_eq!(worker.finish_build(8, 8, Ok(())), Ok(()));
    assert_eq!(worker.plan(8, 8, AlgorithmType::NaiveCPU, 2, true, true), Ok(Dispatch::Host));
    assert_eq!(
        worker.plan(8, 8, AlgorithmType::OpenCL, 2, true, true),
        Ok(Dispatch::Device { rebuild: false })
    );
}

#[test]
fn device_program_is_reused_only_for_equal_dimensions() {
    let mut worker = RendererThread::new();
    assert_eq!(
        worker.plan(8, 2, AlgorithmType::OpenCL, 1, true, true),
        Ok(Dispatch::Device { rebuild: true })
    );
    assert_eq!(worker.finish_build(8, 2, Ok(())), Ok(()));
    assert_eq!(
        worker.plan(8, 2, AlgorithmType::OpenCL, 1, true, true),
        Ok(Dispatch::Device { rebuild: false })
    );
    // Same pixel count, other shape: the kernel's grid differs, so rebuild.
    assert_eq!(
        worker.plan(2, 8, AlgorithmType::OpenCL, 1, true, true),
        Ok(Dispatch::Device { rebuild: true })
    );
    assert_eq!(worker.finish_build(2, 8, Ok(())), Ok(()));
    assert_eq!(
        worker.plan(2, 8, AlgorithmType::OpenCL, 1, true, true),
        Ok(Dispatch::Device { rebuild: false })
    );
}

#[test]
fn failed_build_is_reported_and_not_cached() {
    let mut worker = RendererThread::new();
    assert_eq!(
        worker.plan(4, 4, AlgorithmType::OpenCL, 1, true, true),
        Ok(Dispatch::Device { rebuild: true })
    );
    assert_eq!(
        worker.finish_build(4, 4, Err("CL_BUILD_PROGRAM_FAILURE".to_string())),
        Err(RenderError::Device("CL_BUILD_PROGRAM_FAILURE".to_string()))
    );
    assert_eq!(
        worker.plan(4, 4, AlgorithmType::OpenCL, 1, true, true),
        Ok(Dispatch::Device { rebuild: true })
    );
}

#[test]
fn refused_request_keeps_the_cached_program() {
    let mut worker = RendererThread::new();
    worker.plan(4, 4, AlgorithmType::OpenCL, 1, true, true).unwrap();
    worker.finish_build(4, 4, Ok(())).unwrap();
    assert_eq!(
        worker.plan(4, 4, AlgorithmType::OpenCL, 1, false, true),
        Err(RenderError::NonPositiveZoom)
    );
    assert_eq!(
        worker.plan(4, 4, AlgorithmType::OpenCL, 1, true, true),
        Ok(Dispatch::Device { rebuild: false })
    );
}
