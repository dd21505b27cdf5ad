use vstd::prelude::*;

use crate::mandelbrot::AlgorithmType;

verus! {

/// Why a render request produced no picture.
#[derive(Clone, Debug, PartialEq, Eq)]
pub enum RenderError {
    /// The picture was asked for with no columns.
    ZeroWidth,
    /// The picture was asked for with no rows.
    ZeroHeight,
    /// `width * height` does not fit a 32-bit flat pixel index.
    TooManyPixels,
    /// The supersampling factor is below one sample per axis.
    ZeroSupersample,
    /// The zoom is zero or negative.
    NonPositiveZoom,
    /// The iteration cap is zero or negative.
    NonPositiveIterations,
    /// The accelerator refused to build, allocate, launch or read back; the
    /// text is the accelerator API's own report.
    Device(String),
}

/// What the render worker does next with a request it accepted.
#[derive(Clone, Copy, Debug, PartialEq, Eq, Structural)]
pub enum Dispatch {
    /// Paint the picture on the host's thread pool.
    Host,
    /// Run the kernel; `rebuild` says that the program and its output buffer
    /// must first be built for the request's dimensions.
    Device { rebuild: bool },
}

/// The configuration error of a request, if it has one; the checks run in
/// the order of the variants of `RenderError`.
pub open spec fn request_error(
    width: u32,
    height: u32,
    ss_factor: i32,
    zoom_positive: bool,
    iterations_positive: bool,
) -> Option<RenderError> {
    if width == 0 {
        Some(RenderError::ZeroWidth)
    } else if height == 0 {
        Some(RenderError::ZeroHeight)
    } else if width * height > u32::MAX {
        Some(RenderError::TooManyPixels)
    } else if ss_factor < 1 {
        Some(RenderError::ZeroSupersample)
    } else if !zoom_positive {
        Some(RenderError::NonPositiveZoom)
    } else if !iterations_positive {
        Some(RenderError::NonPositiveIterations)
    } else {
        None
    }
}

/// Checks a request's shape before any backend is touched. The two flags
/// carry the caller's verdicts `zoom > 0` and `max_iter > 0`.
pub fn validate_request(
    width: u32,
    height: u32,
    ss_factor: i32,
    zoom_positive: bool,
    iterations_positive: bool,
) -> (r: Result<(), RenderError>)
    ensures
        r is Ok <==> request_error(
            width,
            height,
            ss_factor,
            zoom_positive,
            iterations_positive,
        ) is None,
        r is Err ==> Some(r->Err_0) == request_error(
            width,
            height,
            ss_factor,
            zoom_positive,
            iterations_positive,
        ),
{
    proof {
        assert(width * height <= u32::MAX * u32::MAX) by (nonlinear_arith)
            requires width <= u32::MAX, height <= u32::MAX;
    }
    if width == 0 {
        Err(RenderError::ZeroWidth)
    } else if height == 0 {
        Err(RenderError::ZeroHeight)
    } else if width as u64 * height as u64 > u32::MAX as u64 {
        Err(RenderError::TooManyPixels)
    } else if ss_factor < 1 {
        Err(RenderError::ZeroSupersample)
    } else if !zoom_positive {
        Err(RenderError::NonPositiveZoom)
    } else if !iterations_positive {
        Err(RenderError::NonPositiveIterations)
    } else {
        Ok(())
    }
}

/// State owned by the render worker across requests: the dimensions that
/// the accelerator's program and output buffer were built for, if any.
pub struct RendererThread {
    device_dims: Option<(u32, u32)>,
}

impl RendererThread {
    /// Dimensions of the cached accelerator program, or `None` before the
    /// first build and after a failed one.
    pub closed spec fn built_for(&self) -> Option<(u32, u32)> {
        self.device_dims
    }

    /// A worker with nothing built yet.
    pub fn new() -> (r: RendererThread)
        ensures
            r.built_for() is None,
    {
        RendererThread { device_dims: None }
    }

    /// Decides what to do with one request: refuse it with its configuration
    /// error, paint it on the host, or run it on the accelerator, rebuilding
    /// the program unless it was built for exactly these dimensions. A
    /// rebuild drops the cached program until `finish_build` records the new
    /// one; nothing else changes the state.
    pub fn plan(
        &mut self,
        width: u32,
        height: u32,
        algorithm: AlgorithmType,
        ss_factor: i32,
        zoom_positive: bool,
        iterations_positive: bool,
    ) -> (r: Result<Dispatch, RenderError>)
        ensures
            r is Err <==> request_error(
                width,
                height,
                ss_factor,
                zoom_positive,
                iterations_positive,
            ) is Some,
            r is Err ==> Some(r->Err_0) == request_error(
                width,
                height,
                ss_factor,
                zoom_positive,
                iterations_positive,
            ),
            r is Ok && algorithm == AlgorithmType::NaiveCPU ==> r->Ok_0 == Dispatch::Host,
            r is Ok && algorithm == AlgorithmType::OpenCL ==> r->Ok_0 == (Dispatch::Device {
                rebuild: old(self).built_for() != Some((width, height)),
            }),
            r == Ok::<Dispatch, RenderError>(Dispatch::Device { rebuild: true })
                ==> final(self).built_for() is None,
            r != Ok::<Dispatch, RenderError>(Dispatch::Device { rebuild: true })
                ==> final(self).built_for() == old(self).built_for(),
    {
        match validate_request(width, height, ss_factor, zoom_positive, iterations_positive) {
            Err(e) => Err(e),
            Ok(()) => match algorithm {
                AlgorithmType::NaiveCPU => Ok(Dispatch::Host),
                AlgorithmType::OpenCL => {
                    let current = match self.device_dims {
                        Some((w, h)) => w == width && h == height,
                        None => false,
                    };
                    if current {
                        Ok(Dispatch::Device { rebuild: false })
                    } else {
                        self.device_dims = None;
                        Ok(Dispatch::Device { rebuild: true })
                    }
                },
            },
        }
    }

    /// Records how building the accelerator program for `width` × `height`
    /// went: on success the program is cached for those dimensions, on
    /// failure nothing is cached and the accelerator's report is passed on.
    pub fn finish_build(&mut self, width: u32, height: u32, outcome: Result<(), String>) -> (r:
        Result<(), RenderError>)
        ensures
            outcome is Ok ==> r is Ok && final(self).built_for() == Some((width, height)),
            outcome is Err ==> r == Err::<(), RenderError>(RenderError::Device(outcome->Err_0))
                && final(self).built_for() is None,
    {
        match outcome {
            Ok(()) => {
                self.device_dims = Some((width, height));
                Ok(())
            },
            Err(report) => {
                self.device_dims = None;
                Err(RenderError::Device(report))
            },
        }
    }
}

impl Default for RendererThread {
    /// Same as `RendererThread::new`.
    fn default() -> (r: RendererThread)
        ensures
            r.built_for() is None,
    {
        RendererThread::new()
    }
}

} // verus!
