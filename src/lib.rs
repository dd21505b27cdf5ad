//! Escape-time fractal rendering: the integer skeleton of the render pipeline.
//!
//! The library decides how a picture is laid out in memory, how its pixels
//! are split into chunks and painted in parallel, how the supersampling grid
//! of a pixel is enumerated, and what the render worker does with each
//! request. The per-sample arithmetic (plane mapping, escape time, colour) is
//! handed in by the caller as a pixel function.
mod mandelbrot;
mod naive_cpu;
mod renderer;

pub use mandelbrot::{
    column_of, index_of, lemma_pixel_index_round_trip, pixel_coords, pixel_index, row_of,
    sample_grid, sample_offset, AlgorithmType,
};
pub use naive_cpu::{
    accepts_grid, calculate_region, chunk_bounds, chunk_count, chunk_ranges, generate_image,
    is_deterministic, lemma_paints_deterministic, paints, pixel_at, render_chunked, PIXEL_CHUNK,
};
pub use renderer::{request_error, validate_request, Dispatch, RenderError, RendererThread};
