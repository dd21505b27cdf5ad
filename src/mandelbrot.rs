use vstd::prelude::*;

verus! {

/// The backends a render request can be sent to.
#[derive(Clone, Copy, Debug, PartialEq, Eq, Structural)]
pub enum AlgorithmType {
    /// Chunks of the pixel grid painted on the host's thread pool.
    NaiveCPU,
    /// One kernel invocation per pixel on an accelerator.
    OpenCL,
}

/// Column of the pixel stored at flat index `i` of a row-major picture.
pub open spec fn column_of(i: int, width: int) -> int {
    i % width
}

/// Row of the pixel stored at flat index `i` of a row-major picture.
pub open spec fn row_of(i: int, width: int) -> int {
    i / width
}

/// Flat index of the pixel at column `x`, row `y` of a row-major picture.
pub open spec fn index_of(x: int, y: int, width: int) -> int {
    y * width + x
}

/// Coordinates `(x, y)` of the pixel at flat index `i` in a picture `width` pixels wide.
pub fn pixel_coords(i: u32, width: u32) -> (r: (u32, u32))
    requires
        width > 0,
    ensures
        r.0 == column_of(i as int, width as int),
        r.1 == row_of(i as int, width as int),
        r.0 < width,
{
    (i % width, i / width)
}

/// Flat index of the pixel at `(x, y)` in a picture `width` pixels wide.
pub fn pixel_index(x: u32, y: u32, width: u32) -> (r: u32)
    requires
        x < width,
        index_of(x as int, y as int, width as int) <= u32::MAX,
    ensures
        r == index_of(x as int, y as int, width as int),
{
    proof {
        assert(0 <= y * width <= y * width + x) by (nonlinear_arith)
            requires x < width;
    }
    y * width + x
}

/// Flat indices and pixel coordinates are inverse to each other: an index
/// taken to its coordinates and back is unchanged, and coordinates inside
/// the row width taken to their index and back are unchanged.
pub proof fn lemma_pixel_index_round_trip(i: int, x: int, y: int, width: int)
    requires
        width > 0,
        i >= 0,
        0 <= x < width,
        y >= 0,
    ensures
        index_of(column_of(i, width), row_of(i, width), width) == i,
        column_of(index_of(x, y, width), width) == x,
        row_of(index_of(x, y, width), width) == y,
{
    vstd::arithmetic::div_mod::lemma_fundamental_div_mod(i, width);
    vstd::arithmetic::mul::lemma_mul_is_commutative(i / width, width);
    vstd::arithmetic::div_mod::lemma_fundamental_div_mod_converse(
        index_of(x, y, width),
        width,
        y,
        x,
    );
}

/// The sub-pixel sample offsets of one pixel under a supersampling factor:
/// entry `k` is `(u, v)` with `u = k / factor` and `v = k % factor`, each in
/// `[0, factor)`, so the sample at `(x + u / factor, y + v / factor)` comes
/// with `u` in the outer and `v` in the inner position.
pub open spec fn sample_offset(k: int, factor: int) -> (int, int) {
    (k / factor, k % factor)
}

/// All `factor * factor` sample offsets of a pixel, in the order they are averaged.
pub fn sample_grid(factor: u32) -> (r: Vec<(u32, u32)>)
    requires
        factor >= 1,
        factor * factor <= usize::MAX,
    ensures
        r.len() == factor * factor,
        forall|k: int|
            0 <= k < r.len() ==> ((#[trigger] r[k]).0 as int, r[k].1 as int) == sample_offset(
                k,
                factor as int,
            ),
{
    let mut r: Vec<(u32, u32)> = Vec::new();
    let mut u: u32 = 0;
    while u < factor
        invariant
            u <= factor,
            factor >= 1,
            r.len() == u * factor,
            factor * factor <= usize::MAX,
            forall|k: int|
                0 <= k < r.len() ==> ((#[trigger] r[k]).0 as int, r[k].1 as int)
                    == sample_offset(k, factor as int),
        decreases factor - u,
    {
        let mut v: u32 = 0;
        while v < factor
            invariant
                u < factor,
                v <= factor,
                factor >= 1,
                r.len() == u * factor + v,
                factor * factor <= usize::MAX,
                forall|k: int|
                    0 <= k < r.len() ==> ((#[trigger] r[k]).0 as int, r[k].1 as int)
                        == sample_offset(k, factor as int),
            decreases factor - v,
        {
            proof {
                assert(u * factor + v < factor * factor) by (nonlinear_arith)
                    requires u < factor, v < factor;
                vstd::arithmetic::div_mod::lemma_fundamental_div_mod_converse(
                    (u * factor + v) as int,
                    factor as int,
                    u as int,
                    v as int,
                );
            }
            r.push((u, v));
            v = v + 1;
        }
        proof {
            assert(u * factor + factor == (u + 1) * factor) by (nonlinear_arith);
        }
        u = u + 1;
    }
    r
}

} // verus!
