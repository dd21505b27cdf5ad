use rayon::iter::{IndexedParallelIterator, IntoParallelIterator, ParallelIterator};
use vstd::prelude::*;

use crate::mandelbrot::{column_of, row_of};

verus! {

/// Number of consecutive flat pixel indices painted by one task of the pool.
pub const PIXEL_CHUNK: u32 = 10000;

/// Coordinates handed to the pixel function for flat index `i`.
pub open spec fn pixel_at(i: int, width: int) -> (u32, u32) {
    (column_of(i, width) as u32, row_of(i, width) as u32)
}

/// `pixel` may be called on every pixel of a `width` × `height` grid.
pub open spec fn accepts_grid<F: Fn(u32, u32) -> [u8; 3]>(pixel: &F, width: u32, height: u32) -> bool {
    forall|x: u32, y: u32| x < width && y < height ==> #[trigger] pixel.requires((x, y))
}

/// `img` is a row-major `width` × `height` picture whose every entry is an
/// answer of `pixel` on that entry's coordinates.
pub open spec fn paints<F: Fn(u32, u32) -> [u8; 3]>(
    pixel: &F,
    width: u32,
    height: u32,
    img: Seq<[u8; 3]>,
) -> bool {
    &&& img.len() == width * height
    &&& forall|i: int|
        0 <= i < img.len() ==> pixel.ensures(pixel_at(i, width as int), #[trigger] img[i])
}

/// `pixel` answers each coordinate pair with at most one colour.
pub open spec fn is_deterministic<F: Fn(u32, u32) -> [u8; 3]>(pixel: &F) -> bool {
    forall|x: u32, y: u32, a: [u8; 3], b: [u8; 3]|
        #![trigger pixel.ensures((x, y), a), pixel.ensures((x, y), b)]
        pixel.ensures((x, y), a) && pixel.ensures((x, y), b) ==> a == b
}

/// Number of chunks of `chunk` indices needed to cover `[0, total)`.
pub open spec fn chunk_count(total: int, chunk: int) -> int {
    (total + chunk - 1) / chunk
}

/// Half-open index range of chunk `k` when `[0, total)` is cut into chunks of `chunk`.
pub open spec fn chunk_bounds(k: int, chunk: int, total: int) -> (int, int) {
    (k * chunk, if k * chunk + chunk <= total { k * chunk + chunk } else { total })
}

/// A pixel inside the picture lies on a row inside the picture.
proof fn lemma_row_in_grid(i: int, width: int, height: int)
    requires
        width > 0,
        0 <= i < width * height,
    ensures
        0 <= row_of(i, width) < height,
        0 <= column_of(i, width) < width,
{
    vstd::arithmetic::div_mod::lemma_fundamental_div_mod(i, width);
    let q = i / width;
    let r = i % width;
    assert(0 <= q < height) by (nonlinear_arith)
        requires
            i == width * q + r,
            0 <= r < width,
            0 <= i < width * height,
            width > 0,
    ;
}

/// How many chunks cover `[0, total)`, and where the last one ends.
proof fn lemma_chunk_count(total: int, chunk: int)
    requires
        total >= 0,
        chunk > 0,
    ensures
        total == 0 ==> chunk_count(total, chunk) == 0,
        total > 0 ==> chunk_count(total, chunk) > 0,
        total > 0 ==> (chunk_count(total, chunk) - 1) * chunk < total,
        total <= chunk_count(total, chunk) * chunk,
{
    let n = chunk_count(total, chunk);
    vstd::arithmetic::div_mod::lemma_fundamental_div_mod(total + chunk - 1, chunk);
    let r = (total + chunk - 1) % chunk;
    assert(total + chunk - 1 == n * chunk + r) by (nonlinear_arith)
        requires
            total + chunk - 1 == chunk * ((total + chunk - 1) / chunk) + r,
            n == (total + chunk - 1) / chunk,
    ;
    assert(n * chunk - chunk == (n - 1) * chunk) by (nonlinear_arith);
    if total > 0 {
        assert(n > 0) by (nonlinear_arith)
            requires
                total + chunk - 1 == n * chunk + r,
                0 <= r < chunk,
                total > 0,
        ;
    } else {
        assert(0 * chunk == 0);
        vstd::arithmetic::div_mod::lemma_fundamental_div_mod_converse(chunk - 1, chunk, 0, chunk - 1);
    }
}

/// Chunks before the last start, and end, a whole chunk further on.
proof fn lemma_inner_chunk(k: int, chunk: int, total: int)
    requires
        chunk > 0,
        0 <= k,
        k + 1 < chunk_count(total, chunk),
        total >= 0,
    ensures
        k * chunk + chunk < total,
        k * chunk + chunk == (k + 1) * chunk,
{
    lemma_chunk_count(total, chunk);
    let n = chunk_count(total, chunk);
    assert(k * chunk + chunk <= (n - 1) * chunk) by (nonlinear_arith)
        requires k + 1 <= n - 1, chunk > 0;
    assert(k * chunk + chunk == (k + 1) * chunk) by (nonlinear_arith);
}

/// Relies on rayon: `Vec::into_par_iter().map(f)` is an indexed parallel
/// iterator, and `collect_into_vec` leaves in position `k` the answer of `f`
/// on item `k`, whichever thread of the pool computed it.
#[verifier::external_body]
fn par_map<T: Send, U: Send, F: Fn(T) -> U + Sync + Send>(items: Vec<T>, f: F) -> (r: Vec<U>)
    requires
        forall|k: int| 0 <= k < items.len() ==> f.requires((#[trigger] items[k],)),
    ensures
        r.len() == items.len(),
        forall|k: int| 0 <= k < items.len() ==> f.ensures((items[k],), #[trigger] r[k]),
{
    let mut r = Vec::new();
    items.into_par_iter().map(f).collect_into_vec(&mut r);
    r
}

/// Cuts `[0, total)` into consecutive half-open ranges of `chunk` indices,
/// the last one possibly shorter.
pub fn chunk_ranges(total: u32, chunk: u32) -> (r: Vec<(u32, u32)>)
    requires
        chunk > 0,
    ensures
        r.len() == chunk_count(total as int, chunk as int),
        forall|k: int|
            0 <= k < r.len() ==> ((#[trigger] r[k]).0 as int, r[k].1 as int) == chunk_bounds(
                k,
                chunk as int,
                total as int,
            ),
{
    let mut r: Vec<(u32, u32)> = Vec::new();
    let mut start: u32 = 0;
    proof {
        assert(0 * chunk == 0);
    }
    while start < total
        invariant
            chunk > 0,
            start <= total,
            start < total ==> start == r.len() * chunk,
            start <= r.len() * chunk,
            r.len() > 0 ==> (r.len() - 1) * chunk < start,
            r.len() == 0 ==> start == 0,
            forall|k: int|
                0 <= k < r.len() ==> ((#[trigger] r[k]).0 as int, r[k].1 as int)
                    == chunk_bounds(k, chunk as int, total as int),
        decreases total - start,
    {
        let end: u32 = if total - start <= chunk {
            total
        } else {
            start + chunk
        };
        proof {
            assert(r.len() * chunk + chunk == (r.len() + 1) * chunk) by (nonlinear_arith);
        }
        r.push((start, end));
        start = end;
    }
    proof {
        let n = r.len() as int;
        let c = chunk as int;
        if n > 0 {
            assert(n * c - c == (n - 1) * c) by (nonlinear_arith);
            vstd::arithmetic::div_mod::lemma_fundamental_div_mod_converse(
                total + c - 1,
                c,
                n,
                total + c - 1 - n * c,
            );
        } else {
            vstd::arithmetic::div_mod::lemma_fundamental_div_mod_converse(c - 1, c, 0, c - 1);
        }
    }
    r
}

/// Paints the flat indices `[start, end)` of a picture `width` pixels wide,
/// one call of `pixel` per index, in index order.
pub fn calculate_region<F: Fn(u32, u32) -> [u8; 3]>(
    start: u32,
    end: u32,
    width: u32,
    height: u32,
    pixel: &F,
) -> (r: Vec<[u8; 3]>)
    requires
        start <= end <= width * height,
        accepts_grid(pixel, width, height),
    ensures
        r.len() == end - start,
        forall|j: int|
            0 <= j < r.len() ==> pixel.ensures(
                pixel_at(start + j, width as int),
                #[trigger] r[j],
            ),
{
    let mut pixels: Vec<[u8; 3]> = Vec::new();
    let mut i: u32 = start;
    while i < end
        invariant
            start <= i <= end <= width * height,
            accepts_grid(pixel, width, height),
            pixels.len() == i - start,
            forall|j: int|
                0 <= j < pixels.len() ==> pixel.ensures(
                    pixel_at(start + j, width as int),
                    #[trigger] pixels[j],
                ),
        decreases end - i,
    {
        proof {
            assert(width > 0) by (nonlinear_arith)
                requires i < width * height, width >= 0, height >= 0;
            lemma_row_in_grid(i as int, width as int, height as int);
        }
        let x = i % width;
        let y = i / width;
        let c = pixel(x, y);
        pixels.push(c);
        i = i + 1;
    }
    pixels
}

/// Paints a `width` × `height` picture, cutting its flat index range into
/// chunks of `chunk` indices that the thread pool paints independently, and
/// joining their pixels back in index order. The picture does not depend on
/// `chunk` or on how the pool schedules the chunks.
pub fn render_chunked<F: Fn(u32, u32) -> [u8; 3] + Sync>(
    width: u32,
    height: u32,
    chunk: u32,
    pixel: &F,
) -> (r: Vec<[u8; 3]>)
    requires
        chunk > 0,
        width * height <= u32::MAX,
        accepts_grid(pixel, width, height),
    ensures
        paints(pixel, width, height, r@),
{
    let total: u32 = width * height;
    let ranges = chunk_ranges(total, chunk);
    let job = move |range: (u32, u32)| -> (out: Vec<[u8; 3]>)
        requires
            range.0 <= range.1 <= width * height,
            accepts_grid(pixel, width, height),
        ensures
            out.len() == range.1 - range.0,
            forall|j: int|
                0 <= j < out.len() ==> pixel.ensures(
                    pixel_at(range.0 + j, width as int),
                    #[trigger] out[j],
                ),
        { calculate_region(range.0, range.1, width, height, pixel) };
    proof {
        assert forall|k: int| 0 <= k < ranges.len() implies job.requires(
            (#[trigger] ranges[k],),
        ) by {
            lemma_chunk_count(total as int, chunk as int);
            if k + 1 < ranges.len() {
                lemma_inner_chunk(k, chunk as int, total as int);
            } else {
                assert(k * chunk <= (ranges.len() - 1) * chunk) by (nonlinear_arith)
                    requires k <= ranges.len() - 1, chunk > 0;
            }
        }
    }
    let ghost spans = ranges@;
    let regions = par_map(ranges, job);
    let ghost n = spans.len();
    proof {
        assert forall|m: int| 0 <= m < n implies (#[trigger] regions[m]).len() == spans[m].1
            - spans[m].0 && forall|j: int|
            0 <= j < regions[m].len() ==> pixel.ensures(
                pixel_at(spans[m].0 + j, width as int),
                #[trigger] regions[m][j],
            ) by {
            assert(job.ensures((spans[m],), regions[m]));
        }
    }
    let mut img: Vec<[u8; 3]> = Vec::new();
    let mut k: usize = 0;
    proof {
        lemma_chunk_count(total as int, chunk as int);
    }
    while k < regions.len()
        invariant
            k <= regions.len() == n == chunk_count(total as int, chunk as int),
            chunk > 0,
            total == width * height,
            total > 0 ==> (n - 1) * chunk < total,
            total <= n * chunk,
            forall|m: int|
                0 <= m < n ==> ((#[trigger] spans[m]).0 as int, spans[m].1 as int)
                    == chunk_bounds(m, chunk as int, total as int),
            forall|m: int|
                0 <= m < n ==> (#[trigger] regions[m]).len() == spans[m].1 - spans[m].0
                    && forall|j: int|
                    0 <= j < regions[m].len() ==> pixel.ensures(
                        pixel_at(spans[m].0 + j, width as int),
                        #[trigger] regions[m][j],
                    ),
            img.len() == if k < n {
                k * chunk
            } else {
                total as int
            },
            forall|i: int|
                0 <= i < img.len() ==> pixel.ensures(pixel_at(i, width as int), #[trigger] img[i]),
        decreases n - k,
    {
        let region = &regions[k];
        let ghost base = img.len();
        let mut j: usize = 0;
        while j < region.len()
            invariant
                k < n,
                j <= region.len() == spans[k as int].1 - spans[k as int].0,
                base == k * chunk,
                spans[k as int].0 == k * chunk,
                img.len() == base + j,
                forall|jj: int|
                    0 <= jj < region.len() ==> pixel.ensures(
                        pixel_at(spans[k as int].0 + jj, width as int),
                        #[trigger] region[jj],
                    ),
                forall|i: int|
                    0 <= i < img.len() ==> pixel.ensures(pixel_at(i, width as int), #[trigger] img[i]),
            decreases region.len() - j,
        {
            img.push(region[j]);
            j = j + 1;
        }
        proof {
            if k + 1 < n {
                lemma_inner_chunk(k as int, chunk as int, total as int);
            } else {
                assert(k * chunk + chunk == n * chunk) by (nonlinear_arith)
                    requires k + 1 == n;
            }
        }
        k = k + 1;
    }
    img
}

/// Paints a `width` × `height` picture on the host's thread pool, in chunks
/// of `PIXEL_CHUNK` flat indices.
pub fn generate_image<F: Fn(u32, u32) -> [u8; 3] + Sync>(
    width: u32,
    height: u32,
    pixel: &F,
) -> (r: Vec<[u8; 3]>)
    requires
        width * height <= u32::MAX,
        accepts_grid(pixel, width, height),
    ensures
        paints(pixel, width, height, r@),
{
    render_chunked(width, height, PIXEL_CHUNK, pixel)
}

/// A picture is determined by its pixel function: where that function gives
/// one colour per coordinate pair, any two pictures it paints on the same
/// grid are equal, whatever chunk size or thread schedule produced them.
pub proof fn lemma_paints_deterministic<F: Fn(u32, u32) -> [u8; 3]>(
    pixel: &F,
    width: u32,
    height: u32,
    a: Seq<[u8; 3]>,
    b: Seq<[u8; 3]>,
)
    requires
        is_deterministic(pixel),
        paints(pixel, width, height, a),
        paints(pixel, width, height, b),
    ensures
        a == b,
{
    assert forall|i: int| 0 <= i < a.len() implies a[i] == b[i] by {
        assert(pixel.ensures(pixel_at(i, width as int), a[i]));
        assert(pixel.ensures(pixel_at(i, width as int), b[i]));
    }
    assert(a =~= b);
}

} // verus!
