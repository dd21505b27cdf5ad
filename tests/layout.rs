use brot_rs::{chunk_ranges, pixel_coords, pixel_index, sample_grid, PIXEL_CHUNK};

#[test]
fn pixel_coords_are_row_major() {
    assert_eq!(pixel_coords(0, 4), (0, 0));
    assert_eq!(pixel_coords(3, 4), (3, 0));
    assert_eq!(pixel_coords(4, 4), (0, 1));
    assert_eq!(pixel_coords(10, 4), (2, 2));
    assert_eq!(pixel_coords(15, 4), (3, 3));
}

#[test]
fn pixel_index_inverts_pixel_coords() {
    for width in 1..7u32 {
        for i in 0..60u32 {
            let (x, y) = pixel_coords(i, width);
            assert_eq!(pixel_index(x, y, width), i);
        }
    }
    assert_eq!(pixel_index(2, 2, 4), 10);
    assert_eq!(pixel_index(1919, 1079, 1920), 1920 * 1080 - 1);
}

#[test]
fn single_sample_grid_is_the_pixel_corner() {
    assert_eq!(sample_grid(1), vec![(0, 0)]);
}

#[test]
fn sample_grid_orders_u_outer_v_inner() {
    assert_eq!(
        sample_grid(3),
        vec![(0, 0), (0, 1), (0, 2), (1, 0), (1, 1), (1, 2), (2, 0), (2, 1), (2, 2)]
    );
    assert_eq!(sample_grid(32).len(), 1024);
}

#[test]
fn chunk_ranges_cover_the_index_space() {
    assert_eq!(chunk_ranges(25, 10), vec![(0, 10), (10, 20), (20, 25)]);
    assert_eq!(chunk_ranges(20, 10), vec![(0, 10), (10, 20)]);
    assert_eq!(chunk_ranges(3, 10), vec![(0, 3)]);
    assert_eq!(chunk_ranges(0, 10), vec![]);
    assert_eq!(chunk_ranges(5, 1), vec![(0, 1), (1, 2), (2, 3), (3, 4), (4, 5)]);
}

#[test]
fn chunk_ranges_near_the_index_limit() {
    let r = chunk_ranges(u32::MAX, u32::MAX - 1);
    assert_eq!(r, vec![(0, u32::MAX - 1), (u32::MAX - 1, u32::MAX)]);
}

#[test]
fn default_chunk_of_a_full_hd_picture() {
    let r = chunk_ranges(1920 * 1080, PIXEL_CHUNK);
    assert_eq!(r.len(), 208);
    assert_eq!(r[0], (0, 10000));
    assert_eq!(r[207], (2_070_000, 2_073_600));
}
