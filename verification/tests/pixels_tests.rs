use mdv::pixels::{blend_rect, blend_region, clip_span, copy_rows, draw_ring, fill_rect};

fn pixel(buf: &[u8], w: usize, x: usize, y: usize) -> [u8; 4] {
    let i = (y * w + x) * 4;
    [buf[i], buf[i + 1], buf[i + 2], buf[i + 3]]
}

#[test]
fn fill_rect_paints_only_its_columns_and_rows() {
    let mut buf = vec![0u8; 3 * 2 * 4];
    fill_rect(&mut buf, 3, 0, 2, 1, 3, [10, 20, 30]);
    assert_eq!(pixel(&buf, 3, 0, 0), [0, 0, 0, 0]);
    assert_eq!(pixel(&buf, 3, 1, 0), [10, 20, 30, 255]);
    assert_eq!(pixel(&buf, 3, 2, 1), [10, 20, 30, 255]);
    assert_eq!(pixel(&buf, 3, 0, 1), [0, 0, 0, 0]);
}

#[test]
fn fill_rect_runs_past_the_row_end_into_the_next_row() {
    let mut buf = vec![0u8; 2 * 2 * 4];
    // Columns 1..3 of row 0 in a buffer 2 wide: column 2 is the first pixel of row 1.
    fill_rect(&mut buf, 2, 0, 1, 1, 3, [1, 2, 3]);
    assert_eq!(pixel(&buf, 2, 0, 0), [0, 0, 0, 0]);
    assert_eq!(pixel(&buf, 2, 1, 0), [1, 2, 3, 255]);
    assert_eq!(pixel(&buf, 2, 0, 1), [1, 2, 3, 255]);
    assert_eq!(pixel(&buf, 2, 1, 1), [0, 0, 0, 0]);
}

#[test]
fn fill_rect_leaves_a_partial_last_pixel() {
    let mut buf = vec![7u8; 6];
    fill_rect(&mut buf, 2, 0, 1, 0, 2, [9, 9, 9]);
    assert_eq!(buf, vec![9, 9, 9, 255, 7, 7]);
}

#[test]
fn blend_region_mixes_by_alpha_and_skips_transparent_pixels() {
    let mut dst = vec![0u8; 3 * 1 * 4];
    for p in dst.chunks_mut(4) {
        p.copy_from_slice(&[100, 100, 100, 255]);
    }
    // A source 2 pixels wide: opaque white, then fully transparent.
    let src = vec![255, 255, 255, 255, 0, 0, 0, 0];
    blend_region(&mut dst, 3, 1, &src, 2, 1, 2, 1, 0);
    assert_eq!(pixel(&dst, 3, 0, 0), [100, 100, 100, 255]);
    assert_eq!(pixel(&dst, 3, 1, 0), [255, 255, 255, 255]);
    assert_eq!(pixel(&dst, 3, 2, 0), [100, 100, 100, 255]);
}

#[test]
fn blend_region_half_alpha() {
    let mut dst = vec![0, 0, 0, 0];
    let src = vec![255, 0, 51, 128];
    blend_region(&mut dst, 1, 1, &src, 1, 1, 1, 0, 0);
    // (0 * 127 + 255 * 128) / 255 = 128; (51 * 128) / 255 = 25.
    assert_eq!(dst, vec![128, 0, 25, 255]);
}

#[test]
fn blend_region_drops_what_falls_outside() {
    let mut dst = vec![0u8; 2 * 2 * 4];
    let src = vec![255u8; 2 * 2 * 4];
    // Placed at (1, 1): only its top left pixel lands in the buffer.
    blend_region(&mut dst, 2, 2, &src, 2, 2, 2, 1, 1);
    assert_eq!(pixel(&dst, 2, 1, 1), [255, 255, 255, 255]);
    assert_eq!(pixel(&dst, 2, 0, 1), [0, 0, 0, 0]);
    assert_eq!(pixel(&dst, 2, 1, 0), [0, 0, 0, 0]);
}

#[test]
fn draw_ring_outlines_a_square() {
    let w = 5usize;
    let mut buf = vec![0u8; w * w * 4];
    draw_ring(&mut buf, 5, 5, 0, 0, 5, 5, 0, 1, [7, 8, 9]);
    assert_eq!(pixel(&buf, w, 0, 0), [7, 8, 9, 255]);
    assert_eq!(pixel(&buf, w, 4, 2), [7, 8, 9, 255]);
    assert_eq!(pixel(&buf, w, 2, 2), [0, 0, 0, 0]);
    assert_eq!(pixel(&buf, w, 1, 1), [0, 0, 0, 0]);
}

#[test]
fn draw_ring_skips_rounded_corners() {
    let w = 8usize;
    let mut buf = vec![0u8; w * w * 4];
    draw_ring(&mut buf, 8, 8, 0, 0, 8, 8, 3, 1, [1, 1, 1]);
    assert_eq!(pixel(&buf, w, 0, 0), [0, 0, 0, 0]);
    assert_eq!(pixel(&buf, w, 4, 0), [1, 1, 1, 255]);
}

#[test]
fn blend_rect_tints_its_pixels_only() {
    let mut buf = vec![0u8; 2 * 2 * 4];
    blend_rect(&mut buf, 2, 1, 2, 0, 1, [255, 0, 0], 255);
    assert_eq!(pixel(&buf, 2, 0, 1), [255, 0, 0, 255]);
    assert_eq!(pixel(&buf, 2, 1, 1), [0, 0, 0, 0]);
    assert_eq!(pixel(&buf, 2, 0, 0), [0, 0, 0, 0]);
}

#[test]
fn blend_rect_with_half_opacity() {
    let mut buf = vec![100, 100, 100, 255];
    blend_rect(&mut buf, 1, 0, 1, 0, 1, [200, 0, 100], 128);
    // (100 * 127 + 200 * 128) / 255 = 150; (100 * 127) / 255 = 49; (100 * 127 + 100 * 128) / 255 = 100.
    assert_eq!(buf, vec![150, 49, 100, 255]);
}

#[test]
fn clip_span_keeps_the_visible_part() {
    assert_eq!(clip_span(-3, 5, 10), (0, 2));
    assert_eq!(clip_span(8, 5, 10), (8, 10));
    assert_eq!(clip_span(12, 5, 10), (10, 10));
    assert_eq!(clip_span(-9, 5, 10), (0, 0));
    assert_eq!(clip_span(2, 3, 10), (2, 5));
}

#[test]
fn copy_rows_places_a_block_of_pixels() {
    // A 1x2 source (red over green) copied to column 1 of a 3 wide buffer.
    let src = vec![255, 0, 0, 255, 0, 255, 0, 255];
    let mut dst = vec![0u8; 3 * 2 * 4];
    copy_rows(&mut dst, 3, &src, 1, 2, 1, 1, 0);
    assert_eq!(pixel(&dst, 3, 1, 0), [255, 0, 0, 255]);
    assert_eq!(pixel(&dst, 3, 1, 1), [0, 255, 0, 255]);
    assert_eq!(pixel(&dst, 3, 0, 0), [0, 0, 0, 0]);
}

#[test]
fn copy_rows_skips_a_row_that_does_not_fit() {
    let src = vec![9u8; 2 * 4];
    let mut dst = vec![0u8; 2 * 4];
    // Rows placed from row 1 of a one-row buffer do not fit.
    copy_rows(&mut dst, 2, &src, 2, 1, 2, 0, 1);
    assert_eq!(dst, vec![0u8; 8]);
}

#[test]
fn opaque_tint_is_a_fill_and_transparent_tint_keeps_colors() {
    let start = vec![10, 20, 30, 40, 50, 60, 70, 80];
    let mut tinted = start.clone();
    blend_rect(&mut tinted, 2, 0, 1, 0, 2, [1, 2, 3], 255);
    let mut filled = start.clone();
    fill_rect(&mut filled, 2, 0, 1, 0, 2, [1, 2, 3]);
    assert_eq!(tinted, filled);

    let mut clear = start.clone();
    blend_rect(&mut clear, 2, 0, 1, 0, 2, [1, 2, 3], 0);
    assert_eq!(clear, vec![10, 20, 30, 255, 50, 60, 70, 255]);
}
