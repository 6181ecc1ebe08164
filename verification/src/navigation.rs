//! The arithmetic of the rendered view: pixels and terminal rows, image ids
//! and chunks of tall block images, what a mouse position points at, the
//! scroll position as a percentage, and moving between search matches.

use vstd::prelude::*;
use crate::terminal::{MAX_IMAGE_ROWS, PngEncodeError, Terminal, transmit_commands, png_fast_sub};
use crate::text::{decimal, push_char, push_decimal, push_decimal_usize};
use crate::viewport::{ViewportState, highlighted_blocks};
use std::collections::HashSet;

verus! {

/// `a / b` rounded up.
pub open spec fn div_ceil(a: nat, b: nat) -> nat
    recommends
        b > 0,
{
    ((a + b - 1) / b as int) as nat
}

/// The terminal rows that `pixels` rows of pixels take, rounded up; none when
/// the cell height is unknown (zero).
pub open spec fn rows_of(pixels: nat, cell_h: nat) -> nat {
    if cell_h == 0 {
        0
    } else {
        div_ceil(pixels, cell_h)
    }
}

/// The terminal rows that `pixels` rows of pixels take, rounded up.
pub fn pixel_to_rows(pixels: u32, cell_h: u16) -> (r: u32)
    ensures
        r == rows_of(pixels as nat, cell_h as nat),
{
    if cell_h == 0 {
        return 0;
    }
    let r = (pixels as u64 + cell_h as u64 - 1) / cell_h as u64;
    assert(r <= pixels) by (nonlinear_arith)
        requires
            r == (pixels + cell_h - 1) / (cell_h as int),
            cell_h >= 1,
    {
        assert((pixels + cell_h - 1) < (pixels + 1) * cell_h);
    }
    r as u32
}

/// The height of a block image once padded to whole terminal rows (images
/// are shown in whole rows); unchanged when the cell height is unknown.
pub fn padded_height(raw_h: u32, cell_h: u16) -> (r: u32)
    requires
        cell_h > 0 ==> raw_h + cell_h - 1 <= u32::MAX,
    ensures
        r == if cell_h == 0 {
            raw_h as nat
        } else {
            rows_of(raw_h as nat, cell_h as nat) * (cell_h as nat)
        },
        r >= raw_h,
{
    if cell_h == 0 {
        return raw_h;
    }
    let rows = pixel_to_rows(raw_h, cell_h);
    assert(rows * cell_h >= raw_h && rows * cell_h <= raw_h + cell_h - 1) by (nonlinear_arith)
        requires
            rows == (raw_h + cell_h - 1) / (cell_h as int),
            cell_h >= 1,
    ;
    rows * cell_h as u32
}

/// The image id of a chunk of a block's image: unique per block and chunk.
pub open spec fn image_id(block_idx: nat, chunk: nat) -> nat {
    (block_idx + 1) * 1000 + chunk
}

/// Image ID for a block chunk. Block i, chunk c → unique ID.
pub fn block_image_id(block_idx: usize, chunk: u32) -> (r: u32)
    requires
        image_id(block_idx as nat, chunk as nat) <= u32::MAX,
    ensures
        r == image_id(block_idx as nat, chunk as nat),
{
    assert((block_idx + 1) * 1000 <= u32::MAX);
    (block_idx as u32 + 1) * 1000 + chunk
}

/// The chunks that an image of `image_height` pixels is cut into: one per
/// `MAX_IMAGE_ROWS` terminal rows.
pub open spec fn chunk_count(image_height: nat, cell_h: nat) -> nat {
    div_ceil(rows_of(image_height, cell_h), MAX_IMAGE_ROWS as nat)
}

/// Number of chunks needed for an image of given height.
pub fn block_chunk_count(image_height: u32, cell_h: u16) -> (r: u32)
    ensures
        r == chunk_count(image_height as nat, cell_h as nat),
{
    let image_rows = pixel_to_rows(image_height, cell_h) as u64;
    ((image_rows + MAX_IMAGE_ROWS as u64 - 1) / MAX_IMAGE_ROWS as u64) as u32
}

/// The pixel rows `[start, end)` of chunk `c` of an image.
pub open spec fn chunk_rows(c: nat, height: nat, cell_h: nat) -> (nat, nat) {
    let max_chunk_px: nat = MAX_IMAGE_ROWS as nat * cell_h;
    let end: nat = (c + 1) * max_chunk_px;
    ((c * max_chunk_px) as nat, if end <= height {
        end
    } else {
        height
    })
}

/// The commands that send chunks `c` and on of a block image, up to the
/// first chunk that the encoder refuses.
pub open spec fn block_image_commands(
    block_idx: nat,
    rgba: Seq<u8>,
    width: u32,
    height: u32,
    cell_h: u16,
    c: nat,
) -> Seq<char>
    decreases chunk_count(height as nat, cell_h as nat) - c,
{
    if c >= chunk_count(height as nat, cell_h as nat) {
        seq![]
    } else {
        let (y0, y1) = chunk_rows(c, height as nat, cell_h as nat);
        let bytes = rgba.subrange(y0 * width * 4, y1 * width * 4);
        let png = png_fast_sub(bytes, width, (y1 - y0) as u32);
        if png is None {
            seq![]
        } else {
            transmit_commands(png->0, image_id(block_idx, c) as u32, width, (y1 - y0) as u32) + block_image_commands(
                block_idx,
                rgba,
                width,
                height,
                cell_h,
                c + 1,
            )
        }
    }
}

/// Whether the encoder takes every chunk of a block image from chunk `c` on.
pub open spec fn block_chunks_encode(rgba: Seq<u8>, width: u32, height: u32, cell_h: u16, c: nat) -> bool
    decreases chunk_count(height as nat, cell_h as nat) - c,
{
    if c >= chunk_count(height as nat, cell_h as nat) {
        true
    } else {
        let (y0, y1) = chunk_rows(c, height as nat, cell_h as nat);
        png_fast_sub(rgba.subrange(y0 * width * 4, y1 * width * 4), width, (y1 - y0) as u32) is Some
            && block_chunks_encode(rgba, width, height, cell_h, c + 1)
    }
}


/// Transmit a block image, splitting into chunks if taller than
/// `MAX_IMAGE_ROWS` rows; stops at the first chunk that the encoder refuses.
pub fn transmit_block_image(
    term: &mut Terminal,
    block_idx: usize,
    rgba: &[u8],
    width: u32,
    height: u32,
    cell_h: u16,
) -> (r: Result<(), PngEncodeError>)
    requires
        rgba@.len() >= width * height * 4,
        height + MAX_IMAGE_ROWS * cell_h <= u32::MAX,
        image_id(block_idx as nat, chunk_count(height as nat, cell_h as nat)) <= u32::MAX,
    ensures
        r is Ok <==> block_chunks_encode(rgba@, width, height, cell_h, 0),
        final(term).output() == old(term).output() + block_image_commands(block_idx as nat, rgba@, width, height, cell_h, 0),
        final(term).cols == old(term).cols,
        final(term).rows == old(term).rows,
        final(term).cell_width == old(term).cell_width,
        final(term).cell_height == old(term).cell_height,
{
    let max_chunk_px = MAX_IMAGE_ROWS * cell_h as u32;
    let chunks = block_chunk_count(height, cell_h);
    let ghost start = term.output();
    let mut c: u32 = 0;
    while c < chunks
        invariant
            c <= chunks,
            start == old(term).output(),
            chunks == chunk_count(height as nat, cell_h as nat),
            max_chunk_px == MAX_IMAGE_ROWS * cell_h,
            rgba@.len() >= width * height * 4,
            height + MAX_IMAGE_ROWS * cell_h <= u32::MAX,
            image_id(block_idx as nat, chunks as nat) <= u32::MAX,
            block_chunks_encode(rgba@, width, height, cell_h, 0) == block_chunks_encode(rgba@, width, height, cell_h, c as nat),
            start + block_image_commands(block_idx as nat, rgba@, width, height, cell_h, 0) == term.output()
                + block_image_commands(block_idx as nat, rgba@, width, height, cell_h, c as nat),
            term.cols == old(term).cols,
            term.rows == old(term).rows,
            term.cell_width == old(term).cell_width,
            term.cell_height == old(term).cell_height,
        decreases chunks - c,
    {
        proof {
            assert(cell_h > 0) by {
                if cell_h == 0 {
                    assert(rows_of(height as nat, 0) == 0);
                    assert(chunks == 0);
                }
            }
            assert(c * max_chunk_px < height) by (nonlinear_arith)
                requires
                    c < chunks,
                    chunks == ((((height + cell_h - 1) / (cell_h as int)) as nat + 10 - 1) / 10int),
                    max_chunk_px == 10 * cell_h,
                    cell_h > 0,
            {
                let rows = (height + cell_h - 1) / (cell_h as int);
                assert(c * 10 < rows);
                assert(rows * cell_h <= height + cell_h - 1);
                assert((c * 10 + 1) * cell_h <= rows * cell_h);
            }
        }
        assert((c + 1) * max_chunk_px == c * max_chunk_px + max_chunk_px) by (nonlinear_arith);
        let y_start = c * max_chunk_px;
        let y_end = if (c + 1) * max_chunk_px <= height {
            (c + 1) * max_chunk_px
        } else {
            height
        };
        let chunk_h = y_end - y_start;
        assert(y_end * width * 4 <= rgba@.len()) by (nonlinear_arith)
            requires
                y_end <= height,
                rgba@.len() >= width * height * 4,
        ;
        assert(y_start * width * 4 <= y_end * width * 4) by (nonlinear_arith)
            requires
                y_start <= y_end,
        ;
        let total_len = rgba.len();
        assert(width * 4 <= rgba@.len()) by (nonlinear_arith)
            requires
                height >= 1,
                rgba@.len() >= width * height * 4,
        ;
        assert(y_end * (width * 4) == y_end * width * 4 && y_start * (width * 4) == y_start * width * 4) by (nonlinear_arith);
        let row_bytes = width as usize * 4;
        let begin = y_start as usize * row_bytes;
        let end = y_end as usize * row_bytes;
        let chunk_data = &rgba[begin..end];
        assert(chunk_data@.len() == width * chunk_h * 4) by (nonlinear_arith)
            requires
                chunk_data@.len() == y_end * width * 4 - y_start * width * 4,
                chunk_h == y_end - y_start,
        ;
        proof {
            assert(image_id(block_idx as nat, c as nat) <= image_id(block_idx as nat, chunks as nat));
        }
        let id = block_image_id(block_idx, c);
        let ghost before = term.output();
        let sent = term.transmit_virtual(id, chunk_data, width, chunk_h);
        if sent.is_err() {
            proof {
                assert(chunk_rows(c as nat, height as nat, cell_h as nat) == (y_start as nat, y_end as nat));
                assert(chunk_data@ == rgba@.subrange(y_start * width * 4, y_end * width * 4));
                assert(block_image_commands(block_idx as nat, rgba@, width, height, cell_h, c as nat) =~= Seq::<char>::empty());
                assert(term.output() =~= term.output() + Seq::<char>::empty());
                assert(start + block_image_commands(block_idx as nat, rgba@, width, height, cell_h, 0) == term.output());
            }
            return Err(PngEncodeError);
        }
        c = c + 1;
    }
    Ok(())
}


/// The block under a mouse cell, and the cell's center in pixels: across the
/// content (after the left margin) and down from the block's top.
pub fn mouse_to_block(
    mouse_row: u16,
    mouse_column: u16,
    scroll_row: u32,
    cell_h: u16,
    margin_cols: u16,
    cell_w: u16,
    viewport: &ViewportState,
) -> (r: (usize, u32, u32))
    requires
        viewport.wf(),
        scroll_row * cell_h + mouse_row * cell_h + cell_h / 2 <= u32::MAX,
    ensures
        ({
            let pixel_y = scroll_row * cell_h + mouse_row * cell_h + cell_h / 2;
            let col = if mouse_column >= margin_cols {
                mouse_column - margin_cols
            } else {
                0
            };
            &&& r.1 == col * cell_w + cell_w / 2
            &&& viewport.block_offsets.len() == 0 ==> r.0 == 0
            &&& viewport.block_offsets.len() > 0 ==> r.0 < viewport.block_offsets.len()
            &&& (r.0 == 0 || viewport.top(r.0 as int) <= pixel_y)
            &&& forall|k: int| r.0 < k < viewport.block_offsets.len() ==> viewport.top(k) > pixel_y
            &&& r.2 == if r.0 < viewport.block_offsets.len() && viewport.top(r.0 as int) <= pixel_y {
                pixel_y - viewport.top(r.0 as int)
            } else if r.0 < viewport.block_offsets.len() {
                0
            } else {
                pixel_y
            }
        }),
{
    let ch = cell_h as u32;
    assert(scroll_row * cell_h <= u32::MAX && mouse_row * cell_h <= u32::MAX) by (nonlinear_arith)
        requires
            scroll_row * cell_h + mouse_row * cell_h + cell_h / 2 <= u32::MAX,
            scroll_row >= 0,
            mouse_row >= 0,
            cell_h >= 0,
    ;
    let scroll_px = scroll_row * ch;
    let pixel_y = scroll_px + mouse_row as u32 * ch + ch / 2;
    let col: u32 = if mouse_column >= margin_cols {
        (mouse_column - margin_cols) as u32
    } else {
        0
    };
    assert(col * cell_w <= 0xFFFF * 0xFFFF) by (nonlinear_arith)
        requires
            col <= 0xFFFF,
            cell_w <= 0xFFFF,
    ;
    let pixel_x = col * cell_w as u32 + cell_w as u32 / 2;
    let block_idx = viewport.block_at_pixel(pixel_y);
    let block_top = if block_idx < viewport.block_offsets.len() {
        viewport.block_offsets[block_idx]
    } else {
        0
    };
    let rel_y = if pixel_y >= block_top {
        pixel_y - block_top
    } else {
        0
    };
    (block_idx, pixel_x, rel_y)
}

/// How far down the document the bottom of the view is, in percent (of
/// whole rows); 100 for an empty document.
pub open spec fn scroll_percent(scroll_row: nat, total_height: nat, cell_h: nat, visible_rows: nat) -> nat {
    let total_rows = rows_of(total_height, cell_h);
    let bottom_row = if scroll_row + visible_rows <= total_rows {
        scroll_row + visible_rows
    } else {
        total_rows
    };
    if total_rows > 0 {
        bottom_row * 100 / total_rows
    } else {
        100
    }
}

/// The scroll position shown in the status bar, such as `42%`.
pub fn scroll_pct(scroll_row: u32, viewport: &ViewportState, term: &Terminal) -> (r: String)
    ensures
        r@ == decimal(
            scroll_percent(scroll_row as nat, viewport.total_height as nat, term.cell_height as nat, term.visible_rows() as nat),
        ).push('%'),
{
    let total_rows = pixel_to_rows(viewport.total_height, term.cell_height) as u64;
    let visible_rows = term.content_rows() as u64;
    let bottom_row = if scroll_row as u64 + visible_rows <= total_rows {
        scroll_row as u64 + visible_rows
    } else {
        total_rows
    };
    let pct: u64 = if total_rows > 0 {
        assert(bottom_row * 100 / (total_rows as int) <= 100) by (nonlinear_arith)
            requires
                bottom_row <= total_rows,
                total_rows > 0,
        ;
        bottom_row * 100 / total_rows
    } else {
        100
    };
    let mut out = String::new();
    push_decimal(&mut out, pct as u32);
    push_char(&mut out, '%');
    out
}

/// A search hit: a byte range of a block's text.
#[derive(Debug, Clone, Copy, PartialEq, Eq, Structural)]
pub struct SearchMatch {
    pub block_idx: usize,
    pub byte_start: usize,
    pub byte_end: usize,
}

/// The match after (or, going back, before) the current one, wrapping around.
pub open spec fn stepped_match(current: nat, forward: bool, count: nat) -> nat {
    if forward {
        (current + 1) % count
    } else if current == 0 {
        (count - 1) as nat
    } else {
        (current - 1) as nat
    }
}

/// The highlights for all matches, the current one marked.
pub open spec fn match_highlights(matches: Seq<SearchMatch>, current: nat) -> Seq<(usize, usize, usize, bool)> {
    Seq::new(matches.len(), |i: int| (matches[i].block_idx, matches[i].byte_start, matches[i].byte_end, i == current))
}

/// The highlights for all matches, the current one marked.
pub fn highlights_for(matches: &Vec<SearchMatch>, current: usize) -> (r: Vec<(usize, usize, usize, bool)>)
    ensures
        r@ == match_highlights(matches@, current as nat),
{
    let mut r: Vec<(usize, usize, usize, bool)> = Vec::new();
    let mut i: usize = 0;
    while i < matches.len()
        invariant
            i <= matches.len(),
            r@ == match_highlights(matches@.take(i as int), current as nat),
        decreases matches.len() - i,
    {
        let m = matches[i];
        r.push((m.block_idx, m.byte_start, m.byte_end, i == current));
        proof {
            assert(r@ =~= match_highlights(matches@.take(i + 1), current as nat));
        }
        i = i + 1;
    }
    proof {
        assert(matches@.take(matches.len() as int) =~= matches@);
    }
    r
}

/// The scroll row that shows a block: unchanged when the block lies wholly
/// in the view, else the row where the block starts.
pub open spec fn scroll_showing(top: nat, bottom: nat, scroll_row: nat, cell_h: nat, visible_rows: nat) -> nat {
    let scroll_px = scroll_row * cell_h;
    let view_bottom = scroll_px + visible_rows * cell_h;
    if top < scroll_px || bottom > view_bottom {
        rows_of(top, cell_h)
    } else {
        scroll_row
    }
}

/// Moves to the next match (`direction` > 0) or the previous one, wrapping
/// around; scrolls so that its block shows; and highlights the matches with
/// the new current one. Returns the blocks whose highlights changed.
pub fn navigate_match(
    matches: &Vec<SearchMatch>,
    current_match: &mut usize,
    direction: i32,
    viewport: &mut ViewportState,
    scroll_row: &mut u32,
    cell_h: u16,
    content_rows: u16,
) -> (affected: HashSet<usize>)
    requires
        matches.len() > 0,
        *old(current_match) < matches.len(),
        old(viewport).wf(),
        forall|i: int| 0 <= i < matches.len() ==> #[trigger] matches@[i].block_idx < old(viewport).block_offsets.len(),
        *old(scroll_row) * cell_h + content_rows * cell_h <= u32::MAX,
    ensures
        *final(current_match) == stepped_match(*old(current_match) as nat, direction > 0, matches.len() as nat),
        ({
            let b = matches@[*final(current_match) as int].block_idx as int;
            *final(scroll_row) == scroll_showing(
                old(viewport).top(b) as nat,
                old(viewport).bottom(b) as nat,
                *old(scroll_row) as nat,
                cell_h as nat,
                content_rows as nat,
            )
        }),
        final(viewport).search_highlights@ == match_highlights(matches@, *final(current_match) as nat),
        affected@ == highlighted_blocks(old(viewport).search_highlights@).union(
            highlighted_blocks(match_highlights(matches@, *final(current_match) as nat)),
        ),
        final(viewport).wf(),
        final(viewport).block_heights == old(viewport).block_heights,
        final(viewport).block_offsets == old(viewport).block_offsets,
        final(viewport).total_height == old(viewport).total_height,
{
    let count = matches.len();
    let next = if direction > 0 {
        (*current_match + 1) % count
    } else if *current_match == 0 {
        count - 1
    } else {
        *current_match - 1
    };
    *current_match = next;
    let block_idx = matches[next].block_idx;
    proof {
        viewport.lemma_layout_order();
        assert(viewport.bottom(block_idx as int) <= viewport.total_height);
    }
    let block_top_px = viewport.block_offsets[block_idx];
    let block_bottom_px = block_top_px + viewport.block_heights[block_idx];
    assert(*scroll_row * cell_h <= u32::MAX && content_rows * cell_h <= u32::MAX) by (nonlinear_arith)
        requires
            *scroll_row * cell_h + content_rows * cell_h <= u32::MAX,
            *scroll_row >= 0,
            content_rows >= 0,
            cell_h >= 0,
    ;
    let scroll_px = *scroll_row * cell_h as u32;
    let viewport_bottom = scroll_px + content_rows as u32 * cell_h as u32;
    if block_top_px < scroll_px || block_bottom_px > viewport_bottom {
        *scroll_row = pixel_to_rows(block_top_px, cell_h);
    }
    let highlights = highlights_for(matches, next);
    viewport.set_search_highlights(highlights)
}


/// The rows of an image cover its pixels, with less than one row to spare.
pub proof fn law_rows_cover_pixels(pixels: nat, cell_h: nat)
    requires
        cell_h > 0,
    ensures
        rows_of(pixels, cell_h) * cell_h >= pixels,
        rows_of(pixels, cell_h) * cell_h < pixels + cell_h,
{
    let r = rows_of(pixels, cell_h);
    assert(r == (pixels + cell_h - 1) / (cell_h as int));
    assert(r * cell_h >= pixels && r * cell_h < pixels + cell_h) by (nonlinear_arith)
        requires
            r == (pixels + cell_h - 1) / (cell_h as int),
            cell_h > 0,
    ;
}

/// Distinct chunks of distinct blocks get distinct image ids (while a block
/// has fewer than a thousand chunks).
pub proof fn law_image_ids_distinct(b1: nat, c1: nat, b2: nat, c2: nat)
    requires
        c1 < 1000,
        c2 < 1000,
        image_id(b1, c1) == image_id(b2, c2),
    ensures
        b1 == b2,
        c1 == c2,
{
    assert(b1 == b2) by (nonlinear_arith)
        requires
            (b1 + 1) * 1000 + c1 == (b2 + 1) * 1000 + c2,
            c1 < 1000,
            c2 < 1000,
    ;
}

/// The chunks of an image follow one another without gap or overlap from
/// its first pixel row to its last, and none is empty.
pub proof fn law_chunks_tile_image(height: nat, cell_h: nat, c: nat)
    requires
        cell_h > 0,
        c < chunk_count(height, cell_h),
    ensures
        c == 0 ==> chunk_rows(c, height, cell_h).0 == 0,
        chunk_rows(c, height, cell_h).0 < chunk_rows(c, height, cell_h).1 <= height,
        c + 1 < chunk_count(height, cell_h) ==> chunk_rows(c, height, cell_h).1 == chunk_rows(c + 1, height, cell_h).0,
        c + 1 == chunk_count(height, cell_h) ==> chunk_rows(c, height, cell_h).1 == height,
{
    let rows = rows_of(height, cell_h);
    let n = chunk_count(height, cell_h);
    law_rows_cover_pixels(height, cell_h);
    let m = 10 * cell_h;
    assert(chunk_rows(c, height, cell_h).0 == c * m);
    assert((c + 1) * m == c * m + m) by (nonlinear_arith);
    assert(n == (rows + 10 - 1) / 10int);
    assert(c * 10 < rows) by (nonlinear_arith)
        requires
            c < n,
            n == (rows + 10 - 1) / 10int,
    ;
    assert(c * (10 * cell_h) < height) by (nonlinear_arith)
        requires
            c * 10 < rows,
            rows * cell_h < height + cell_h,
            cell_h > 0,
    {
        assert((c * 10 + 1) * cell_h <= rows * cell_h);
    }
    if c + 1 == n {
        assert((c + 1) * (10 * cell_h) >= height) by (nonlinear_arith)
            requires
                c + 1 == n,
                n == (rows + 10 - 1) / 10int,
                rows * cell_h >= height,
                cell_h > 0,
        {
            assert((c + 1) * 10 >= rows);
            assert((c + 1) * 10 * cell_h >= rows * cell_h);
        }
    }
    if c + 1 < n {
        assert((c + 1) * (10 * cell_h) < height) by (nonlinear_arith)
            requires
                c + 1 < n,
                n == (rows + 10 - 1) / 10int,
                rows * cell_h < height + cell_h,
                cell_h > 0,
        {
            assert((c + 1) * 10 < rows);
            assert(((c + 1) * 10 + 1) * cell_h <= rows * cell_h);
        }
    }
}

/// Stepping through matches stays among them.
pub proof fn law_stepped_match_in_range(current: nat, forward: bool, count: nat)
    requires
        current < count,
    ensures
        stepped_match(current, forward, count) < count,
{
}

/// Whether block `b` (of the first `n`) holds pixel row `y` and its image has
/// been sent.
pub open spec fn shows_row(viewport: ViewportState, sent: Set<usize>, n: nat, b: int, y: int) -> bool {
    &&& 0 <= b < n
    &&& b < viewport.block_offsets.len()
    &&& viewport.top(b) <= y < viewport.bottom(b)
    &&& sent.contains(b as usize)
}

/// What a screen row at pixel row `pixel_y` shows: the block whose sent image
/// covers it, the chunk of that image, and the row within the chunk; none
/// when no sent image covers it (the row is then blank).
pub fn row_image(viewport: &ViewportState, transmitted: &HashSet<usize>, total_blocks: usize, pixel_y: u32, cell_h: u16) -> (r: Option<(usize, u32, u32)>)
    requires
        viewport.wf(),
        cell_h > 0,
    ensures
        r is Some <==> exists|b: int| shows_row(*viewport, transmitted@, total_blocks as nat, b, pixel_y as int),
        match r {
            Some((b, chunk, row)) => {
                let row_in_image = (pixel_y - viewport.top(b as int)) / (cell_h as int);
                &&& shows_row(*viewport, transmitted@, total_blocks as nat, b as int, pixel_y as int)
                &&& chunk == row_in_image / (MAX_IMAGE_ROWS as int)
                &&& row == row_in_image % (MAX_IMAGE_ROWS as int)
            },
            None => true,
        },
{
    proof {
        viewport.lemma_layout_order();
    }
    let idx = viewport.block_at_pixel(pixel_y);
    if idx < total_blocks && idx < viewport.block_offsets.len() {
        assert(viewport.bottom(idx as int) <= viewport.total_height);
        let top = viewport.block_offsets[idx];
        let bottom = top + viewport.block_heights[idx];
        if pixel_y >= top && pixel_y < bottom && transmitted.contains(&idx) {
            assert(shows_row(*viewport, transmitted@, total_blocks as nat, idx as int, pixel_y as int));
            let row_in_image = (pixel_y - top) / cell_h as u32;
            return Some((idx, row_in_image / MAX_IMAGE_ROWS, row_in_image % MAX_IMAGE_ROWS));
        }
    }
    proof {
        assert forall|b: int| !shows_row(*viewport, transmitted@, total_blocks as nat, b, pixel_y as int) by {
            if shows_row(*viewport, transmitted@, total_blocks as nat, b, pixel_y as int) {
                if b > idx {
                    assert(viewport.top(b) > pixel_y);
                } else if b < idx {
                    assert(viewport.bottom(b) <= viewport.top(b + 1));
                    assert(viewport.top(b + 1) <= viewport.top(idx as int));
                    assert(viewport.top(idx as int) <= pixel_y);
                }
            }
        }
    }
    None
}

/// The pixel rows that come into view when the view scrolls by less than a
/// screen from row `old_scroll` to row `new_scroll`: below the old view when
/// scrolling down, above it when scrolling up.
pub fn exposed_range(old_scroll: u32, new_scroll: u32, cell_h: u16, content_rows: u16) -> (r: (u32, u32))
    requires
        new_scroll > old_scroll ==> new_scroll - old_scroll < content_rows,
        new_scroll <= old_scroll ==> old_scroll - new_scroll < content_rows,
        new_scroll * cell_h <= u32::MAX,
        content_rows * cell_h <= u32::MAX,
        new_scroll > old_scroll ==> new_scroll * cell_h + content_rows * cell_h <= u32::MAX,
        new_scroll <= old_scroll ==> old_scroll * cell_h <= u32::MAX,
    ensures
        new_scroll > old_scroll ==> r.0 == (old_scroll + content_rows) * cell_h && r.1 == (new_scroll + content_rows) * cell_h,
        new_scroll <= old_scroll ==> r.0 == new_scroll * cell_h && r.1 == old_scroll * cell_h,
{
    let ch = cell_h as u32;
    let new_px = new_scroll * ch;
    let vp_px = content_rows as u32 * ch;
    if new_scroll > old_scroll {
        let d = new_scroll - old_scroll;
        assert(d * ch <= new_px + vp_px) by (nonlinear_arith)
            requires
                d <= new_scroll,
                new_px == new_scroll * ch,
                vp_px >= 0,
        ;
        assert(new_px + vp_px - d * ch == (old_scroll + content_rows) * ch) by (nonlinear_arith)
            requires
                d == new_scroll - old_scroll,
                new_px == new_scroll * ch,
                vp_px == content_rows * ch,
        ;
        assert(new_px + vp_px == (new_scroll + content_rows) * ch) by (nonlinear_arith)
            requires
                new_px == new_scroll * ch,
                vp_px == content_rows * ch,
        ;
        (new_px + vp_px - d * ch, new_px + vp_px)
    } else {
        let d = old_scroll - new_scroll;
        assert(new_px + d * ch == old_scroll * ch) by (nonlinear_arith)
            requires
                d == old_scroll - new_scroll,
                new_px == new_scroll * ch,
        ;
        (new_px, new_px + d * ch)
    }
}

/// The search status bar's counter: which match is current, of how many
/// (such as `2/5`), or `no matches`.
pub open spec fn match_counter(current: nat, total: nat) -> Seq<char> {
    if total > 0 {
        decimal(current + 1) + seq!['/'] + decimal(total)
    } else {
        "no matches"@
    }
}

/// The search status bar's position: the line (terminal row, from 1) where
/// the current match's block starts, then the scroll percentage; only the
/// percentage without matches.
pub open spec fn match_position(match_row: nat, has_matches: bool, percent: Seq<char>) -> Seq<char> {
    if has_matches {
        seq!['L'] + decimal(match_row + 1) + seq![' '] + percent
    } else {
        percent
    }
}

/// The counter and position texts of the search status bar.
pub fn search_status(matches: &Vec<SearchMatch>, current: usize, scroll_row: u32, viewport: &ViewportState, term: &Terminal) -> (r: (String, String))
    requires
        matches.len() > 0 ==> current < matches.len(),
        matches.len() > 0 ==> matches@[current as int].block_idx < viewport.block_offsets.len(),
        matches.len() > 0 ==> rows_of(viewport.block_offsets@[matches@[current as int].block_idx as int] as nat, term.cell_height as nat) < u32::MAX,
    ensures
        r.0@ == match_counter(current as nat, matches.len() as nat),
        r.1@ == match_position(
            if matches.len() > 0 {
                rows_of(viewport.block_offsets@[matches@[current as int].block_idx as int] as nat, term.cell_height as nat)
            } else {
                0
            },
            matches.len() > 0,
            decimal(scroll_percent(scroll_row as nat, viewport.total_height as nat, term.cell_height as nat, term.visible_rows() as nat)).push('%'),
        ),
{
    let total = matches.len();
    let pct = scroll_pct(scroll_row, viewport, term);
    let mut counter = String::new();
    let mut position = String::new();
    if total > 0 {
        push_decimal_usize(&mut counter, current + 1);
        push_char(&mut counter, '/');
        push_decimal_usize(&mut counter, total);
        let block_idx = matches[current].block_idx;
        let match_row = pixel_to_rows(viewport.block_offsets[block_idx], term.cell_height);
        push_char(&mut position, 'L');
        push_decimal(&mut position, match_row + 1);
        push_char(&mut position, ' ');
        position.append(pct.as_str());
        proof {
            assert(counter@ =~= match_counter(current as nat, total as nat));
        }
    } else {
        counter.append("no matches");
        position.append(pct.as_str());
        proof {
            assert(counter@ =~= "no matches"@);
        }
    }
    proof {
        assert(position@ =~= match_position(
            if total > 0 {
                rows_of(viewport.block_offsets@[matches@[current as int].block_idx as int] as nat, term.cell_height as nat)
            } else {
                0
            },
            total > 0,
            decimal(scroll_percent(scroll_row as nat, viewport.total_height as nat, term.cell_height as nat, term.visible_rows() as nat)).push('%'),
        ));
    }
    (counter, position)
}

/// The rows that a short scroll brings into view are those of the new view
/// that were not in the old one: a pixel row is in `exposed_range`'s result
/// exactly when it is in the new view and not in the old.
pub proof fn law_exposed_is_new_view_only(old_scroll: nat, new_scroll: nat, cell_h: nat, content_rows: nat, y: int)
    requires
        new_scroll > old_scroll ==> new_scroll - old_scroll < content_rows,
        new_scroll <= old_scroll ==> old_scroll - new_scroll < content_rows,
    ensures
        ({
            let (lo, hi) = if new_scroll > old_scroll {
                ((old_scroll + content_rows) * cell_h, (new_scroll + content_rows) * cell_h)
            } else {
                (new_scroll * cell_h, old_scroll * cell_h)
            };
            let in_new = new_scroll * cell_h <= y < (new_scroll + content_rows) * cell_h;
            let in_old = old_scroll * cell_h <= y < (old_scroll + content_rows) * cell_h;
            (lo <= y < hi) <==> (in_new && !in_old)
        }),
{
    if new_scroll > old_scroll {
        assert(old_scroll * cell_h <= new_scroll * cell_h) by (nonlinear_arith)
            requires
                old_scroll < new_scroll,
        ;
        assert(new_scroll * cell_h <= (old_scroll + content_rows) * cell_h) by (nonlinear_arith)
            requires
                new_scroll < old_scroll + content_rows,
        ;
    } else {
        assert(new_scroll * cell_h <= old_scroll * cell_h) by (nonlinear_arith)
            requires
                new_scroll <= old_scroll,
        ;
        assert(old_scroll * cell_h <= (new_scroll + content_rows) * cell_h) by (nonlinear_arith)
            requires
                old_scroll < new_scroll + content_rows,
        ;
        assert((old_scroll + content_rows) * cell_h >= (new_scroll + content_rows) * cell_h) by (nonlinear_arith)
            requires
                new_scroll <= old_scroll,
        ;
    }
}

} // verus!
