//! Drawing into RGBA pixel buffers: a buffer is a row-major sequence of
//! pixels, four bytes each (red, green, blue, alpha), a given number of
//! pixels wide.

use vstd::prelude::*;
use crate::graphics::{blend_channel, inside_rounded_rect, is_inside_rounded_rect, law_blend_extremes};

verus! {

/// Channel `c` (0 to 3) of an opaque color.
pub open spec fn opaque_channel(color: [u8; 3], c: int) -> u8 {
    if 0 <= c < 3 {
        color@[c]
    } else {
        255
    }
}

/// Whether byte `i` of a buffer of `len` bytes, `w` pixels wide, belongs to
/// a pixel that lies whole in the buffer and sits in row `y` at a column in
/// `[x0, x1)` (a column past the row's end runs on into the next row).
pub open spec fn in_row_span(i: int, len: int, w: int, y: int, x0: int, x1: int) -> bool {
    &&& 0 <= i
    &&& (i / 4) * 4 + 3 < len
    &&& x0 <= i / 4 - y * w < x1
}

/// Whether byte `i` lies in the span `[x0, x1)` of one of the rows `[y0, y1)`.
pub open spec fn in_band(i: int, len: int, w: int, y0: int, y1: int, x0: int, x1: int) -> bool {
    exists|y: int| y0 <= y < y1 && #[trigger] in_row_span(i, len, w, y, x0, x1)
}

/// Paints the columns `[x0, x1)` of the rows `[y0, y1)` with an opaque
/// color; pixels that would not lie whole in the buffer are left alone.
pub fn fill_rect(pixels: &mut Vec<u8>, width: u32, y0: u32, y1: u32, x0: u32, x1: u32, color: [u8; 3])
    requires
        y0 < y1 && x0 < x1 ==> ((y1 - 1) * width + x1 - 1) * 4 <= u32::MAX,
    ensures
        final(pixels).len() == old(pixels).len(),
        forall|i: int|
            0 <= i < old(pixels).len() ==> #[trigger] final(pixels)@[i] == if in_band(
                i,
                old(pixels).len() as int,
                width as int,
                y0 as int,
                y1 as int,
                x0 as int,
                x1 as int,
            ) {
                opaque_channel(color, i % 4)
            } else {
                old(pixels)@[i]
            },
{
    let ghost start = pixels@;
    let len = pixels.len() as u64;
    let mut y: u32 = y0;
    while y < y1
        invariant
            y0 <= y,
            y == y0 || y <= y1,
            pixels@.len() == start.len(),
            len == start.len(),
            y0 < y1 && x0 < x1 ==> ((y1 - 1) * width + x1 - 1) * 4 <= u32::MAX,
            forall|i: int|
                0 <= i < start.len() ==> #[trigger] pixels@[i] == if in_band(i, len as int, width as int, y0 as int, y as int, x0 as int, x1 as int) {
                    opaque_channel(color, i % 4)
                } else {
                    start[i]
                },
        decreases y1 - y,
    {
        let mut x: u32 = x0;
        while x < x1
            invariant
                y0 <= y < y1,
                x0 <= x,
                x == x0 || x <= x1,
                pixels@.len() == start.len(),
                len == start.len(),
                y0 < y1 && x0 < x1 ==> ((y1 - 1) * width + x1 - 1) * 4 <= u32::MAX,
                forall|i: int|
                    0 <= i < start.len() ==> #[trigger] pixels@[i] == if in_band(i, len as int, width as int, y0 as int, y as int, x0 as int, x1 as int)
                        || in_row_span(i, len as int, width as int, y as int, x0 as int, x as int) {
                        opaque_channel(color, i % 4)
                    } else {
                        start[i]
                    },
            decreases x1 - x,
        {
            assert(x0 < x1 && y0 < y1);
            assert(y as int * width + x <= (y1 - 1) * width + x1 - 1) by (nonlinear_arith)
                requires
                    y < y1,
                    x < x1,
            ;
            assert(0 <= y as int * width <= u32::MAX) by (nonlinear_arith)
                requires
                    y as int * width + x <= (y1 - 1) * width + x1 - 1,
                    ((y1 - 1) * width + x1 - 1) * 4 <= u32::MAX,
                    x >= 0,
                    y >= 0,
                    width >= 0,
            ;
            let idx: u64 = (y as u64 * width as u64 + x as u64) * 4;
            let ghost p = y as int * width + x;
            if idx + 3 < len {
                assert(idx < pixels.len());
                let k = idx as usize;
                pixels.set(k, color[0]);
                pixels.set(k + 1, color[1]);
                pixels.set(k + 2, color[2]);
                pixels.set(k + 3, 255);
                proof {
                    assert forall|i: int| 0 <= i < start.len() implies #[trigger] pixels@[i] == if in_band(i, len as int, width as int, y0 as int, y as int, x0 as int, x1 as int)
                        || in_row_span(i, len as int, width as int, y as int, x0 as int, x + 1) {
                        opaque_channel(color, i % 4)
                    } else {
                        start[i]
                    } by {
                        if k <= i < k + 4 {
                            assert(i / 4 == p);
                            assert(i % 4 == i - k);
                            assert((i / 4) * 4 + 3 < len);
                            assert(i / 4 - y * width == x);
                            assert(in_row_span(i, len as int, width as int, y as int, x0 as int, x + 1));
                        } else {
                            assert(i / 4 != p);
                        }
                    }
                }
            } else {
                proof {
                    assert forall|i: int| 0 <= i < start.len() implies #[trigger] pixels@[i] == if in_band(i, len as int, width as int, y0 as int, y as int, x0 as int, x1 as int)
                        || in_row_span(i, len as int, width as int, y as int, x0 as int, x + 1) {
                        opaque_channel(color, i % 4)
                    } else {
                        start[i]
                    } by {
                        if i / 4 == p {
                            assert(!in_row_span(i, len as int, width as int, y as int, x0 as int, x + 1));
                        }
                    }
                }
            }
            x = x + 1;
        }
        proof {
            assert forall|i: int| 0 <= i < start.len() implies #[trigger] pixels@[i] == if in_band(i, len as int, width as int, y0 as int, y + 1, x0 as int, x1 as int) {
                opaque_channel(color, i % 4)
            } else {
                start[i]
            } by {
                if in_row_span(i, len as int, width as int, y as int, x0 as int, x1 as int) {
                    assert(in_band(i, len as int, width as int, y0 as int, y + 1, x0 as int, x1 as int));
                }
                if in_band(i, len as int, width as int, y0 as int, y as int, x0 as int, x1 as int) {
                    let w = choose|w: int| y0 <= w < y && #[trigger] in_row_span(i, len as int, width as int, w, x0 as int, x1 as int);
                    assert(in_band(i, len as int, width as int, y0 as int, y + 1, x0 as int, x1 as int));
                }
                if in_band(i, len as int, width as int, y0 as int, y + 1, x0 as int, x1 as int) {
                    let w = choose|w: int| y0 <= w < y + 1 && #[trigger] in_row_span(i, len as int, width as int, w, x0 as int, x1 as int);
                    if w < y {
                        assert(in_band(i, len as int, width as int, y0 as int, y as int, x0 as int, x1 as int));
                    } else {
                        assert(in_row_span(i, len as int, width as int, y as int, x0 as int, x1 as int));
                    }
                }
            }
        }
        y = y + 1;
    }
}

/// The row of a region that pixel `p` of a buffer `dst_w` pixels wide lies
/// in, for a region whose top row is buffer row `y_off`.
pub open spec fn region_row(p: int, dst_w: int, y_off: int) -> int {
    p / dst_w - y_off
}

/// The column of a region that pixel `p` lies in, for a region whose left
/// column is buffer column `x_off`.
pub open spec fn region_col(p: int, dst_w: int, x_off: int) -> int {
    p % dst_w - x_off
}

/// Whether pixel `p` of a buffer `dst_w` pixels wide and `dst_rows` rows
/// high lies in a region at `(x_off, y_off)` that is `cols` columns wide and
/// made of its first `y_lim` rows and the first `x_lim` pixels of row `y_lim`.
pub open spec fn in_region(p: int, dst_w: int, dst_rows: int, x_off: int, y_off: int, cols: int, y_lim: int, x_lim: int) -> bool {
    &&& dst_w > 0
    &&& 0 <= p
    &&& p / dst_w < dst_rows
    &&& 0 <= region_row(p, dst_w, y_off)
    &&& 0 <= region_col(p, dst_w, x_off) < cols
    &&& (region_row(p, dst_w, y_off) < y_lim || (region_row(p, dst_w, y_off) == y_lim && region_col(p, dst_w, x_off) < x_lim))
}

/// Byte `i` of `dst` once the pixel of `src` (a buffer `src_w` pixels wide)
/// at the same place in the region is laid over it: blended by the source's
/// alpha and made opaque, when both pixels lie whole in their buffers and
/// the source one is not fully transparent.
pub open spec fn laid_over(dst: Seq<u8>, src: Seq<u8>, i: int, dst_w: int, src_w: int, x_off: int, y_off: int) -> u8 {
    let p = i / 4;
    let s = region_row(p, dst_w, y_off) * src_w + region_col(p, dst_w, x_off);
    if p * 4 + 3 < dst.len() && 0 <= s && s * 4 + 3 < src.len() && src[s * 4 + 3] > 0 {
        if i % 4 < 3 {
            blend_channel(dst[i], src[s * 4 + i % 4], src[s * 4 + 3] as nat)
        } else {
            255
        }
    } else {
        dst[i]
    }
}

/// Blends the first `rows` rows and `cols` columns of `src` (a buffer
/// `src_w` pixels wide) over `dst` (a buffer `dst_w` pixels wide and
/// `dst_rows` rows high) with their top left corner at `(x_off, y_off)`;
/// what falls outside `dst`'s rows and columns is dropped.
pub fn blend_region(
    dst: &mut Vec<u8>,
    dst_w: u32,
    dst_rows: u32,
    src: &Vec<u8>,
    src_w: u32,
    rows: u32,
    cols: u32,
    x_off: u32,
    y_off: u32,
)
    requires
        rows > 0 && cols > 0 ==> ((rows - 1) * src_w + cols - 1) * 4 <= u32::MAX,
        rows > 0 ==> y_off + rows - 1 <= u32::MAX,
        cols > 0 ==> x_off + cols - 1 <= u32::MAX,
        dst_rows * dst_w * 4 <= u32::MAX,
    ensures
        final(dst).len() == old(dst).len(),
        forall|i: int|
            0 <= i < old(dst).len() ==> #[trigger] final(dst)@[i] == if in_region(
                i / 4,
                dst_w as int,
                dst_rows as int,
                x_off as int,
                y_off as int,
                cols as int,
                rows as int,
                0,
            ) {
                laid_over(old(dst)@, src@, i, dst_w as int, src_w as int, x_off as int, y_off as int)
            } else {
                old(dst)@[i]
            },
{
    let ghost start = dst@;
    let dlen = dst.len() as u64;
    let slen = src.len() as u64;
    let mut y: u32 = 0;
    while y < rows
        invariant
            y <= rows,
            dst@.len() == start.len(),
            dlen == start.len(),
            slen == src.len(),
            rows > 0 && cols > 0 ==> ((rows - 1) * src_w + cols - 1) * 4 <= u32::MAX,
            rows > 0 ==> y_off + rows - 1 <= u32::MAX,
            cols > 0 ==> x_off + cols - 1 <= u32::MAX,
            dst_rows * dst_w * 4 <= u32::MAX,
            forall|i: int|
                0 <= i < start.len() ==> #[trigger] dst@[i] == if in_region(i / 4, dst_w as int, dst_rows as int, x_off as int, y_off as int, cols as int, y as int, 0) {
                    laid_over(start, src@, i, dst_w as int, src_w as int, x_off as int, y_off as int)
                } else {
                    start[i]
                },
        decreases rows - y,
    {
        let mut x: u32 = 0;
        while x < cols
            invariant
                y < rows,
                x <= cols,
                dst@.len() == start.len(),
                dlen == start.len(),
                slen == src.len(),
                rows > 0 && cols > 0 ==> ((rows - 1) * src_w + cols - 1) * 4 <= u32::MAX,
                rows > 0 ==> y_off + rows - 1 <= u32::MAX,
                cols > 0 ==> x_off + cols - 1 <= u32::MAX,
                dst_rows * dst_w * 4 <= u32::MAX,
                forall|i: int|
                    0 <= i < start.len() ==> #[trigger] dst@[i] == if in_region(i / 4, dst_w as int, dst_rows as int, x_off as int, y_off as int, cols as int, y as int, x as int) {
                        laid_over(start, src@, i, dst_w as int, src_w as int, x_off as int, y_off as int)
                    } else {
                        start[i]
                    },
            decreases cols - x,
        {
            assert(y as int * src_w + x <= (rows - 1) * src_w + cols - 1) by (nonlinear_arith)
                requires
                    y < rows,
                    x < cols,
            ;
            assert(0 <= y as int * src_w <= u32::MAX) by (nonlinear_arith)
                requires
                    y as int * src_w + x <= (rows - 1) * src_w + cols - 1,
                    ((rows - 1) * src_w + cols - 1) * 4 <= u32::MAX,
                    x >= 0,
                    y >= 0,
                    src_w >= 0,
            ;
            let src_idx: u64 = (y as u64 * src_w as u64 + x as u64) * 4;
            let dx: u64 = x_off as u64 + x as u64;
            let dy: u64 = y_off as u64 + y as u64;
            let ghost old_dst = dst@;
            if dy < dst_rows as u64 && dx < dst_w as u64 {
                assert(dy * dst_w + dx < dst_rows * dst_w) by (nonlinear_arith)
                    requires
                        dy < dst_rows,
                        dx < dst_w,
                ;
                let dst_idx: u64 = (dy * dst_w as u64 + dx) * 4;
                let ghost p = dy * dst_w + dx;
                proof {
                    vstd::arithmetic::div_mod::lemma_fundamental_div_mod_converse(p, dst_w as int, dy as int, dx as int);
                }
                if src_idx + 3 < slen && dst_idx + 3 < dlen {
                    let si = src_idx as usize;
                    let di = dst_idx as usize;
                    let a = src[si + 3] as u32;
                    if a > 0 {
                        let inv = 255 - a;
                        let mut c: usize = 0;
                        while c < 3
                            invariant
                                c <= 3,
                                inv == 255 - a,
                                a == src@[si + 3],
                                si + 3 < src.len(),
                                di + 3 < dst@.len(),
                                di + 3 <= usize::MAX,
                                dst@.len() == old_dst.len(),
                                forall|k: int|
                                    0 <= k < dst@.len() ==> #[trigger] dst@[k] == if di <= k < di + c {
                                        blend_channel(old_dst[k], src@[si + k - di], a as nat)
                                    } else {
                                        old_dst[k]
                                    },
                            decreases 3 - c,
                        {
                            let d = dst[di + c] as u32;
                            let sv = src[si + c] as u32;
                            assert(d * inv + sv * a <= 255 * 255) by (nonlinear_arith)
                                requires
                                    d <= 255,
                                    sv <= 255,
                                    inv + a == 255,
                            ;
                            dst.set(di + c, ((d * inv + sv * a) / 255) as u8);
                            c = c + 1;
                        }
                        dst.set(di + 3, 255);
                    }
                }
                proof {
                    assert forall|i: int| 0 <= i < start.len() implies #[trigger] dst@[i] == if in_region(i / 4, dst_w as int, dst_rows as int, x_off as int, y_off as int, cols as int, y as int, x + 1) {
                        laid_over(start, src@, i, dst_w as int, src_w as int, x_off as int, y_off as int)
                    } else {
                        start[i]
                    } by {
                        let q = i / 4;
                        if q == p {
                            assert(in_region(q, dst_w as int, dst_rows as int, x_off as int, y_off as int, cols as int, y as int, x + 1));
                            assert(!in_region(q, dst_w as int, dst_rows as int, x_off as int, y_off as int, cols as int, y as int, x as int));
                            assert(region_row(q, dst_w as int, y_off as int) * src_w + region_col(q, dst_w as int, x_off as int) == y * src_w + x);
                            assert(old_dst[i] == start[i]);
                        } else {
                            vstd::arithmetic::div_mod::lemma_fundamental_div_mod(q, dst_w as int);
                            if in_region(q, dst_w as int, dst_rows as int, x_off as int, y_off as int, cols as int, y as int, x + 1)
                                && !in_region(q, dst_w as int, dst_rows as int, x_off as int, y_off as int, cols as int, y as int, x as int) {
                                assert(q / (dst_w as int) == dy);
                                assert(q % (dst_w as int) == dx);
                                assert((dst_w as int) * (dy as int) == (dy as int) * (dst_w as int)) by (nonlinear_arith);
                                assert(q == p);
                            }
                            assert(dst@[i] == old_dst[i]);
                        }
                    }
                }
            } else {
                proof {
                    assert forall|i: int| 0 <= i < start.len() implies #[trigger] dst@[i] == if in_region(i / 4, dst_w as int, dst_rows as int, x_off as int, y_off as int, cols as int, y as int, x + 1) {
                        laid_over(start, src@, i, dst_w as int, src_w as int, x_off as int, y_off as int)
                    } else {
                        start[i]
                    } by {
                        let q = i / 4;
                        if dst_w > 0 && q >= 0 {
                            vstd::arithmetic::div_mod::lemma_mod_bound(q, dst_w as int);
                        }
                    }
                }
            }
            x = x + 1;
        }
        proof {
            assert forall|i: int| 0 <= i < start.len() implies #[trigger] dst@[i] == if in_region(i / 4, dst_w as int, dst_rows as int, x_off as int, y_off as int, cols as int, y + 1, 0) {
                laid_over(start, src@, i, dst_w as int, src_w as int, x_off as int, y_off as int)
            } else {
                start[i]
            } by {
                assert(in_region(i / 4, dst_w as int, dst_rows as int, x_off as int, y_off as int, cols as int, y + 1, 0)
                    == in_region(i / 4, dst_w as int, dst_rows as int, x_off as int, y_off as int, cols as int, y as int, cols as int));
            }
        }
        y = y + 1;
    }
}

/// Whether `(x, y)` lies on the outline of a `w` by `h` rectangle with
/// corners rounded by `r`, drawn `s` pixels thick: inside the rectangle and
/// not inside the rectangle `s` pixels in from it (whose radius is `s` less).
pub open spec fn in_ring(x: int, y: int, w: int, h: int, r: int, s: int) -> bool {
    let iw = if w >= 2 * s { w - 2 * s } else { 0 };
    let ih = if h >= 2 * s { h - 2 * s } else { 0 };
    let ir = if r >= s { r - s } else { 0 };
    &&& inside_rounded_rect(x, y, w, h, r)
    &&& !(x >= s && y >= s && x < s + iw && y < s + ih && inside_rounded_rect(x - s, y - s, iw, ih, ir))
}

/// Whether pixel `p` of a buffer `dst_w` pixels wide and `dst_rows` rows high
/// lies on such an outline placed with its top left corner at `(ox, oy)`,
/// among its first `y_lim` rows and the first `x_lim` pixels of row `y_lim`.
pub open spec fn on_ring(p: int, dst_w: int, dst_rows: int, ox: int, oy: int, w: int, h: int, r: int, s: int, y_lim: int, x_lim: int) -> bool {
    &&& dst_w > 0
    &&& 0 <= p
    &&& p / dst_w < dst_rows
    &&& 0 <= region_row(p, dst_w, oy) < h
    &&& 0 <= region_col(p, dst_w, ox) < w
    &&& in_ring(region_col(p, dst_w, ox), region_row(p, dst_w, oy), w, h, r, s)
    &&& (region_row(p, dst_w, oy) < y_lim || (region_row(p, dst_w, oy) == y_lim && region_col(p, dst_w, ox) < x_lim))
}

/// Draws the outline of a `w` by `h` rectangle with corners rounded by `r`,
/// `s` pixels thick, in an opaque color, with its top left corner at
/// `(ox, oy)`; what falls outside the buffer's rows and columns is dropped.
pub fn draw_ring(
    pixels: &mut Vec<u8>,
    dst_w: u32,
    dst_rows: u32,
    ox: u32,
    oy: u32,
    w: u32,
    h: u32,
    r: u32,
    s: u32,
    color: [u8; 3],
)
    requires
        s * 2 <= u32::MAX,
        w > 0 ==> ox + w - 1 <= u32::MAX,
        h > 0 ==> oy + h - 1 <= u32::MAX,
        dst_rows * dst_w * 4 <= u32::MAX,
    ensures
        final(pixels).len() == old(pixels).len(),
        forall|i: int|
            0 <= i < old(pixels).len() ==> #[trigger] final(pixels)@[i] == if (i / 4) * 4 + 3 < old(pixels).len() && on_ring(
                i / 4,
                dst_w as int,
                dst_rows as int,
                ox as int,
                oy as int,
                w as int,
                h as int,
                r as int,
                s as int,
                h as int,
                0,
            ) {
                opaque_channel(color, i % 4)
            } else {
                old(pixels)@[i]
            },
{
    let ghost start = pixels@;
    let len = pixels.len() as u64;
    let iw = if w >= s * 2 { w - s * 2 } else { 0 };
    let ih = if h >= s * 2 { h - s * 2 } else { 0 };
    let ir = if r >= s { r - s } else { 0 };
    let mut y: u32 = 0;
    while y < h
        invariant
            y <= h,
            pixels@.len() == start.len(),
            len == start.len(),
            iw == (if w >= 2 * s { w - 2 * s } else { 0 }),
            ih == (if h >= 2 * s { h - 2 * s } else { 0 }),
            ir == (if r >= s { r - s } else { 0 }),
            w > 0 ==> ox + w - 1 <= u32::MAX,
            h > 0 ==> oy + h - 1 <= u32::MAX,
            dst_rows * dst_w * 4 <= u32::MAX,
            forall|i: int|
                0 <= i < start.len() ==> #[trigger] pixels@[i] == if (i / 4) * 4 + 3 < len && on_ring(i / 4, dst_w as int, dst_rows as int, ox as int, oy as int, w as int, h as int, r as int, s as int, y as int, 0) {
                    opaque_channel(color, i % 4)
                } else {
                    start[i]
                },
        decreases h - y,
    {
        let mut x: u32 = 0;
        while x < w
            invariant
                y < h,
                x <= w,
                pixels@.len() == start.len(),
                len == start.len(),
                iw == (if w >= 2 * s { w - 2 * s } else { 0 }),
                ih == (if h >= 2 * s { h - 2 * s } else { 0 }),
                ir == (if r >= s { r - s } else { 0 }),
                w > 0 ==> ox + w - 1 <= u32::MAX,
                h > 0 ==> oy + h - 1 <= u32::MAX,
                dst_rows * dst_w * 4 <= u32::MAX,
                forall|i: int|
                    0 <= i < start.len() ==> #[trigger] pixels@[i] == if (i / 4) * 4 + 3 < len && on_ring(i / 4, dst_w as int, dst_rows as int, ox as int, oy as int, w as int, h as int, r as int, s as int, y as int, x as int) {
                        opaque_channel(color, i % 4)
                    } else {
                        start[i]
                    },
            decreases w - x,
        {
            let in_outer = is_inside_rounded_rect(x, y, w, h, r);
            let in_inner = x >= s && y >= s && x - s < iw && y - s < ih && is_inside_rounded_rect(x - s, y - s, iw, ih, ir);
            let dx: u64 = ox as u64 + x as u64;
            let dy: u64 = oy as u64 + y as u64;
            let ghost p = dy * dst_w + dx;
            if in_outer && !in_inner && dy < dst_rows as u64 && dx < dst_w as u64 {
                assert(dy * dst_w + dx < dst_rows * dst_w) by (nonlinear_arith)
                    requires
                        dy < dst_rows,
                        dx < dst_w,
                ;
                proof {
                    vstd::arithmetic::div_mod::lemma_fundamental_div_mod_converse(p, dst_w as int, dy as int, dx as int);
                    assert(in_ring(x as int, y as int, w as int, h as int, r as int, s as int));
                }
                let idx: u64 = (dy * dst_w as u64 + dx) * 4;
                if idx + 3 < len {
                    assert(idx < pixels.len());
                    let k = idx as usize;
                    pixels.set(k, color[0]);
                    pixels.set(k + 1, color[1]);
                    pixels.set(k + 2, color[2]);
                    pixels.set(k + 3, 255);
                }
                proof {
                    assert forall|i: int| 0 <= i < start.len() implies #[trigger] pixels@[i] == if (i / 4) * 4 + 3 < len && on_ring(i / 4, dst_w as int, dst_rows as int, ox as int, oy as int, w as int, h as int, r as int, s as int, y as int, x + 1) {
                        opaque_channel(color, i % 4)
                    } else {
                        start[i]
                    } by {
                        let q = i / 4;
                        if q == p {
                            assert(on_ring(q, dst_w as int, dst_rows as int, ox as int, oy as int, w as int, h as int, r as int, s as int, y as int, x + 1));
                            assert(!on_ring(q, dst_w as int, dst_rows as int, ox as int, oy as int, w as int, h as int, r as int, s as int, y as int, x as int));
                            if idx + 3 < len {
                                assert(i % 4 == i - idx);
                            }
                        } else {
                            vstd::arithmetic::div_mod::lemma_fundamental_div_mod(q, dst_w as int);
                            if on_ring(q, dst_w as int, dst_rows as int, ox as int, oy as int, w as int, h as int, r as int, s as int, y as int, x + 1)
                                && !on_ring(q, dst_w as int, dst_rows as int, ox as int, oy as int, w as int, h as int, r as int, s as int, y as int, x as int) {
                                assert(q / (dst_w as int) == dy);
                                assert(q % (dst_w as int) == dx);
                                assert((dst_w as int) * (dy as int) == (dy as int) * (dst_w as int)) by (nonlinear_arith);
                                assert(q == p);
                            }
                        }
                    }
                }
            } else {
                proof {
                    assert forall|i: int| 0 <= i < start.len() implies #[trigger] pixels@[i] == if (i / 4) * 4 + 3 < len && on_ring(i / 4, dst_w as int, dst_rows as int, ox as int, oy as int, w as int, h as int, r as int, s as int, y as int, x + 1) {
                        opaque_channel(color, i % 4)
                    } else {
                        start[i]
                    } by {
                        let q = i / 4;
                        if on_ring(q, dst_w as int, dst_rows as int, ox as int, oy as int, w as int, h as int, r as int, s as int, y as int, x + 1)
                            && !on_ring(q, dst_w as int, dst_rows as int, ox as int, oy as int, w as int, h as int, r as int, s as int, y as int, x as int) {
                            vstd::arithmetic::div_mod::lemma_mod_bound(q, dst_w as int);
                            assert(region_col(q, dst_w as int, ox as int) == x);
                            assert(region_row(q, dst_w as int, oy as int) == y);
                            assert(in_ring(x as int, y as int, w as int, h as int, r as int, s as int));
                            assert(false);
                        }
                    }
                }
            }
            x = x + 1;
        }
        proof {
            assert forall|i: int| 0 <= i < start.len() implies #[trigger] pixels@[i] == if (i / 4) * 4 + 3 < len && on_ring(i / 4, dst_w as int, dst_rows as int, ox as int, oy as int, w as int, h as int, r as int, s as int, y + 1, 0) {
                opaque_channel(color, i % 4)
            } else {
                start[i]
            } by {
                assert(on_ring(i / 4, dst_w as int, dst_rows as int, ox as int, oy as int, w as int, h as int, r as int, s as int, y + 1, 0)
                    == on_ring(i / 4, dst_w as int, dst_rows as int, ox as int, oy as int, w as int, h as int, r as int, s as int, y as int, w as int));
            }
        }
        y = y + 1;
    }
}

/// Whether row `y` of a copy of `cols` columns from `src` (`src_w` pixels
/// wide) to `dst` (`dst_w` wide, at `(x_off, y_off)`) lies whole in both buffers.
pub open spec fn row_fits(src_len: int, dst_len: int, src_w: int, dst_w: int, cols: int, x_off: int, y_off: int, y: int) -> bool {
    &&& (y * src_w) * 4 + cols * 4 <= src_len
    &&& ((y + y_off) * dst_w + x_off) * 4 + cols * 4 <= dst_len
}

/// Whether byte `i` of `dst` is overwritten by a copy of the first `rows`
/// rows and `cols` columns of `src` placed at `(x_off, y_off)`, each row
/// copied only when it lies whole in both buffers.
pub open spec fn copied_byte(i: int, src_len: int, dst_len: int, src_w: int, dst_w: int, rows: int, cols: int, x_off: int, y_off: int) -> bool {
    let p = i / 4;
    let y = region_row(p, dst_w, y_off);
    let x = region_col(p, dst_w, x_off);
    &&& dst_w > 0
    &&& 0 <= i
    &&& 0 <= y < rows
    &&& 0 <= x < cols
    &&& row_fits(src_len, dst_len, src_w, dst_w, cols, x_off, y_off, y)
}

/// The source byte that `copied_byte` copies to byte `i` of `dst`.
pub open spec fn copy_source(i: int, src_w: int, dst_w: int, x_off: int, y_off: int) -> int {
    let p = i / 4;
    (region_row(p, dst_w, y_off) * src_w + region_col(p, dst_w, x_off)) * 4 + i % 4
}

/// Copies the first `rows` rows and `cols` columns of `src` (a buffer
/// `src_w` pixels wide) into `dst` (`dst_w` wide) with their top left corner
/// at `(x_off, y_off)`; a row is copied only when it lies whole in both.
pub fn copy_rows(dst: &mut Vec<u8>, dst_w: u32, src: &Vec<u8>, src_w: u32, rows: u32, cols: u32, x_off: u32, y_off: u32)
    requires
        x_off + cols <= dst_w,
        rows > 0 ==> (rows - 1) * src_w * 4 <= u32::MAX,
        rows > 0 ==> ((rows - 1 + y_off) * dst_w + x_off) * 4 <= u32::MAX,
        cols * 4 <= u32::MAX,
    ensures
        final(dst).len() == old(dst).len(),
        forall|i: int|
            0 <= i < old(dst).len() ==> #[trigger] final(dst)@[i] == if copied_byte(
                i,
                src.len() as int,
                old(dst).len() as int,
                src_w as int,
                dst_w as int,
                rows as int,
                cols as int,
                x_off as int,
                y_off as int,
            ) {
                src@[copy_source(i, src_w as int, dst_w as int, x_off as int, y_off as int)]
            } else {
                old(dst)@[i]
            },
{
    let ghost start = dst@;
    let dlen = dst.len() as u64;
    let slen = src.len() as u64;
    let bytes: u64 = cols as u64 * 4;
    let mut y: u32 = 0;
    while y < rows
        invariant
            y <= rows,
            dst@.len() == start.len(),
            dlen == start.len(),
            slen == src.len(),
            dlen <= usize::MAX,
            slen <= usize::MAX,
            bytes == cols * 4,
            x_off + cols <= dst_w,
            rows > 0 ==> (rows - 1) * src_w * 4 <= u32::MAX,
            rows > 0 ==> ((rows - 1 + y_off) * dst_w + x_off) * 4 <= u32::MAX,
            forall|i: int|
                0 <= i < start.len() ==> #[trigger] dst@[i] == if copied_byte(i, slen as int, dlen as int, src_w as int, dst_w as int, y as int, cols as int, x_off as int, y_off as int) {
                    src@[copy_source(i, src_w as int, dst_w as int, x_off as int, y_off as int)]
                } else {
                    start[i]
                },
        decreases rows - y,
    {
        assert(y as int * src_w * 4 <= (rows - 1) * src_w * 4) by (nonlinear_arith)
            requires
                y < rows,
        ;
        assert(((y + y_off) as int * dst_w + x_off) * 4 <= ((rows - 1 + y_off) * dst_w + x_off) * 4) by (nonlinear_arith)
            requires
                y < rows,
        ;
        let src_start: u64 = y as u64 * src_w as u64 * 4;
        let dst_start: u64 = ((y as u64 + y_off as u64) * dst_w as u64 + x_off as u64) * 4;
        let ghost before = dst@;
        if src_start + bytes <= slen && dst_start + bytes <= dlen {
            let mut b: u64 = 0;
            while b < bytes
                invariant
                    b <= bytes,
                    src_start + bytes <= slen,
                    dst_start + bytes <= dlen,
                    slen == src.len(),
                    dlen == dst@.len(),
                    dlen <= usize::MAX,
                    slen <= usize::MAX,
                    dst@.len() == before.len(),
                    forall|k: int|
                        0 <= k < dst@.len() ==> #[trigger] dst@[k] == if dst_start <= k < dst_start + b {
                            src@[src_start + (k - dst_start)]
                        } else {
                            before[k]
                        },
                decreases bytes - b,
            {
                let si: usize = (src_start + b) as usize;
                let di: usize = (dst_start + b) as usize;
                let v = src[si];
                dst.set(di, v);
                b = b + 1;
            }
            proof {
                assert forall|i: int| 0 <= i < start.len() implies #[trigger] dst@[i] == if copied_byte(i, slen as int, dlen as int, src_w as int, dst_w as int, y + 1, cols as int, x_off as int, y_off as int) {
                    src@[copy_source(i, src_w as int, dst_w as int, x_off as int, y_off as int)]
                } else {
                    start[i]
                } by {
                    let p = i / 4;
                    if dst_w > 0 {
                        vstd::arithmetic::div_mod::lemma_fundamental_div_mod(p, dst_w as int);
                        vstd::arithmetic::div_mod::lemma_mod_bound(p, dst_w as int);
                    }
                    let ry = region_row(p, dst_w as int, y_off as int);
                    let rx = region_col(p, dst_w as int, x_off as int);
                    if dst_start <= i < dst_start + bytes {
                        // The byte lies in the row just copied.
                        let q = (y + y_off) * dst_w + x_off + (i - dst_start) / 4;
                        assert(i / 4 == q);
                        vstd::arithmetic::div_mod::lemma_fundamental_div_mod_converse(q, dst_w as int, (y + y_off) as int, (x_off + (i - dst_start) / 4) as int);
                        assert(ry == y);
                        assert(rx == (i - dst_start) / 4);
                        assert(copied_byte(i, slen as int, dlen as int, src_w as int, dst_w as int, y + 1, cols as int, x_off as int, y_off as int));
                        assert(copy_source(i, src_w as int, dst_w as int, x_off as int, y_off as int) == src_start + (i - dst_start));
                    } else {
                        if copied_byte(i, slen as int, dlen as int, src_w as int, dst_w as int, y + 1, cols as int, x_off as int, y_off as int)
                            && ry == y {
                            assert(i / 4 == (ry + y_off) * dst_w + (rx + x_off)) by (nonlinear_arith)
                                requires
                                    p == (dst_w as int) * (p / (dst_w as int)) + p % (dst_w as int),
                                    ry == p / (dst_w as int) - y_off,
                                    rx == p % (dst_w as int) - x_off,
                                    p == i / 4,
                            ;
                            assert(dst_start <= i < dst_start + bytes);
                        }
                    }
                }
            }
        } else {
            proof {
                assert forall|i: int| 0 <= i < start.len() implies #[trigger] dst@[i] == if copied_byte(i, slen as int, dlen as int, src_w as int, dst_w as int, y + 1, cols as int, x_off as int, y_off as int) {
                    src@[copy_source(i, src_w as int, dst_w as int, x_off as int, y_off as int)]
                } else {
                    start[i]
                } by {
                    let p = i / 4;
                    let ry = region_row(p, dst_w as int, y_off as int);
                    if copied_byte(i, slen as int, dlen as int, src_w as int, dst_w as int, y + 1, cols as int, x_off as int, y_off as int) && ry == y {
                        assert(row_fits(slen as int, dlen as int, src_w as int, dst_w as int, cols as int, x_off as int, y_off as int, y as int));
                        assert(false);
                    }
                }
            }
        }
        y = y + 1;
    }
}

/// Byte `i` of a pixel once a color is laid over it with opacity `alpha`
/// out of 255: its color channels blended, its alpha made opaque.
pub open spec fn tinted(old: u8, color: [u8; 3], alpha: nat, c: int) -> u8 {
    if 0 <= c < 3 {
        blend_channel(old, color@[c], alpha)
    } else {
        255
    }
}

/// Within a row `w` pixels wide, a byte lies in at most one row's span that
/// ends within the row.
proof fn lemma_span_row_unique(i: int, len: int, w: int, y: int, y2: int, x0: int, x1: int)
    requires
        x1 <= w,
        in_row_span(i, len, w, y, x0, x1),
        in_row_span(i, len, w, y2, x0, x1),
        0 <= x0,
    ensures
        y == y2,
{
    let p = i / 4;
    if y < y2 {
        assert((y2 - y) * w >= w) by (nonlinear_arith)
            requires
                y2 - y >= 1,
                w >= 0,
        ;
        assert(p - y * w == (p - y2 * w) + (y2 - y) * w) by (nonlinear_arith);
    } else if y2 < y {
        assert((y - y2) * w >= w) by (nonlinear_arith)
            requires
                y - y2 >= 1,
                w >= 0,
        ;
        assert(p - y2 * w == (p - y * w) + (y - y2) * w) by (nonlinear_arith);
    }
}

/// Lays a color with opacity `alpha` over the columns `[x0, x1)` of the rows
/// `[y0, y1)` (the columns within the buffer's width); pixels that would not
/// lie whole in the buffer are left alone.
pub fn blend_rect(pixels: &mut Vec<u8>, width: u32, y0: u32, y1: u32, x0: u32, x1: u32, color: [u8; 3], alpha: u8)
    requires
        x1 <= width,
        y0 < y1 && x0 < x1 ==> ((y1 - 1) * width + x1 - 1) * 4 <= u32::MAX,
    ensures
        final(pixels).len() == old(pixels).len(),
        forall|i: int|
            0 <= i < old(pixels).len() ==> #[trigger] final(pixels)@[i] == if in_band(
                i,
                old(pixels).len() as int,
                width as int,
                y0 as int,
                y1 as int,
                x0 as int,
                x1 as int,
            ) {
                tinted(old(pixels)@[i], color, alpha as nat, i % 4)
            } else {
                old(pixels)@[i]
            },
{
    let ghost start = pixels@;
    let len = pixels.len() as u64;
    let a = alpha as u32;
    let inv = 255 - a;
    let mut y: u32 = y0;
    while y < y1
        invariant
            y0 <= y,
            y == y0 || y <= y1,
            x1 <= width,
            pixels@.len() == start.len(),
            len == start.len(),
            len <= usize::MAX,
            a == alpha,
            inv == 255 - a,
            y0 < y1 && x0 < x1 ==> ((y1 - 1) * width + x1 - 1) * 4 <= u32::MAX,
            forall|i: int|
                0 <= i < start.len() ==> #[trigger] pixels@[i] == if in_band(i, len as int, width as int, y0 as int, y as int, x0 as int, x1 as int) {
                    tinted(start[i], color, alpha as nat, i % 4)
                } else {
                    start[i]
                },
        decreases y1 - y,
    {
        let mut x: u32 = x0;
        while x < x1
            invariant
                y0 <= y < y1,
                x0 <= x,
                x == x0 || x <= x1,
                x1 <= width,
                pixels@.len() == start.len(),
                len == start.len(),
                len <= usize::MAX,
                a == alpha,
                inv == 255 - a,
                y0 < y1 && x0 < x1 ==> ((y1 - 1) * width + x1 - 1) * 4 <= u32::MAX,
                forall|i: int|
                    0 <= i < start.len() ==> #[trigger] pixels@[i] == if in_band(i, len as int, width as int, y0 as int, y as int, x0 as int, x1 as int)
                        || in_row_span(i, len as int, width as int, y as int, x0 as int, x as int) {
                        tinted(start[i], color, alpha as nat, i % 4)
                    } else {
                        start[i]
                    },
            decreases x1 - x,
        {
            assert(x0 < x1 && y0 < y1);
            assert(y as int * width + x <= (y1 - 1) * width + x1 - 1) by (nonlinear_arith)
                requires
                    y < y1,
                    x < x1,
            ;
            assert(0 <= y as int * width <= u32::MAX) by (nonlinear_arith)
                requires
                    y as int * width + x <= (y1 - 1) * width + x1 - 1,
                    ((y1 - 1) * width + x1 - 1) * 4 <= u32::MAX,
                    x >= 0,
                    y >= 0,
                    width >= 0,
            ;
            let idx: u64 = (y as u64 * width as u64 + x as u64) * 4;
            let ghost p = y as int * width + x;
            let ghost before = pixels@;
            if idx + 3 < len {
                let k = idx as usize;
                proof {
                    // The pixel is untouched so far: no earlier row's span and no
                    // earlier column of this row holds it.
                    assert forall|m: int| k <= m < k + 4 implies pixels@[m] == start[m] by {
                        assert(m / 4 == p);
                        assert(!in_row_span(m, len as int, width as int, y as int, x0 as int, x as int));
                        if in_band(m, len as int, width as int, y0 as int, y as int, x0 as int, x1 as int) {
                            let w2 = choose|w2: int| y0 <= w2 < y && #[trigger] in_row_span(m, len as int, width as int, w2, x0 as int, x1 as int);
                            assert(in_row_span(m, len as int, width as int, y as int, x0 as int, x1 as int));
                            lemma_span_row_unique(m, len as int, width as int, y as int, w2, x0 as int, x1 as int);
                        }
                    }
                }
                let mut c: usize = 0;
                while c < 3
                    invariant
                        c <= 3,
                        k + 3 < pixels@.len(),
                        k + 3 <= usize::MAX,
                        pixels@.len() == before.len(),
                        a == alpha,
                        inv == 255 - a,
                        forall|m: int|
                            0 <= m < pixels@.len() ==> #[trigger] pixels@[m] == if k <= m < k + c {
                                blend_channel(before[m], color@[m - k], a as nat)
                            } else {
                                before[m]
                            },
                    decreases 3 - c,
                {
                    let d = pixels[k + c] as u32;
                    let sv = color[c] as u32;
                    assert(d * inv + sv * a <= 255 * 255) by (nonlinear_arith)
                        requires
                            d <= 255,
                            sv <= 255,
                            inv + a == 255,
                    ;
                    pixels.set(k + c, ((d * inv + sv * a) / 255) as u8);
                    c = c + 1;
                }
                pixels.set(k + 3, 255);
                proof {
                    assert forall|i: int| 0 <= i < start.len() implies #[trigger] pixels@[i] == if in_band(i, len as int, width as int, y0 as int, y as int, x0 as int, x1 as int)
                        || in_row_span(i, len as int, width as int, y as int, x0 as int, x + 1) {
                        tinted(start[i], color, alpha as nat, i % 4)
                    } else {
                        start[i]
                    } by {
                        if k <= i < k + 4 {
                            assert(i / 4 == p);
                            assert(i % 4 == i - k);
                            assert(in_row_span(i, len as int, width as int, y as int, x0 as int, x + 1));
                        } else {
                            assert(i / 4 != p);
                        }
                    }
                }
            } else {
                proof {
                    assert forall|i: int| 0 <= i < start.len() implies #[trigger] pixels@[i] == if in_band(i, len as int, width as int, y0 as int, y as int, x0 as int, x1 as int)
                        || in_row_span(i, len as int, width as int, y as int, x0 as int, x + 1) {
                        tinted(start[i], color, alpha as nat, i % 4)
                    } else {
                        start[i]
                    } by {
                        if i / 4 == p {
                            assert(!in_row_span(i, len as int, width as int, y as int, x0 as int, x + 1));
                        }
                    }
                }
            }
            x = x + 1;
        }
        proof {
            assert forall|i: int| 0 <= i < start.len() implies #[trigger] pixels@[i] == if in_band(i, len as int, width as int, y0 as int, y + 1, x0 as int, x1 as int) {
                tinted(start[i], color, alpha as nat, i % 4)
            } else {
                start[i]
            } by {
                if in_row_span(i, len as int, width as int, y as int, x0 as int, x1 as int) {
                    assert(in_band(i, len as int, width as int, y0 as int, y + 1, x0 as int, x1 as int));
                }
                if in_band(i, len as int, width as int, y0 as int, y as int, x0 as int, x1 as int) {
                    let w = choose|w: int| y0 <= w < y && #[trigger] in_row_span(i, len as int, width as int, w, x0 as int, x1 as int);
                    assert(in_band(i, len as int, width as int, y0 as int, y + 1, x0 as int, x1 as int));
                }
                if in_band(i, len as int, width as int, y0 as int, y + 1, x0 as int, x1 as int) {
                    let w = choose|w: int| y0 <= w < y + 1 && #[trigger] in_row_span(i, len as int, width as int, w, x0 as int, x1 as int);
                    if w < y {
                        assert(in_band(i, len as int, width as int, y0 as int, y as int, x0 as int, x1 as int));
                    } else {
                        assert(in_row_span(i, len as int, width as int, y as int, x0 as int, x1 as int));
                    }
                }
            }
        }
        y = y + 1;
    }
}

/// The part of the span `[start, start + len)` that lies in `[0, limit)`,
/// as its first and past-the-end positions (equal when nothing does).
pub fn clip_span(start: i64, len: u32, limit: u32) -> (r: (u32, u32))
    requires
        start + len <= i64::MAX,
    ensures
        r.0 == (if start <= 0 {
            0
        } else if start >= limit {
            limit as int
        } else {
            start as int
        }),
        r.1 == (if start + len <= r.0 {
            r.0 as int
        } else if start + len >= limit {
            limit as int
        } else {
            start + len
        }),
{
    let lo: i64 = if start < 0 { 0 } else { start };
    let end: i64 = start + len as i64;
    let hi: i64 = if end > limit as i64 { limit as i64 } else { end };
    if lo >= hi {
        let z: u32 = if lo < limit as i64 { lo as u32 } else { limit };
        (z, z)
    } else {
        (lo as u32, hi as u32)
    }
}

/// Laying a color over pixels fully opaque paints them with it, and fully
/// transparent keeps their color (made opaque): `blend_rect` at the extremes
/// is `fill_rect`, or leaves the colors alone.
pub proof fn law_tint_extremes(old: u8, color: [u8; 3], c: int)
    requires
        0 <= c < 4,
    ensures
        tinted(old, color, 255, c) == opaque_channel(color, c),
        c < 3 ==> tinted(old, color, 0, c) == old,
{
    if c < 3 {
        law_blend_extremes(old, color@[c]);
    }
}

} // verus!
