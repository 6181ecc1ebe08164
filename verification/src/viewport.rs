//! The vertical layout of a document: each block's height and offset in
//! pixels, the gaps between blocks, height corrections after a block is
//! rendered, which blocks a pixel range touches, and the search highlights
//! that are drawn into blocks.

use vstd::prelude::*;
use std::collections::HashSet;
use crate::blocks::{Block, BlockModel, StyledSpan, SpanModel, span_model};
use crate::graphics::{HighlightRange, LinkRange};
use crate::text::copy_opt_string;
use crate::blocks::spans_model;
use vstd::utf8::encode_utf8;
use vstd::string::StringSliceAdditionalSpecFns;
use crate::theme::{Theme, color_to_rgb, rgb_of};

verus! {

broadcast use vstd::std_specs::hash::group_hash_axioms;

/// The gap between two neighbouring blocks: `before` ahead of a heading,
/// `after` behind one, the default gap otherwise.
pub open spec fn gap_size(above_heading: bool, below_heading: bool, gap: u32, before: u32, after: u32) -> u32 {
    if below_heading {
        before
    } else if above_heading {
        after
    } else {
        gap
    }
}

/// Whether a block is a heading.
pub open spec fn is_heading_block(b: BlockModel) -> bool {
    b is Heading
}

/// The gap between two neighbouring blocks.
pub fn gap_between(above: &Block, below: &Block, default_gap: u32, heading_before: u32, heading_after: u32) -> (r: u32)
    ensures
        r == gap_size(is_heading_block(above@), is_heading_block(below@), default_gap, heading_before, heading_after),
{
    let is_heading = matches!(below, Block::Heading { .. });
    let after_heading = matches!(above, Block::Heading { .. });
    if is_heading {
        heading_before
    } else if after_heading {
        heading_after
    } else {
        default_gap
    }
}

/// The gap that follows block `j` (none after the last block).
pub open spec fn gap_after(heads: Seq<bool>, j: int, gap: u32, before: u32, after: u32) -> nat {
    if 0 <= j && j + 1 < heads.len() {
        gap_size(heads[j], heads[j + 1], gap, before, after) as nat
    } else {
        0
    }
}

/// Where block `i` starts: the heights of the blocks before it and the gaps
/// that follow each of them.
pub open spec fn layout_prefix(hs: Seq<u32>, heads: Seq<bool>, gap: u32, before: u32, after: u32, i: nat) -> nat
    decreases i,
{
    if i == 0 {
        0
    } else {
        layout_prefix(hs, heads, gap, before, after, (i - 1) as nat) + hs[i - 1] as nat + gap_after(
            heads,
            i - 1,
            gap,
            before,
            after,
        )
    }
}

/// Block starts never decrease.
pub proof fn lemma_prefix_monotone(hs: Seq<u32>, heads: Seq<bool>, gap: u32, before: u32, after: u32, i: nat, j: nat)
    requires
        i <= j,
    ensures
        layout_prefix(hs, heads, gap, before, after, i) <= layout_prefix(hs, heads, gap, before, after, j),
    decreases j,
{
    if i < j {
        lemma_prefix_monotone(hs, heads, gap, before, after, i, (j - 1) as nat);
    }
}

/// Changing the height of block `idx` leaves the starts up to it alone and
/// moves every later start by the change.
pub proof fn lemma_prefix_update(
    hs: Seq<u32>,
    heads: Seq<bool>,
    gap: u32,
    before: u32,
    after: u32,
    idx: int,
    h: u32,
    j: nat,
)
    requires
        0 <= idx < hs.len(),
        j <= hs.len(),
    ensures
        layout_prefix(hs.update(idx, h), heads, gap, before, after, j) == if j <= idx {
            layout_prefix(hs, heads, gap, before, after, j) as int
        } else {
            layout_prefix(hs, heads, gap, before, after, j) - hs[idx] + h
        },
    decreases j,
{
    if j > 0 {
        lemma_prefix_update(hs, heads, gap, before, after, idx, h, (j - 1) as nat);
    }
}

/// The layout state of the viewport: per-block heights and offsets, the
/// document height, the gaps it was laid out with, the progress of
/// background measurement, and the search highlights.
pub struct ViewportState {
    pub block_heights: Vec<u32>,
    pub block_offsets: Vec<u32>,
    /// Whether each block is a heading (gaps depend on it).
    pub headings: Vec<bool>,
    pub total_height: u32,
    pub gap: u32,
    pub heading_before: u32,
    pub heading_after: u32,
    pub width_px: u32,
    /// Next block index to measure in background (all blocks before this are measured)
    pub next_unmeasured: usize,
    /// Set when a height correction occurs; cleared by the caller.
    pub height_corrected_at: Option<usize>,
    /// Search matches as (block, byte start, byte end, is the current match).
    pub search_highlights: Vec<(usize, usize, usize, bool)>,
}

impl ViewportState {
    /// Where block `i` starts under the current heights.
    pub open spec fn start_of(&self, i: nat) -> nat {
        layout_prefix(self.block_heights@, self.headings@, self.gap, self.heading_before, self.heading_after, i)
    }

    /// The offsets are the block starts, the total is the start past the last
    /// block, and everything fits in `u32`.
    pub open spec fn wf(&self) -> bool {
        &&& self.block_heights.len() == self.headings.len()
        &&& self.block_offsets.len() == self.block_heights.len()
        &&& forall|i: int| 0 <= i < self.block_offsets.len() ==> #[trigger] self.block_offsets@[i] == self.start_of(i as nat)
        &&& self.total_height == self.start_of(self.block_heights.len() as nat)
        &&& self.next_unmeasured <= self.block_heights.len()
    }

    /// Lays out blocks of the given (estimated) heights.
    pub fn new(blocks: &Vec<Block>, block_heights: Vec<u32>, gap: u32, heading_before: u32, heading_after: u32, width_px: u32) -> (r: ViewportState)
        requires
            block_heights.len() == blocks.len(),
            layout_prefix(block_heights@, Seq::new(blocks.len() as nat, |i: int| is_heading_block(blocks@[i]@)), gap, heading_before, heading_after, blocks.len() as nat) <= u32::MAX,
        ensures
            r.wf(),
            r.block_heights@ == block_heights@,
            r.headings@ == Seq::new(blocks.len() as nat, |i: int| is_heading_block(blocks@[i]@)),
            r.gap == gap,
            r.heading_before == heading_before,
            r.heading_after == heading_after,
            r.width_px == width_px,
            r.next_unmeasured == 0,
            r.height_corrected_at is None,
            r.search_highlights@.len() == 0,
    {
        let headings = block_headings(blocks);
        let mut s = ViewportState {
            block_heights,
            block_offsets: Vec::new(),
            headings,
            total_height: 0,
            gap,
            heading_before,
            heading_after,
            width_px,
            next_unmeasured: 0,
            height_corrected_at: None,
            search_highlights: Vec::new(),
        };
        s.recompute_offsets();
        s
    }

    /// Recompute block offsets and the total height from the block heights.
    pub fn recompute_offsets(&mut self)
        requires
            old(self).block_heights.len() == old(self).headings.len(),
            old(self).next_unmeasured <= old(self).block_heights.len(),
            old(self).start_of(old(self).block_heights.len() as nat) <= u32::MAX,
        ensures
            final(self).wf(),
            final(self).block_heights == old(self).block_heights,
            final(self).headings == old(self).headings,
            final(self).gap == old(self).gap,
            final(self).heading_before == old(self).heading_before,
            final(self).heading_after == old(self).heading_after,
            final(self).width_px == old(self).width_px,
            final(self).next_unmeasured == old(self).next_unmeasured,
            final(self).height_corrected_at == old(self).height_corrected_at,
            final(self).search_highlights == old(self).search_highlights,
    {
        let n = self.block_heights.len();
        let mut offsets: Vec<u32> = Vec::new();
        let mut cursor: u32 = 0;
        let mut i: usize = 0;
        while i < n
            invariant
                i <= n,
                n == self.block_heights.len(),
                n == self.headings.len(),
                self.start_of(n as nat) <= u32::MAX,
                offsets.len() == i,
                forall|k: int| 0 <= k < i ==> #[trigger] offsets@[k] == self.start_of(k as nat),
                cursor == self.start_of(i as nat),
            decreases n - i,
        {
            offsets.push(cursor);
            proof {
                lemma_prefix_monotone(self.block_heights@, self.headings@, self.gap, self.heading_before, self.heading_after, (i + 1) as nat, n as nat);
            }
            let h = self.block_heights[i];
            let g: u32 = if i + 1 < n {
                if self.headings[i + 1] {
                    self.heading_before
                } else if self.headings[i] {
                    self.heading_after
                } else {
                    self.gap
                }
            } else {
                0
            };
            cursor = cursor + h + g;
            i = i + 1;
        }
        self.block_offsets = offsets;
        self.total_height = cursor;
    }

    /// Records the height a block actually rendered at. When it differs from
    /// the recorded one, the later blocks move by the difference, the total
    /// changes with them, and the block is reported as corrected.
    pub fn correct_height(&mut self, idx: usize, actual_h: u32)
        requires
            old(self).wf(),
            idx < old(self).block_heights.len(),
            old(self).total_height - old(self).block_heights@[idx as int] + actual_h <= u32::MAX,
        ensures
            final(self).wf(),
            final(self).block_heights@ == old(self).block_heights@.update(idx as int, actual_h),
            final(self).height_corrected_at == if actual_h == old(self).block_heights@[idx as int] {
                old(self).height_corrected_at
            } else {
                Some(idx)
            },
            final(self).total_height == old(self).total_height - old(self).block_heights@[idx as int] + actual_h,
            final(self).headings == old(self).headings,
            final(self).gap == old(self).gap,
            final(self).heading_before == old(self).heading_before,
            final(self).heading_after == old(self).heading_after,
            final(self).width_px == old(self).width_px,
            final(self).next_unmeasured == old(self).next_unmeasured,
            final(self).search_highlights == old(self).search_highlights,
    {
        let old_h = self.block_heights[idx];
        if actual_h == old_h {
            proof {
                assert(self.block_heights@ =~= self.block_heights@.update(idx as int, actual_h));
            }
            return;
        }
        let ghost hs = self.block_heights@;
        let ghost heads = self.headings@;
        let ghost (g, hb, ha) = (self.gap, self.heading_before, self.heading_after);
        let ghost total = self.total_height;
        let n = self.block_offsets.len();
        let mut offsets: Vec<u32> = Vec::new();
        std::mem::swap(&mut offsets, &mut self.block_offsets);
        proof {
            assert forall|k: int| 0 <= k <= idx implies #[trigger] offsets@[k] == layout_prefix(
                hs.update(idx as int, actual_h),
                heads,
                g,
                hb,
                ha,
                k as nat,
            ) by {
                lemma_prefix_update(hs, heads, g, hb, ha, idx as int, actual_h, k as nat);
            }
        }
        let mut j: usize = idx + 1;
        while j < n
            invariant
                idx < j <= n,
                n == offsets.len(),
                n == hs.len(),
                idx < hs.len(),
                old_h == hs[idx as int],
                total == layout_prefix(hs, heads, g, hb, ha, n as nat),
                total - old_h + actual_h <= u32::MAX,
                forall|k: int| j <= k < n ==> #[trigger] offsets@[k] == layout_prefix(hs, heads, g, hb, ha, k as nat),
                forall|k: int| 0 <= k < j ==> #[trigger] offsets@[k] == layout_prefix(
                    hs.update(idx as int, actual_h),
                    heads,
                    g,
                    hb,
                    ha,
                    k as nat,
                ),
            decreases n - j,
        {
            proof {
                lemma_prefix_update(hs, heads, g, hb, ha, idx as int, actual_h, j as nat);
                lemma_prefix_monotone(hs, heads, g, hb, ha, j as nat, n as nat);
                lemma_prefix_monotone(hs, heads, g, hb, ha, (idx + 1) as nat, j as nat);
                lemma_prefix_update(hs, heads, g, hb, ha, idx as int, actual_h, (idx + 1) as nat);
            }
            let off = offsets[j];
            let moved = if actual_h > old_h {
                off + (actual_h - old_h)
            } else {
                off - (old_h - actual_h)
            };
            offsets.set(j, moved);
            j = j + 1;
        }
        self.block_offsets = offsets;
        proof {
            lemma_prefix_update(hs, heads, g, hb, ha, idx as int, actual_h, n as nat);
        }
        self.total_height = if actual_h > old_h {
            self.total_height + (actual_h - old_h)
        } else {
            self.total_height - (old_h - actual_h)
        };
        self.block_heights.set(idx, actual_h);
        self.height_corrected_at = Some(idx);
    }
}


/// The last block that starts at or above pixel row `y` among the first
/// `n`, or the first block when none does.
pub open spec fn last_block_at_or_above(offs: Seq<u32>, y: int, n: nat) -> nat
    decreases n,
{
    if n == 0 {
        0
    } else if offs[n - 1] <= y {
        (n - 1) as nat
    } else {
        last_block_at_or_above(offs, y, (n - 1) as nat)
    }
}

/// The values of `offs` are in ascending order.
pub open spec fn ascending(offs: Seq<u32>) -> bool {
    forall|i: int, j: int| 0 <= i <= j < offs.len() ==> offs[i] <= offs[j]
}

/// The number of leading values below `y` (or, when `strict` is false, at
/// most `y`) in an ascending sequence.
pub fn partition_point(offs: &Vec<u32>, y: u32, strict: bool) -> (p: usize)
    requires
        ascending(offs@),
    ensures
        p <= offs.len(),
        forall|k: int| 0 <= k < p ==> if strict {
            offs@[k] < y
        } else {
            offs@[k] <= y
        },
        forall|k: int| p <= k < offs.len() ==> if strict {
            offs@[k] >= y
        } else {
            offs@[k] > y
        },
{
    let mut lo: usize = 0;
    let mut hi: usize = offs.len();
    while lo < hi
        invariant
            lo <= hi <= offs.len(),
            ascending(offs@),
            forall|k: int| 0 <= k < lo ==> if strict {
                offs@[k] < y
            } else {
                offs@[k] <= y
            },
            forall|k: int| hi <= k < offs.len() ==> if strict {
                offs@[k] >= y
            } else {
                offs@[k] > y
            },
        decreases hi - lo,
    {
        let mid = lo + (hi - lo) / 2;
        let below = if strict {
            offs[mid] < y
        } else {
            offs[mid] <= y
        };
        if below {
            lo = mid + 1;
        } else {
            hi = mid;
        }
    }
    lo
}

impl ViewportState {
    /// The top of block `i` in pixels.
    pub open spec fn top(&self, i: int) -> int {
        self.block_offsets@[i] as int
    }

    /// The pixel just below block `i`.
    pub open spec fn bottom(&self, i: int) -> int {
        self.block_offsets@[i] + self.block_heights@[i]
    }

    /// A well-formed layout is ascending, each block ends before the next
    /// starts, and the last ends at the total height.
    pub proof fn lemma_layout_order(&self)
        requires
            self.wf(),
        ensures
            ascending(self.block_offsets@),
            forall|i: int| 0 <= i && i + 1 < self.block_offsets.len() ==> #[trigger] self.bottom(i) <= self.top(i + 1),
            forall|i: int| 0 <= i < self.block_offsets.len() ==> #[trigger] self.bottom(i) <= self.total_height,
    {
        let n = self.block_heights.len();
        assert forall|i: int, j: int| 0 <= i <= j < self.block_offsets.len() implies self.block_offsets@[i]
            <= self.block_offsets@[j] by {
            lemma_prefix_monotone(self.block_heights@, self.headings@, self.gap, self.heading_before, self.heading_after, i as nat, j as nat);
        }
        assert forall|i: int| 0 <= i < self.block_offsets.len() implies #[trigger] self.bottom(i) <= self.total_height by {
            lemma_prefix_monotone(self.block_heights@, self.headings@, self.gap, self.heading_before, self.heading_after, (i + 1) as nat, n as nat);
            assert(self.start_of((i + 1) as nat) == self.start_of(i as nat) + self.block_heights@[i] + gap_after(self.headings@, i, self.gap, self.heading_before, self.heading_after));
        }
        assert forall|i: int| 0 <= i && i + 1 < self.block_offsets.len() implies #[trigger] self.bottom(i) <= self.top(i + 1) by {
            assert(self.start_of((i + 1) as nat) == self.start_of(i as nat) + self.block_heights@[i] + gap_after(self.headings@, i, self.gap, self.heading_before, self.heading_after));
        }
    }

    /// The index of the block that holds pixel row `pixel_y`: the last block
    /// starting at or above it, or the first block when none does.
    pub fn block_at_pixel(&self, pixel_y: u32) -> (r: usize)
        requires
            self.wf(),
        ensures
            self.block_offsets.len() == 0 ==> r == 0,
            self.block_offsets.len() > 0 ==> r < self.block_offsets.len(),
            r == 0 || self.top(r as int) <= pixel_y,
            forall|k: int| r < k < self.block_offsets.len() ==> self.top(k) > pixel_y,
    {
        proof {
            self.lemma_layout_order();
        }
        let p = partition_point(&self.block_offsets, pixel_y, false);
        if p == 0 {
            0
        } else {
            p - 1
        }
    }

    /// The block at the top of a view scrolled to `scroll_px`: the last block
    /// starting at or above it, or the first block when none does.
    pub fn first_visible_block(&self, scroll_px: u64) -> (r: usize)
        requires
            self.wf(),
        ensures
            self.block_offsets.len() == 0 ==> r == 0,
            self.block_offsets.len() > 0 ==> r < self.block_offsets.len(),
            r == 0 || self.top(r as int) <= scroll_px,
            forall|k: int| r < k < self.block_offsets.len() ==> self.top(k) > scroll_px,
            r == last_block_at_or_above(self.block_offsets@, scroll_px as int, self.block_offsets.len() as nat),
    {
        let mut i = self.block_offsets.len();
        while i > 0
            invariant
                i <= self.block_offsets.len(),
                forall|k: int| i <= k < self.block_offsets.len() ==> self.top(k) > scroll_px,
                last_block_at_or_above(self.block_offsets@, scroll_px as int, self.block_offsets.len() as nat)
                    == last_block_at_or_above(self.block_offsets@, scroll_px as int, i as nat),
            decreases i,
        {
            if self.block_offsets[i - 1] as u64 <= scroll_px {
                return i - 1;
            }
            i = i - 1;
        }
        0
    }

    /// Whether block `i` overlaps the pixel rows `[start, end)`.
    pub open spec fn overlaps(&self, i: int, start: int, end: int) -> bool {
        self.top(i) < end && self.bottom(i) > start
    }

    /// The blocks that overlap the pixel rows `[range_start, range_end)`, in order.
    pub fn blocks_overlapping(&self, range_start: u32, range_end: u32) -> (r: Vec<usize>)
        requires
            self.wf(),
        ensures
            forall|a: int, b: int| 0 <= a < b < r.len() ==> r@[a] < r@[b],
            forall|a: int| 0 <= a < r.len() ==> r@[a] < self.block_offsets.len() && self.overlaps(
                r@[a] as int,
                range_start as int,
                range_end as int,
            ),
            forall|i: int|
                0 <= i < self.block_offsets.len() && self.overlaps(i, range_start as int, range_end as int)
                    ==> r@.contains(i as usize),
    {
        proof {
            self.lemma_layout_order();
        }
        let p = partition_point(&self.block_offsets, range_start, true);
        let first = if p == 0 {
            0
        } else {
            p - 1
        };
        proof {
            assert forall|i: int| 0 <= i < first implies !self.overlaps(i, range_start as int, range_end as int) by {
                assert(self.bottom(i) <= self.top(i + 1));
                assert(self.top(i + 1) <= self.top(first as int));
            }
        }
        let n = self.block_offsets.len();
        let mut r: Vec<usize> = Vec::new();
        let mut i = first;
        while i < n
            invariant_except_break
                first <= i <= n,
                n == self.block_offsets.len(),
                self.wf(),
                ascending(self.block_offsets@),
                forall|a: int, b: int| 0 <= a < b < r.len() ==> r@[a] < r@[b],
                forall|a: int| 0 <= a < r.len() ==> first <= r@[a] < i && self.overlaps(r@[a] as int, range_start as int, range_end as int),
                forall|k: int| 0 <= k < i && self.overlaps(k, range_start as int, range_end as int) ==> r@.contains(k as usize),
            ensures
                forall|a: int, b: int| 0 <= a < b < r.len() ==> r@[a] < r@[b],
                forall|a: int| 0 <= a < r.len() ==> r@[a] < n && self.overlaps(r@[a] as int, range_start as int, range_end as int),
                forall|k: int| 0 <= k < n && self.overlaps(k, range_start as int, range_end as int) ==> r@.contains(k as usize),
            decreases n - i,
        {
            let top = self.block_offsets[i];
            if top >= range_end {
                proof {
                    assert forall|k: int| i <= k < n implies !self.overlaps(k, range_start as int, range_end as int) by {
                        assert(self.block_offsets@[i as int] <= self.block_offsets@[k]);
                    }
                }
                break;
            }
            proof {
                self.lemma_layout_order();
                assert(self.bottom(i as int) <= self.total_height);
            }
            let bottom = top + self.block_heights[i];
            if bottom > range_start {
                let ghost before = r@;
                r.push(i);
                proof {
                    assert forall|k: int| 0 <= k < i + 1 && self.overlaps(k, range_start as int, range_end as int) implies r@.contains(k as usize) by {
                        if k < i {
                            let w = choose|w: int| 0 <= w < before.len() && before[w] == k as usize;
                            assert(r@[w] == k as usize);
                        } else {
                            assert(r@[r.len() - 1] == k as usize);
                        }
                    }
                }
            } else {
                proof {
                    assert forall|k: int| 0 <= k < i + 1 && self.overlaps(k, range_start as int, range_end as int) implies r@.contains(k as usize) by {
                        if k == i {
                            assert(!self.overlaps(k, range_start as int, range_end as int));
                        }
                    }
                }
            }
            i = i + 1;
        }
        r
    }
}


/// Whether a block spanning `[top, bottom)` lies wholly outside the rows kept
/// around a view at `scroll_px` of height `viewport_px` (one view above and one
/// below it).
pub open spec fn outside_keep_window(top: int, bottom: int, scroll_px: int, viewport_px: int) -> bool {
    let keep_start = if scroll_px >= viewport_px {
        scroll_px - viewport_px
    } else {
        0
    };
    let keep_end = scroll_px + viewport_px + viewport_px;
    bottom < keep_start || top > keep_end
}

impl ViewportState {
    /// Whether block `i` is far enough from the view to drop its cached image.
    pub fn is_distant(&self, i: usize, scroll_px: u32, viewport_height: u32) -> (r: bool)
        requires
            self.wf(),
            i < self.block_offsets.len(),
            scroll_px + viewport_height + viewport_height <= u32::MAX,
        ensures
            r == outside_keep_window(self.top(i as int), self.bottom(i as int), scroll_px as int, viewport_height as int),
    {
        proof {
            self.lemma_layout_order();
            assert(self.bottom(i as int) <= self.total_height);
        }
        let margin = viewport_height;
        let keep_start = if scroll_px >= margin {
            scroll_px - margin
        } else {
            0
        };
        let keep_end = scroll_px + viewport_height + margin;
        let block_top = self.block_offsets[i];
        let block_bottom = block_top + self.block_heights[i];
        block_bottom < keep_start || block_top > keep_end
    }

    /// Whether a transmitted image of block `i` should be deleted: the block
    /// no longer exists or is far from the view.
    pub fn should_evict(&self, i: usize, scroll_px: u32, viewport_px: u32) -> (r: bool)
        requires
            self.wf(),
            scroll_px + viewport_px + viewport_px <= u32::MAX,
        ensures
            r == (i >= self.block_offsets.len() || outside_keep_window(
                self.top(i as int),
                self.bottom(i as int),
                scroll_px as int,
                viewport_px as int,
            )),
    {
        if i >= self.block_offsets.len() {
            return true;
        }
        self.is_distant(i, scroll_px, viewport_px)
    }

    /// A block worth sending ahead of time below the view: it reaches below
    /// the view's end and starts above the end of the next view down, and is
    /// not sent yet.
    pub open spec fn prefetch_below(&self, i: int, sent: Set<usize>, scroll_px: int, viewport_px: int) -> bool {
        &&& self.overlaps(i, scroll_px + viewport_px, scroll_px + viewport_px + viewport_px)
        &&& !sent.contains(i as usize)
    }

    /// A block worth sending ahead of time above the view: it overlaps the
    /// view just above, and is not sent yet.
    pub open spec fn prefetch_above(&self, i: int, sent: Set<usize>, scroll_px: int, viewport_px: int) -> bool {
        let window_start = if scroll_px >= viewport_px {
            scroll_px - viewport_px
        } else {
            0
        };
        &&& self.overlaps(i, window_start, scroll_px)
        &&& !sent.contains(i as usize)
    }

    /// The first block of a range to send ahead, if any.
    fn first_unsent_in(&self, transmitted: &HashSet<usize>, range_start: u32, range_end: u32) -> (r: Option<usize>)
        requires
            self.wf(),
        ensures
            match r {
                Some(i) => i < self.block_offsets.len() && self.overlaps(i as int, range_start as int, range_end as int)
                    && !transmitted@.contains(i) && forall|k: int|
                    0 <= k < i ==> !(self.overlaps(k, range_start as int, range_end as int) && !transmitted@.contains(k as usize)),
                None => forall|k: int|
                    0 <= k < self.block_offsets.len() ==> !(self.overlaps(k, range_start as int, range_end as int)
                        && !transmitted@.contains(k as usize)),
            },
    {
        let blocks = self.blocks_overlapping(range_start, range_end);
        let mut j: usize = 0;
        while j < blocks.len()
            invariant
                j <= blocks.len(),
                forall|a: int, b: int| 0 <= a < b < blocks.len() ==> blocks@[a] < blocks@[b],
                forall|a: int| 0 <= a < blocks.len() ==> blocks@[a] < self.block_offsets.len() && self.overlaps(
                    blocks@[a] as int,
                    range_start as int,
                    range_end as int,
                ),
                forall|i: int|
                    0 <= i < self.block_offsets.len() && self.overlaps(i, range_start as int, range_end as int)
                        ==> blocks@.contains(i as usize),
                forall|a: int| 0 <= a < j ==> transmitted@.contains(#[trigger] blocks@[a]),
            decreases blocks.len() - j,
        {
            let i = blocks[j];
            if !transmitted.contains(&i) {
                proof {
                    assert forall|k: int| 0 <= k < i implies !(self.overlaps(k, range_start as int, range_end as int)
                        && !transmitted@.contains(k as usize)) by {
                        if self.overlaps(k, range_start as int, range_end as int) {
                            let w = choose|w: int| 0 <= w < blocks.len() && blocks@[w] == k as usize;
                            assert(w < j);
                        }
                    }
                }
                return Some(i);
            }
            j = j + 1;
        }
        proof {
            assert forall|k: int| 0 <= k < self.block_offsets.len() implies !(self.overlaps(k, range_start as int, range_end as int)
                && !transmitted@.contains(k as usize)) by {
                if self.overlaps(k, range_start as int, range_end as int) {
                    let w = choose|w: int| 0 <= w < blocks.len() && blocks@[w] == k as usize;
                    assert(transmitted@.contains(blocks@[w]));
                }
            }
        }
        None
    }

    /// The next block to render and send while idle: the first unsent block of
    /// the next view down, else the first unsent block of the view above.
    pub fn next_prefetch_block(&self, transmitted: &HashSet<usize>, scroll_px: u32, viewport_px: u32) -> (r: Option<usize>)
        requires
            self.wf(),
            scroll_px + viewport_px + viewport_px <= u32::MAX,
        ensures
            match r {
                Some(i) => i < self.block_offsets.len() && (
                    (self.prefetch_below(i as int, transmitted@, scroll_px as int, viewport_px as int)
                        && forall|k: int| 0 <= k < i ==> !self.prefetch_below(k, transmitted@, scroll_px as int, viewport_px as int))
                    || (
                    (forall|k: int| 0 <= k < self.block_offsets.len() ==> !self.prefetch_below(k, transmitted@, scroll_px as int, viewport_px as int))
                        && self.prefetch_above(i as int, transmitted@, scroll_px as int, viewport_px as int)
                        && forall|k: int| 0 <= k < i ==> !self.prefetch_above(k, transmitted@, scroll_px as int, viewport_px as int))),
                None => forall|k: int|
                    0 <= k < self.block_offsets.len() ==> !self.prefetch_below(k, transmitted@, scroll_px as int, viewport_px as int)
                        && !self.prefetch_above(k, transmitted@, scroll_px as int, viewport_px as int),
            },
    {
        let window_start = if scroll_px >= viewport_px {
            scroll_px - viewport_px
        } else {
            0
        };
        let window_end = scroll_px + viewport_px * 2;
        let viewport_end = scroll_px + viewport_px;
        match self.first_unsent_in(transmitted, viewport_end, window_end) {
            Some(i) => Some(i),
            None => self.first_unsent_in(transmitted, window_start, scroll_px),
        }
    }
}


/// Heights with those from `start` on replaced by `measured`.
pub open spec fn with_measured(hs: Seq<u32>, start: int, measured: Seq<u32>) -> Seq<u32> {
    Seq::new(hs.len(), |i: int| if start <= i < start + measured.len() {
        measured[i - start]
    } else {
        hs[i]
    })
}

impl ViewportState {
    /// Whether there are unmeasured blocks remaining.
    pub fn has_unmeasured(&self, total_blocks: usize) -> (r: bool)
        ensures
            r == (self.next_unmeasured < total_blocks),
    {
        self.next_unmeasured < total_blocks
    }

    /// Where a batch of `count` blocks measured from `next_unmeasured` ends.
    pub fn measure_batch_end(&self, count: usize, total_blocks: usize) -> (r: usize)
        requires
            self.next_unmeasured + count <= usize::MAX,
        ensures
            r == if self.next_unmeasured + count <= total_blocks {
                self.next_unmeasured + count
            } else {
                total_blocks as int
            },
    {
        let end = self.next_unmeasured + count;
        if end <= total_blocks {
            end
        } else {
            total_blocks
        }
    }

    /// Replaces the heights from `start` on by measured ones.
    fn store_heights(&mut self, start: usize, measured: &Vec<u32>)
        requires
            start + measured.len() <= old(self).block_heights.len(),
        ensures
            final(self).block_heights@ == with_measured(old(self).block_heights@, start as int, measured@),
            final(self).block_offsets == old(self).block_offsets,
            final(self).headings == old(self).headings,
            final(self).total_height == old(self).total_height,
            final(self).gap == old(self).gap,
            final(self).heading_before == old(self).heading_before,
            final(self).heading_after == old(self).heading_after,
            final(self).width_px == old(self).width_px,
            final(self).next_unmeasured == old(self).next_unmeasured,
            final(self).height_corrected_at == old(self).height_corrected_at,
            final(self).search_highlights == old(self).search_highlights,
    {
        let mut k: usize = 0;
        while k < measured.len()
            invariant
                k <= measured.len(),
                start + measured.len() <= self.block_heights.len(),
                self.block_heights@ == with_measured(old(self).block_heights@, start as int, measured@.take(k as int)),
                self.block_offsets == old(self).block_offsets,
                self.headings == old(self).headings,
                self.total_height == old(self).total_height,
                self.gap == old(self).gap,
                self.heading_before == old(self).heading_before,
                self.heading_after == old(self).heading_after,
                self.width_px == old(self).width_px,
                self.next_unmeasured == old(self).next_unmeasured,
                self.height_corrected_at == old(self).height_corrected_at,
                self.search_highlights == old(self).search_highlights,
            decreases measured.len() - k,
        {
            self.block_heights.set(start + k, measured[k]);
            proof {
                assert(self.block_heights@ =~= with_measured(old(self).block_heights@, start as int, measured@.take(k + 1)));
            }
            k = k + 1;
        }
        proof {
            assert(measured@.take(measured.len() as int) =~= measured@);
        }
    }

    /// Takes the measured heights of the next batch of blocks (those from
    /// `next_unmeasured` on) and lays the document out again.
    pub fn measure_batch(&mut self, measured: &Vec<u32>)
        requires
            old(self).wf(),
            old(self).next_unmeasured + measured.len() <= old(self).block_heights.len(),
            layout_prefix(with_measured(old(self).block_heights@, old(self).next_unmeasured as int, measured@), old(self).headings@, old(self).gap, old(self).heading_before, old(self).heading_after, old(self).block_heights.len() as nat) <= u32::MAX,
        ensures
            final(self).wf(),
            final(self).block_heights@ == with_measured(old(self).block_heights@, old(self).next_unmeasured as int, measured@),
            final(self).next_unmeasured == old(self).next_unmeasured + measured.len(),
            final(self).headings == old(self).headings,
            final(self).gap == old(self).gap,
            final(self).heading_before == old(self).heading_before,
            final(self).heading_after == old(self).heading_after,
            final(self).width_px == old(self).width_px,
            final(self).height_corrected_at == old(self).height_corrected_at,
            final(self).search_highlights == old(self).search_highlights,
    {
        let start = self.next_unmeasured;
        self.store_heights(start, measured);
        self.next_unmeasured = start + measured.len();
        self.recompute_offsets();
    }

    /// Takes the measured heights of the first blocks (those of the first
    /// view) and lays the document out again.
    pub fn measure_initial(&mut self, measured: &Vec<u32>)
        requires
            old(self).wf(),
            measured.len() <= old(self).block_heights.len(),
            layout_prefix(with_measured(old(self).block_heights@, 0, measured@), old(self).headings@, old(self).gap, old(self).heading_before, old(self).heading_after, old(self).block_heights.len() as nat) <= u32::MAX,
        ensures
            final(self).wf(),
            final(self).block_heights@ == with_measured(old(self).block_heights@, 0, measured@),
            final(self).next_unmeasured == measured.len(),
            final(self).headings == old(self).headings,
            final(self).gap == old(self).gap,
            final(self).heading_before == old(self).heading_before,
            final(self).heading_after == old(self).heading_after,
            final(self).width_px == old(self).width_px,
            final(self).height_corrected_at == old(self).height_corrected_at,
            final(self).search_highlights == old(self).search_highlights,
    {
        self.store_heights(0, measured);
        self.next_unmeasured = measured.len();
        self.recompute_offsets();
    }

    /// Takes a new width and the heights of all blocks measured at it; every
    /// block counts as measured.
    pub fn resize(&mut self, new_width_px: u32, measured: &Vec<u32>)
        requires
            old(self).wf(),
            measured.len() == old(self).block_heights.len(),
            layout_prefix(measured@, old(self).headings@, old(self).gap, old(self).heading_before, old(self).heading_after, measured.len() as nat) <= u32::MAX,
        ensures
            final(self).wf(),
            final(self).width_px == new_width_px,
            final(self).block_heights@ == measured@,
            final(self).next_unmeasured == measured.len(),
            final(self).headings == old(self).headings,
            final(self).gap == old(self).gap,
            final(self).heading_before == old(self).heading_before,
            final(self).heading_after == old(self).heading_after,
            final(self).height_corrected_at == old(self).height_corrected_at,
            final(self).search_highlights == old(self).search_highlights,
    {
        self.width_px = new_width_px;
        self.store_heights(0, measured);
        proof {
            assert(self.block_heights@ =~= measured@);
        }
        self.next_unmeasured = measured.len();
        self.recompute_offsets();
    }
}

/// The blocks that the search highlights fall in.
pub open spec fn highlighted_blocks(hs: Seq<(usize, usize, usize, bool)>) -> Set<usize> {
    Set::new(|b: usize| exists|i: int| 0 <= i < hs.len() && #[trigger] hs[i].0 == b)
}

/// Collects the blocks of some search highlights into a set.
fn add_highlighted_blocks(set: &mut HashSet<usize>, hs: &Vec<(usize, usize, usize, bool)>)
    ensures
        final(set)@ == old(set)@.union(highlighted_blocks(hs@)),
{
    let mut i: usize = 0;
    while i < hs.len()
        invariant
            i <= hs.len(),
            set@ == old(set)@.union(highlighted_blocks(hs@.take(i as int))),
        decreases hs.len() - i,
    {
        set.insert(hs[i].0);
        proof {
            assert(set@ =~= old(set)@.union(highlighted_blocks(hs@.take(i + 1)))) by {
                assert forall|b: usize| highlighted_blocks(hs@.take(i + 1)).contains(b) implies set@.contains(b) by {
                    let k = choose|k: int| 0 <= k < i + 1 && #[trigger] hs@.take(i + 1)[k].0 == b;
                    if k < i {
                        assert(hs@.take(i as int)[k].0 == b);
                    }
                }
                assert forall|b: usize| highlighted_blocks(hs@.take(i as int)).contains(b) implies highlighted_blocks(hs@.take(i + 1)).contains(b) by {
                    let k = choose|k: int| 0 <= k < i && #[trigger] hs@.take(i as int)[k].0 == b;
                    assert(hs@.take(i + 1)[k].0 == b);
                }
                assert(highlighted_blocks(hs@.take(i + 1)).contains(hs@[i as int].0)) by {
                    assert(hs@.take(i + 1)[i as int].0 == hs@[i as int].0);
                }
            }
        }
        i = i + 1;
    }
    proof {
        assert(hs@.take(hs.len() as int) =~= hs@);
    }
}

/// The highlight drawn for a search match: the current match stronger, in
/// its own color.
pub open spec fn match_range(h: (usize, usize, usize, bool), theme: Theme) -> HighlightRange {
    HighlightRange {
        byte_start: h.1,
        byte_end: h.2,
        color: if h.3 {
            rgb_of(theme.search_current)
        } else {
            rgb_of(theme.search_match)
        },
        alpha: if h.3 {
            160
        } else {
            130
        },
    }
}

/// The highlights of the search matches in block `idx`, in order.
pub open spec fn block_ranges(hs: Seq<(usize, usize, usize, bool)>, idx: usize, theme: Theme) -> Seq<HighlightRange>
    decreases hs.len(),
{
    if hs.len() == 0 {
        seq![]
    } else {
        let rest = block_ranges(hs.drop_last(), idx, theme);
        if hs.last().0 == idx {
            rest.push(match_range(hs.last(), theme))
        } else {
            rest
        }
    }
}

impl ViewportState {
    /// Sets the search highlights. Returns every block that held an old or
    /// holds a new highlight: those must be drawn again.
    pub fn set_search_highlights(&mut self, highlights: Vec<(usize, usize, usize, bool)>) -> (affected: HashSet<usize>)
        ensures
            affected@ == highlighted_blocks(old(self).search_highlights@).union(highlighted_blocks(highlights@)),
            final(self).search_highlights@ == highlights@,
            final(self).block_heights == old(self).block_heights,
            final(self).block_offsets == old(self).block_offsets,
            final(self).headings == old(self).headings,
            final(self).total_height == old(self).total_height,
            final(self).gap == old(self).gap,
            final(self).heading_before == old(self).heading_before,
            final(self).heading_after == old(self).heading_after,
            final(self).width_px == old(self).width_px,
            final(self).next_unmeasured == old(self).next_unmeasured,
            final(self).height_corrected_at == old(self).height_corrected_at,
    {
        let mut affected: HashSet<usize> = HashSet::new();
        add_highlighted_blocks(&mut affected, &self.search_highlights);
        add_highlighted_blocks(&mut affected, &highlights);
        proof {
            assert(affected@ =~= highlighted_blocks(old(self).search_highlights@).union(highlighted_blocks(highlights@)));
        }
        self.search_highlights = highlights;
        affected
    }

    /// Clears the search highlights. Returns the blocks that held one.
    pub fn clear_search_highlights(&mut self) -> (affected: HashSet<usize>)
        ensures
            affected@ == highlighted_blocks(old(self).search_highlights@),
            final(self).search_highlights@.len() == 0,
            final(self).block_heights == old(self).block_heights,
            final(self).block_offsets == old(self).block_offsets,
            final(self).headings == old(self).headings,
            final(self).total_height == old(self).total_height,
            final(self).gap == old(self).gap,
            final(self).heading_before == old(self).heading_before,
            final(self).heading_after == old(self).heading_after,
            final(self).width_px == old(self).width_px,
            final(self).next_unmeasured == old(self).next_unmeasured,
            final(self).height_corrected_at == old(self).height_corrected_at,
    {
        let mut affected: HashSet<usize> = HashSet::new();
        add_highlighted_blocks(&mut affected, &self.search_highlights);
        proof {
            assert(affected@ =~= highlighted_blocks(old(self).search_highlights@));
        }
        self.search_highlights = Vec::new();
        affected
    }

    /// The highlight ranges to draw into block `idx`.
    pub fn block_highlights(&self, idx: usize, theme: &Theme) -> (r: Vec<HighlightRange>)
        ensures
            r@ == block_ranges(self.search_highlights@, idx, *theme),
    {
        let mut r: Vec<HighlightRange> = Vec::new();
        let mut i: usize = 0;
        while i < self.search_highlights.len()
            invariant
                i <= self.search_highlights.len(),
                r@ == block_ranges(self.search_highlights@.take(i as int), idx, *theme),
            decreases self.search_highlights.len() - i,
        {
            let h = self.search_highlights[i];
            proof {
                assert(self.search_highlights@.take(i + 1).drop_last() =~= self.search_highlights@.take(i as int));
            }
            if h.0 == idx {
                let color = if h.3 {
                    color_to_rgb(theme.search_current)
                } else {
                    color_to_rgb(theme.search_match)
                };
                r.push(HighlightRange { byte_start: h.1, byte_end: h.2, color, alpha: if h.3 { 160 } else { 130 } });
            }
            i = i + 1;
        }
        proof {
            assert(self.search_highlights@.take(self.search_highlights.len() as int) =~= self.search_highlights@);
        }
        r
    }
}

/// Forgets that the blocks after `corrected_idx` (up to `total_blocks`) were
/// sent, because they moved; returns those that had been, in order.
pub fn invalidate_after(transmitted: &mut HashSet<usize>, corrected_idx: usize, total_blocks: usize) -> (removed: Vec<usize>)
    ensures
        final(transmitted)@ == old(transmitted)@.filter(|j: usize| !(corrected_idx < j < total_blocks)),
        forall|a: int, b: int| 0 <= a < b < removed.len() ==> removed@[a] < removed@[b],
        forall|j: usize| removed@.contains(j) <==> (old(transmitted)@.contains(j) && corrected_idx < j < total_blocks),
{
    let mut removed: Vec<usize> = Vec::new();
    if corrected_idx >= total_blocks {
        proof {
            assert(transmitted@ =~= old(transmitted)@.filter(|j: usize| !(corrected_idx < j < total_blocks)));
        }
        return removed;
    }
    let mut j: usize = corrected_idx + 1;
    while j < total_blocks
        invariant
            corrected_idx < j <= total_blocks,
            transmitted@ == old(transmitted)@.filter(|x: usize| !(corrected_idx < x < j)),
            forall|a: int, b: int| 0 <= a < b < removed.len() ==> removed@[a] < removed@[b],
            forall|a: int| 0 <= a < removed.len() ==> removed@[a] < j,
            forall|x: usize| removed@.contains(x) <==> (old(transmitted)@.contains(x) && corrected_idx < x < j),
        decreases total_blocks - j,
    {
        let ghost prev = removed@;
        let was = transmitted.remove(&j);
        if was {
            removed.push(j);
        }
        proof {
            assert(was == old(transmitted)@.contains(j));
            assert(removed@ == if was {
                prev.push(j)
            } else {
                prev
            });
            assert(transmitted@ =~= old(transmitted)@.filter(|x: usize| !(corrected_idx < x < j + 1)));
            assert forall|x: usize| removed@.contains(x) implies (old(transmitted)@.contains(x) && corrected_idx < x < j + 1) by {
                let w = choose|w: int| 0 <= w < removed.len() && removed@[w] == x;
                if w < prev.len() {
                    assert(prev[w] == x);
                    assert(prev.contains(x));
                }
            }
            assert forall|x: usize| (old(transmitted)@.contains(x) && corrected_idx < x < j + 1) implies removed@.contains(x) by {
                if x < j {
                    assert(prev.contains(x));
                    let w = choose|w: int| 0 <= w < prev.len() && prev[w] == x;
                    assert(removed@[w] == x);
                } else {
                    assert(removed@[removed.len() - 1] == x);
                }
            }
        }
        j = j + 1;
    }
    removed
}


/// A parent's highlights as seen by a child that covers the bytes
/// `[offset, offset + len)`: those that reach into it, shifted to its start
/// and cut at its end.
pub open spec fn sliced_ranges(hs: Seq<HighlightRange>, offset: nat, len: nat) -> Seq<HighlightRange>
    decreases hs.len(),
{
    if hs.len() == 0 {
        seq![]
    } else {
        let rest = sliced_ranges(hs.drop_last(), offset, len);
        let h = hs.last();
        if h.byte_end > offset && h.byte_start < offset + len {
            let start = if h.byte_start >= offset {
                h.byte_start - offset
            } else {
                0
            };
            let end = if h.byte_end - offset <= len {
                h.byte_end - offset
            } else {
                len as int
            };
            rest.push(HighlightRange { byte_start: start as usize, byte_end: end as usize, color: h.color, alpha: h.alpha })
        } else {
            rest
        }
    }
}

/// Slice parent highlight ranges into a child's byte-relative ranges.
pub fn slice_highlights(highlights: &Vec<HighlightRange>, offset: usize, len: usize) -> (r: Vec<HighlightRange>)
    requires
        offset + len <= usize::MAX,
    ensures
        r@ == sliced_ranges(highlights@, offset as nat, len as nat),
{
    let mut r: Vec<HighlightRange> = Vec::new();
    let end = offset + len;
    let mut i: usize = 0;
    while i < highlights.len()
        invariant
            i <= highlights.len(),
            end == offset + len,
            r@ == sliced_ranges(highlights@.take(i as int), offset as nat, len as nat),
        decreases highlights.len() - i,
    {
        let hl = highlights[i];
        proof {
            assert(highlights@.take(i + 1).drop_last() =~= highlights@.take(i as int));
        }
        if hl.byte_end > offset && hl.byte_start < end {
            let start = if hl.byte_start >= offset {
                hl.byte_start - offset
            } else {
                0
            };
            let stop = if hl.byte_end - offset <= len {
                hl.byte_end - offset
            } else {
                len
            };
            r.push(HighlightRange { byte_start: start, byte_end: stop, color: hl.color, alpha: hl.alpha });
        }
        i = i + 1;
    }
    proof {
        assert(highlights@.take(highlights.len() as int) =~= highlights@);
    }
    r
}

/// The UTF-8 length of a text.
pub open spec fn byte_len(t: Seq<char>) -> nat {
    encode_utf8(t).len()
}

/// The UTF-8 length of the link marker (a no-break space and an arrow).
pub open spec fn link_marker_bytes() -> nat {
    5
}

/// The bytes that spans take once drawn: their text, and the link marker after each link.
pub open spec fn drawn_bytes(spans: Seq<SpanModel>) -> nat
    decreases spans.len(),
{
    if spans.len() == 0 {
        0
    } else {
        drawn_bytes(spans.drop_last()) + byte_len(spans.last().text) + if spans.last().link_url is Some {
            link_marker_bytes()
        } else {
            0
        }
    }
}

/// The byte ranges (with their targets) that the links among the spans
/// cover once drawn, marker included.
pub open spec fn link_spans(spans: Seq<SpanModel>) -> Seq<(nat, nat, Option<Seq<char>>)>
    decreases spans.len(),
{
    if spans.len() == 0 {
        seq![]
    } else {
        let rest = link_spans(spans.drop_last());
        let c = drawn_bytes(spans.drop_last());
        let s = spans.last();
        if s.link_url is Some {
            rest.push((c, c + byte_len(s.text) + link_marker_bytes(), s.link_url))
        } else {
            rest
        }
    }
}

/// The link ranges of some spans, for underlining and hit testing.
pub fn link_ranges_from_spans(spans: &Vec<StyledSpan>) -> (r: Vec<LinkRange>)
    requires
        drawn_bytes(spans_model(spans@)) <= usize::MAX,
    ensures
        r.len() == link_spans(spans_model(spans@)).len(),
        forall|i: int|
            0 <= i < r.len() ==> {
                let l = link_spans(spans_model(spans@))[i];
                &&& #[trigger] r@[i].byte_start == l.0
                &&& r@[i].byte_end == l.1
                &&& crate::text::opt_chars(r@[i].url) == l.2
            },
{
    let mut links: Vec<LinkRange> = Vec::new();
    let mut cursor: usize = 0;
    let mut i: usize = 0;
    while i < spans.len()
        invariant
            i <= spans.len(),
            drawn_bytes(spans_model(spans@)) <= usize::MAX,
            cursor == drawn_bytes(spans_model(spans@.take(i as int))),
            links.len() == link_spans(spans_model(spans@.take(i as int))).len(),
            forall|k: int|
                0 <= k < links.len() ==> {
                    let l = link_spans(spans_model(spans@.take(i as int)))[k];
                    &&& #[trigger] links@[k].byte_start == l.0
                    &&& links@[k].byte_end == l.1
                    &&& crate::text::opt_chars(links@[k].url) == l.2
                },
        decreases spans.len() - i,
    {
        let span = &spans[i];
        proof {
            assert(spans_model(spans@.take(i + 1)).drop_last() =~= spans_model(spans@.take(i as int)));
            assert(spans_model(spans@.take(i + 1)).last() == span_model(spans@[i as int]));
            lemma_drawn_bytes_prefix(spans_model(spans@), (i + 1) as nat);
            assert(spans_model(spans@).take(i + 1) =~= spans_model(spans@.take(i + 1)));
        }
        let len = span.text.as_str().len();
        if span.link_url.is_some() {
            links.push(LinkRange { byte_start: cursor, byte_end: cursor + len + 5, url: copy_opt_string(&span.link_url) });
            cursor = cursor + len + 5;
        } else {
            cursor = cursor + len;
        }
        i = i + 1;
    }
    proof {
        assert(spans@.take(spans.len() as int) =~= spans@);
    }
    links
}

/// The bytes of a prefix of spans are no more than those of all of them.
pub proof fn lemma_drawn_bytes_prefix(spans: Seq<SpanModel>, k: nat)
    requires
        k <= spans.len(),
    ensures
        drawn_bytes(spans.take(k as int)) <= drawn_bytes(spans),
    decreases spans.len(),
{
    if k < spans.len() {
        lemma_drawn_bytes_prefix(spans.drop_last(), k);
        assert(spans.drop_last().take(k as int) =~= spans.take(k as int));
    } else {
        assert(spans.take(k as int) =~= spans);
    }
}


/// A well-formed layout is fixed by its heights and gaps: two layouts with
/// the same heights, headings and gaps have the same offsets and total. So
/// a height correction gives what laying the document out anew gives.
pub proof fn law_layout_determined(a: ViewportState, b: ViewportState)
    requires
        a.wf(),
        b.wf(),
        a.block_heights@ == b.block_heights@,
        a.headings@ == b.headings@,
        a.gap == b.gap,
        a.heading_before == b.heading_before,
        a.heading_after == b.heading_after,
    ensures
        a.block_offsets@ == b.block_offsets@,
        a.total_height == b.total_height,
{
    assert(a.block_offsets@ =~= b.block_offsets@);
}

/// In a well-formed layout (which `new`, `resize`, `measure_batch`,
/// `measure_initial` and `correct_height` all leave behind) the first block
/// starts at 0, each next block starts after the one before it and the gap
/// between them (`heading_before` ahead of a heading, else `heading_after`
/// behind one, else the default gap), and the document ends with the last
/// block (0 when there are none).
pub proof fn law_layout_offsets(v: ViewportState)
    requires
        v.wf(),
    ensures
        v.block_offsets.len() == v.block_heights.len(),
        v.block_offsets.len() > 0 ==> v.block_offsets@[0] == 0,
        forall|i: int|
            0 <= i && i + 1 < v.block_offsets.len() ==> #[trigger] v.block_offsets@[i + 1] == v.block_offsets@[i]
                + v.block_heights@[i] + gap_size(v.headings@[i], v.headings@[i + 1], v.gap, v.heading_before, v.heading_after),
        v.block_offsets.len() == 0 ==> v.total_height == 0,
        v.block_offsets.len() > 0 ==> v.total_height == v.block_offsets@[v.block_offsets.len() - 1]
            + v.block_heights@[v.block_heights.len() - 1],
{
    let n = v.block_offsets.len() as int;
    if n > 0 {
        assert(v.block_offsets@[0] == v.start_of(0));
        assert(v.block_offsets@[n - 1] == v.start_of((n - 1) as nat));
        assert(v.total_height == v.start_of(n as nat));
    }
    assert forall|i: int| 0 <= i && i + 1 < n implies #[trigger] v.block_offsets@[i + 1] == v.block_offsets@[i]
        + v.block_heights@[i] + gap_size(v.headings@[i], v.headings@[i + 1], v.gap, v.heading_before, v.heading_after) by {
        assert(v.block_offsets@[i] == v.start_of(i as nat));
        assert(v.block_offsets@[i + 1] == v.start_of((i + 1) as nat));
    }
}

impl ViewportState {
    /// How many blocks to measure before the first draw: those up to the
    /// first block that starts at or below the view's bottom (all when none
    /// does, at most `total_blocks`), and one more.
    pub fn initial_measure_count(&self, viewport_height_px: u32, total_blocks: usize) -> (r: usize)
        requires
            self.wf(),
            total_blocks < usize::MAX,
        ensures
            ({
                let k = first_at_least(self.block_offsets@, viewport_height_px as int);
                r == (if k <= total_blocks { k } else { total_blocks as int }) + 1
            }),
    {
        proof {
            self.lemma_layout_order();
        }
        let k = partition_point(&self.block_offsets, viewport_height_px, true);
        proof {
            lemma_first_at_least(self.block_offsets@, viewport_height_px as int, k as int);
        }
        let m = if k <= total_blocks { k } else { total_blocks };
        m + 1
    }

    /// The scroll row that keeps block `block` at the top of the view after
    /// the layout moved: the row it now starts in (rounded down); none when
    /// there is no such block or no cell height.
    pub fn row_of_block(&self, block: usize, cell_h: u16) -> (r: Option<u32>)
        ensures
            r == (if block < self.block_offsets.len() && cell_h > 0 {
                Some((self.block_offsets@[block as int] / (cell_h as u32)) as u32)
            } else {
                None
            }),
    {
        if block < self.block_offsets.len() && cell_h > 0 {
            Some(self.block_offsets[block] / cell_h as u32)
        } else {
            None
        }
    }
}

/// The index of the first value at or above `y`, or the length when none is.
pub open spec fn first_at_least(offs: Seq<u32>, y: int) -> int
    decreases offs.len(),
{
    if offs.len() == 0 {
        0
    } else if offs[0] >= y {
        0
    } else {
        first_at_least(offs.drop_first(), y) + 1
    }
}

/// In ascending values, the count of those below `y` is the first index of
/// one at or above it.
proof fn lemma_first_at_least(offs: Seq<u32>, y: int, k: int)
    requires
        0 <= k <= offs.len(),
        forall|i: int| 0 <= i < k ==> offs[i] < y,
        forall|i: int| k <= i < offs.len() ==> offs[i] >= y,
    ensures
        first_at_least(offs, y) == k,
    decreases offs.len(),
{
    if offs.len() > 0 {
        if k > 0 {
            let rest = offs.drop_first();
            assert forall|i: int| 0 <= i < k - 1 implies rest[i] < y by {
                assert(rest[i] == offs[i + 1]);
            }
            assert forall|i: int| k - 1 <= i < rest.len() implies rest[i] >= y by {
                assert(rest[i] == offs[i + 1]);
            }
            lemma_first_at_least(rest, y, k - 1);
        }
    }
}

/// After the layout moves, scrolling to `row_of_block` puts the block that
/// was at the top of the view back in the view's first row: it starts within
/// that row.
pub proof fn law_row_of_block_keeps_block_on_top(top: u32, cell_h: u16)
    requires
        cell_h > 0,
    ensures
        ({
            let row = (top / (cell_h as u32)) as int;
            row * cell_h <= top < row * cell_h + cell_h
        }),
{
    let row = (top / (cell_h as u32)) as int;
    assert(row * cell_h <= top < row * cell_h + cell_h) by (nonlinear_arith)
        requires
            row == (top as int) / (cell_h as int),
            cell_h > 0,
            top >= 0,
    ;
}

/// Which blocks are headings, in order.
pub fn block_headings(blocks: &Vec<Block>) -> (r: Vec<bool>)
    ensures
        r@ == Seq::new(blocks.len() as nat, |i: int| is_heading_block(blocks@[i]@)),
{
    let mut r: Vec<bool> = Vec::new();
    let mut i: usize = 0;
    while i < blocks.len()
        invariant
            i <= blocks.len(),
            r@ == Seq::new(i as nat, |k: int| is_heading_block(blocks@[k]@)),
        decreases blocks.len() - i,
    {
        r.push(matches!(&blocks[i], Block::Heading { .. }));
        proof {
            assert(r@ =~= Seq::new((i + 1) as nat, |k: int| is_heading_block(blocks@[k]@)));
        }
        i = i + 1;
    }
    r
}

/// Whether blocks of the given heights, laid out with the given gaps, end
/// within `u32` pixels (as a layout must).
pub fn layout_fits(heads: &Vec<bool>, heights: &Vec<u32>, gap: u32, before: u32, after: u32) -> (r: bool)
    requires
        heads.len() == heights.len(),
    ensures
        r == (layout_prefix(heights@, heads@, gap, before, after, heights.len() as nat) <= u32::MAX),
{
    let n = heights.len();
    let mut acc: u64 = 0;
    let mut i: usize = 0;
    while i < n
        invariant
            i <= n,
            n == heights.len(),
            heads.len() == n,
            acc == layout_prefix(heights@, heads@, gap, before, after, i as nat),
            acc <= u32::MAX,
        decreases n - i,
    {
        let g: u32 = if i + 1 < n {
            gap_between_flags(heads[i], heads[i + 1], gap, before, after)
        } else {
            0
        };
        acc = acc + heights[i] as u64 + g as u64;
        if acc > u32::MAX as u64 {
            proof {
                lemma_prefix_monotone(heights@, heads@, gap, before, after, (i + 1) as nat, n as nat);
            }
            return false;
        }
        i = i + 1;
    }
    true
}

/// The gap between two neighbouring blocks, from whether each is a heading.
fn gap_between_flags(above_heading: bool, below_heading: bool, gap: u32, before: u32, after: u32) -> (r: u32)
    ensures
        r == gap_size(above_heading, below_heading, gap, before, after),
{
    if below_heading {
        before
    } else if above_heading {
        after
    } else {
        gap
    }
}

} // verus!
