use std::collections::HashSet;
use mdv::blocks::{Block, HeadingLevel, InlineStyle, StyledSpan};
use mdv::graphics::HighlightRange;
use mdv::theme::{builtin, color_to_rgb};
use mdv::viewport::{
    block_headings, gap_between, invalidate_after, layout_fits, link_ranges_from_spans, partition_point, slice_highlights,
    ViewportState,
};

fn span(text: &str, url: Option<&str>) -> StyledSpan {
    StyledSpan {
        text: text.to_string(),
        style: InlineStyle { bold: false, italic: false, strikethrough: false, code: false },
        link_url: url.map(|u| u.to_string()),
    }
}

fn heading(text: &str) -> Block {
    Block::Heading { level: HeadingLevel::H1, spans: vec![span(text, None)], id: None }
}

fn para(text: &str) -> Block {
    Block::Paragraph { spans: vec![span(text, None)] }
}

fn sample() -> (Vec<Block>, ViewportState) {
    let blocks = vec![heading("Title"), para("one"), para("two")];
    let vp = ViewportState::new(&blocks, vec![30, 20, 10], 5, 8, 3, 800);
    (blocks, vp)
}

#[test]
fn gaps_depend_on_headings() {
    assert_eq!(gap_between(&para("a"), &heading("b"), 5, 8, 3), 8);
    assert_eq!(gap_between(&heading("a"), &para("b"), 5, 8, 3), 3);
    assert_eq!(gap_between(&heading("a"), &heading("b"), 5, 8, 3), 8);
    assert_eq!(gap_between(&para("a"), &para("b"), 5, 8, 3), 5);
}

#[test]
fn offsets_are_heights_plus_gaps() {
    let (_, vp) = sample();
    assert_eq!(vp.block_offsets, vec![0, 33, 58]);
    assert_eq!(vp.total_height, 68);
    assert_eq!(vp.next_unmeasured, 0);
    assert!(vp.height_corrected_at.is_none());
}

#[test]
fn height_correction_moves_later_blocks() {
    let (blocks, mut vp) = sample();
    vp.correct_height(1, 25);
    assert_eq!(vp.block_heights, vec![30, 25, 10]);
    assert_eq!(vp.block_offsets, vec![0, 33, 63]);
    assert_eq!(vp.total_height, 73);
    assert_eq!(vp.height_corrected_at, Some(1));
    // the same layout as laying the corrected heights out from scratch
    let fresh = ViewportState::new(&blocks, vec![30, 25, 10], 5, 8, 3, 800);
    assert_eq!(fresh.block_offsets, vp.block_offsets);
    assert_eq!(fresh.total_height, vp.total_height);
    vp.correct_height(2, 4);
    assert_eq!(vp.block_offsets, vec![0, 33, 63]);
    assert_eq!(vp.total_height, 67);
    assert_eq!(vp.height_corrected_at, Some(2));
}

#[test]
fn unchanged_height_is_no_correction() {
    let (_, mut vp) = sample();
    vp.correct_height(0, 30);
    assert!(vp.height_corrected_at.is_none());
    assert_eq!(vp.block_offsets, vec![0, 33, 58]);
}

#[test]
fn pixel_lookup() {
    let (_, vp) = sample();
    assert_eq!(vp.block_at_pixel(0), 0);
    assert_eq!(vp.block_at_pixel(32), 0);
    assert_eq!(vp.block_at_pixel(33), 1);
    assert_eq!(vp.block_at_pixel(57), 1);
    assert_eq!(vp.block_at_pixel(1000), 2);
    assert_eq!(vp.first_visible_block(34), 1);
    assert_eq!(vp.first_visible_block(0), 0);
}

#[test]
fn partition_points() {
    let v = vec![0u32, 10, 10, 20];
    assert_eq!(partition_point(&v, 10, true), 1);
    assert_eq!(partition_point(&v, 10, false), 3);
    assert_eq!(partition_point(&v, 100, false), 4);
    assert_eq!(partition_point(&Vec::new(), 1, false), 0);
}

#[test]
fn overlapping_blocks() {
    let (_, vp) = sample();
    assert_eq!(vp.blocks_overlapping(30, 60), vec![1, 2]);
    assert_eq!(vp.blocks_overlapping(0, 1), vec![0]);
    assert_eq!(vp.blocks_overlapping(29, 34), vec![0, 1]);
    assert_eq!(vp.blocks_overlapping(53, 58), Vec::<usize>::new());
}

#[test]
fn distance_from_view() {
    let (_, vp) = sample();
    // keep window around a 10 px view at 100: [90, 120]
    assert!(vp.is_distant(0, 100, 10));
    assert!(!vp.is_distant(2, 60, 10));
    assert!(vp.should_evict(7, 0, 10));
    assert!(!vp.should_evict(0, 0, 10));
}

#[test]
fn prefetch_prefers_the_view_below() {
    let (_, vp) = sample();
    let none: HashSet<usize> = HashSet::new();
    assert_eq!(vp.next_prefetch_block(&none, 0, 30), Some(1));
    let mut sent: HashSet<usize> = HashSet::new();
    sent.insert(1);
    sent.insert(2);
    assert_eq!(vp.next_prefetch_block(&sent, 0, 30), None);
    // above the view at 58 (view 20): [38, 58) holds block 1
    let mut sent2: HashSet<usize> = HashSet::new();
    sent2.insert(2);
    assert_eq!(vp.next_prefetch_block(&sent2, 58, 20), Some(1));
}

#[test]
fn measuring_relayouts() {
    let (_, mut vp) = sample();
    assert!(vp.has_unmeasured(3));
    assert_eq!(vp.measure_batch_end(2, 3), 2);
    vp.measure_initial(&vec![40]);
    assert_eq!(vp.next_unmeasured, 1);
    assert_eq!(vp.block_offsets, vec![0, 43, 68]);
    vp.measure_batch(&vec![21, 11]);
    assert_eq!(vp.next_unmeasured, 3);
    assert!(!vp.has_unmeasured(3));
    assert_eq!(vp.block_heights, vec![40, 21, 11]);
    assert_eq!(vp.block_offsets, vec![0, 43, 69]);
    assert_eq!(vp.total_height, 80);
    assert_eq!(vp.measure_batch_end(10, 3), 3);
    vp.resize(400, &vec![1, 2, 3]);
    assert_eq!(vp.width_px, 400);
    assert_eq!(vp.block_offsets, vec![0, 4, 11]);
    assert_eq!(vp.total_height, 14);
}

#[test]
fn search_highlights_report_affected_blocks() {
    let (_, mut vp) = sample();
    let a = vp.set_search_highlights(vec![(0, 0, 2, true), (2, 1, 3, false)]);
    assert_eq!(a, [0, 2].into_iter().collect::<HashSet<usize>>());
    let b = vp.set_search_highlights(vec![(1, 0, 1, true)]);
    assert_eq!(b, [0, 1, 2].into_iter().collect::<HashSet<usize>>());
    let theme = builtin("default").unwrap();
    let h = vp.block_highlights(1, &theme);
    assert_eq!(h.len(), 1);
    assert_eq!((h[0].byte_start, h[0].byte_end, h[0].alpha), (0, 1, 160));
    assert_eq!(h[0].color, color_to_rgb(theme.search_current));
    let c = vp.clear_search_highlights();
    assert_eq!(c, [1].into_iter().collect::<HashSet<usize>>());
    assert!(vp.search_highlights.is_empty());
}

#[test]
fn other_matches_are_fainter() {
    let (_, mut vp) = sample();
    vp.set_search_highlights(vec![(0, 4, 9, false)]);
    let theme = builtin("default").unwrap();
    let h = vp.block_highlights(0, &theme);
    assert_eq!((h[0].byte_start, h[0].byte_end, h[0].alpha), (4, 9, 130));
    assert_eq!(h[0].color, color_to_rgb(theme.search_match));
    assert!(vp.block_highlights(1, &theme).is_empty());
}

#[test]
fn highlights_sliced_for_a_child() {
    let hl = |s, e| HighlightRange { byte_start: s, byte_end: e, color: [1, 2, 3], alpha: 9 };
    let parent = vec![hl(5, 15), hl(12, 30), hl(0, 10), hl(20, 25)];
    let child = slice_highlights(&parent, 10, 10);
    let got: Vec<(usize, usize)> = child.iter().map(|h| (h.byte_start, h.byte_end)).collect();
    assert_eq!(got, vec![(0, 5), (2, 10)]);
    assert_eq!(child[0].color, [1, 2, 3]);
}

#[test]
fn link_ranges_include_the_marker() {
    let spans = vec![span("ab", None), span("link", Some("#x")), span("é", None), span("z", Some("u"))];
    let links = link_ranges_from_spans(&spans);
    assert_eq!(links.len(), 2);
    assert_eq!((links[0].byte_start, links[0].byte_end), (2, 11));
    assert_eq!(links[0].url.as_deref(), Some("#x"));
    assert_eq!((links[1].byte_start, links[1].byte_end), (13, 19));
    assert_eq!("\u{00A0}↗".len(), 5);
}

#[test]
fn invalidation_after_a_correction() {
    let mut sent: HashSet<usize> = [0, 2, 3, 7].into_iter().collect();
    let removed = invalidate_after(&mut sent, 1, 5);
    assert_eq!(removed, vec![2, 3]);
    assert_eq!(sent, [0, 7].into_iter().collect::<HashSet<usize>>());
    assert!(invalidate_after(&mut sent, 9, 5).is_empty());
}

#[test]
fn blocks_measured_before_the_first_draw() {
    // Offsets 0, 100, 200 with no gaps: a view 150 high reaches block 1;
    // block 2 is the first at or below its bottom, so three are measured.
    let blocks = vec![para("a"), para("b"), para("c")];
    let vp = ViewportState::new(&blocks, vec![100, 100, 100], 0, 0, 0, 800);
    assert_eq!(vp.initial_measure_count(150, 3), 3);
    assert_eq!(vp.initial_measure_count(100, 3), 2);
    assert_eq!(vp.initial_measure_count(1000, 3), 4);
    assert_eq!(vp.initial_measure_count(1000, 2), 3);
}

#[test]
fn row_of_a_block_after_the_layout_moved() {
    let blocks = vec![para("a"), para("b")];
    let vp = ViewportState::new(&blocks, vec![45, 10], 0, 0, 0, 800);
    assert_eq!(vp.row_of_block(1, 20), Some(2));
    assert_eq!(vp.row_of_block(2, 20), None);
    assert_eq!(vp.row_of_block(1, 0), None);
}

#[test]
fn headings_of_blocks() {
    assert_eq!(block_headings(&vec![heading("a"), para("b")]), vec![true, false]);
}

#[test]
fn layouts_that_fit_in_u32() {
    // Two paragraphs: heights plus one gap between them.
    let heads = vec![false, false];
    assert!(layout_fits(&heads, &vec![u32::MAX - 10, 5], 5, 0, 0));
    assert!(!layout_fits(&heads, &vec![u32::MAX - 10, 5], 6, 0, 0));
    // No gap follows the last block.
    assert!(layout_fits(&vec![false], &vec![u32::MAX], 100, 100, 100));
}

#[test]
fn offsets_follow_heights_and_gaps_after_each_change() {
    let blocks = vec![para("intro"), heading("Title"), para("one"), para("two")];
    let mut vp = ViewportState::new(&blocks, vec![10, 30, 20, 10], 5, 8, 3, 800);
    // 0, 10 + 8 before the heading, 48 + 3 after it, 71 + 5
    assert_eq!(vp.block_offsets, vec![0, 18, 51, 76]);
    assert_eq!(vp.total_height, 86);
    vp.measure_initial(&vec![12, 32]);
    assert_eq!(vp.block_offsets, vec![0, 20, 55, 80]);
    assert_eq!(vp.total_height, 90);
    vp.resize(400, &vec![1, 2, 3, 4]);
    assert_eq!(vp.block_offsets, vec![0, 9, 14, 22]);
    assert_eq!(vp.total_height, 26);
}
