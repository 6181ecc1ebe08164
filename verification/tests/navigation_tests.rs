use mdv::blocks::{Block, InlineStyle, StyledSpan};
use mdv::navigation::{
    block_chunk_count, block_image_id, exposed_range, highlights_for, mouse_to_block, navigate_match, padded_height, pixel_to_rows,
    row_image, scroll_pct, search_status,
    transmit_block_image, SearchMatch,
};
use mdv::terminal::Terminal;
use mdv::viewport::ViewportState;

fn para(text: &str) -> Block {
    Block::Paragraph {
        spans: vec![StyledSpan {
            text: text.to_string(),
            style: InlineStyle { bold: false, italic: false, strikethrough: false, code: false },
            link_url: None,
        }],
    }
}

fn layout(heights: Vec<u32>) -> ViewportState {
    let blocks: Vec<Block> = heights.iter().map(|_| para("x")).collect();
    ViewportState::new(&blocks, heights, 0, 0, 0, 800)
}

#[test]
fn pixels_to_rows_round_up() {
    assert_eq!(pixel_to_rows(41, 20), 3);
    assert_eq!(pixel_to_rows(40, 20), 2);
    assert_eq!(pixel_to_rows(0, 20), 0);
    assert_eq!(pixel_to_rows(5, 0), 0);
    assert_eq!(pixel_to_rows(u32::MAX, 1), u32::MAX);
}

#[test]
fn image_ids_and_chunks() {
    assert_eq!(block_image_id(0, 0), 1000);
    assert_eq!(block_image_id(2, 3), 3003);
    assert_eq!(block_chunk_count(450, 20), 3);
    assert_eq!(block_chunk_count(400, 20), 2);
    assert_eq!(block_chunk_count(1, 20), 1);
    assert_eq!(block_chunk_count(0, 20), 0);
    assert_eq!(block_chunk_count(100, 0), 0);
}

#[test]
fn tall_images_go_out_in_chunks() {
    let mut t = Terminal::new(80, 24, 10, 2);
    // 25 px at 2 px rows = 13 rows: chunks of 10 rows (20 px) and 3 rows (5 px)
    let rgba = vec![128u8; 25 * 4];
    assert!(transmit_block_image(&mut t, 0, &rgba, 1, 25, 2).is_ok());
    let out = t.flush();
    assert!(out.contains("\x1b_Gi=1000,a=T,U=1,f=100,q=2,s=1,v=20,m=0;"));
    assert!(out.contains("\x1b_Gi=1001,a=T,U=1,f=100,q=2,s=1,v=5,m=0;"));
    assert_eq!(out.matches("\x1b_Gi=").count(), 2);
}

#[test]
fn a_longer_pixel_buffer_sends_only_its_first_rows() {
    let mut exact = Terminal::new(80, 24, 10, 2);
    let rgba = vec![128u8; 25 * 4];
    assert!(transmit_block_image(&mut exact, 0, &rgba, 1, 25, 2).is_ok());
    let mut longer = Terminal::new(80, 24, 10, 2);
    let mut padded = rgba.clone();
    padded.extend(vec![7u8; 40]);
    assert!(transmit_block_image(&mut longer, 0, &padded, 1, 25, 2).is_ok());
    assert_eq!(exact.flush(), longer.flush());
}

#[test]
fn mouse_position_to_block() {
    let vp = layout(vec![40, 40, 40]);
    // row 2 of a view scrolled 1 row (20 px cells): y = 20 + 40 + 10 = 70
    let (idx, x, y) = mouse_to_block(2, 5, 1, 20, 3, 10, &vp);
    assert_eq!(idx, 1);
    assert_eq!(x, 25);
    assert_eq!(y, 30);
    let (idx, x, _) = mouse_to_block(0, 1, 0, 20, 3, 10, &vp);
    assert_eq!(idx, 0);
    assert_eq!(x, 5);
}

#[test]
fn scroll_percentage() {
    let vp = layout(vec![1000]);
    let t = Terminal::new(80, 12, 10, 20);
    // 50 rows in all, 10 on screen
    assert_eq!(scroll_pct(0, &vp, &t), "20%");
    assert_eq!(scroll_pct(10, &vp, &t), "40%");
    assert_eq!(scroll_pct(45, &vp, &t), "100%");
    let empty = layout(vec![]);
    assert_eq!(scroll_pct(0, &empty, &t), "100%");
}

#[test]
fn match_navigation_wraps_and_scrolls() {
    let mut vp = layout(vec![100, 100, 100, 100]);
    let matches = vec![
        SearchMatch { block_idx: 0, byte_start: 0, byte_end: 1 },
        SearchMatch { block_idx: 3, byte_start: 2, byte_end: 3 },
    ];
    let mut current = 0usize;
    let mut scroll = 0u32;
    let affected = navigate_match(&matches, &mut current, 1, &mut vp, &mut scroll, 20, 10);
    assert_eq!(current, 1);
    assert_eq!(scroll, 15);
    assert_eq!(affected.len(), 2);
    assert_eq!(vp.search_highlights, vec![(0, 0, 1, false), (3, 2, 3, true)]);
    navigate_match(&matches, &mut current, 1, &mut vp, &mut scroll, 20, 10);
    assert_eq!(current, 0);
    assert_eq!(scroll, 0);
    navigate_match(&matches, &mut current, -1, &mut vp, &mut scroll, 20, 10);
    assert_eq!(current, 1);
}

#[test]
fn visible_match_keeps_scroll() {
    let mut vp = layout(vec![50, 50]);
    let matches = vec![
        SearchMatch { block_idx: 0, byte_start: 0, byte_end: 1 },
        SearchMatch { block_idx: 1, byte_start: 0, byte_end: 1 },
    ];
    let mut current = 0usize;
    let mut scroll = 0u32;
    navigate_match(&matches, &mut current, 1, &mut vp, &mut scroll, 20, 10);
    assert_eq!(current, 1);
    assert_eq!(scroll, 0);
}

#[test]
fn highlights_mark_the_current_match() {
    let matches = vec![
        SearchMatch { block_idx: 4, byte_start: 1, byte_end: 2 },
        SearchMatch { block_idx: 5, byte_start: 3, byte_end: 4 },
    ];
    assert_eq!(highlights_for(&matches, 1), vec![(4, 1, 2, false), (5, 3, 4, true)]);
}

#[test]
fn padded_height_rounds_up_to_whole_rows() {
    assert_eq!(padded_height(41, 20), 60);
    assert_eq!(padded_height(40, 20), 40);
    assert_eq!(padded_height(0, 20), 0);
    assert_eq!(padded_height(41, 0), 41);
}

#[test]
fn row_image_finds_the_sent_block_chunk_and_row() {
    // Blocks of 400 and 100 pixels, cells 20 high: block 0 has two chunks of ten rows.
    let v = layout(vec![400, 100]);
    let mut sent = std::collections::HashSet::new();
    sent.insert(0usize);
    assert_eq!(row_image(&v, &sent, 2, 0, 20), Some((0, 0, 0)));
    assert_eq!(row_image(&v, &sent, 2, 250, 20), Some((0, 1, 2)));
    // Block 1 is not sent: its rows are blank.
    assert_eq!(row_image(&v, &sent, 2, 410, 20), None);
    // Past the document.
    assert_eq!(row_image(&v, &sent, 2, 900, 20), None);
}

#[test]
fn exposed_rows_after_scrolling() {
    // Ten rows of 20 pixels on screen: scrolling down by 3 shows rows 15..18.
    assert_eq!(exposed_range(5, 8, 20, 10), (300, 360));
    // Scrolling up by 2 shows rows 3..5.
    assert_eq!(exposed_range(5, 3, 20, 10), (60, 100));
}

#[test]
fn search_status_texts() {
    let v = layout(vec![400, 100]);
    let t = Terminal::new(80, 12, 10, 20);
    let matches = vec![
        SearchMatch { block_idx: 0, byte_start: 0, byte_end: 1 },
        SearchMatch { block_idx: 1, byte_start: 0, byte_end: 1 },
    ];
    let (counter, position) = search_status(&matches, 1, 0, &v, &t);
    assert_eq!(counter, "2/2");
    // Block 1 starts at pixel 400, row 20; ten of 25 rows are in view.
    assert_eq!(position, "L21 40%");
    let (none, pct) = search_status(&vec![], 0, 0, &v, &t);
    assert_eq!(none, "no matches");
    assert_eq!(pct, "40%");
}
