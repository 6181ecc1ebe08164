use mdv::blocks::{Block, InlineStyle, ListItem, StyledSpan};
use mdv::graphics::HighlightRange;
use mdv::part_highlights::{code_highlights, list_highlights, quote_highlights, table_highlights};

fn span(text: &str) -> StyledSpan {
    StyledSpan {
        text: text.to_string(),
        style: InlineStyle { bold: false, italic: false, strikethrough: false, code: false },
        link_url: None,
    }
}

fn para(text: &str) -> Block {
    Block::Paragraph { spans: vec![span(text)] }
}

fn hl(start: usize, end: usize) -> HighlightRange {
    HighlightRange { byte_start: start, byte_end: end, color: [255, 200, 0], alpha: 100 }
}

fn bounds(hs: &[HighlightRange]) -> Vec<(usize, usize)> {
    hs.iter().map(|h| (h.byte_start, h.byte_end)).collect()
}

#[test]
fn code_highlights_move_past_the_language_label() {
    let shifted = code_highlights(&Some("rust".to_string()), &vec![hl(0, 3), hl(5, 9)]);
    assert_eq!(bounds(&shifted), vec![(6, 9), (11, 15)]);
    assert_eq!(shifted[0].color, [255, 200, 0]);
    assert_eq!(shifted[0].alpha, 100);
}

#[test]
fn code_highlights_without_language_stay() {
    let same = code_highlights(&None, &vec![hl(2, 4)]);
    assert_eq!(bounds(&same), vec![(2, 4)]);
}

#[test]
fn quote_highlights_follow_each_quoted_block() {
    // The quote's text is "ab\ncd".
    let blocks = vec![para("ab"), para("cd")];
    let parts = quote_highlights(&blocks, &vec![hl(3, 5)]);
    assert_eq!(parts.len(), 2);
    assert!(parts[0].is_empty());
    assert_eq!(bounds(&parts[1]), vec![(0, 2)]);
}

#[test]
fn quote_highlight_across_blocks_is_cut_in_two() {
    let blocks = vec![para("ab"), para("cd")];
    let parts = quote_highlights(&blocks, &vec![hl(1, 4)]);
    assert_eq!(bounds(&parts[0]), vec![(1, 2)]);
    assert_eq!(bounds(&parts[1]), vec![(0, 1)]);
}

#[test]
fn list_highlights_reach_item_text_and_children() {
    // The list's text is "one\ntwo\nthree": item one with child "two", then item three.
    let items = vec![
        ListItem { spans: vec![span("one")], children: vec![para("two")] },
        ListItem { spans: vec![span("three")], children: vec![] },
    ];
    let parts = list_highlights(&items, &vec![hl(4, 7), hl(8, 13)]);
    assert_eq!(parts.len(), 2);
    assert!(parts[0].0.is_empty());
    assert_eq!(parts[0].1.len(), 1);
    assert_eq!(bounds(&parts[0].1[0]), vec![(0, 3)]);
    assert_eq!(bounds(&parts[1].0), vec![(0, 5)]);
    assert!(parts[1].1.is_empty());
}

#[test]
fn list_highlights_count_utf8_bytes() {
    // "é" takes two bytes: the text is "é\nx".
    let items = vec![
        ListItem { spans: vec![span("é")], children: vec![] },
        ListItem { spans: vec![span("x")], children: vec![] },
    ];
    let parts = list_highlights(&items, &vec![hl(3, 4)]);
    assert!(parts[0].0.is_empty());
    assert_eq!(bounds(&parts[1].0), vec![(0, 1)]);
}

#[test]
fn table_highlights_reach_each_cell() {
    // The table's text is "a bb\nc d".
    let headers = vec![vec![span("a")], vec![span("bb")]];
    let rows = vec![vec![vec![span("c")], vec![span("d")]]];
    let parts = table_highlights(&headers, &rows, &vec![hl(2, 4), hl(7, 8)]);
    assert_eq!(parts.len(), 2);
    assert!(parts[0][0].is_empty());
    assert_eq!(bounds(&parts[0][1]), vec![(0, 2)]);
    assert!(parts[1][0].is_empty());
    assert_eq!(bounds(&parts[1][1]), vec![(0, 1)]);
}

#[test]
fn table_highlights_of_later_rows() {
    // The table's text is "h\nx\nyz".
    let headers = vec![vec![span("h")]];
    let rows = vec![vec![vec![span("x")]], vec![vec![span("yz")]]];
    let parts = table_highlights(&headers, &rows, &vec![hl(4, 6)]);
    assert_eq!(parts.len(), 3);
    assert!(parts[1][0].is_empty());
    assert_eq!(bounds(&parts[2][0]), vec![(0, 2)]);
}
