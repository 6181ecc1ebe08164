use mdv::blocks::{HeadingLevel, InlineStyle, StyledSpan};
use mdv::render::{cell_text, estimate_heading_rows, pad_or_truncate, truncate};

fn span(text: &str) -> StyledSpan {
    StyledSpan {
        text: text.to_string(),
        style: InlineStyle { bold: false, italic: false, strikethrough: false, code: false },
        link_url: None,
    }
}

#[test]
fn estimate_heading_rows_single_line() {
    let rows = estimate_heading_rows("Hello", HeadingLevel::H1, 800, 20);
    assert!(rows >= 1 && rows <= 3, "expected 1-3 rows, got {}", rows);
}

#[test]
fn estimate_heading_rows_wrapping() {
    let narrow = estimate_heading_rows("This is a very long heading that should wrap", HeadingLevel::H1, 200, 20);
    let wide = estimate_heading_rows("This is a very long heading that should wrap", HeadingLevel::H1, 2000, 20);
    assert!(narrow > wide, "narrow ({}) should produce more rows than wide ({})", narrow, wide);
}

#[test]
fn estimate_heading_rows_exact_values() {
    // 36 px font: one line of 41.4 px spans three 20 px rows.
    assert_eq!(estimate_heading_rows("Hello", HeadingLevel::H1, 800, 20), 3);
    // 44 chars of 19.8 px wrap into 5 lines at 200 px: 207 px, 11 rows.
    assert_eq!(estimate_heading_rows("This is a very long heading that should wrap", HeadingLevel::H1, 200, 20), 11);
    assert_eq!(estimate_heading_rows("This is a very long heading that should wrap", HeadingLevel::H1, 2000, 20), 3);
    // 20 px font at H5: 23 px line, two rows.
    assert_eq!(estimate_heading_rows("Hi", HeadingLevel::H5, 800, 20), 2);
}

#[test]
fn estimate_heading_rows_unknown_cell_height() {
    assert_eq!(estimate_heading_rows("Anything", HeadingLevel::H2, 800, 0), 3);
}

#[test]
fn estimate_heading_rows_empty_text_is_one_line() {
    assert_eq!(estimate_heading_rows("", HeadingLevel::H1, 800, 20), 3);
}

#[test]
fn cell_text_concatenates_spans() {
    let spans = vec![span("ab"), span(" "), span("cd")];
    assert_eq!(cell_text(&spans), "ab cd");
    assert_eq!(cell_text(&Vec::new()), "");
}

#[test]
fn pad_or_truncate_pads_short_text() {
    assert_eq!(pad_or_truncate("ab", 5), "ab   ");
}

#[test]
fn pad_or_truncate_cuts_long_text_with_ellipsis() {
    assert_eq!(pad_or_truncate("abcdef", 4), "abc…");
    assert_eq!(pad_or_truncate("abcd", 4), "abc…");
    assert_eq!(pad_or_truncate("abc", 0), "…");
}

#[test]
fn truncate_keeps_at_most_max_chars() {
    assert_eq!(truncate("héllo", 3), "hél");
    assert_eq!(truncate("hi", 3), "hi");
    assert_eq!(truncate("abc", 3), "abc");
}
