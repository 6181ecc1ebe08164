use mdv::blocks::{InlineStyle, StyledSpan};
use mdv::graphics::{blend_pixel, is_inside_rounded_rect, line_byte_offsets, styled_spans_to_text_spans};
use mdv::theme::{builtin, color_to_rgb};

fn style(code: bool, bold: bool, italic: bool) -> InlineStyle {
    InlineStyle { bold, italic, strikethrough: false, code }
}

#[test]
fn blend_pixel_full_and_none() {
    let mut dst = [100u8, 100, 100, 0];
    blend_pixel(&mut dst, &[200, 0, 50], 255);
    assert_eq!(dst, [200, 0, 50, 255]);
    let mut dst = [100u8, 100, 100, 0];
    blend_pixel(&mut dst, &[200, 0, 50], 0);
    assert_eq!(dst, [100, 100, 100, 255]);
}

#[test]
fn blend_pixel_half() {
    let mut dst = [100u8, 100, 100, 7];
    blend_pixel(&mut dst, &[200, 0, 50], 128);
    assert_eq!(dst, [150, 49, 74, 255]);
}

#[test]
fn blend_pixel_leaves_rest_of_buffer() {
    let mut dst = [1u8, 2, 3, 4, 5, 6];
    blend_pixel(&mut dst, &[9, 9, 9, 9], 255);
    assert_eq!(dst, [9, 9, 9, 255, 5, 6]);
}

#[test]
fn rounded_rect_corners_are_cut() {
    assert!(!is_inside_rounded_rect(0, 0, 10, 10, 3));
    assert!(!is_inside_rounded_rect(9, 9, 10, 10, 3));
    assert!(!is_inside_rounded_rect(9, 0, 10, 10, 3));
    assert!(!is_inside_rounded_rect(0, 9, 10, 10, 3));
    assert!(is_inside_rounded_rect(3, 3, 10, 10, 3));
    assert!(is_inside_rounded_rect(5, 0, 10, 10, 3));
    assert!(is_inside_rounded_rect(1, 1, 10, 10, 3));
}

#[test]
fn rounded_rect_edge_cases() {
    assert!(!is_inside_rounded_rect(0, 0, 0, 10, 3));
    assert!(!is_inside_rounded_rect(0, 0, 10, 0, 3));
    assert!(is_inside_rounded_rect(0, 0, 10, 10, 0));
    // the radius is limited to half the shorter side
    assert!(!is_inside_rounded_rect(0, 0, 4, 100, 50));
    assert!(is_inside_rounded_rect(2, 50, 4, 100, 50));
}

#[test]
fn spans_take_theme_colors_and_link_marker() {
    let theme = builtin("default").unwrap();
    let spans = vec![
        StyledSpan { text: "plain".to_string(), style: style(false, true, false), link_url: None },
        StyledSpan { text: "code".to_string(), style: style(true, false, true), link_url: None },
        StyledSpan { text: "site".to_string(), style: style(false, false, false), link_url: Some("https://x".to_string()) },
    ];
    let out = styled_spans_to_text_spans(&spans, &theme);
    assert_eq!(out.len(), 3);
    assert_eq!(out[0].text, "plain");
    assert_eq!(out[0].color, color_to_rgb(theme.text));
    assert!(out[0].bold && !out[0].italic);
    assert_eq!(out[1].color, color_to_rgb(theme.inline_code));
    assert!(out[1].italic);
    assert_eq!(out[2].text, "site\u{00A0}↗");
    assert_eq!(out[2].color, color_to_rgb(theme.link));
}

#[test]
fn line_offsets_count_utf8_bytes() {
    assert_eq!(line_byte_offsets("ab\ncd"), vec![0, 3]);
    assert_eq!(line_byte_offsets("é\n\nx"), vec![0, 3, 4]);
    assert_eq!(line_byte_offsets("a\n"), vec![0, 2]);
    assert_eq!(line_byte_offsets(""), vec![0]);
}
