use mdv::graphics::StatusPane;
use mdv::highlight::Highlighter;
use mdv::status::{align_right, center, draw_status_panes, emit_pane, pane_file, pane_info, pane_keys, pane_mode, pane_progress};
use mdv::terminal::Terminal;
use mdv::theme::{builtin, color_to_rgb};

fn pane(text: &str, fill: bool, bold: bool) -> StatusPane {
    StatusPane { text: text.to_string(), bg: [1, 2, 3], fg: [4, 5, 6], bold, fill }
}

#[test]
fn alignment_like_format() {
    assert_eq!(center("ab", 8), format!("{:^8}", "ab"));
    assert_eq!(center("abc", 8), format!("{:^8}", "abc"));
    assert_eq!(center("toolongtext", 8), "toolongtext");
    assert_eq!(align_right("5%", 10), format!("{:>10}", "5%"));
    assert_eq!(align_right("é", 3), "  é");
}

#[test]
fn pane_constructors() {
    let theme = builtin("default").unwrap();
    let m = pane_mode("NORMAL", &theme, [9, 9, 9]);
    assert_eq!(m.text, " NORMAL ");
    assert!(m.bold && !m.fill);
    assert_eq!(m.fg, color_to_rgb(theme.status_bar_fg));
    let p = pane_progress("42%", [9, 9, 9]);
    assert_eq!(p.text, "       42%");
    assert_eq!(p.fg, [255, 255, 255]);
    let f = pane_file("notes.md", &theme);
    assert_eq!(f.text, "notes.md");
    assert!(f.fill);
    assert_eq!(pane_info("1/3", &theme).text.chars().count(), 12);
    assert_eq!(pane_keys("?=help", &theme).text.chars().count(), 26);
}

#[test]
fn panes_draw_with_colors() {
    let mut t = Terminal::new(20, 5, 10, 20);
    emit_pane(&mut t, &pane("hi", false, true), 0);
    assert_eq!(t.flush(), "\x1b[38;2;4;5;6m\x1b[48;2;1;2;3m\x1b[1m hi \x1b[22m");
    emit_pane(&mut t, &pane("file", true, false), 6);
    assert_eq!(t.flush(), "\x1b[38;2;4;5;6m\x1b[48;2;1;2;3mfile  ");
    emit_pane(&mut t, &pane("longname", true, false), 3);
    assert_eq!(t.flush(), "\x1b[38;2;4;5;6m\x1b[48;2;1;2;3mlon");
}

#[test]
fn status_bar_fills_the_width() {
    let mut t = Terminal::new(20, 5, 10, 20);
    draw_status_panes(&mut t, &vec![pane("A", false, false)], &vec![pane("B", false, false)], [7, 7, 7], [0, 0, 0]);
    let out = t.flush();
    assert!(out.starts_with("\x1b[4;1H"));
    // 20 columns less two 3-column panes leaves 14 spaces of fill
    assert!(out.contains(&format!("\x1b[48;2;7;7;7m{}", " ".repeat(14))));
    assert!(out.ends_with("\x1b[39m\x1b[22m\x1b[48;2;0;0;0m"));
}

#[test]
fn stretching_pane_takes_the_free_width() {
    let mut t = Terminal::new(12, 5, 10, 20);
    draw_status_panes(&mut t, &vec![pane("ab", true, false)], &vec![pane("C", false, false)], [7, 7, 7], [0, 0, 0]);
    let out = t.flush();
    assert!(out.contains("ab       "));
    assert!(!out.contains("\x1b[48;2;7;7;7m"));
}

#[test]
fn code_is_highlighted_line_by_line() {
    let h = Highlighter::new("base16-ocean.dark");
    let spans = h.highlight_to_styled_spans("fn main() {}\nlet x = 1;", "rust");
    let text: String = spans.iter().map(|s| s.text.as_str()).collect();
    assert_eq!(text, "fn main() {}\nlet x = 1;");
    assert!(spans.len() > 3);
    assert!(spans.iter().any(|s| s.text == "\n" && s.color == [200, 200, 200]));
    let plain = h.highlight_to_styled_spans("x y", "no-such-language");
    assert_eq!(plain.len(), 1);
    assert_eq!(plain[0].text, "x y");
    assert_eq!(plain[0].color, [200, 200, 200]);
}

#[test]
fn code_block_language_is_found_by_token_then_extension() {
    let h = Highlighter::new("InspiredGitHub");
    let by_name = h.find_syntax("rust");
    let by_ext = h.find_syntax("rs");
    assert!(by_name.is_some());
    assert_eq!(by_name, by_ext);
    assert_eq!(h.find_syntax("RUST"), by_name);
    assert!(h.find_syntax("py").is_some());
    assert_ne!(h.find_syntax("py"), by_name);
    assert_eq!(h.find_syntax("no-such-language"), None);
}
