use mdv::keys::{KeyCode, KeyEvent, KeyModifiers};
use mdv::source::{
    build_screen_map, copied_message, selection_text, source_lines, CellStyle, MouseAction, SourceOutcome,
    SourceState,
};

fn lines(text: &str) -> Vec<Vec<char>> {
    source_lines(text)
}

fn key(c: char) -> KeyEvent {
    KeyEvent::new(KeyCode::Char(c), KeyModifiers::none())
}

fn at(r: usize, c: usize) -> SourceState {
    SourceState { scroll: 0, cur_r: r, cur_c: c, sel_active: false, anch_r: r, anch_c: c }
}

#[test]
fn lines_split_like_str_lines() {
    let l = lines("a\r\nb\n\nc\n");
    let as_strings: Vec<String> = l.iter().map(|v| v.iter().collect()).collect();
    assert_eq!(as_strings, vec!["a", "b", "", "c"]);
    assert!(lines("").is_empty());
    let l = lines("x\r");
    assert_eq!(l, vec![vec!['x', '\r']]);
    assert_eq!(lines("\n"), vec![Vec::<char>::new()]);
}

#[test]
fn screen_map_wraps_lines() {
    let l = lines("abcde\n\nxy");
    assert_eq!(build_screen_map(&l, 0, 2, 10), vec![(0, 0, 2), (0, 2, 4), (0, 4, 5), (1, 0, 0), (2, 0, 2)]);
    assert_eq!(build_screen_map(&l, 0, 2, 2), vec![(0, 0, 2), (0, 2, 4)]);
    assert_eq!(build_screen_map(&l, 1, 5, 10), vec![(1, 0, 0), (2, 0, 2)]);
    assert!(build_screen_map(&l, 0, 0, 10).is_empty());
    assert!(build_screen_map(&l, 9, 3, 10).is_empty());
}

#[test]
fn opening_clamps_the_start_line() {
    let s = SourceState::new(5, 10, false);
    assert_eq!((s.scroll, s.cur_r, s.cur_c, s.sel_active), (4, 4, 0, false));
    let s = SourceState::new(5, 2, true);
    assert_eq!((s.cur_r, s.anch_r, s.sel_active), (2, 2, true));
    let s = SourceState::new(0, 3, false);
    assert_eq!(s.cur_r, 0);
}

#[test]
fn cursor_moves() {
    let l = lines("hello world\nab\nxyz");
    let mut s = at(0, 0);
    assert_eq!(s.handle_key(key('l'), &l, 10), SourceOutcome::Continue);
    assert_eq!(s.cur_c, 1);
    s.handle_key(key('$'), &l, 10);
    assert_eq!(s.cur_c, 11);
    s.handle_key(key('j'), &l, 10);
    assert_eq!((s.cur_r, s.cur_c), (1, 2));
    s.handle_key(key('0'), &l, 10);
    s.handle_key(key('h'), &l, 10);
    assert_eq!((s.cur_r, s.cur_c), (0, 11));
    s.handle_key(KeyEvent::new(KeyCode::Down, KeyModifiers::none()), &l, 10);
    s.handle_key(KeyEvent::new(KeyCode::Down, KeyModifiers::none()), &l, 10);
    assert_eq!((s.cur_r, s.cur_c), (2, 2));
    s.handle_key(key('j'), &l, 10);
    assert_eq!(s.cur_r, 2);
    s.handle_key(key('g'), &l, 10);
    assert_eq!((s.cur_r, s.cur_c), (0, 0));
    s.handle_key(key('G'), &l, 10);
    assert_eq!((s.cur_r, s.cur_c), (2, 0));
}

#[test]
fn word_motions() {
    let l = lines("foo  bar baz\nnext");
    let mut s = at(0, 0);
    s.handle_key(key('w'), &l, 10);
    assert_eq!(s.cur_c, 5);
    s.handle_key(key('w'), &l, 10);
    assert_eq!(s.cur_c, 9);
    s.handle_key(key('w'), &l, 10);
    assert_eq!((s.cur_r, s.cur_c), (1, 0));
    s.handle_key(key('b'), &l, 10);
    assert_eq!((s.cur_r, s.cur_c), (0, 11));
    s.handle_key(key('b'), &l, 10);
    assert_eq!(s.cur_c, 9);
    s.handle_key(key('b'), &l, 10);
    assert_eq!(s.cur_c, 5);
}

#[test]
fn pages_and_scroll_snap() {
    let text: String = (0..30).map(|i| format!("line {}\n", i)).collect();
    let l = lines(&text);
    let mut s = at(0, 0);
    s.handle_key(KeyEvent::new(KeyCode::PageDown, KeyModifiers::none()), &l, 10);
    assert_eq!(s.cur_r, 10);
    s.handle_key(KeyEvent::new(KeyCode::PageDown, KeyModifiers::none()), &l, 25);
    assert_eq!(s.cur_r, 29);
    s.scroll = 20;
    s.handle_key(KeyEvent::new(KeyCode::PageUp, KeyModifiers::none()), &l, 25);
    assert_eq!(s.cur_r, 4);
    assert_eq!(s.scroll, 4);
}

#[test]
fn leaving_the_source_view() {
    let l = lines("a");
    let mut s = at(0, 0);
    assert_eq!(s.handle_key(key('q'), &l, 10), SourceOutcome::Exit);
    assert_eq!(s.handle_key(KeyEvent::new(KeyCode::Esc, KeyModifiers::none()), &l, 10), SourceOutcome::Exit);
    assert_eq!(s.handle_key(KeyEvent::new(KeyCode::Char('c'), KeyModifiers::control()), &l, 10), SourceOutcome::Exit);
    s.sel_active = true;
    assert_eq!(s.handle_key(key('q'), &l, 10), SourceOutcome::Continue);
    assert_eq!(s.handle_key(KeyEvent::new(KeyCode::Esc, KeyModifiers::none()), &l, 10), SourceOutcome::Continue);
    assert!(!s.sel_active);
}

#[test]
fn select_and_copy() {
    let l = lines("hello world\nsecond line\nthird");
    let mut s = at(0, 6);
    s.handle_key(key('v'), &l, 10);
    assert!(s.sel_active);
    s.handle_key(key('j'), &l, 10);
    s.handle_key(key('l'), &l, 10);
    assert_eq!(s.selection_bounds(), (0, 6, 1, 7));
    match s.handle_key(key('y'), &l, 10) {
        SourceOutcome::Copy(t) => assert_eq!(t, "world\nsecond l"),
        other => panic!("expected a copy, got {:?}", other),
    }
    assert!(!s.sel_active);
    // backwards selection is ordered
    let mut s = at(2, 3);
    s.handle_key(key('v'), &l, 10);
    s.handle_key(key('k'), &l, 10);
    assert_eq!(s.selection_bounds(), (1, 3, 2, 3));
    assert_eq!(s.cell_style(1, 3), CellStyle::Cursor);
    assert_eq!(s.cell_style(1, 5), CellStyle::Selected);
    assert_eq!(s.cell_style(2, 3), CellStyle::Plain);
    assert_eq!(s.cell_style(0, 0), CellStyle::Plain);
}

#[test]
fn selection_text_pieces() {
    let l = lines("abc\ndef\nghi");
    assert_eq!(selection_text(&l, 0, 1, 0, 1), "b");
    assert_eq!(selection_text(&l, 0, 2, 2, 0), "c\ndef\ng");
    assert_eq!(selection_text(&l, 1, 0, 9, 0), "def\nghi");
    assert_eq!(selection_text(&l, 0, 3, 0, 5), "");
}

#[test]
fn inactive_selection_bounds() {
    let s = at(1, 1);
    assert_eq!(s.selection_bounds(), (usize::MAX, 0, 0, 0));
}

#[test]
fn mouse_click_drag_and_wheel() {
    let l = lines("abcdef\nxy\nlast");
    let map = build_screen_map(&l, 0, 4, 10);
    let mut s = at(0, 0);
    // click on screen row 1 (the second segment of line 0), column 1: char 5
    s.handle_mouse(MouseAction::LeftDown, 1, 1, &map, &l, 10);
    assert_eq!((s.cur_r, s.cur_c, s.sel_active, s.anch_r, s.anch_c), (0, 5, true, 0, 5));
    // drag onto line 1 past its end: clamped to its length
    s.handle_mouse(MouseAction::LeftDrag, 2, 3, &map, &l, 10);
    assert_eq!((s.cur_r, s.cur_c, s.anch_c), (1, 2, 5));
    // a click inside the selection keeps the anchor
    s.handle_mouse(MouseAction::LeftDown, 1, 1, &map, &l, 10);
    assert_eq!((s.cur_r, s.cur_c, s.anch_r, s.anch_c), (0, 5, 0, 5));
    // a click outside restarts it
    s.handle_mouse(MouseAction::LeftDown, 3, 2, &map, &l, 10);
    assert_eq!((s.cur_r, s.cur_c, s.anch_r, s.anch_c), (2, 2, 2, 2));
    let mut w = at(0, 0);
    w.handle_mouse(MouseAction::ScrollDown, 0, 0, &map, &l, 1);
    assert_eq!(w.scroll, 2);
    w.handle_mouse(MouseAction::ScrollUp, 0, 0, &map, &l, 1);
    assert_eq!(w.scroll, 0);
    w.handle_mouse(MouseAction::LeftUp, 0, 0, &map, &l, 1);
    assert_eq!(w, at(0, 0));
}

#[test]
fn view_follows_the_cursor() {
    let text: String = (0..20).map(|i| format!("{}\n", i)).collect();
    let l = lines(&text);
    let mut s = at(12, 0);
    let map = s.keep_cursor_visible(&l, 10, 5);
    assert_eq!(s.scroll, 8);
    assert_eq!(map.len(), 5);
    assert_eq!(map[4].0, 12);
    let mut up = SourceState { scroll: 10, ..at(3, 0) };
    up.keep_cursor_visible(&l, 10, 5);
    assert_eq!(up.scroll, 3);
}

#[test]
fn status_texts() {
    let mut s = at(2, 0);
    s.scroll = 10;
    assert_eq!(s.line_info(5, 50), "L3 30%");
    assert_eq!(at(0, 0).line_info(5, 0), "L1 100%");
    assert_eq!(copied_message(&"héllo".to_string()), "Copied 6 chars");
}
