use mdv::blocks::{Block, HeadingLevel, InlineStyle, StyledSpan};
use mdv::config::ResolvedKeys;
use mdv::keys::{KeyCode, KeyEvent, KeyModifiers};
use mdv::navigation::SearchMatch;
use mdv::session::{
    find_heading_by_slug, find_matches, heading_slug, link_target, max_scroll, normal_key_command, quit_or_scroll_key_command, run_search,
    scroll_to_source_line, scroll_repaint, search_key, wait_ms, wheel_scroll, eviction_due, LinkTarget, NormalCommand,
    Repaint, SearchKey,
};
use mdv::viewport::ViewportState;

fn span(text: &str) -> StyledSpan {
    StyledSpan {
        text: text.to_string(),
        style: InlineStyle { bold: false, italic: false, strikethrough: false, code: false },
        link_url: None,
    }
}

fn heading(text: &str, id: Option<&str>) -> Block {
    Block::Heading { level: HeadingLevel::H2, spans: vec![span(text)], id: id.map(|s| s.to_string()) }
}

fn para(text: &str) -> Block {
    Block::Paragraph { spans: vec![span(text)] }
}

fn key(c: char) -> KeyEvent {
    KeyEvent::new(KeyCode::Char(c), KeyModifiers::none())
}

#[test]
fn slugs_are_github_style() {
    let s: String = heading_slug("Hello, World! 2").into_iter().collect();
    assert_eq!(s, "hello-world-2");
    let s: String = heading_slug("Ünïcode Tïtle").into_iter().collect();
    assert_eq!(s, "ünïcode-tïtle");
}

#[test]
fn anchors_find_headings() {
    let blocks = vec![para("intro"), heading("Getting Started", None), heading("Other", Some("getting-started"))];
    // an explicit id wins over an earlier generated slug
    assert_eq!(find_heading_by_slug(&blocks, "getting-started"), Some(2));
    assert_eq!(find_heading_by_slug(&blocks, "other"), Some(2));
    assert_eq!(find_heading_by_slug(&blocks, "missing"), None);
    let blocks = vec![para("intro"), heading("Getting Started", None)];
    assert_eq!(find_heading_by_slug(&blocks, "getting-started"), Some(1));
    assert_eq!(find_heading_by_slug(&blocks, "intro"), None);
}

#[test]
fn search_is_case_insensitive_with_byte_offsets() {
    let blocks = vec![para("Hello hello"), para("nothing"), para("Ärger ärger")];
    let m = find_matches(&blocks, "HELLO");
    assert_eq!(
        m,
        vec![
            SearchMatch { block_idx: 0, byte_start: 0, byte_end: 5 },
            SearchMatch { block_idx: 0, byte_start: 6, byte_end: 11 },
        ]
    );
    let m = find_matches(&blocks, "ä");
    assert_eq!(
        m,
        vec![
            SearchMatch { block_idx: 2, byte_start: 0, byte_end: 2 },
            SearchMatch { block_idx: 2, byte_start: 7, byte_end: 9 },
        ]
    );
    assert!(find_matches(&blocks, "zzz").is_empty());
}

#[test]
fn matches_do_not_overlap() {
    let blocks = vec![para("aaaa")];
    let m = find_matches(&blocks, "aa");
    assert_eq!(m.len(), 2);
    assert_eq!((m[1].byte_start, m[1].byte_end), (2, 4));
}

#[test]
fn normal_mode_keys() {
    let keys = ResolvedKeys::with_overrides(&None);
    let cmd = |k: KeyEvent, has_matches: bool, has_query: bool| {
        normal_key_command(&keys, &k, has_matches, has_query, 5, 20, 10, 1)
    };
    assert_eq!(cmd(key('j'), false, false), NormalCommand::Scroll(6));
    assert_eq!(cmd(key('k'), false, false), NormalCommand::Scroll(4));
    assert_eq!(cmd(KeyEvent::new(KeyCode::PageDown, KeyModifiers::none()), false, false), NormalCommand::Scroll(10));
    assert_eq!(cmd(KeyEvent::new(KeyCode::PageUp, KeyModifiers::none()), false, false), NormalCommand::Scroll(0));
    assert_eq!(cmd(key('g'), false, false), NormalCommand::Scroll(0));
    assert_eq!(cmd(key('G'), false, false), NormalCommand::Scroll(20));
    assert_eq!(cmd(key('q'), false, false), NormalCommand::Quit);
    assert_eq!(cmd(KeyEvent::new(KeyCode::Char('c'), KeyModifiers::control()), false, false), NormalCommand::Quit);
    assert_eq!(cmd(key('r'), false, false), NormalCommand::SourceMode(false));
    assert_eq!(cmd(key('v'), false, false), NormalCommand::SourceMode(true));
    assert_eq!(cmd(key('e'), false, false), NormalCommand::Edit);
    assert_eq!(cmd(key('/'), false, false), NormalCommand::StartSearch);
    assert_eq!(cmd(key('n'), true, true), NormalCommand::NextMatch);
    assert_eq!(cmd(key('n'), false, true), NormalCommand::Nothing);
    assert_eq!(cmd(key('N'), true, true), NormalCommand::PrevMatch);
    assert_eq!(cmd(key('?'), false, false), NormalCommand::Help);
    let esc = KeyEvent::new(KeyCode::Esc, KeyModifiers::none());
    assert_eq!(cmd(esc, false, true), NormalCommand::ClearSearch);
    assert_eq!(cmd(esc, false, false), NormalCommand::Quit);
    assert_eq!(cmd(key('x'), false, false), NormalCommand::Nothing);
}

#[test]
fn scrolling_limits() {
    assert_eq!(wheel_scroll(true, 5, 20, 1), 8);
    assert_eq!(wheel_scroll(true, 19, 20, 1), 20);
    assert_eq!(wheel_scroll(false, 2, 20, 1), 0);
    assert_eq!(wheel_scroll(false, 10, 20, 2), 4);
    assert_eq!(max_scroll(1000, 20, 10), 40);
    assert_eq!(max_scroll(100, 20, 10), 0);
}

#[test]
fn links_are_classified() {
    let blocks = vec![heading("Usage", None)];
    assert_eq!(link_target("#usage", &blocks), LinkTarget::Heading(0));
    assert_eq!(link_target("#nope", &blocks), LinkTarget::MissingAnchor("nope".to_string()));
    assert_eq!(link_target("https://x.org", &blocks), LinkTarget::External("https://x.org".to_string()));
    assert_eq!(link_target("mailto:a@b", &blocks), LinkTarget::External("mailto:a@b".to_string()));
    assert_eq!(link_target("ftp://x", &blocks), LinkTarget::Unsupported("ftp://x".to_string()));
}

#[test]
fn typing_a_search() {
    let mut input = String::new();
    assert_eq!(search_key(&mut input, &key('a')), SearchKey::Edited);
    assert_eq!(search_key(&mut input, &key('b')), SearchKey::Edited);
    assert_eq!(input, "ab");
    let bs = KeyEvent::new(KeyCode::Backspace, KeyModifiers::none());
    search_key(&mut input, &bs);
    assert_eq!(input, "a");
    let enter = KeyEvent::new(KeyCode::Enter, KeyModifiers::none());
    assert_eq!(search_key(&mut input, &enter), SearchKey::Submit("a".to_string()));
    let esc = KeyEvent::new(KeyCode::Esc, KeyModifiers::none());
    assert_eq!(search_key(&mut input, &esc), SearchKey::Cancel);
    assert_eq!(input, "");
    assert_eq!(search_key(&mut input, &enter), SearchKey::SubmitEmpty);
    assert_eq!(search_key(&mut input, &bs), SearchKey::Edited);
    assert_eq!(search_key(&mut input, &KeyEvent::new(KeyCode::Tab, KeyModifiers::none())), SearchKey::Ignored);
}

#[test]
fn submitted_search_scrolls_to_first_match() {
    let blocks = vec![para("alpha"), para("beta"), para("gamma beta")];
    let mut vp = ViewportState::new(&blocks, vec![100, 100, 100], 0, 0, 0, 800);
    let mut scroll = 0u32;
    let (m, affected) = run_search(&blocks, "BETA", &mut vp, &mut scroll, 20);
    assert_eq!(m.len(), 2);
    assert_eq!(scroll, 5);
    assert_eq!(affected.len(), 2);
    assert_eq!(vp.search_highlights, vec![(1, 0, 4, true), (2, 6, 10, false)]);
}

#[test]
fn source_line_of_the_top_block() {
    let raw = "# Title\n\nFirst para here.\n\nSecond para.\n";
    let blocks = vec![heading("Title", None), para("First para here."), para("Second para.")];
    let vp = ViewportState::new(&blocks, vec![40, 40, 40], 0, 0, 0, 800);
    assert_eq!(scroll_to_source_line(0, 20, &vp, &blocks, raw), 0);
    assert_eq!(scroll_to_source_line(2, 20, &vp, &blocks, raw), 2);
    assert_eq!(scroll_to_source_line(5, 20, &vp, &blocks, raw), 4);
    let empty = vec![Block::ThematicBreak];
    let vp2 = ViewportState::new(&empty, vec![10], 0, 0, 0, 800);
    assert_eq!(scroll_to_source_line(0, 20, &vp2, &empty, raw), 0);
}

#[test]
fn waiting_for_input() {
    assert_eq!(wait_ms(150, true, true), 50);
    assert_eq!(wait_ms(20, true, true), 10);
    assert_eq!(wait_ms(20, true, false), 3_600_000);
    assert_eq!(wait_ms(150, false, false), 3_600_000);
}

#[test]
fn long_scrolls_are_redrawn() {
    assert_eq!(scroll_repaint(0, 10, 10), Repaint::Full);
    assert_eq!(scroll_repaint(10, 0, 10), Repaint::Full);
    assert_eq!(scroll_repaint(5, 9, 10), Repaint::Shift);
    assert_eq!(scroll_repaint(9, 5, 10), Repaint::Shift);
}

#[test]
fn eviction_every_twentieth_scroll() {
    assert!(eviction_due(20));
    assert!(eviction_due(40));
    assert!(!eviction_due(21));
}

#[test]
fn empty_query_finds_nothing() {
    let blocks = vec![para("Hello")];
    assert!(find_matches(&blocks, "").is_empty());
}

#[test]
fn catching_up_keys_only_quit_or_scroll() {
    let keys = ResolvedKeys::with_overrides(&None);
    let cmd = |k: KeyEvent| quit_or_scroll_key_command(&keys, &k, 5, 20, 10, 1);
    assert_eq!(cmd(KeyEvent::new(KeyCode::Esc, KeyModifiers::none())), NormalCommand::Quit);
    assert_eq!(cmd(key('j')), NormalCommand::Scroll(6));
    assert_eq!(cmd(key('G')), NormalCommand::Scroll(20));
    assert_eq!(cmd(key('/')), NormalCommand::Nothing);
    assert_eq!(cmd(key('r')), NormalCommand::Nothing);
    assert_eq!(cmd(KeyEvent::new(KeyCode::Char('c'), KeyModifiers::control())), NormalCommand::Quit);
}
