//! Configuration: user key overrides merged over the default key map.

use vstd::prelude::*;
use crate::keys::{KeyBinding, KeyBindings, KeyCode, ParseOutcome, lemma_lower_case_fixed, lemma_single_char_binding, no_modifiers, parse_binding};
use crate::text::opt_chars;
use crate::theme::{
    ColorsConfig, InvalidColor, Theme, builtin, builtin_theme, default_theme, invalid_overrides,
    overridden_theme, reports, spec_default_theme,
};

verus! {

/// Key overrides from the configuration file, one optional section per mode.
#[derive(Debug, Default)]
pub struct KeysConfig {
    pub normal: Option<NormalKeys>,
    pub source: Option<SourceKeys>,
    pub search: Option<SearchKeys>,
}

/// Optional normal-mode key overrides.
#[derive(Debug, Default)]
pub struct NormalKeys {
    pub quit: Option<KeyBindings>,
    pub scroll_down: Option<KeyBindings>,
    pub scroll_up: Option<KeyBindings>,
    pub page_down: Option<KeyBindings>,
    pub page_up: Option<KeyBindings>,
    pub top: Option<KeyBindings>,
    pub bottom: Option<KeyBindings>,
    pub search: Option<KeyBindings>,
    pub help: Option<KeyBindings>,
    pub next_match: Option<KeyBindings>,
    pub prev_match: Option<KeyBindings>,
    pub source_mode: Option<KeyBindings>,
}

/// Optional source-mode key overrides.
#[derive(Debug, Default)]
pub struct SourceKeys {
    pub quit: Option<KeyBindings>,
    pub cursor_down: Option<KeyBindings>,
    pub cursor_up: Option<KeyBindings>,
    pub cursor_left: Option<KeyBindings>,
    pub cursor_right: Option<KeyBindings>,
    pub word_forward: Option<KeyBindings>,
    pub word_back: Option<KeyBindings>,
    pub line_start: Option<KeyBindings>,
    pub line_end: Option<KeyBindings>,
    pub half_page_down: Option<KeyBindings>,
    pub half_page_up: Option<KeyBindings>,
    pub top: Option<KeyBindings>,
    pub bottom: Option<KeyBindings>,
    pub select: Option<KeyBindings>,
    pub yank: Option<KeyBindings>,
    pub view_mode: Option<KeyBindings>,
    pub search: Option<KeyBindings>,
    pub help: Option<KeyBindings>,
    pub next_match: Option<KeyBindings>,
    pub prev_match: Option<KeyBindings>,
}

/// Optional search-mode key overrides.
#[derive(Debug, Default)]
pub struct SearchKeys {
    pub cancel: Option<KeyBindings>,
    pub confirm: Option<KeyBindings>,
}

/// The key map with defaults applied.
pub struct ResolvedKeys {
    pub normal: ResolvedNormalKeys,
    pub source: ResolvedSourceKeys,
    pub search: ResolvedSearchKeys,
}

pub struct ResolvedNormalKeys {
    pub quit: KeyBindings,
    pub scroll_down: KeyBindings,
    pub scroll_up: KeyBindings,
    pub page_down: KeyBindings,
    pub page_up: KeyBindings,
    pub top: KeyBindings,
    pub bottom: KeyBindings,
    pub search: KeyBindings,
    pub help: KeyBindings,
    pub next_match: KeyBindings,
    pub prev_match: KeyBindings,
    pub source_mode: KeyBindings,
}

pub struct ResolvedSourceKeys {
    pub quit: KeyBindings,
    pub cursor_down: KeyBindings,
    pub cursor_up: KeyBindings,
    pub cursor_left: KeyBindings,
    pub cursor_right: KeyBindings,
    pub word_forward: KeyBindings,
    pub word_back: KeyBindings,
    pub line_start: KeyBindings,
    pub line_end: KeyBindings,
    pub half_page_down: KeyBindings,
    pub half_page_up: KeyBindings,
    pub top: KeyBindings,
    pub bottom: KeyBindings,
    pub select: KeyBindings,
    pub yank: KeyBindings,
    pub view_mode: KeyBindings,
    pub search: KeyBindings,
    pub help: KeyBindings,
    pub next_match: KeyBindings,
    pub prev_match: KeyBindings,
}

pub struct ResolvedSearchKeys {
    pub cancel: KeyBindings,
    pub confirm: KeyBindings,
}

/// A binding of a key without modifiers.
pub open spec fn plain(code: KeyCode) -> KeyBinding {
    KeyBinding { code, modifiers: no_modifiers() }
}

/// The bindings in force for an action: the override when there is one,
/// the defaults otherwise.
pub open spec fn resolved(o: Option<KeyBindings>, defaults: Seq<KeyBinding>) -> Seq<KeyBinding> {
    match o {
        Some(k) => k.0@,
        None => defaults,
    }
}

/// A copy of a list of bindings.
fn copy_bindings(k: &KeyBindings) -> (r: KeyBindings)
    ensures
        r.0@ == k.0@,
{
    let mut v: Vec<KeyBinding> = Vec::new();
    let mut i: usize = 0;
    while i < k.0.len()
        invariant
            i <= k.0.len(),
            v@ == k.0@.subrange(0, i as int),
        decreases k.0.len() - i,
    {
        v.push(k.0[i]);
        proof {
            assert(v@ =~= k.0@.subrange(0, i + 1));
        }
        i = i + 1;
    }
    assert(k.0@.subrange(0, k.0.len() as int) =~= k.0@);
    KeyBindings(v)
}

/// Parses binding strings that are known to be valid.
fn kb(keys: &[&str]) -> (r: KeyBindings)
    requires
        forall|i: int| 0 <= i < keys@.len() ==> parse_binding(#[trigger] keys@[i]@) is Bound,
    ensures
        r.0@.len() == keys@.len(),
        forall|i: int|
            0 <= i < keys@.len() ==> parse_binding(#[trigger] keys@[i]@) == ParseOutcome::Bound(
                r.0@[i],
            ),
{
    let mut v: Vec<KeyBinding> = Vec::new();
    let mut i: usize = 0;
    while i < keys.len()
        invariant
            i <= keys@.len(),
            v@.len() == i,
            forall|i: int| 0 <= i < keys@.len() ==> parse_binding(#[trigger] keys@[i]@) is Bound,
            forall|j: int|
                0 <= j < i ==> parse_binding(#[trigger] keys@[j]@) == ParseOutcome::Bound(v@[j]),
        decreases keys@.len() - i,
    {
        assert(parse_binding(keys@[i as int]@) is Bound);
        match KeyBinding::parse(keys[i]) {
            Ok(b) => v.push(b),
            Err(_) => {
                assert(false);
            },
        }
        i = i + 1;
    }
    KeyBindings(v)
}

/// The bindings in force: the override when there is one, the defaults otherwise.
fn resolve_key(o: &Option<KeyBindings>, defaults: &[&str], Ghost(expected): Ghost<Seq<KeyBinding>>) -> (r: KeyBindings)
    requires
        defaults@.len() == expected.len(),
        forall|i: int|
            0 <= i < defaults@.len() ==> parse_binding(#[trigger] defaults@[i]@)
                == ParseOutcome::Bound(expected[i]),
    ensures
        r.0@ == resolved(*o, expected),
{
    match o {
        Some(k) => copy_bindings(k),
        None => {
            let r = kb(defaults);
            assert forall|i: int| 0 <= i < expected.len() implies r.0@[i] == expected[i] by {
                assert(parse_binding(defaults@[i]@) == ParseOutcome::Bound(r.0@[i]));
                assert(parse_binding(defaults@[i]@) == ParseOutcome::Bound(expected[i]));
            }
            assert(r.0@ =~= expected);
            r
        },
    }
}

/// The default bindings of `normal.quit`.
pub open spec fn default_normal_quit() -> Seq<KeyBinding> {
    seq![plain(KeyCode::Char('q')), plain(KeyCode::Esc)]
}

/// The default bindings of `normal.scroll_down`.
pub open spec fn default_normal_scroll_down() -> Seq<KeyBinding> {
    seq![plain(KeyCode::Down), plain(KeyCode::Char('j'))]
}

/// The default bindings of `normal.scroll_up`.
pub open spec fn default_normal_scroll_up() -> Seq<KeyBinding> {
    seq![plain(KeyCode::Up), plain(KeyCode::Char('k'))]
}

/// The default bindings of `normal.page_down`.
pub open spec fn default_normal_page_down() -> Seq<KeyBinding> {
    seq![plain(KeyCode::PageDown)]
}

/// The default bindings of `normal.page_up`.
pub open spec fn default_normal_page_up() -> Seq<KeyBinding> {
    seq![plain(KeyCode::PageUp)]
}

/// The default bindings of `normal.top`.
pub open spec fn default_normal_top() -> Seq<KeyBinding> {
    seq![plain(KeyCode::Char('g')), plain(KeyCode::Home)]
}

/// The default bindings of `normal.bottom`.
pub open spec fn default_normal_bottom() -> Seq<KeyBinding> {
    seq![plain(KeyCode::Char('G')), plain(KeyCode::End)]
}

/// The default bindings of `normal.search`.
pub open spec fn default_normal_search() -> Seq<KeyBinding> {
    seq![plain(KeyCode::Char('/'))]
}

/// The default bindings of `normal.help`.
pub open spec fn default_normal_help() -> Seq<KeyBinding> {
    seq![plain(KeyCode::Char('?'))]
}

/// The default bindings of `normal.next_match`.
pub open spec fn default_normal_next_match() -> Seq<KeyBinding> {
    seq![plain(KeyCode::Char('n'))]
}

/// The default bindings of `normal.prev_match`.
pub open spec fn default_normal_prev_match() -> Seq<KeyBinding> {
    seq![plain(KeyCode::Char('N'))]
}

/// The default bindings of `normal.source_mode`.
pub open spec fn default_normal_source_mode() -> Seq<KeyBinding> {
    seq![plain(KeyCode::Char('r'))]
}

/// The default bindings of `source.quit`.
pub open spec fn default_source_quit() -> Seq<KeyBinding> {
    seq![plain(KeyCode::Char('q')), plain(KeyCode::Esc)]
}

/// The default bindings of `source.cursor_down`.
pub open spec fn default_source_cursor_down() -> Seq<KeyBinding> {
    seq![plain(KeyCode::Down), plain(KeyCode::Char('j'))]
}

/// The default bindings of `source.cursor_up`.
pub open spec fn default_source_cursor_up() -> Seq<KeyBinding> {
    seq![plain(KeyCode::Up), plain(KeyCode::Char('k'))]
}

/// The default bindings of `source.cursor_left`.
pub open spec fn default_source_cursor_left() -> Seq<KeyBinding> {
    seq![plain(KeyCode::Left), plain(KeyCode::Char('h'))]
}

/// The default bindings of `source.cursor_right`.
pub open spec fn default_source_cursor_right() -> Seq<KeyBinding> {
    seq![plain(KeyCode::Right), plain(KeyCode::Char('l'))]
}

/// The default bindings of `source.word_forward`.
pub open spec fn default_source_word_forward() -> Seq<KeyBinding> {
    seq![plain(KeyCode::Char('w'))]
}

/// The default bindings of `source.word_back`.
pub open spec fn default_source_word_back() -> Seq<KeyBinding> {
    seq![plain(KeyCode::Char('b'))]
}

/// The default bindings of `source.line_start`.
pub open spec fn default_source_line_start() -> Seq<KeyBinding> {
    seq![plain(KeyCode::Char('0')), plain(KeyCode::Home)]
}

/// The default bindings of `source.line_end`.
pub open spec fn default_source_line_end() -> Seq<KeyBinding> {
    seq![plain(KeyCode::Char('$')), plain(KeyCode::End)]
}

/// The default bindings of `source.half_page_down`.
pub open spec fn default_source_half_page_down() -> Seq<KeyBinding> {
    seq![plain(KeyCode::PageDown)]
}

/// The default bindings of `source.half_page_up`.
pub open spec fn default_source_half_page_up() -> Seq<KeyBinding> {
    seq![plain(KeyCode::PageUp)]
}

/// The default bindings of `source.top`.
pub open spec fn default_source_top() -> Seq<KeyBinding> {
    seq![plain(KeyCode::Char('g'))]
}

/// The default bindings of `source.bottom`.
pub open spec fn default_source_bottom() -> Seq<KeyBinding> {
    seq![plain(KeyCode::Char('G'))]
}

/// The default bindings of `source.select`.
pub open spec fn default_source_select() -> Seq<KeyBinding> {
    seq![plain(KeyCode::Char('v'))]
}

/// The default bindings of `source.yank`.
pub open spec fn default_source_yank() -> Seq<KeyBinding> {
    seq![plain(KeyCode::Char('y'))]
}

/// The default bindings of `source.view_mode`.
pub open spec fn default_source_view_mode() -> Seq<KeyBinding> {
    seq![plain(KeyCode::Char('r'))]
}

/// The default bindings of `source.search`.
pub open spec fn default_source_search() -> Seq<KeyBinding> {
    seq![plain(KeyCode::Char('/'))]
}

/// The default bindings of `source.help`.
pub open spec fn default_source_help() -> Seq<KeyBinding> {
    seq![plain(KeyCode::Char('?'))]
}

/// The default bindings of `source.next_match`.
pub open spec fn default_source_next_match() -> Seq<KeyBinding> {
    seq![plain(KeyCode::Char('n'))]
}

/// The default bindings of `source.prev_match`.
pub open spec fn default_source_prev_match() -> Seq<KeyBinding> {
    seq![plain(KeyCode::Char('N'))]
}

/// The default bindings of `search.cancel`.
pub open spec fn default_search_cancel() -> Seq<KeyBinding> {
    seq![plain(KeyCode::Esc)]
}

/// The default bindings of `search.confirm`.
pub open spec fn default_search_confirm() -> Seq<KeyBinding> {
    seq![plain(KeyCode::Enter)]
}

impl ResolvedKeys {
    /// The key map: each action's override when the configuration has one,
    /// its default bindings otherwise.
    #[verifier::rlimit(80)]
    pub fn with_overrides(config: &Option<KeysConfig>) -> (r: ResolvedKeys)
        ensures
            r.normal.quit.0@ == resolved(section_normal(*config).quit, default_normal_quit()),
            r.normal.scroll_down.0@ == resolved(section_normal(*config).scroll_down, default_normal_scroll_down()),
            r.normal.scroll_up.0@ == resolved(section_normal(*config).scroll_up, default_normal_scroll_up()),
            r.normal.page_down.0@ == resolved(section_normal(*config).page_down, default_normal_page_down()),
            r.normal.page_up.0@ == resolved(section_normal(*config).page_up, default_normal_page_up()),
            r.normal.top.0@ == resolved(section_normal(*config).top, default_normal_top()),
            r.normal.bottom.0@ == resolved(section_normal(*config).bottom, default_normal_bottom()),
            r.normal.search.0@ == resolved(section_normal(*config).search, default_normal_search()),
            r.normal.help.0@ == resolved(section_normal(*config).help, default_normal_help()),
            r.normal.next_match.0@ == resolved(section_normal(*config).next_match, default_normal_next_match()),
            r.normal.prev_match.0@ == resolved(section_normal(*config).prev_match, default_normal_prev_match()),
            r.normal.source_mode.0@ == resolved(section_normal(*config).source_mode, default_normal_source_mode()),
            r.source.quit.0@ == resolved(section_source(*config).quit, default_source_quit()),
            r.source.cursor_down.0@ == resolved(section_source(*config).cursor_down, default_source_cursor_down()),
            r.source.cursor_up.0@ == resolved(section_source(*config).cursor_up, default_source_cursor_up()),
            r.source.cursor_left.0@ == resolved(section_source(*config).cursor_left, default_source_cursor_left()),
            r.source.cursor_right.0@ == resolved(section_source(*config).cursor_right, default_source_cursor_right()),
            r.source.word_forward.0@ == resolved(section_source(*config).word_forward, default_source_word_forward()),
            r.source.word_back.0@ == resolved(section_source(*config).word_back, default_source_word_back()),
            r.source.line_start.0@ == resolved(section_source(*config).line_start, default_source_line_start()),
            r.source.line_end.0@ == resolved(section_source(*config).line_end, default_source_line_end()),
            r.source.half_page_down.0@ == resolved(section_source(*config).half_page_down, default_source_half_page_down()),
            r.source.half_page_up.0@ == resolved(section_source(*config).half_page_up, default_source_half_page_up()),
            r.source.top.0@ == resolved(section_source(*config).top, default_source_top()),
            r.source.bottom.0@ == resolved(section_source(*config).bottom, default_source_bottom()),
            r.source.select.0@ == resolved(section_source(*config).select, default_source_select()),
            r.source.yank.0@ == resolved(section_source(*config).yank, default_source_yank()),
            r.source.view_mode.0@ == resolved(section_source(*config).view_mode, default_source_view_mode()),
            r.source.search.0@ == resolved(section_source(*config).search, default_source_search()),
            r.source.help.0@ == resolved(section_source(*config).help, default_source_help()),
            r.source.next_match.0@ == resolved(section_source(*config).next_match, default_source_next_match()),
            r.source.prev_match.0@ == resolved(section_source(*config).prev_match, default_source_prev_match()),
            r.search.cancel.0@ == resolved(section_search(*config).cancel, default_search_cancel()),
            r.search.confirm.0@ == resolved(section_search(*config).confirm, default_search_confirm()),
    {
        let none_normal = NormalKeys::default_none();
        let none_source = SourceKeys::default_none();
        let none_search = SearchKeys::default_none();
        let normal = match config {
            Some(c) => match &c.normal {
                Some(s) => s,
                None => &none_normal,
            },
            None => &none_normal,
        };
        let source = match config {
            Some(c) => match &c.source {
                Some(s) => s,
                None => &none_source,
            },
            None => &none_source,
        };
        let search = match config {
            Some(c) => match &c.search {
                Some(s) => s,
                None => &none_search,
            },
            None => &none_search,
        };
        proof {
            reveal_strlit("q"); lemma_single_char_binding("q"@); reveal_strlit("esc"); assert("esc"@ =~= seq!['e', 's', 'c']); lemma_lower_case_fixed("esc"@);
        }
        let normal_quit = resolve_key(&normal.quit, &["q", "esc"], Ghost(default_normal_quit()));
        proof {
            reveal_strlit("down"); reveal_strlit("j"); lemma_single_char_binding("j"@); assert("down"@ =~= seq!['d', 'o', 'w', 'n']); lemma_lower_case_fixed("down"@);
        }
        let normal_scroll_down = resolve_key(&normal.scroll_down, &["down", "j"], Ghost(default_normal_scroll_down()));
        proof {
            reveal_strlit("up"); reveal_strlit("k"); lemma_single_char_binding("k"@); assert("up"@ =~= seq!['u', 'p']); lemma_lower_case_fixed("up"@);
        }
        let normal_scroll_up = resolve_key(&normal.scroll_up, &["up", "k"], Ghost(default_normal_scroll_up()));
        proof {
            reveal_strlit("pagedown"); assert("pagedown"@ =~= seq!['p', 'a', 'g', 'e', 'd', 'o', 'w', 'n']); lemma_lower_case_fixed("pagedown"@);
        }
        let normal_page_down = resolve_key(&normal.page_down, &["pagedown"], Ghost(default_normal_page_down()));
        proof {
            reveal_strlit("pageup"); assert("pageup"@ =~= seq!['p', 'a', 'g', 'e', 'u', 'p']); lemma_lower_case_fixed("pageup"@);
        }
        let normal_page_up = resolve_key(&normal.page_up, &["pageup"], Ghost(default_normal_page_up()));
        proof {
            reveal_strlit("g"); lemma_single_char_binding("g"@); reveal_strlit("home"); assert("home"@ =~= seq!['h', 'o', 'm', 'e']); lemma_lower_case_fixed("home"@);
        }
        let normal_top = resolve_key(&normal.top, &["g", "home"], Ghost(default_normal_top()));
        proof {
            reveal_strlit("G"); lemma_single_char_binding("G"@); reveal_strlit("end"); assert("end"@ =~= seq!['e', 'n', 'd']); lemma_lower_case_fixed("end"@);
        }
        let normal_bottom = resolve_key(&normal.bottom, &["G", "end"], Ghost(default_normal_bottom()));
        proof {
            reveal_strlit("/"); lemma_single_char_binding("/"@);
        }
        let normal_search = resolve_key(&normal.search, &["/"], Ghost(default_normal_search()));
        proof {
            reveal_strlit("?"); lemma_single_char_binding("?"@);
        }
        let normal_help = resolve_key(&normal.help, &["?"], Ghost(default_normal_help()));
        proof {
            reveal_strlit("n"); lemma_single_char_binding("n"@);
        }
        let normal_next_match = resolve_key(&normal.next_match, &["n"], Ghost(default_normal_next_match()));
        proof {
            reveal_strlit("N"); lemma_single_char_binding("N"@);
        }
        let normal_prev_match = resolve_key(&normal.prev_match, &["N"], Ghost(default_normal_prev_match()));
        proof {
            reveal_strlit("r"); lemma_single_char_binding("r"@);
        }
        let normal_source_mode = resolve_key(&normal.source_mode, &["r"], Ghost(default_normal_source_mode()));
        proof {
            reveal_strlit("q"); lemma_single_char_binding("q"@); reveal_strlit("esc"); assert("esc"@ =~= seq!['e', 's', 'c']); lemma_lower_case_fixed("esc"@);
        }
        let source_quit = resolve_key(&source.quit, &["q", "esc"], Ghost(default_source_quit()));
        proof {
            reveal_strlit("down"); reveal_strlit("j"); lemma_single_char_binding("j"@); assert("down"@ =~= seq!['d', 'o', 'w', 'n']); lemma_lower_case_fixed("down"@);
        }
        let source_cursor_down = resolve_key(&source.cursor_down, &["down", "j"], Ghost(default_source_cursor_down()));
        proof {
            reveal_strlit("up"); reveal_strlit("k"); lemma_single_char_binding("k"@); assert("up"@ =~= seq!['u', 'p']); lemma_lower_case_fixed("up"@);
        }
        let source_cursor_up = resolve_key(&source.cursor_up, &["up", "k"], Ghost(default_source_cursor_up()));
        proof {
            reveal_strlit("left"); reveal_strlit("h"); lemma_single_char_binding("h"@); assert("left"@ =~= seq!['l', 'e', 'f', 't']); lemma_lower_case_fixed("left"@);
        }
        let source_cursor_left = resolve_key(&source.cursor_left, &["left", "h"], Ghost(default_source_cursor_left()));
        proof {
            reveal_strlit("right"); reveal_strlit("l"); lemma_single_char_binding("l"@); assert("right"@ =~= seq!['r', 'i', 'g', 'h', 't']); lemma_lower_case_fixed("right"@);
        }
        let source_cursor_right = resolve_key(&source.cursor_right, &["right", "l"], Ghost(default_source_cursor_right()));
        proof {
            reveal_strlit("w"); lemma_single_char_binding("w"@);
        }
        let source_word_forward = resolve_key(&source.word_forward, &["w"], Ghost(default_source_word_forward()));
        proof {
            reveal_strlit("b"); lemma_single_char_binding("b"@);
        }
        let source_word_back = resolve_key(&source.word_back, &["b"], Ghost(default_source_word_back()));
        proof {
            reveal_strlit("0"); lemma_single_char_binding("0"@); reveal_strlit("home"); assert("home"@ =~= seq!['h', 'o', 'm', 'e']); lemma_lower_case_fixed("home"@);
        }
        let source_line_start = resolve_key(&source.line_start, &["0", "home"], Ghost(default_source_line_start()));
        proof {
            reveal_strlit("$"); lemma_single_char_binding("$"@); reveal_strlit("end"); assert("end"@ =~= seq!['e', 'n', 'd']); lemma_lower_case_fixed("end"@);
        }
        let source_line_end = resolve_key(&source.line_end, &["$", "end"], Ghost(default_source_line_end()));
        proof {
            reveal_strlit("pagedown"); assert("pagedown"@ =~= seq!['p', 'a', 'g', 'e', 'd', 'o', 'w', 'n']); lemma_lower_case_fixed("pagedown"@);
        }
        let source_half_page_down = resolve_key(&source.half_page_down, &["pagedown"], Ghost(default_source_half_page_down()));
        proof {
            reveal_strlit("pageup"); assert("pageup"@ =~= seq!['p', 'a', 'g', 'e', 'u', 'p']); lemma_lower_case_fixed("pageup"@);
        }
        let source_half_page_up = resolve_key(&source.half_page_up, &["pageup"], Ghost(default_source_half_page_up()));
        proof {
            reveal_strlit("g"); lemma_single_char_binding("g"@);
        }
        let source_top = resolve_key(&source.top, &["g"], Ghost(default_source_top()));
        proof {
            reveal_strlit("G"); lemma_single_char_binding("G"@);
        }
        let source_bottom = resolve_key(&source.bottom, &["G"], Ghost(default_source_bottom()));
        proof {
            reveal_strlit("v"); lemma_single_char_binding("v"@);
        }
        let source_select = resolve_key(&source.select, &["v"], Ghost(default_source_select()));
        proof {
            reveal_strlit("y"); lemma_single_char_binding("y"@);
        }
        let source_yank = resolve_key(&source.yank, &["y"], Ghost(default_source_yank()));
        proof {
            reveal_strlit("r"); lemma_single_char_binding("r"@);
        }
        let source_view_mode = resolve_key(&source.view_mode, &["r"], Ghost(default_source_view_mode()));
        proof {
            reveal_strlit("/"); lemma_single_char_binding("/"@);
        }
        let source_search = resolve_key(&source.search, &["/"], Ghost(default_source_search()));
        proof {
            reveal_strlit("?"); lemma_single_char_binding("?"@);
        }
        let source_help = resolve_key(&source.help, &["?"], Ghost(default_source_help()));
        proof {
            reveal_strlit("n"); lemma_single_char_binding("n"@);
        }
        let source_next_match = resolve_key(&source.next_match, &["n"], Ghost(default_source_next_match()));
        proof {
            reveal_strlit("N"); lemma_single_char_binding("N"@);
        }
        let source_prev_match = resolve_key(&source.prev_match, &["N"], Ghost(default_source_prev_match()));
        proof {
            reveal_strlit("esc"); assert("esc"@ =~= seq!['e', 's', 'c']); lemma_lower_case_fixed("esc"@);
        }
        let search_cancel = resolve_key(&search.cancel, &["esc"], Ghost(default_search_cancel()));
        proof {
            reveal_strlit("enter"); assert("enter"@ =~= seq!['e', 'n', 't', 'e', 'r']); lemma_lower_case_fixed("enter"@);
        }
        let search_confirm = resolve_key(&search.confirm, &["enter"], Ghost(default_search_confirm()));
        ResolvedKeys {
            normal: ResolvedNormalKeys {
                quit: normal_quit,
                scroll_down: normal_scroll_down,
                scroll_up: normal_scroll_up,
                page_down: normal_page_down,
                page_up: normal_page_up,
                top: normal_top,
                bottom: normal_bottom,
                search: normal_search,
                help: normal_help,
                next_match: normal_next_match,
                prev_match: normal_prev_match,
                source_mode: normal_source_mode,
            },
            source: ResolvedSourceKeys {
                quit: source_quit,
                cursor_down: source_cursor_down,
                cursor_up: source_cursor_up,
                cursor_left: source_cursor_left,
                cursor_right: source_cursor_right,
                word_forward: source_word_forward,
                word_back: source_word_back,
                line_start: source_line_start,
                line_end: source_line_end,
                half_page_down: source_half_page_down,
                half_page_up: source_half_page_up,
                top: source_top,
                bottom: source_bottom,
                select: source_select,
                yank: source_yank,
                view_mode: source_view_mode,
                search: source_search,
                help: source_help,
                next_match: source_next_match,
                prev_match: source_prev_match,
            },
            search: ResolvedSearchKeys {
                cancel: search_cancel,
                confirm: search_confirm,
            },
        }
    }
}

/// The normal-mode section of the key overrides, or an empty one.
pub open spec fn section_normal(config: Option<KeysConfig>) -> NormalKeys {
    match config {
        Some(c) => match c.normal {
            Some(s) => s,
            None => empty_normal(),
        },
        None => empty_normal(),
    }
}

pub open spec fn empty_normal() -> NormalKeys {
    NormalKeys {
        quit: None,
        scroll_down: None,
        scroll_up: None,
        page_down: None,
        page_up: None,
        top: None,
        bottom: None,
        search: None,
        help: None,
        next_match: None,
        prev_match: None,
        source_mode: None,
    }
}

impl NormalKeys {
    /// A section without overrides.
    fn default_none() -> (s: NormalKeys)
        ensures
            s == empty_normal(),
    {
        NormalKeys {
            quit: None,
            scroll_down: None,
            scroll_up: None,
            page_down: None,
            page_up: None,
            top: None,
            bottom: None,
            search: None,
            help: None,
            next_match: None,
            prev_match: None,
            source_mode: None,
        }
    }
}

/// The source-mode section of the key overrides, or an empty one.
pub open spec fn section_source(config: Option<KeysConfig>) -> SourceKeys {
    match config {
        Some(c) => match c.source {
            Some(s) => s,
            None => empty_source(),
        },
        None => empty_source(),
    }
}

pub open spec fn empty_source() -> SourceKeys {
    SourceKeys {
        quit: None,
        cursor_down: None,
        cursor_up: None,
        cursor_left: None,
        cursor_right: None,
        word_forward: None,
        word_back: None,
        line_start: None,
        line_end: None,
        half_page_down: None,
        half_page_up: None,
        top: None,
        bottom: None,
        select: None,
        yank: None,
        view_mode: None,
        search: None,
        help: None,
        next_match: None,
        prev_match: None,
    }
}

impl SourceKeys {
    /// A section without overrides.
    fn default_none() -> (s: SourceKeys)
        ensures
            s == empty_source(),
    {
        SourceKeys {
            quit: None,
            cursor_down: None,
            cursor_up: None,
            cursor_left: None,
            cursor_right: None,
            word_forward: None,
            word_back: None,
            line_start: None,
            line_end: None,
            half_page_down: None,
            half_page_up: None,
            top: None,
            bottom: None,
            select: None,
            yank: None,
            view_mode: None,
            search: None,
            help: None,
            next_match: None,
            prev_match: None,
        }
    }
}

/// The search-mode section of the key overrides, or an empty one.
pub open spec fn section_search(config: Option<KeysConfig>) -> SearchKeys {
    match config {
        Some(c) => match c.search {
            Some(s) => s,
            None => empty_search(),
        },
        None => empty_search(),
    }
}

pub open spec fn empty_search() -> SearchKeys {
    SearchKeys {
        cancel: None,
        confirm: None,
    }
}

impl SearchKeys {
    /// A section without overrides.
    fn default_none() -> (s: SearchKeys)
        ensures
            s == empty_search(),
    {
        SearchKeys {
            cancel: None,
            confirm: None,
        }
    }
}

/// The theme that the command line and the configuration select, with the
/// configured color overrides applied.
pub struct ThemeChoice {
    pub theme: Theme,
    /// The selected name, when no built-in theme has it (the default theme is used then).
    pub unknown_name: Option<String>,
    /// The color overrides that are not colors.
    pub invalid_colors: Vec<InvalidColor>,
}

/// The characters of an optional string slice.
pub open spec fn opt_str(o: Option<&str>) -> Option<Seq<char>> {
    match o {
        Some(s) => Some(s@),
        None => None,
    }
}

/// The selected theme name: the command line's, else the configuration's, else `default`.
pub open spec fn chosen_theme_name(config_theme: Option<Seq<char>>, cli: Option<Seq<char>>) -> Seq<char> {
    match cli {
        Some(n) => n,
        None => match config_theme {
            Some(n) => n,
            None => "default"@,
        },
    }
}

/// The palette of a name, the default palette when no built-in theme has the name.
pub open spec fn base_theme(name: Seq<char>) -> Theme {
    match builtin_theme(name) {
        Some(t) => t,
        None => spec_default_theme(),
    }
}

/// Selects the theme (command line first, then configuration, then
/// `default`), falls back to the default palette for an unknown name, and
/// applies the configured color overrides.
pub fn resolve_theme(
    config_theme: &Option<String>,
    theme_override: Option<&str>,
    colors: &Option<ColorsConfig>,
) -> (r: ThemeChoice)
    ensures
        ({
            let name = chosen_theme_name(opt_chars(*config_theme), opt_str(theme_override));
            &&& (r.unknown_name is Some <==> builtin_theme(name) is None)
            &&& (r.unknown_name matches Some(n) ==> n@ == name)
            &&& match colors {
                Some(c) => r.theme == overridden_theme(base_theme(name), c) && reports(
                    r.invalid_colors@,
                ) == invalid_overrides(c),
                None => r.theme == base_theme(name) && r.invalid_colors@.len() == 0,
            }
        }),
{
    let name: &str = match theme_override {
        Some(n) => n,
        None => match config_theme {
            Some(n) => n.as_str(),
            None => "default",
        },
    };
    let (mut theme, unknown_name) = match builtin(name) {
        Some(t) => (t, None),
        None => (default_theme(), Some(String::from_str(name))),
    };
    let invalid_colors = match colors {
        Some(c) => theme.apply_overrides(c),
        None => Vec::new(),
    };
    ThemeChoice { theme, unknown_name, invalid_colors }
}

} // verus!
