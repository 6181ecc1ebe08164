//! The decisions of the rendered view: what a key or the mouse wheel does,
//! where the scroll position may stand, the search over the document's
//! text, and where an in-document link leads.

use vstd::prelude::*;
use crate::blocks::{Block, BlockModel, spans_plain_text, spans_text, block_text};
use crate::config::ResolvedKeys;
use crate::keys::{KeyCode, KeyEvent, KeyModifiers, any_binding_matches, control_modifier};
use crate::navigation::{SearchMatch, rows_of, pixel_to_rows};
use crate::text::{chars_of, chars_equal, find_chars, find_from, lemma_find_from_found, opt_chars, starts_with, starts_with_chars};
use vstd::utf8::encode_utf8;
use crate::navigation::{highlights_for, match_highlights};
use crate::source::{source_lines, text_lines};
use crate::text::{find, first_word, first_word_chars, push_char};
use crate::viewport::{ViewportState, highlighted_blocks, last_block_at_or_above};
use std::collections::HashSet;

verus! {

// ── Outside calls: Unicode case mapping and classes ───────────────────────
/// The lowercase mapping of a text (as std's `str::to_lowercase` gives it).
pub uninterp spec fn lower_case(s: Seq<char>) -> Seq<char>;

/// Whether a character is alphabetic or numeric (std's `char::is_alphanumeric`).
pub uninterp spec fn alphanumeric(c: char) -> bool;

/// Maps a text to lowercase with std's `str::to_lowercase` (Unicode's
/// mapping, no locale). The contract names the result and states that it is
/// empty exactly when the text is (each character lowers to one or more).
#[verifier::external_body]
pub(crate) fn to_lowercase(s: &str) -> (r: String)
    ensures
        r@ == lower_case(s@),
        r@.len() > 0 <==> s@.len() > 0,
{
    s.to_lowercase()
}

/// Tests a character with std's `char::is_alphanumeric` (Unicode's
/// `Alphabetic` and `Numeric` classes). The contract names the result.
#[verifier::external_body]
fn is_alphanumeric(c: char) -> (r: bool)
    ensures
        r == alphanumeric(c),
{
    c.is_alphanumeric()
}

// ── Heading anchors ───────────────────────────────────────────────────────
/// A lowered text made into an anchor: spaces become hyphens, and only
/// letters, digits and hyphens are kept.
pub open spec fn slug_of_lowered(s: Seq<char>) -> Seq<char>
    decreases s.len(),
{
    if s.len() == 0 {
        seq![]
    } else {
        let rest = slug_of_lowered(s.drop_last());
        let c = if s.last() == ' ' {
            '-'
        } else {
            s.last()
        };
        if alphanumeric(c) || c == '-' {
            rest.push(c)
        } else {
            rest
        }
    }
}

/// The GitHub-style anchor of a heading's text.
pub open spec fn slug(text: Seq<char>) -> Seq<char> {
    slug_of_lowered(lower_case(text))
}

/// The GitHub-style anchor of a heading's text.
pub fn heading_slug(text: &str) -> (r: Vec<char>)
    ensures
        r@ == slug(text@),
{
    let lowered = chars_of(to_lowercase(text).as_str());
    let mut out: Vec<char> = Vec::new();
    let mut i: usize = 0;
    while i < lowered.len()
        invariant
            i <= lowered.len(),
            out@ == slug_of_lowered(lowered@.take(i as int)),
        decreases lowered.len() - i,
    {
        let c0 = lowered[i];
        let c = if c0 == ' ' {
            '-'
        } else {
            c0
        };
        if is_alphanumeric(c) || c == '-' {
            out.push(c);
        }
        proof {
            assert(lowered@.take(i + 1).drop_last() =~= lowered@.take(i as int));
        }
        i = i + 1;
    }
    proof {
        assert(lowered@.take(lowered.len() as int) =~= lowered@);
    }
    out
}

/// Whether block `b` is a heading whose explicit id is `anchor`.
pub open spec fn has_id(b: BlockModel, anchor: Seq<char>) -> bool {
    b matches BlockModel::Heading { id: Some(id), .. } && id == anchor
}

/// Whether block `b` is a heading whose text's anchor is `anchor`.
pub open spec fn has_slug(b: BlockModel, anchor: Seq<char>) -> bool {
    b matches BlockModel::Heading { spans, .. } && slug(spans_text(spans)) == anchor
}

/// Whether `r` is the heading that an anchor leads to: the first heading
/// with that explicit id, else the first whose text's anchor it is; `None`
/// when no heading has either.
pub open spec fn anchor_target(blocks: Seq<Block>, anchor: Seq<char>, r: Option<usize>) -> bool {
    match r {
        Some(i) => i < blocks.len() && ((has_id(blocks[i as int]@, anchor) && forall|k: int|
            0 <= k < i ==> !has_id(#[trigger] blocks[k]@, anchor)) || ((forall|k: int|
            0 <= k < blocks.len() ==> !has_id(#[trigger] blocks[k]@, anchor)) && has_slug(blocks[i as int]@, anchor)
            && forall|k: int| 0 <= k < i ==> !has_slug(#[trigger] blocks[k]@, anchor))),
        None => forall|k: int| 0 <= k < blocks.len() ==> !has_id(#[trigger] blocks[k]@, anchor) && !has_slug(blocks[k]@, anchor),
    }
}

/// Find a heading block matching an anchor: the first heading with that
/// explicit id, else the first whose text's anchor it is.
pub fn find_heading_by_slug(blocks: &Vec<Block>, anchor: &str) -> (r: Option<usize>)
    ensures
        anchor_target(blocks@, anchor@, r),
{
    let anchor_chars = chars_of(anchor);
    let mut i: usize = 0;
    while i < blocks.len()
        invariant
            i <= blocks.len(),
            anchor_chars@ == anchor@,
            forall|k: int| 0 <= k < i ==> !has_id(#[trigger] blocks@[k]@, anchor@),
        decreases blocks.len() - i,
    {
        if let Block::Heading { id: Some(id), .. } = &blocks[i] {
            let id_chars = chars_of(id.as_str());
            if chars_equal(&id_chars, &anchor_chars) {
                return Some(i);
            }
        }
        i = i + 1;
    }
    let mut i: usize = 0;
    while i < blocks.len()
        invariant
            i <= blocks.len(),
            anchor_chars@ == anchor@,
            forall|k: int| 0 <= k < blocks.len() ==> !has_id(#[trigger] blocks@[k]@, anchor@),
            forall|k: int| 0 <= k < i ==> !has_slug(#[trigger] blocks@[k]@, anchor@),
        decreases blocks.len() - i,
    {
        if let Block::Heading { spans, .. } = &blocks[i] {
            let text = spans_plain_text(spans);
            let s = heading_slug(text.as_str());
            if chars_equal(&s, &anchor_chars) {
                return Some(i);
            }
        }
        i = i + 1;
    }
    None
}


// ── Search ────────────────────────────────────────────────────────────────
/// The UTF-8 size of one character.
pub open spec fn char_bytes(c: char) -> nat {
    encode_utf8(seq![c]).len()
}

/// Appending a character adds its UTF-8 size.
pub proof fn lemma_encode_push(s: Seq<char>, c: char)
    ensures
        encode_utf8(s.push(c)).len() == encode_utf8(s).len() + char_bytes(c),
    decreases s.len(),
{
    if s.len() == 0 {
        assert(s.push(c) =~= seq![c]);
    } else {
        lemma_encode_push(s.drop_first(), c);
        assert(s.push(c).drop_first() =~= s.drop_first().push(c));
        assert(s.push(c)[0] == s[0]);
    }
}

/// The UTF-8 size of a character.
pub(crate) fn utf8_width(c: char) -> (n: usize)
    ensures
        n == char_bytes(c),
{
    proof {
        let one = seq![c];
        assert(one.drop_first() =~= Seq::<char>::empty());
        assert(encode_utf8(Seq::<char>::empty()) == Seq::<u8>::empty());
        assert(one[0] == c);
        assert(encode_utf8(one) == vstd::utf8::encode_scalar(one[0] as u32) + encode_utf8(one.drop_first()));
        assert(encode_utf8(one) =~= vstd::utf8::encode_scalar(c as u32));
    }
    let v = c as u32;
    if v <= 0x7F {
        1
    } else if v <= 0x7FF {
        2
    } else if v <= 0xFFFF {
        3
    } else {
        4
    }
}

/// The UTF-8 size of a prefix is at most that of the whole text.
pub proof fn lemma_encode_prefix(s: Seq<char>, k: nat)
    requires
        k <= s.len(),
    ensures
        encode_utf8(s.take(k as int)).len() <= encode_utf8(s).len(),
    decreases s.len() - k,
{
    if k < s.len() {
        lemma_encode_prefix(s, k + 1);
        lemma_encode_push(s.take(k as int), s[k as int]);
        assert(s.take(k as int).push(s[k as int]) =~= s.take(k + 1 as int));
    } else {
        assert(s.take(k as int) =~= s);
    }
}

/// The byte offset of each character of a text, and of its end.
fn byte_offsets(chars: &Vec<char>) -> (offs: Vec<usize>)
    requires
        encode_utf8(chars@).len() <= usize::MAX,
    ensures
        offs.len() == chars.len() + 1,
        forall|k: int| 0 <= k <= chars.len() ==> #[trigger] offs@[k] == encode_utf8(chars@.take(k)).len(),
{
    let mut offs: Vec<usize> = Vec::new();
    let mut total: usize = 0;
    offs.push(0);
    proof {
        assert(chars@.take(0) =~= Seq::<char>::empty());
    }
    let mut i: usize = 0;
    while i < chars.len()
        invariant
            i <= chars.len(),
            encode_utf8(chars@).len() <= usize::MAX,
            offs.len() == i + 1,
            total == encode_utf8(chars@.take(i as int)).len(),
            forall|k: int| 0 <= k <= i ==> #[trigger] offs@[k] == encode_utf8(chars@.take(k)).len(),
        decreases chars.len() - i,
    {
        proof {
            lemma_encode_push(chars@.take(i as int), chars@[i as int]);
            assert(chars@.take(i as int).push(chars@[i as int]) =~= chars@.take(i + 1));
            lemma_encode_prefix(chars@, (i + 1) as nat);
        }
        total = total + utf8_width(chars[i]);
        offs.push(total);
        i = i + 1;
    }
    offs
}

/// The character ranges where `q` occurs in `lower` from `from` on, left to
/// right and without overlap.
pub open spec fn match_ranges(lower: Seq<char>, q: Seq<char>, from: nat) -> Seq<(nat, nat)>
    decreases lower.len() + 1 - from,
{
    if q.len() == 0 || from > lower.len() {
        seq![]
    } else {
        match find_from(lower, q, from as int) {
            Some(p) => {
                proof {
                    lemma_find_from_found(lower, q, from as int, p);
                }
                seq![(p as nat, (p + q.len()) as nat)] + match_ranges(lower, q, (p + q.len()) as nat)
            },
            None => seq![],
        }
    }
}

/// The byte offset in `text` of its `k`-th character (its end when past it).
pub open spec fn byte_offset(text: Seq<char>, k: nat) -> nat {
    encode_utf8(text.take(if k <= text.len() { k as int } else { text.len() as int })).len()
}

/// The search hits in one block's text: where the lowered query occurs in
/// the lowered text, as byte ranges of the text (counted by characters).
pub open spec fn block_matches(idx: nat, text: Seq<char>, query: Seq<char>) -> Seq<SearchMatch> {
    match_ranges(lower_case(text), lower_case(query), 0).map_values(
        |r: (nat, nat)|
            SearchMatch {
                block_idx: idx as usize,
                byte_start: byte_offset(text, r.0) as usize,
                byte_end: byte_offset(text, r.1) as usize,
            },
    )
}

/// The search hits in the first `n` blocks, block by block.
pub open spec fn search_matches(blocks: Seq<BlockModel>, query: Seq<char>, n: nat) -> Seq<SearchMatch>
    decreases n,
{
    if n == 0 {
        seq![]
    } else {
        search_matches(blocks, query, (n - 1) as nat) + block_matches((n - 1) as nat, block_text(blocks[n - 1]), query)
    }
}

/// Appends the hits of one block.
fn push_block_matches(out: &mut Vec<SearchMatch>, idx: usize, text: &String, q: &Vec<char>)
    requires
        encode_utf8(text@).len() <= usize::MAX,
        q@.len() > 0 ==> exists|qs: Seq<char>| q@ == lower_case(qs),
    ensures
        forall|qs: Seq<char>| q@ == lower_case(qs) ==> final(out)@ == old(out)@ + block_matches(idx as nat, text@, qs),
        q@.len() == 0 ==> final(out)@ == old(out)@,
{
    let ghost start = out@;
    if q.len() == 0 {
        return;
    }
    let lower = chars_of(to_lowercase(text.as_str()).as_str());
    let chars = chars_of(text.as_str());
    let offs = byte_offsets(&chars);
    let mut from: usize = 0;
    let ghost found: Seq<(nat, nat)> = seq![];
    loop
        invariant
            q.len() > 0,
            lower@ == lower_case(text@),
            chars@ == text@,
            offs.len() == chars.len() + 1,
            forall|k: int| 0 <= k <= chars.len() ==> #[trigger] offs@[k] == encode_utf8(chars@.take(k)).len(),
            from <= lower.len() + 1,
            found + match_ranges(lower@, q@, from as nat) == match_ranges(lower@, q@, 0),
            out@ == start + found.map_values(
                |r: (nat, nat)|
                    SearchMatch {
                        block_idx: idx,
                        byte_start: byte_offset(text@, r.0) as usize,
                        byte_end: byte_offset(text@, r.1) as usize,
                    },
            ),
        ensures
            found == match_ranges(lower@, q@, 0),
            out@ == start + found.map_values(
                |r: (nat, nat)|
                    SearchMatch {
                        block_idx: idx,
                        byte_start: byte_offset(text@, r.0) as usize,
                        byte_end: byte_offset(text@, r.1) as usize,
                    },
            ),
        decreases lower.len() + 1 - from,
    {
        if from > lower.len() {
            proof {
                assert(match_ranges(lower@, q@, from as nat) =~= Seq::<(nat, nat)>::empty());
                assert(found =~= found + Seq::<(nat, nat)>::empty());
            }
            break;
        }
        match find_chars(&lower, q, from) {
            Some(p) => {
                proof {
                    lemma_find_from_found(lower@, q@, from as int, p as int);
                }
                let end = p + q.len();
                let bs = if p <= chars.len() {
                    offs[p]
                } else {
                    offs[chars.len()]
                };
                let be = if end <= chars.len() {
                    offs[end]
                } else {
                    offs[chars.len()]
                };
                out.push(SearchMatch { block_idx: idx, byte_start: bs, byte_end: be });
                proof {
                    let r = (p as nat, end as nat);
                    assert(match_ranges(lower@, q@, from as nat) == seq![r] + match_ranges(lower@, q@, end as nat));
                    assert(found.push(r) + match_ranges(lower@, q@, end as nat) =~= found + match_ranges(lower@, q@, from as nat));
                    found = found.push(r);
                    assert(out@ =~= start + found.map_values(
                        |r: (nat, nat)|
                            SearchMatch {
                                block_idx: idx,
                                byte_start: byte_offset(text@, r.0) as usize,
                                byte_end: byte_offset(text@, r.1) as usize,
                            },
                    ));
                }
                from = end;
            },
            None => {
                proof {
                    assert(match_ranges(lower@, q@, from as nat) =~= Seq::<(nat, nat)>::empty());
                    assert(found =~= found + Seq::<(nat, nat)>::empty());
                }
                break;
            },
        }
    }
    proof {
        assert forall|qs: Seq<char>| q@ == lower_case(qs) implies out@ == start + block_matches(idx as nat, text@, qs) by {
            assert(found.map_values(
                |r: (nat, nat)|
                    SearchMatch {
                        block_idx: idx,
                        byte_start: byte_offset(text@, r.0) as usize,
                        byte_end: byte_offset(text@, r.1) as usize,
                    },
            ) =~= block_matches(idx as nat, text@, qs));
        }
    }
}

/// Every match of the search for `query` in the blocks' texts (compared in
/// lowercase), block by block, left to right.
pub fn find_matches(blocks: &Vec<Block>, query: &str) -> (r: Vec<SearchMatch>)
    requires
        forall|i: int| 0 <= i < blocks.len() ==> encode_utf8(block_text(#[trigger] blocks@[i]@)).len() <= usize::MAX,
    ensures
        query@.len() > 0 ==> r@ == search_matches(
            Seq::new(blocks.len() as nat, |i: int| blocks@[i]@),
            query@,
            blocks.len() as nat,
        ),
        query@.len() == 0 ==> r@.len() == 0,
{
    let q = chars_of(to_lowercase(query).as_str());
    let mut out: Vec<SearchMatch> = Vec::new();
    let ghost bm = Seq::new(blocks.len() as nat, |i: int| blocks@[i]@);
    let mut i: usize = 0;
    while i < blocks.len()
        invariant
            i <= blocks.len(),
            q@ == lower_case(query@),
            bm == Seq::new(blocks.len() as nat, |i: int| blocks@[i]@),
            forall|i: int| 0 <= i < blocks.len() ==> encode_utf8(block_text(#[trigger] blocks@[i]@)).len() <= usize::MAX,
            q@.len() > 0 ==> out@ == search_matches(bm, query@, i as nat),
            q@.len() > 0 <==> query@.len() > 0,
            q@.len() == 0 ==> out@.len() == 0,
        decreases blocks.len() - i,
    {
        let text = blocks[i].text_content();
        proof {
            assert(encode_utf8(block_text(blocks@[i as int]@)).len() <= usize::MAX);
        }
        let ghost before = out@;
        push_block_matches(&mut out, i, &text, &q);
        proof {
            if q@.len() > 0 {
                assert(out@ == before + block_matches(i as nat, text@, query@));
                assert(bm[i as int] == blocks@[i as int]@);
            }
        }
        i = i + 1;
    }
    out
}

// ── Keys of the rendered view ─────────────────────────────────────────────
/// What a key press does in the rendered view.
#[derive(Debug, Clone, Copy, PartialEq, Eq, Structural)]
pub enum NormalCommand {
    /// Leave the program.
    Quit,
    /// Scroll to this row.
    Scroll(u32),
    /// Show the source (selecting from the start when the flag holds).
    SourceMode(bool),
    /// Open the file in the editor.
    Edit,
    /// Start typing a search.
    StartSearch,
    NextMatch,
    PrevMatch,
    /// Show the key help.
    Help,
    /// Drop the search and its highlights.
    ClearSearch,
    /// Nothing to do.
    Nothing,
}

/// The key pressed with control and nothing else.
pub open spec fn is_ctrl_c(key: KeyEvent) -> bool {
    key.code == KeyCode::Char('c') && key.modifiers == control_modifier()
}

/// What a key press does in the rendered view, in order of precedence: the
/// fixed keys (`r`/`v` source, `e` editor), the search keys, `?` help, Esc
/// dropping a search, then quitting and scrolling by the bindings.
pub open spec fn normal_command(
    keys: ResolvedKeys,
    key: KeyEvent,
    has_matches: bool,
    has_query: bool,
    scroll_row: nat,
    max_scroll: nat,
    content_rows: nat,
    scroll_step: nat,
) -> NormalCommand {
    let n = keys.normal;
    if key.code == KeyCode::Char('r') || key.code == KeyCode::Char('v') {
        NormalCommand::SourceMode(key.code == KeyCode::Char('v'))
    } else if key.code == KeyCode::Char('e') {
        NormalCommand::Edit
    } else if any_binding_matches(n.search.0@, key) {
        NormalCommand::StartSearch
    } else if any_binding_matches(n.next_match.0@, key) && has_matches {
        NormalCommand::NextMatch
    } else if any_binding_matches(n.prev_match.0@, key) && has_matches {
        NormalCommand::PrevMatch
    } else if key.code == KeyCode::Char('?') {
        NormalCommand::Help
    } else if key.code == KeyCode::Esc && has_query {
        NormalCommand::ClearSearch
    } else {
        quit_or_scroll_command(keys, key, scroll_row, max_scroll, content_rows, scroll_step)
    }
}

/// What a key press does when only quitting and scrolling are in question
/// (the keys that arrive while the view catches up with earlier ones):
/// Ctrl-C or a quit binding quits, a scroll binding scrolls, nothing else
/// does anything.
pub open spec fn quit_or_scroll_command(
    keys: ResolvedKeys,
    key: KeyEvent,
    scroll_row: nat,
    max_scroll: nat,
    content_rows: nat,
    scroll_step: nat,
) -> NormalCommand {
    let n = keys.normal;
    let down = |d: nat| (if scroll_row + d <= max_scroll { scroll_row + d } else { max_scroll }) as u32;
    let up = |d: nat| (if scroll_row >= d { scroll_row - d } else { 0 }) as u32;
    if is_ctrl_c(key) || any_binding_matches(n.quit.0@, key) {
        NormalCommand::Quit
    } else if any_binding_matches(n.scroll_down.0@, key) {
        NormalCommand::Scroll(down(scroll_step))
    } else if any_binding_matches(n.scroll_up.0@, key) {
        NormalCommand::Scroll(up(scroll_step))
    } else if any_binding_matches(n.page_down.0@, key) {
        NormalCommand::Scroll(down(content_rows / 2))
    } else if any_binding_matches(n.page_up.0@, key) {
        NormalCommand::Scroll(up(content_rows / 2))
    } else if any_binding_matches(n.top.0@, key) {
        NormalCommand::Scroll(0)
    } else if any_binding_matches(n.bottom.0@, key) {
        NormalCommand::Scroll(max_scroll as u32)
    } else {
        NormalCommand::Nothing
    }
}

/// `scroll_row + d`, at most `max_scroll`.
fn scrolled_down(scroll_row: u32, d: u32, max_scroll: u32) -> (r: u32)
    ensures
        r == (if scroll_row + d <= max_scroll { scroll_row + d } else { max_scroll as int }),
{
    if scroll_row as u64 + d as u64 <= max_scroll as u64 {
        scroll_row + d
    } else {
        max_scroll
    }
}

/// `scroll_row - d`, at least 0.
fn scrolled_up(scroll_row: u32, d: u32) -> (r: u32)
    ensures
        r == (if scroll_row >= d { scroll_row - d } else { 0 }),
{
    if scroll_row >= d {
        scroll_row - d
    } else {
        0
    }
}

/// What a key press does in the rendered view.
pub fn normal_key_command(
    keys: &ResolvedKeys,
    key: &KeyEvent,
    has_matches: bool,
    has_query: bool,
    scroll_row: u32,
    max_scroll: u32,
    content_rows: u32,
    scroll_step: u32,
) -> (r: NormalCommand)
    ensures
        r == normal_command(*keys, *key, has_matches, has_query, scroll_row as nat, max_scroll as nat, content_rows as nat, scroll_step as nat),
{
    let n = &keys.normal;
    if key.code == KeyCode::Char('r') || key.code == KeyCode::Char('v') {
        NormalCommand::SourceMode(key.code == KeyCode::Char('v'))
    } else if key.code == KeyCode::Char('e') {
        NormalCommand::Edit
    } else if n.search.matches(key) {
        NormalCommand::StartSearch
    } else if n.next_match.matches(key) && has_matches {
        NormalCommand::NextMatch
    } else if n.prev_match.matches(key) && has_matches {
        NormalCommand::PrevMatch
    } else if key.code == KeyCode::Char('?') {
        NormalCommand::Help
    } else if key.code == KeyCode::Esc && has_query {
        NormalCommand::ClearSearch
    } else {
        quit_or_scroll_key_command(keys, key, scroll_row, max_scroll, content_rows, scroll_step)
    }
}

/// What a key press that arrives while the view catches up does: quit,
/// scroll, or nothing.
pub fn quit_or_scroll_key_command(
    keys: &ResolvedKeys,
    key: &KeyEvent,
    scroll_row: u32,
    max_scroll: u32,
    content_rows: u32,
    scroll_step: u32,
) -> (r: NormalCommand)
    ensures
        r == quit_or_scroll_command(*keys, *key, scroll_row as nat, max_scroll as nat, content_rows as nat, scroll_step as nat),
{
    let n = &keys.normal;
    if (key.code == KeyCode::Char('c') && key.modifiers == KeyModifiers::control()) || n.quit.matches(key) {
        NormalCommand::Quit
    } else if n.scroll_down.matches(key) {
        NormalCommand::Scroll(scrolled_down(scroll_row, scroll_step, max_scroll))
    } else if n.scroll_up.matches(key) {
        NormalCommand::Scroll(scrolled_up(scroll_row, scroll_step))
    } else if n.page_down.matches(key) {
        NormalCommand::Scroll(scrolled_down(scroll_row, content_rows / 2, max_scroll))
    } else if n.page_up.matches(key) {
        NormalCommand::Scroll(scrolled_up(scroll_row, content_rows / 2))
    } else if n.top.matches(key) {
        NormalCommand::Scroll(0)
    } else if n.bottom.matches(key) {
        NormalCommand::Scroll(max_scroll)
    } else {
        NormalCommand::Nothing
    }
}

/// The scroll row after a turn of the mouse wheel: three steps down (at most
/// to `max_scroll`) or up (at least to the top).
pub fn wheel_scroll(down: bool, scroll_row: u32, max_scroll: u32, scroll_step: u32) -> (r: u32)
    ensures
        r == if down {
            (if scroll_row + 3 * scroll_step <= max_scroll { scroll_row + 3 * scroll_step } else { max_scroll as int })
        } else {
            (if scroll_row >= 3 * scroll_step { scroll_row - 3 * scroll_step } else { 0 })
        },
{
    let d = 3 * scroll_step as u64;
    if down {
        if scroll_row as u64 + d <= max_scroll as u64 {
            (scroll_row as u64 + d) as u32
        } else {
            max_scroll
        }
    } else {
        if scroll_row as u64 >= d {
            (scroll_row as u64 - d) as u32
        } else {
            0
        }
    }
}

/// The last row the view may scroll to: the document's rows less the rows
/// on screen.
pub fn max_scroll(total_height: u32, cell_h: u16, content_rows: u32) -> (r: u32)
    ensures
        r == if rows_of(total_height as nat, cell_h as nat) >= content_rows {
            rows_of(total_height as nat, cell_h as nat) - content_rows
        } else {
            0
        },
{
    let total_rows = pixel_to_rows(total_height, cell_h);
    if total_rows >= content_rows {
        total_rows - content_rows
    } else {
        0
    }
}

// ── Links ─────────────────────────────────────────────────────────────────
/// Where a clicked link leads.
#[derive(Debug, Clone, PartialEq, Eq)]
pub enum LinkTarget {
    /// An anchor of a heading in this document, at this block.
    Heading(usize),
    /// An anchor that no heading has.
    MissingAnchor(String),
    /// A web or mail address, to be opened outside.
    External(String),
    /// Anything else.
    Unsupported(String),
}

/// Whether a link leads outside: a web or mail address.
pub open spec fn is_external(url: Seq<char>) -> bool {
    starts_with(url, "http://"@) || starts_with(url, "https://"@) || starts_with(url, "mailto:"@)
}

/// The links that open outside are exactly those that start with `http://`,
/// `https://` or `mailto:`; none of them is an in-document `#` anchor, so
/// `link_target` gives each of them back as `External`.
pub proof fn law_web_and_mail_links_open_outside(url: Seq<char>)
    ensures
        is_external(url) <==> (starts_with(url, seq!['h', 't', 't', 'p', ':', '/', '/'])
            || starts_with(url, seq!['h', 't', 't', 'p', 's', ':', '/', '/'])
            || starts_with(url, seq!['m', 'a', 'i', 'l', 't', 'o', ':'])),
        is_external(url) ==> !(url.len() > 0 && url[0] == '#'),
{
    reveal_strlit("http://");
    reveal_strlit("https://");
    reveal_strlit("mailto:");
    assert("http://"@ =~= seq!['h', 't', 't', 'p', ':', '/', '/']);
    assert("https://"@ =~= seq!['h', 't', 't', 'p', 's', ':', '/', '/']);
    assert("mailto:"@ =~= seq!['m', 'a', 'i', 'l', 't', 'o', ':']);
    if is_external(url) {
        assert(url[0] == url.subrange(0, 7)[0]);
    }
}

/// Classifies a clicked link: `#anchor` links go to the heading with that
/// anchor (or are reported missing); web and mail addresses open outside;
/// the rest is unsupported.
pub fn link_target(url: &str, blocks: &Vec<Block>) -> (r: LinkTarget)
    ensures
        url@.len() > 0 && url@[0] == '#' ==> match r {
            LinkTarget::Heading(i) => anchor_target(blocks@, url@.skip(1), Some(i)),
            LinkTarget::MissingAnchor(a) => a@ == url@.skip(1) && anchor_target(blocks@, url@.skip(1), None),
            _ => false,
        },
        !(url@.len() > 0 && url@[0] == '#') ==> match r {
            LinkTarget::External(u) => is_external(url@) && u@ == url@,
            LinkTarget::Unsupported(u) => !is_external(url@) && u@ == url@,
            _ => false,
        },
{
    let chars = chars_of(url);
    if chars.len() > 0 && chars[0] == '#' {
        let mut anchor = String::new();
        let mut i: usize = 1;
        while i < chars.len()
            invariant
                1 <= i <= chars.len(),
                anchor@ == chars@.subrange(1, i as int),
            decreases chars.len() - i,
        {
            crate::text::push_char(&mut anchor, chars[i]);
            proof {
                assert(anchor@ =~= chars@.subrange(1, i + 1));
            }
            i = i + 1;
        }
        proof {
            assert(chars@.subrange(1, chars.len() as int) =~= url@.skip(1));
        }
        match find_heading_by_slug(blocks, anchor.as_str()) {
            Some(t) => LinkTarget::Heading(t),
            None => LinkTarget::MissingAnchor(anchor),
        }
    } else {
        let http = chars_of("http://");
        let https = chars_of("https://");
        let mailto = chars_of("mailto:");
        if starts_with_chars(&chars, &http) || starts_with_chars(&chars, &https) || starts_with_chars(&chars, &mailto) {
            LinkTarget::External(crate::text::string_of(chars.as_slice()))
        } else {
            LinkTarget::Unsupported(crate::text::string_of(chars.as_slice()))
        }
    }
}


// ── From the rendered view to the source ──────────────────────────────────
/// The first line from `from` on that contains `word`.
pub open spec fn first_line_with(lines: Seq<Seq<char>>, word: Seq<char>, from: nat) -> Option<nat>
    decreases lines.len() - from,
{
    if from >= lines.len() {
        None
    } else if find(lines[from as int], word) is Some {
        Some(from)
    } else {
        first_line_with(lines, word, from + 1)
    }
}

/// The line after the one where the first `upto` blocks were found, each
/// searched by its first word from where the one before was found.
pub open spec fn line_after_blocks(lines: Seq<Seq<char>>, texts: Seq<Seq<char>>, upto: nat) -> nat
    decreases upto,
{
    if upto == 0 {
        0
    } else {
        let m = line_after_blocks(lines, texts, (upto - 1) as nat);
        let w = first_word(texts[upto - 1]);
        if w.len() == 0 {
            m
        } else {
            match first_line_with(lines, w, m) {
                Some(j) => j + 1,
                None => m,
            }
        }
    }
}

/// The source line of block `top`: the first line, from where the blocks
/// before it were found, containing its first word; 0 for a block without words.
pub open spec fn source_line_of(lines: Seq<Seq<char>>, texts: Seq<Seq<char>>, top: nat) -> nat {
    let w = if top < texts.len() { first_word(texts[top as int]) } else { seq![] };
    if w.len() == 0 {
        0
    } else {
        let m = line_after_blocks(lines, texts, top);
        match first_line_with(lines, w, m) {
            Some(j) => j,
            None => m,
        }
    }
}

/// The first line from `from` on that contains `word`.
fn find_line_with(lines: &Vec<Vec<char>>, word: &Vec<char>, from: usize) -> (r: Option<usize>)
    ensures
        match r {
            Some(j) => first_line_with(lines@.map_values(|l: Vec<char>| l@), word@, from as nat) == Some(j as nat),
            None => first_line_with(lines@.map_values(|l: Vec<char>| l@), word@, from as nat) is None,
        },
{
    let ghost ls = lines@.map_values(|l: Vec<char>| l@);
    let mut j = from;
    while j < lines.len()
        invariant
            from <= j,
            ls == lines@.map_values(|l: Vec<char>| l@),
            first_line_with(ls, word@, from as nat) == first_line_with(ls, word@, j as nat),
        decreases lines.len() - j,
    {
        if find_chars(&lines[j], word, 0).is_some() {
            return Some(j);
        }
        j = j + 1;
    }
    None
}

/// Map the rendered view's scroll position to a source line: the block at
/// the top of the view is looked up in the raw text by its first word,
/// searching from where the blocks before it were found.
pub fn scroll_to_source_line(scroll_row: u32, cell_h: u16, viewport: &ViewportState, blocks: &Vec<Block>, raw_content: &str) -> (r: usize)
    requires
        viewport.wf(),
        viewport.block_offsets.len() <= blocks.len(),
    ensures
        r == source_line_of(
            text_lines(raw_content@),
            Seq::new(blocks.len() as nat, |i: int| block_text(blocks@[i]@)),
            last_block_at_or_above(viewport.block_offsets@, scroll_row * cell_h, viewport.block_offsets.len() as nat),
        ),
{
    let ghost texts = Seq::new(blocks.len() as nat, |i: int| block_text(blocks@[i]@));
    assert(scroll_row * cell_h <= 0xFFFF_FFFFu64 * 0xFFFFu64) by (nonlinear_arith)
        requires
            scroll_row <= 0xFFFF_FFFFu64,
            cell_h <= 0xFFFFu64,
    ;
    let scroll_px = scroll_row as u64 * cell_h as u64;
    let top_block = viewport.first_visible_block(scroll_px);
    let first = if top_block < blocks.len() {
        let t = blocks[top_block].text_content();
        first_word_chars(&chars_of(t.as_str()))
    } else {
        Vec::new()
    };
    if first.len() == 0 {
        return 0;
    }
    let lines = source_lines(raw_content);
    let ghost ls = lines@.map_values(|l: Vec<char>| l@);
    let mut min_line: usize = 0;
    let mut i: usize = 0;
    while i < top_block
        invariant
            i <= top_block,
            top_block <= blocks.len(),
            ls == lines@.map_values(|l: Vec<char>| l@),
            texts == Seq::new(blocks.len() as nat, |i: int| block_text(blocks@[i]@)),
            min_line == line_after_blocks(ls, texts, i as nat),
            min_line <= lines.len(),
        decreases top_block - i,
    {
        let t = blocks[i].text_content();
        let word = first_word_chars(&chars_of(t.as_str()));
        if word.len() > 0 {
            match find_line_with(&lines, &word, min_line) {
                Some(j) => {
                    proof {
                        lemma_first_line_bound(ls, word@, min_line as nat);
                    }
                    min_line = j + 1;
                },
                None => {},
            }
        }
        i = i + 1;
    }
    match find_line_with(&lines, &first, min_line) {
        Some(j) => j,
        None => min_line,
    }
}

/// A line found lies within the text.
proof fn lemma_first_line_bound(lines: Seq<Seq<char>>, word: Seq<char>, from: nat)
    ensures
        match first_line_with(lines, word, from) {
            Some(j) => from <= j < lines.len(),
            None => true,
        },
    decreases lines.len() - from,
{
    if from < lines.len() && !(find(lines[from as int], word) is Some) {
        lemma_first_line_bound(lines, word, from + 1);
    }
}

// ── Typing a search ───────────────────────────────────────────────────────
/// Removes the last character of a string, if any (std's `String::pop`).
#[verifier::external_body]
fn pop_char(s: &mut String)
    ensures
        final(s)@ == if old(s)@.len() > 0 {
            old(s)@.drop_last()
        } else {
            old(s)@
        },
{
    s.pop();
}

/// What a key does while a search is typed.
#[derive(Debug, Clone, PartialEq, Eq)]
pub enum SearchKey {
    /// Esc: stop typing; the input is cleared.
    Cancel,
    /// Enter: search for this (non-empty) text.
    Submit(String),
    /// Enter on an empty input: nothing to search.
    SubmitEmpty,
    /// The input changed (a character added or removed).
    Edited,
    /// Any other key.
    Ignored,
}

/// Handles a key while a search is typed: Esc clears the input and stops,
/// Enter submits it, Backspace removes its last character, a character is
/// added to it.
pub fn search_key(input: &mut String, key: &KeyEvent) -> (r: SearchKey)
    ensures
        match key.code {
            KeyCode::Esc => r == SearchKey::Cancel && final(input)@.len() == 0,
            KeyCode::Enter => final(input)@ == old(input)@ && if old(input)@.len() > 0 {
                r matches SearchKey::Submit(q) && q@ == old(input)@
            } else {
                r == SearchKey::SubmitEmpty
            },
            KeyCode::Backspace => r == SearchKey::Edited && final(input)@ == (if old(input)@.len() > 0 {
                old(input)@.drop_last()
            } else {
                old(input)@
            }),
            KeyCode::Char(c) => r == SearchKey::Edited && final(input)@ == old(input)@.push(c),
            _ => r == SearchKey::Ignored && final(input)@ == old(input)@,
        },
{
    match key.code {
        KeyCode::Esc => {
            *input = String::new();
            SearchKey::Cancel
        },
        KeyCode::Enter => {
            if !input.as_str().is_empty() {
                let mut q = String::new();
                q.append(input.as_str());
                assert(q@ =~= input@);
                SearchKey::Submit(q)
            } else {
                SearchKey::SubmitEmpty
            }
        },
        KeyCode::Backspace => {
            pop_char(input);
            SearchKey::Edited
        },
        KeyCode::Char(c) => {
            push_char(input, c);
            SearchKey::Edited
        },
        _ => SearchKey::Ignored,
    }
}

/// Runs a submitted search: finds the matches, scrolls to the first one (if
/// any), and highlights them with the first as current. Returns the matches
/// and the blocks whose highlights changed.
pub fn run_search(
    blocks: &Vec<Block>,
    query: &str,
    viewport: &mut ViewportState,
    scroll_row: &mut u32,
    cell_h: u16,
) -> (r: (Vec<SearchMatch>, HashSet<usize>))
    requires
        old(viewport).wf(),
        old(viewport).block_offsets.len() == blocks.len(),
        forall|i: int| 0 <= i < blocks.len() ==> encode_utf8(block_text(#[trigger] blocks@[i]@)).len() <= usize::MAX,
    ensures
        query@.len() > 0 ==> r.0@ == search_matches(
            Seq::new(blocks.len() as nat, |i: int| blocks@[i]@),
            query@,
            blocks.len() as nat,
        ),
        query@.len() == 0 ==> r.0@.len() == 0,
        *final(scroll_row) == if r.0.len() > 0 && r.0@[0].block_idx < old(viewport).block_offsets.len() {
            rows_of(old(viewport).top(r.0@[0].block_idx as int) as nat, cell_h as nat) as u32
        } else {
            *old(scroll_row)
        },
        final(viewport).search_highlights@ == match_highlights(r.0@, 0),
        r.1@ == highlighted_blocks(old(viewport).search_highlights@).union(highlighted_blocks(match_highlights(r.0@, 0))),
        final(viewport).wf(),
        final(viewport).block_heights == old(viewport).block_heights,
        final(viewport).block_offsets == old(viewport).block_offsets,
        final(viewport).total_height == old(viewport).total_height,
{
    let matches = find_matches(blocks, query);
    if matches.len() > 0 {
        let block_idx = matches[0].block_idx;
        if block_idx < viewport.block_offsets.len() {
            let block_top_px = viewport.block_offsets[block_idx];
            *scroll_row = pixel_to_rows(block_top_px, cell_h);
        }
    }
    let highlights = highlights_for(&matches, 0);
    let affected = viewport.set_search_highlights(highlights);
    (matches, affected)
}


/// Every scroll command of the rendered view lands between the top and the
/// last row it may scroll to (when it started there).
pub proof fn law_scroll_commands_in_range(
    keys: ResolvedKeys,
    key: KeyEvent,
    has_matches: bool,
    has_query: bool,
    scroll_row: nat,
    max_scroll: nat,
    content_rows: nat,
    scroll_step: nat,
)
    requires
        scroll_row <= max_scroll <= u32::MAX,
    ensures
        match normal_command(keys, key, has_matches, has_query, scroll_row, max_scroll, content_rows, scroll_step) {
            NormalCommand::Scroll(r) => r <= max_scroll,
            _ => true,
        },
        match quit_or_scroll_command(keys, key, scroll_row, max_scroll, content_rows, scroll_step) {
            NormalCommand::Scroll(r) => r <= max_scroll,
            _ => true,
        },
{
}

/// Search hits come in order, each spans the query, and none overlaps the next.
pub proof fn law_matches_in_order(lower: Seq<char>, q: Seq<char>, from: nat)
    ensures
        forall|i: int| 0 <= i < match_ranges(lower, q, from).len() ==> {
            let r = #[trigger] match_ranges(lower, q, from)[i];
            &&& from <= r.0
            &&& r.1 == r.0 + q.len()
            &&& r.1 <= lower.len()
            &&& lower.subrange(r.0 as int, r.1 as int) == q
        },
        forall|i: int| 0 <= i && i + 1 < match_ranges(lower, q, from).len() ==> (#[trigger] match_ranges(lower, q, from)[i]).1
            <= match_ranges(lower, q, from)[i + 1].0,
    decreases lower.len() + 1 - from,
{
    if q.len() == 0 || from > lower.len() {
    } else {
        match find_from(lower, q, from as int) {
            Some(p) => {
                lemma_find_from_found(lower, q, from as int, p);
                let next = (p + q.len()) as nat;
                law_matches_in_order(lower, q, next);
                let rest = match_ranges(lower, q, next);
                let all = match_ranges(lower, q, from);
                assert(all == seq![(p as nat, next)] + rest);
                assert forall|i: int| 0 <= i < all.len() implies {
                    let r = #[trigger] all[i];
                    &&& from <= r.0
                    &&& r.1 == r.0 + q.len()
                    &&& r.1 <= lower.len()
                    &&& lower.subrange(r.0 as int, r.1 as int) == q
                } by {
                    if i > 0 {
                        assert(all[i] == rest[i - 1]);
                    }
                }
                assert forall|i: int| 0 <= i && i + 1 < all.len() implies (#[trigger] all[i]).1 <= all[i + 1].0 by {
                    if i > 0 {
                        assert(all[i] == rest[i - 1]);
                        assert(all[i + 1] == rest[i]);
                    } else {
                        assert(all[1] == rest[0]);
                    }
                }
            },
            None => {},
        }
    }
}

// ── Waiting for input ──────────────────────────────────────────────────────
/// How long the user must have been idle before blocks near the view are
/// rendered ahead, in milliseconds.
pub const IDLE_PREFETCH_MS: u64 = 100;

/// How long to wait for input, in milliseconds: briefly when a block can be
/// rendered ahead (the user being idle), very briefly while blocks are still
/// unmeasured, else an hour.
pub fn wait_ms(idle_ms: u64, prefetch_pending: bool, unmeasured: bool) -> (r: u64)
    ensures
        r == if idle_ms >= IDLE_PREFETCH_MS && prefetch_pending {
            50u64
        } else if unmeasured {
            10u64
        } else {
            3_600_000u64
        },
{
    if idle_ms >= IDLE_PREFETCH_MS && prefetch_pending {
        50
    } else if unmeasured {
        10
    } else {
        3_600_000
    }
}

/// How a scroll is shown on screen.
#[derive(Debug, Clone, Copy, PartialEq, Eq, Structural)]
pub enum Repaint {
    /// Draw every row anew.
    Full,
    /// Shift the rows and draw those that come into view.
    Shift,
}

/// How to show a scroll from `old_scroll` to `new_scroll` rows: a move of a
/// screen or more is drawn anew, a shorter one shifts the rows.
pub fn scroll_repaint(old_scroll: u32, new_scroll: u32, content_rows: u16) -> (r: Repaint)
    ensures
        r == if (if new_scroll >= old_scroll { new_scroll - old_scroll } else { old_scroll - new_scroll }) >= content_rows {
            Repaint::Full
        } else {
            Repaint::Shift
        },
{
    let delta = if new_scroll >= old_scroll { new_scroll - old_scroll } else { old_scroll - new_scroll };
    if delta >= content_rows as u32 {
        Repaint::Full
    } else {
        Repaint::Shift
    }
}

/// Whether distant block images are dropped after this many scrolls: every
/// twentieth.
pub fn eviction_due(scroll_count: u32) -> (r: bool)
    ensures
        r == (scroll_count % 20 == 0),
{
    scroll_count % 20 == 0
}

} // verus!
