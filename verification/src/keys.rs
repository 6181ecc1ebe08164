//! Key bindings: parsing binding strings such as `"ctrl-d"` or `"PageDown"`,
//! and matching them against key presses.

use vstd::prelude::*;
use crate::text::{chars_equal, chars_of, copy_range, starts_with, starts_with_chars};

verus! {

/// A key on the keyboard.
#[derive(Debug, Clone, Copy, PartialEq, Eq, Structural)]
pub enum KeyCode {
    Backspace,
    Enter,
    Left,
    Right,
    Up,
    Down,
    Home,
    End,
    PageUp,
    PageDown,
    Tab,
    BackTab,
    Delete,
    Insert,
    F(u8),
    Char(char),
    Null,
    Esc,
    /// Any other key (media keys, lock keys, lone modifiers).
    Other,
}

/// A set of modifier keys, as bit flags.
#[derive(Debug, Clone, Copy, PartialEq, Eq, Structural)]
pub struct KeyModifiers {
    pub bits: u8,
}

impl KeyModifiers {
    /// No modifier held.
    pub fn none() -> (m: KeyModifiers)
        ensures
            m == no_modifiers(),
    {
        KeyModifiers { bits: 0 }
    }

    /// Shift alone.
    pub fn shift() -> (m: KeyModifiers)
        ensures
            m == (KeyModifiers { bits: 1 }),
    {
        KeyModifiers { bits: 1 }
    }

    /// Control alone.
    pub fn control() -> (m: KeyModifiers)
        ensures
            m == control_modifier(),
    {
        KeyModifiers { bits: 2 }
    }

    /// Alt alone.
    pub fn alt() -> (m: KeyModifiers)
        ensures
            m == (KeyModifiers { bits: 4 }),
    {
        KeyModifiers { bits: 4 }
    }

    /// Whether every modifier of `other` is in `self`.
    pub open spec fn spec_contains(self, other: KeyModifiers) -> bool {
        self.bits & other.bits == other.bits
    }

    /// Whether every modifier of `other` is in `self`.
    pub fn contains(self, other: KeyModifiers) -> (r: bool)
        ensures
            r == self.spec_contains(other),
    {
        self.bits & other.bits == other.bits
    }
}

/// No modifier held.
pub open spec fn no_modifiers() -> KeyModifiers {
    KeyModifiers { bits: 0 }
}

/// Control alone.
pub open spec fn control_modifier() -> KeyModifiers {
    KeyModifiers { bits: 2 }
}

/// A key press: the key and the modifiers held with it.
#[derive(Debug, Clone, Copy, PartialEq, Eq, Structural)]
pub struct KeyEvent {
    pub code: KeyCode,
    pub modifiers: KeyModifiers,
}

impl KeyEvent {
    pub fn new(code: KeyCode, modifiers: KeyModifiers) -> (e: KeyEvent)
        ensures
            e == (KeyEvent { code, modifiers }),
    {
        KeyEvent { code, modifiers }
    }
}

#[derive(Debug, Clone, Copy, PartialEq, Eq, Structural)]
pub struct KeyBinding {
    pub code: KeyCode,
    pub modifiers: KeyModifiers,
}

#[derive(Debug, Clone)]
pub struct KeyBindings(pub Vec<KeyBinding>);

/// Why a binding string was refused.
#[derive(Debug, Clone)]
pub enum KeyParseError {
    /// The binding string is empty.
    Empty,
    /// Nothing follows `ctrl+` or `ctrl-` in the binding string (which it holds).
    NothingAfterCtrl(String),
    /// The key name (which it holds) is not one that bindings know.
    UnknownKey(String),
}

/// The outcome of parsing a binding string, as mathematical values.
pub enum ParseOutcome {
    Bound(KeyBinding),
    Empty,
    NothingAfterCtrl(Seq<char>),
    UnknownKey(Seq<char>),
}

/// A character with an ASCII upper-case letter taken to its lower case.
pub open spec fn ascii_lower(c: char) -> char {
    if 'A' <= c && c <= 'Z' {
        ((c as u32) + 32) as char
    } else {
        c
    }
}

/// A text with its ASCII upper-case letters taken to lower case.
pub open spec fn ascii_lower_seq(s: Seq<char>) -> Seq<char> {
    s.map_values(|c: char| ascii_lower(c))
}

/// A text with no ASCII upper-case letter is its own lower case.
pub proof fn lemma_lower_case_fixed(s: Seq<char>)
    requires
        forall|i: int| 0 <= i < s.len() ==> !('A' <= #[trigger] s[i] && s[i] <= 'Z'),
    ensures
        ascii_lower_seq(s) == s,
{
    assert(ascii_lower_seq(s) =~= s);
}

/// A one-character binding string binds that character without modifiers.
pub proof fn lemma_single_char_binding(s: Seq<char>)
    requires
        s.len() == 1,
    ensures
        parse_binding(s) == ParseOutcome::Bound(KeyBinding { code: KeyCode::Char(s[0]), modifiers: no_modifiers() }),
{
    assert(ascii_lower_seq(s).len() == 1);
}

/// The key that a key name denotes: a named key, whatever the case of its
/// letters (`"PageDown"` is `"pagedown"`), or the one character of a
/// single-character name, kept as written (`"G"` is not `"g"`).
pub open spec fn keycode_of(s: Seq<char>) -> Option<KeyCode> {
    let l = ascii_lower_seq(s);
    if l == seq!['e', 's', 'c'] || l == seq!['e', 's', 'c', 'a', 'p', 'e'] {
        Some(KeyCode::Esc)
    } else if l == seq!['e', 'n', 't', 'e', 'r'] {
        Some(KeyCode::Enter)
    } else if l == seq!['s', 'p', 'a', 'c', 'e'] {
        Some(KeyCode::Char(' '))
    } else if l == seq!['b', 'a', 'c', 'k', 's', 'p', 'a', 'c', 'e'] {
        Some(KeyCode::Backspace)
    } else if l == seq!['u', 'p'] {
        Some(KeyCode::Up)
    } else if l == seq!['d', 'o', 'w', 'n'] {
        Some(KeyCode::Down)
    } else if l == seq!['l', 'e', 'f', 't'] {
        Some(KeyCode::Left)
    } else if l == seq!['r', 'i', 'g', 'h', 't'] {
        Some(KeyCode::Right)
    } else if l == seq!['p', 'a', 'g', 'e', 'u', 'p'] {
        Some(KeyCode::PageUp)
    } else if l == seq!['p', 'a', 'g', 'e', 'd', 'o', 'w', 'n'] {
        Some(KeyCode::PageDown)
    } else if l == seq!['h', 'o', 'm', 'e'] {
        Some(KeyCode::Home)
    } else if l == seq!['e', 'n', 'd'] {
        Some(KeyCode::End)
    } else if l == seq!['t', 'a', 'b'] {
        Some(KeyCode::Tab)
    } else if s.len() == 1 {
        Some(KeyCode::Char(s[0]))
    } else {
        None
    }
}

/// The `ctrl+` prefix.
pub open spec fn ctrl_prefix() -> Seq<char> {
    seq!['c', 't', 'r', 'l', '+']
}

/// The `ctrl-` prefix.
pub open spec fn ctrl_dash_prefix() -> Seq<char> {
    seq!['c', 't', 'r', 'l', '-']
}

/// Whether a binding string starts with `ctrl+` or `ctrl-`, in lower case.
pub open spec fn has_ctrl_prefix(s: Seq<char>) -> bool {
    starts_with(s, ctrl_prefix()) || starts_with(s, ctrl_dash_prefix())
}

/// What a binding string means: `ctrl+` or `ctrl-` and a key name bind the
/// key with Control; a bare key name binds the key without modifiers.
pub open spec fn parse_binding(s: Seq<char>) -> ParseOutcome {
    if s.len() == 0 {
        ParseOutcome::Empty
    } else if has_ctrl_prefix(s) {
        let rest = s.subrange(5, s.len() as int);
        if rest.len() == 0 {
            ParseOutcome::NothingAfterCtrl(s)
        } else {
            match keycode_of(rest) {
                Some(code) => ParseOutcome::Bound(
                    KeyBinding { code, modifiers: control_modifier() },
                ),
                None => ParseOutcome::UnknownKey(rest),
            }
        }
    } else {
        match keycode_of(s) {
            Some(code) => ParseOutcome::Bound(KeyBinding { code, modifiers: no_modifiers() }),
            None => ParseOutcome::UnknownKey(s),
        }
    }
}

/// A parse result agrees with its mathematical outcome.
pub open spec fn parse_result_is(r: Result<KeyBinding, KeyParseError>, o: ParseOutcome) -> bool {
    match (r, o) {
        (Ok(kb), ParseOutcome::Bound(b)) => kb == b,
        (Err(KeyParseError::Empty), ParseOutcome::Empty) => true,
        (Err(KeyParseError::NothingAfterCtrl(x)), ParseOutcome::NothingAfterCtrl(y)) => x@ == y,
        (Err(KeyParseError::UnknownKey(x)), ParseOutcome::UnknownKey(y)) => x@ == y,
        _ => false,
    }
}

/// A character with an ASCII upper-case letter taken to its lower case.
fn lower_ascii_char(c: char) -> (r: char)
    ensures
        r == ascii_lower(c),
{
    if 'A' <= c && c <= 'Z' {
        let b: u8 = (c as u32 + 32) as u8;
        b as char
    } else {
        c
    }
}

/// A text with its ASCII upper-case letters taken to lower case.
fn lower_ascii_chars(s: &Vec<char>) -> (r: Vec<char>)
    ensures
        r@ == ascii_lower_seq(s@),
{
    let mut out: Vec<char> = Vec::new();
    let mut i: usize = 0;
    while i < s.len()
        invariant
            i <= s@.len(),
            out@ == ascii_lower_seq(s@.subrange(0, i as int)),
        decreases s@.len() - i,
    {
        out.push(lower_ascii_char(s[i]));
        assert(s@.subrange(0, i + 1) =~= s@.subrange(0, i as int).push(s@[i as int]));
        i = i + 1;
    }
    assert(s@.subrange(0, s@.len() as int) =~= s@);
    out
}

/// A key name's key.
fn parse_keycode(s: &Vec<char>) -> (r: Option<KeyCode>)
    ensures
        r == keycode_of(s@),
{
    let l = lower_ascii_chars(s);
    let esc = vec!['e', 's', 'c'];
    let escape = vec!['e', 's', 'c', 'a', 'p', 'e'];
    let enter = vec!['e', 'n', 't', 'e', 'r'];
    let space = vec!['s', 'p', 'a', 'c', 'e'];
    let backspace = vec!['b', 'a', 'c', 'k', 's', 'p', 'a', 'c', 'e'];
    let up = vec!['u', 'p'];
    let down = vec!['d', 'o', 'w', 'n'];
    let left = vec!['l', 'e', 'f', 't'];
    let right = vec!['r', 'i', 'g', 'h', 't'];
    let pageup = vec!['p', 'a', 'g', 'e', 'u', 'p'];
    let pagedown = vec!['p', 'a', 'g', 'e', 'd', 'o', 'w', 'n'];
    let home = vec!['h', 'o', 'm', 'e'];
    let end = vec!['e', 'n', 'd'];
    let tab = vec!['t', 'a', 'b'];
    assert(esc@ =~= seq!['e', 's', 'c']);
    assert(escape@ =~= seq!['e', 's', 'c', 'a', 'p', 'e']);
    assert(enter@ =~= seq!['e', 'n', 't', 'e', 'r']);
    assert(space@ =~= seq!['s', 'p', 'a', 'c', 'e']);
    assert(backspace@ =~= seq!['b', 'a', 'c', 'k', 's', 'p', 'a', 'c', 'e']);
    assert(up@ =~= seq!['u', 'p']);
    assert(down@ =~= seq!['d', 'o', 'w', 'n']);
    assert(left@ =~= seq!['l', 'e', 'f', 't']);
    assert(right@ =~= seq!['r', 'i', 'g', 'h', 't']);
    assert(pageup@ =~= seq!['p', 'a', 'g', 'e', 'u', 'p']);
    assert(pagedown@ =~= seq!['p', 'a', 'g', 'e', 'd', 'o', 'w', 'n']);
    assert(home@ =~= seq!['h', 'o', 'm', 'e']);
    assert(end@ =~= seq!['e', 'n', 'd']);
    assert(tab@ =~= seq!['t', 'a', 'b']);
    if chars_equal(&l, &esc) || chars_equal(&l, &escape) {
        Some(KeyCode::Esc)
    } else if chars_equal(&l, &enter) {
        Some(KeyCode::Enter)
    } else if chars_equal(&l, &space) {
        Some(KeyCode::Char(' '))
    } else if chars_equal(&l, &backspace) {
        Some(KeyCode::Backspace)
    } else if chars_equal(&l, &up) {
        Some(KeyCode::Up)
    } else if chars_equal(&l, &down) {
        Some(KeyCode::Down)
    } else if chars_equal(&l, &left) {
        Some(KeyCode::Left)
    } else if chars_equal(&l, &right) {
        Some(KeyCode::Right)
    } else if chars_equal(&l, &pageup) {
        Some(KeyCode::PageUp)
    } else if chars_equal(&l, &pagedown) {
        Some(KeyCode::PageDown)
    } else if chars_equal(&l, &home) {
        Some(KeyCode::Home)
    } else if chars_equal(&l, &end) {
        Some(KeyCode::End)
    } else if chars_equal(&l, &tab) {
        Some(KeyCode::Tab)
    } else if s.len() == 1 {
        Some(KeyCode::Char(s[0]))
    } else {
        None
    }
}

/// Whether a binding matches a key press: the key must be the same; a
/// binding without modifiers accepts any modifiers but Control (terminals
/// report Shift with upper-case letters); a binding with modifiers needs all
/// of them held.
pub open spec fn binding_matches(b: KeyBinding, e: KeyEvent) -> bool {
    &&& e.code == b.code
    &&& if b.modifiers == no_modifiers() {
        !e.modifiers.spec_contains(control_modifier())
    } else {
        e.modifiers.spec_contains(b.modifiers)
    }
}

/// Whether any binding of a list matches a key press.
pub open spec fn any_binding_matches(bs: Seq<KeyBinding>, e: KeyEvent) -> bool {
    exists|i: int| 0 <= i < bs.len() && binding_matches(#[trigger] bs[i], e)
}

impl KeyBinding {
    /// Parses a binding string such as `"q"`, `"Escape"`, `"ctrl+d"` or `"ctrl-d"`.
    pub fn parse(s: &str) -> (r: Result<KeyBinding, KeyParseError>)
        ensures
            parse_result_is(r, parse_binding(s@)),
    {
        let chars = chars_of(s);
        if chars.len() == 0 {
            return Err(KeyParseError::Empty);
        }
        let prefix = vec!['c', 't', 'r', 'l', '+'];
        let dash_prefix = vec!['c', 't', 'r', 'l', '-'];
        assert(prefix@ =~= ctrl_prefix());
        assert(dash_prefix@ =~= ctrl_dash_prefix());
        if starts_with_chars(&chars, &prefix) || starts_with_chars(&chars, &dash_prefix) {
            let rest = copy_range(&chars, 5, chars.len());
            if rest.len() == 0 {
                return Err(KeyParseError::NothingAfterCtrl(crate::text::string_of(chars.as_slice())));
            }
            return match parse_keycode(&rest) {
                Some(code) => Ok(KeyBinding { code, modifiers: KeyModifiers::control() }),
                None => Err(KeyParseError::UnknownKey(crate::text::string_of(rest.as_slice()))),
            };
        }
        match parse_keycode(&chars) {
            Some(code) => Ok(KeyBinding { code, modifiers: KeyModifiers::none() }),
            None => Err(KeyParseError::UnknownKey(crate::text::string_of(chars.as_slice()))),
        }
    }

    /// Whether this binding matches a key press.
    pub fn matches(&self, event: &KeyEvent) -> (r: bool)
        ensures
            r == binding_matches(*self, *event),
    {
        if event.code != self.code {
            return false;
        }
        if self.modifiers == KeyModifiers::none() {
            !event.modifiers.contains(KeyModifiers::control())
        } else {
            event.modifiers.contains(self.modifiers)
        }
    }
}

impl KeyBindings {
    /// Parses a list of binding strings; the first one refused refuses the list.
    pub fn from_names(names: &Vec<String>) -> (r: Result<KeyBindings, KeyParseError>)
        ensures
            match r {
                Ok(kbs) => kbs.0@.len() == names@.len() && forall|i: int|
                    0 <= i < names@.len() ==> parse_binding(#[trigger] names@[i]@)
                        == ParseOutcome::Bound(kbs.0@[i]),
                Err(e) => exists|k: int|
                    0 <= k < names@.len() && (forall|j: int|
                        0 <= j < k ==> parse_binding(#[trigger] names@[j]@) is Bound)
                        && parse_result_is(Err(e), parse_binding(names@[k]@)),
            },
    {
        let mut v: Vec<KeyBinding> = Vec::new();
        let mut i: usize = 0;
        while i < names.len()
            invariant
                i <= names@.len(),
                v@.len() == i,
                forall|j: int|
                    0 <= j < i ==> parse_binding(#[trigger] names@[j]@) == ParseOutcome::Bound(v@[j]),
            decreases names@.len() - i,
        {
            match KeyBinding::parse(names[i].as_str()) {
                Ok(b) => v.push(b),
                Err(e) => {
                    assert(forall|j: int| 0 <= j < i ==> parse_binding(#[trigger] names@[j]@) is Bound);
                    return Err(e);
                },
            }
            i = i + 1;
        }
        Ok(KeyBindings(v))
    }

    /// Whether any of the bindings matches a key press.
    pub fn matches(&self, event: &KeyEvent) -> (r: bool)
        ensures
            r == any_binding_matches(self.0@, *event),
    {
        let mut i: usize = 0;
        while i < self.0.len()
            invariant
                i <= self.0.len(),
                forall|j: int| 0 <= j < i ==> !binding_matches(#[trigger] self.0@[j], *event),
            decreases self.0.len() - i,
        {
            if self.0[i].matches(event) {
                return true;
            }
            i = i + 1;
        }
        false
    }
}

/// Every key name that bindings document binds its key without modifiers,
/// whatever the case of its letters: `esc` and `escape` Esc, `enter`,
/// `space`, `backspace`, the four arrows, `pageup`, `pagedown`, `home`,
/// `end` and `tab`.
pub proof fn law_key_names_bind_their_keys(s: Seq<char>)
    ensures
        ascii_lower_seq(s) == seq!['e', 's', 'c'] ==> parse_binding(s) == ParseOutcome::Bound(KeyBinding { code: KeyCode::Esc, modifiers: no_modifiers() }),
        ascii_lower_seq(s) == seq!['e', 's', 'c', 'a', 'p', 'e'] ==> parse_binding(s) == ParseOutcome::Bound(KeyBinding { code: KeyCode::Esc, modifiers: no_modifiers() }),
        ascii_lower_seq(s) == seq!['e', 'n', 't', 'e', 'r'] ==> parse_binding(s) == ParseOutcome::Bound(KeyBinding { code: KeyCode::Enter, modifiers: no_modifiers() }),
        ascii_lower_seq(s) == seq!['s', 'p', 'a', 'c', 'e'] ==> parse_binding(s) == ParseOutcome::Bound(KeyBinding { code: KeyCode::Char(' '), modifiers: no_modifiers() }),
        ascii_lower_seq(s) == seq!['b', 'a', 'c', 'k', 's', 'p', 'a', 'c', 'e'] ==> parse_binding(s) == ParseOutcome::Bound(KeyBinding { code: KeyCode::Backspace, modifiers: no_modifiers() }),
        ascii_lower_seq(s) == seq!['u', 'p'] ==> parse_binding(s) == ParseOutcome::Bound(KeyBinding { code: KeyCode::Up, modifiers: no_modifiers() }),
        ascii_lower_seq(s) == seq!['d', 'o', 'w', 'n'] ==> parse_binding(s) == ParseOutcome::Bound(KeyBinding { code: KeyCode::Down, modifiers: no_modifiers() }),
        ascii_lower_seq(s) == seq!['l', 'e', 'f', 't'] ==> parse_binding(s) == ParseOutcome::Bound(KeyBinding { code: KeyCode::Left, modifiers: no_modifiers() }),
        ascii_lower_seq(s) == seq!['r', 'i', 'g', 'h', 't'] ==> parse_binding(s) == ParseOutcome::Bound(KeyBinding { code: KeyCode::Right, modifiers: no_modifiers() }),
        ascii_lower_seq(s) == seq!['p', 'a', 'g', 'e', 'u', 'p'] ==> parse_binding(s) == ParseOutcome::Bound(KeyBinding { code: KeyCode::PageUp, modifiers: no_modifiers() }),
        ascii_lower_seq(s) == seq!['p', 'a', 'g', 'e', 'd', 'o', 'w', 'n'] ==> parse_binding(s) == ParseOutcome::Bound(KeyBinding { code: KeyCode::PageDown, modifiers: no_modifiers() }),
        ascii_lower_seq(s) == seq!['h', 'o', 'm', 'e'] ==> parse_binding(s) == ParseOutcome::Bound(KeyBinding { code: KeyCode::Home, modifiers: no_modifiers() }),
        ascii_lower_seq(s) == seq!['e', 'n', 'd'] ==> parse_binding(s) == ParseOutcome::Bound(KeyBinding { code: KeyCode::End, modifiers: no_modifiers() }),
        ascii_lower_seq(s) == seq!['t', 'a', 'b'] ==> parse_binding(s) == ParseOutcome::Bound(KeyBinding { code: KeyCode::Tab, modifiers: no_modifiers() }),
{
    let l = ascii_lower_seq(s);
    if l.len() > 0 {
        assert(l[0] == ascii_lower(s[0]));
    }
}

/// `ctrl+` or `ctrl-` before a binding string that binds a key without
/// modifiers binds that key with Control.
pub proof fn law_ctrl_prefix_adds_control(k: Seq<char>, code: KeyCode)
    requires
        parse_binding(k) == ParseOutcome::Bound(KeyBinding { code, modifiers: no_modifiers() }),
    ensures
        parse_binding(seq!['c', 't', 'r', 'l', '+'] + k) == ParseOutcome::Bound(KeyBinding { code, modifiers: control_modifier() }),
        parse_binding(seq!['c', 't', 'r', 'l', '-'] + k) == ParseOutcome::Bound(KeyBinding { code, modifiers: control_modifier() }),
{
    let p = seq!['c', 't', 'r', 'l', '+'] + k;
    let q = seq!['c', 't', 'r', 'l', '-'] + k;
    assert(p.subrange(0, 5) =~= ctrl_prefix());
    assert(q.subrange(0, 5) =~= ctrl_dash_prefix());
    assert(p.subrange(5, p.len() as int) =~= k);
    assert(q.subrange(5, q.len() as int) =~= k);
    if has_ctrl_prefix(k) {
        assert(false);
    }
}

} // verus!
