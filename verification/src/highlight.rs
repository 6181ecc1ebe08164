//! Syntax highlighting of code blocks with `syntect`'s bundled syntaxes and
//! themes, turned into colored text spans.

use vstd::prelude::*;
use crate::graphics::StyledTextSpan;
use crate::source::{source_lines, text_lines};
use crate::text::{copy_string, string_of};

verus! {

#[verifier::external_type_specification]
#[verifier::external_body]
pub struct ExSyntaxSet(syntect::parsing::SyntaxSet);

#[verifier::external_type_specification]
#[verifier::external_body]
pub struct ExThemeSet(syntect::highlighting::ThemeSet);

#[verifier::external_type_specification]
#[verifier::external_body]
pub struct ExHighlightLines<'a>(syntect::easy::HighlightLines<'a>);

/// The names of the themes that `syntect` bundles.
pub open spec fn bundled_theme(name: Seq<char>) -> bool {
    ||| name == "base16-ocean.dark"@
    ||| name == "base16-eighties.dark"@
    ||| name == "base16-mocha.dark"@
    ||| name == "base16-ocean.light"@
    ||| name == "InspiredGitHub"@
    ||| name == "Solarized (dark)"@
    ||| name == "Solarized (light)"@
}

/// A highlighted token as plain values: text, color, bold, italic.
pub open spec fn token_model(t: StyledTextSpan) -> (Seq<char>, [u8; 3], bool, bool) {
    (t.text@, t.color, t.bold, t.italic)
}

/// The index in `syntect`'s bundled syntax set of the syntax that
/// `SyntaxSet::find_syntax_by_token` finds for a token (by file extension,
/// then by name, either case); `None` when it finds none.
pub uninterp spec fn syntax_index_by_token(token: Seq<char>) -> Option<usize>;

/// The index in `syntect`'s bundled syntax set of the syntax that
/// `SyntaxSet::find_syntax_by_extension` finds for a file extension; `None`
/// when it finds none.
pub uninterp spec fn syntax_index_by_extension(extension: Seq<char>) -> Option<usize>;

/// The tokens that `HighlightLines::highlight_line` gives for `line`, with
/// the bundled syntax of that index and the bundled theme of that name, after
/// the `earlier` lines of the same block have gone through it; `None` when it
/// fails.
pub uninterp spec fn line_tokens(syntax: usize, theme: Seq<char>, earlier: Seq<Seq<char>>, line: Seq<char>) -> Option<
    Seq<(Seq<char>, [u8; 3], bool, bool)>,
>;

/// Loads `syntect`'s bundled syntaxes (the newline variant).
#[verifier::external_body]
fn load_syntaxes() -> (r: syntect::parsing::SyntaxSet) {
    syntect::parsing::SyntaxSet::load_defaults_newlines()
}

/// Loads `syntect`'s bundled themes.
#[verifier::external_body]
fn load_themes() -> (r: syntect::highlighting::ThemeSet) {
    syntect::highlighting::ThemeSet::load_defaults()
}

/// The number of syntaxes in a set (`SyntaxSet::syntaxes().len()`).
#[verifier::external_body]
fn syntax_count(set: &syntect::parsing::SyntaxSet) -> (r: usize) {
    set.syntaxes().len()
}

/// A syntax highlighter with the bundled syntaxes and one bundled theme.
pub struct Highlighter {
    syntax_set: syntect::parsing::SyntaxSet,
    theme_set: syntect::highlighting::ThemeSet,
    syntax_theme: String,
    syntaxes: usize,
}

/// A highlighter part way through the lines of one code block. Beside
/// `syntect`'s state it records, as ghost values, the syntax, the theme and
/// the lines that the state has consumed.
pub struct LineHighlighter<'a> {
    lines: syntect::easy::HighlightLines<'a>,
    set: &'a syntect::parsing::SyntaxSet,
    syntax: Ghost<usize>,
    theme: Ghost<Seq<char>>,
    earlier: Ghost<Seq<Seq<char>>>,
}

impl<'a> LineHighlighter<'a> {
    /// The syntax it highlights with.
    pub closed spec fn syntax(&self) -> usize {
        self.syntax@
    }

    /// The theme it highlights with.
    pub closed spec fn theme(&self) -> Seq<char> {
        self.theme@
    }

    /// The lines it has highlighted so far.
    pub closed spec fn earlier(&self) -> Seq<Seq<char>> {
        self.earlier@
    }

    /// Highlights the next line with `HighlightLines::highlight_line`. The
    /// contract names the tokens (`None` when `syntect` fails on the line)
    /// and records the line as consumed.
    #[verifier::external_body]
    fn highlight_next(&mut self, line: &str) -> (r: Option<Vec<StyledTextSpan>>)
        ensures
            final(self).syntax() == old(self).syntax(),
            final(self).theme() == old(self).theme(),
            final(self).earlier() == old(self).earlier().push(line@),
            match r {
                Some(v) => line_tokens(old(self).syntax(), old(self).theme(), old(self).earlier(), line@)
                    == Some(v@.map_values(|t: StyledTextSpan| token_model(t))),
                None => line_tokens(old(self).syntax(), old(self).theme(), old(self).earlier(), line@) is None,
            },
    {
        let ops = self.lines.highlight_line(line, self.set).ok()?;
        Some(ops.into_iter().map(|(style, text)| StyledTextSpan {
            text: text.to_string(),
            color: [style.foreground.r, style.foreground.g, style.foreground.b],
            bold: style.font_style.contains(syntect::highlighting::FontStyle::BOLD),
            italic: style.font_style.contains(syntect::highlighting::FontStyle::ITALIC),
        }).collect())
    }
}

impl Highlighter {
    /// The theme it highlights with.
    pub closed spec fn theme_name(&self) -> Seq<char> {
        self.syntax_theme@
    }

    /// The number of syntaxes it knows.
    pub closed spec fn syntax_total(&self) -> nat {
        self.syntaxes as nat
    }

    /// Whether the highlighter's theme is one of the bundled ones.
    pub closed spec fn wf(&self) -> bool {
        bundled_theme(self.syntax_theme@)
    }

    /// A highlighter that uses the bundled theme of that name.
    pub fn new(syntax_theme: &str) -> (h: Highlighter)
        requires
            bundled_theme(syntax_theme@),
        ensures
            h.wf(),
            h.theme_name() == syntax_theme@,
    {
        let mut name = String::new();
        name.append(syntax_theme);
        assert(name@ =~= syntax_theme@);
        let syntax_set = load_syntaxes();
        let syntaxes = syntax_count(&syntax_set);
        Highlighter { syntax_set, theme_set: load_themes(), syntax_theme: name, syntaxes }
    }

    /// The index of the syntax that `SyntaxSet::find_syntax_by_token` finds,
    /// if any. The contract names it; it is an index of the set.
    #[verifier::external_body]
    fn syntax_by_token(&self, token: &str) -> (r: Option<usize>)
        ensures
            r == syntax_index_by_token(token@),
            r matches Some(i) ==> i < self.syntax_total(),
    {
        let found = self.syntax_set.find_syntax_by_token(token)?;
        self.syntax_set.syntaxes().iter().position(|s| std::ptr::eq(s, found))
    }

    /// The index of the syntax that `SyntaxSet::find_syntax_by_extension`
    /// finds, if any. The contract names it; it is an index of the set.
    #[verifier::external_body]
    fn syntax_by_extension(&self, extension: &str) -> (r: Option<usize>)
        ensures
            r == syntax_index_by_extension(extension@),
            r matches Some(i) ==> i < self.syntax_total(),
    {
        let found = self.syntax_set.find_syntax_by_extension(extension)?;
        self.syntax_set.syntaxes().iter().position(|s| std::ptr::eq(s, found))
    }

    /// Starts highlighting a block with the syntax of that index and the
    /// highlighter's theme (`HighlightLines::new`).
    #[verifier::external_body]
    fn start_lines(&self, syntax: usize) -> (r: LineHighlighter)
        requires
            self.wf(),
            syntax < self.syntax_total(),
        ensures
            r.syntax() == syntax,
            r.theme() == self.theme_name(),
            r.earlier() == Seq::<Seq<char>>::empty(),
    {
        let theme = &self.theme_set.themes[self.syntax_theme.as_str()];
        LineHighlighter {
            lines: syntect::easy::HighlightLines::new(&self.syntax_set.syntaxes()[syntax], theme),
            set: &self.syntax_set,
            syntax: Ghost(syntax),
            theme: Ghost(self.syntax_theme@),
            earlier: Ghost(Seq::empty()),
        }
    }

    /// The syntax for a code block's language: the one found by token, else
    /// the one found by file extension.
    pub fn find_syntax(&self, lang: &str) -> (r: Option<usize>)
        ensures
            r == found_syntax(lang@),
            r matches Some(i) ==> i < self.syntax_total(),
    {
        match self.syntax_by_token(lang) {
            Some(i) => Some(i),
            None => self.syntax_by_extension(lang),
        }
    }
}

/// The syntax for a language: found by token, else by file extension.
pub open spec fn found_syntax(lang: Seq<char>) -> Option<usize> {
    match syntax_index_by_token(lang) {
        Some(i) => Some(i),
        None => syntax_index_by_extension(lang),
    }
}

/// The tokens of each line of a block, each line highlighted after the
/// lines before it; a line that `syntect` fails on has no tokens.
pub open spec fn block_tokens(syntax: usize, theme: Seq<char>, lines: Seq<Seq<char>>) -> Seq<Seq<(Seq<char>, [u8; 3], bool, bool)>> {
    Seq::new(lines.len(), |i: int| match line_tokens(syntax, theme, lines.take(i), lines[i]) {
        Some(t) => t,
        None => seq![],
    })
}

/// The gray of plain code and of the line breaks between highlighted lines.
pub open spec fn plain_code_color() -> [u8; 3] {
    [200, 200, 200]
}

/// The spans of highlighted lines: each line's tokens, with a line break
/// span before every line but the first.
pub open spec fn joined_lines(lines: Seq<Seq<(Seq<char>, [u8; 3], bool, bool)>>) -> Seq<(Seq<char>, [u8; 3], bool, bool)>
    decreases lines.len(),
{
    if lines.len() == 0 {
        seq![]
    } else {
        joined_lines(lines.drop_last()) + (if lines.len() > 1 {
            seq![(seq!['\n'], plain_code_color(), false, false)]
        } else {
            seq![]
        }) + lines.last()
    }
}

/// The spans of a code block: its lines highlighted and joined, or the whole
/// code in plain gray when no syntax is found for the language.
pub open spec fn highlighted_spans(code: Seq<char>, lang: Seq<char>, theme: Seq<char>) -> Seq<(Seq<char>, [u8; 3], bool, bool)> {
    match found_syntax(lang) {
        Some(syntax) => joined_lines(block_tokens(syntax, theme, text_lines(code))),
        None => seq![(code, plain_code_color(), false, false)],
    }
}

impl Highlighter {
    /// Highlight code and return styled spans for pixel rendering.
    pub fn highlight_to_styled_spans(&self, code: &str, lang: &str) -> (r: Vec<StyledTextSpan>)
        requires
            self.wf(),
        ensures
            r@.map_values(|t: StyledTextSpan| token_model(t)) == highlighted_spans(code@, lang@, self.theme_name()),
    {
        let syntax = match self.find_syntax(lang) {
            Some(syntax) => syntax,
            None => {
                let mut text = String::new();
                text.append(code);
                let r = vec![StyledTextSpan { text, color: [200, 200, 200], bold: false, italic: false }];
                proof {
                    assert(r@.map_values(|t: StyledTextSpan| token_model(t)) =~= highlighted_spans(code@, lang@, self.theme_name()));
                }
                return r;
            },
        };
        let lines = source_lines(code);
        let ghost tl = lines@.map_values(|l: Vec<char>| l@);
        let ghost theme = self.theme_name();
        let ghost bt = block_tokens(syntax, theme, tl);
        let mut lh = self.start_lines(syntax);
        let mut result: Vec<StyledTextSpan> = Vec::new();
        let mut li: usize = 0;
        while li < lines.len()
            invariant
                li <= lines.len(),
                tl == lines@.map_values(|l: Vec<char>| l@),
                bt == block_tokens(syntax, theme, tl),
                lh.syntax() == syntax,
                lh.theme() == theme,
                lh.earlier() == tl.take(li as int),
                result@.map_values(|t: StyledTextSpan| token_model(t)) == joined_lines(bt.take(li as int)),
            decreases lines.len() - li,
        {
            let ghost before = result@.map_values(|t: StyledTextSpan| token_model(t));
            if li > 0 {
                let mut nl = String::new();
                crate::text::push_char(&mut nl, '\n');
                result.push(StyledTextSpan { text: nl, color: [200, 200, 200], bold: false, italic: false });
            }
            let ghost mid = result@.map_values(|t: StyledTextSpan| token_model(t));
            proof {
                assert(mid =~= before + (if li > 0 { seq![(seq!['\n'], plain_code_color(), false, false)] } else { seq![] }));
            }
            let text = string_of(lines[li].as_slice());
            proof {
                assert(text@ == tl[li as int]);
            }
            let line = match lh.highlight_next(text.as_str()) {
                Some(v) => v,
                None => Vec::new(),
            };
            proof {
                assert(line@.map_values(|t: StyledTextSpan| token_model(t)) =~= bt[li as int]);
                assert(lh.earlier() =~= tl.take(li + 1));
            }
            let mut k: usize = 0;
            while k < line.len()
                invariant
                    k <= line.len(),
                    result@.map_values(|t: StyledTextSpan| token_model(t)) == mid + line@.take(k as int).map_values(|t: StyledTextSpan| token_model(t)),
                decreases line.len() - k,
            {
                let t = &line[k];
                let ghost prev = result@;
                result.push(StyledTextSpan { text: copy_string(&t.text), color: t.color, bold: t.bold, italic: t.italic });
                proof {
                    let a = result@.map_values(|t: StyledTextSpan| token_model(t));
                    let b = mid + line@.take(k + 1).map_values(|t: StyledTextSpan| token_model(t));
                    let pa = prev.map_values(|t: StyledTextSpan| token_model(t));
                    let pb = mid + line@.take(k as int).map_values(|t: StyledTextSpan| token_model(t));
                    assert(pa == pb);
                    assert(pa.len() == prev.len());
                    assert(pb.len() == mid.len() + k);
                    assert(result@.len() == prev.len() + 1);
                    assert(a.len() == result@.len());
                    assert(line@.take(k + 1).map_values(|t: StyledTextSpan| token_model(t)).len() == k + 1);
                    assert(a.len() == b.len());
                    assert forall|j: int| 0 <= j < a.len() implies a[j] == b[j] by {
                        if j < a.len() - 1 {
                            assert(result@[j] == prev[j]);
                            assert(pa[j] == pb[j]);
                            if j >= mid.len() {
                                assert(line@.take(k as int)[j - mid.len()] == line@.take(k + 1)[j - mid.len()]);
                            }
                        }
                    }
                    assert(a =~= b);
                }
                k = k + 1;
            }
            proof {
                assert(line@.take(line.len() as int) =~= line@);
                assert(bt.take(li + 1).drop_last() =~= bt.take(li as int));
                assert(bt.take(li + 1).last() == bt[li as int]);
                assert(result@.map_values(|t: StyledTextSpan| token_model(t)) =~= joined_lines(bt.take(li + 1)));
            }
            li = li + 1;
        }
        proof {
            assert(bt.take(lines.len() as int) =~= bt);
        }
        result
    }
}

} // verus!
