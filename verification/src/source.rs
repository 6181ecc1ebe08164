//! The source view: the raw Markdown shown line by line with wrapping, a
//! cursor that moves like a pager's, and a selection that can be copied.

use vstd::prelude::*;
use crate::text::{is_white_space, is_whitespace, chars_of, push_char, decimal, push_decimal, push_decimal_usize};
use crate::keys::{KeyCode, KeyEvent, KeyModifiers, control_modifier};

verus! {

/// The index of the first line feed in a text, if any.
pub open spec fn first_newline(s: Seq<char>) -> Option<int>
    decreases s.len(),
{
    if s.len() == 0 {
        None
    } else if s[0] == '\n' {
        Some(0)
    } else {
        match first_newline(s.drop_first()) {
            Some(k) => Some(k + 1),
            None => None,
        }
    }
}

/// A line without the carriage return that ends it, if any.
pub open spec fn strip_cr(line: Seq<char>) -> Seq<char> {
    if line.len() > 0 && line.last() == '\r' {
        line.drop_last()
    } else {
        line
    }
}

/// The lines of a text (as `str::lines` gives them): split at line feeds,
/// a carriage return before a line feed dropped, no empty line after a final
/// line feed.
pub open spec fn text_lines(s: Seq<char>) -> Seq<Seq<char>>
    decreases s.len(),
{
    if s.len() == 0 {
        seq![]
    } else {
        match first_newline(s) {
            Some(k) => {
                proof {
                    lemma_first_newline_bounds(s);
                }
                seq![strip_cr(s.take(k))] + text_lines(s.skip(k + 1))
            },
            None => seq![s],
        }
    }
}

pub proof fn lemma_first_newline_bounds(s: Seq<char>)
    ensures
        match first_newline(s) {
            Some(k) => 0 <= k < s.len() && s[k] == '\n' && forall|j: int| 0 <= j < k ==> s[j] != '\n',
            None => forall|j: int| 0 <= j < s.len() ==> s[j] != '\n',
        },
    decreases s.len(),
{
    if s.len() > 0 {
        lemma_first_newline_bounds(s.drop_first());
        if s[0] != '\n' {
            match first_newline(s.drop_first()) {
                Some(k) => {
                    assert forall|j: int| 0 <= j < k + 1 implies s[j] != '\n' by {
                        if j > 0 {
                            assert(s[j] == s.drop_first()[j - 1]);
                        }
                    }
                },
                None => {
                    assert forall|j: int| 0 <= j < s.len() implies s[j] != '\n' by {
                        if j > 0 {
                            assert(s[j] == s.drop_first()[j - 1]);
                        }
                    }
                },
            }
        }
    }
}

proof fn lemma_first_newline_at(s: Seq<char>, k: int)
    requires
        0 <= k < s.len(),
        s[k] == '\n',
        forall|j: int| 0 <= j < k ==> s[j] != '\n',
    ensures
        first_newline(s) == Some(k),
    decreases s.len(),
{
    if k > 0 {
        lemma_first_newline_at(s.drop_first(), k - 1);
    }
}

proof fn lemma_no_newline(s: Seq<char>)
    requires
        forall|j: int| 0 <= j < s.len() ==> s[j] != '\n',
    ensures
        first_newline(s) is None,
    decreases s.len(),
{
    if s.len() > 0 {
        lemma_no_newline(s.drop_first());
    }
}

/// The lines of a text, as characters.
pub fn source_lines(content: &str) -> (r: Vec<Vec<char>>)
    ensures
        r@.map_values(|l: Vec<char>| l@) == text_lines(content@),
{
    let chars = chars_of(content);
    let mut r: Vec<Vec<char>> = Vec::new();
    let mut start: usize = 0;
    let mut cur: Vec<char> = Vec::new();
    let mut i: usize = 0;
    proof {
        assert(chars@.skip(0) =~= chars@);
        assert(r@.map_values(|l: Vec<char>| l@) + text_lines(chars@) =~= text_lines(chars@));
    }
    while i < chars.len()
        invariant
            start <= i <= chars.len(),
            chars@ == content@,
            cur@ == chars@.subrange(start as int, i as int),
            forall|j: int| start <= j < i ==> chars@[j] != '\n',
            r@.map_values(|l: Vec<char>| l@) + text_lines(chars@.skip(start as int)) == text_lines(chars@),
        decreases chars.len() - i,
    {
        if chars[i] == '\n' {
            let ghost rest = chars@.skip(start as int);
            proof {
                lemma_first_newline_at(rest, (i - start) as int);
                assert(rest.take((i - start) as int) =~= cur@);
                assert(rest.skip((i - start) as int + 1) =~= chars@.skip(i + 1));
            }
            let mut line = cur;
            if line.len() > 0 && line[line.len() - 1] == '\r' {
                line.pop();
            }
            let ghost before = r@;
            r.push(line);
            proof {
                assert(r@.map_values(|l: Vec<char>| l@) =~= before.map_values(|l: Vec<char>| l@).push(
                    strip_cr(cur@),
                ));
                assert(r@.map_values(|l: Vec<char>| l@) + text_lines(chars@.skip(i + 1)) =~= before.map_values(
                    |l: Vec<char>| l@,
                ) + text_lines(rest));
            }
            cur = Vec::new();
            start = i + 1;
        } else {
            cur.push(chars[i]);
        }
        i = i + 1;
    }
    if start < chars.len() {
        let ghost rest = chars@.skip(start as int);
        proof {
            assert(cur@ =~= rest);
            lemma_no_newline(rest);
        }
        let ghost before = r@;
        r.push(cur);
        proof {
            assert(r@.map_values(|l: Vec<char>| l@) =~= before.map_values(|l: Vec<char>| l@) + text_lines(rest));
        }
    } else {
        proof {
            assert(chars@.skip(start as int) =~= Seq::<char>::empty());
            assert(r@.map_values(|l: Vec<char>| l@) =~= r@.map_values(|l: Vec<char>| l@) + Seq::<Seq<char>>::empty());
        }
    }
    r
}


/// The screen rows of one source line wrapped at `cols` columns, as
/// (line, first char, end char): one empty row for an empty line.
pub open spec fn line_segments(li: nat, len: nat, cols: nat) -> Seq<(usize, usize, usize)>
    recommends
        cols > 0,
{
    if len == 0 {
        seq![(li as usize, 0usize, 0usize)]
    } else {
        Seq::new(
            ((len + cols - 1) / cols as int) as nat,
            |k: int| (li as usize, (k * cols) as usize, (if (k + 1) * cols <= len { (k + 1) * cols } else { len as int }) as usize),
        )
    }
}

/// The screen rows of the source lines `from..to`.
pub open spec fn segments_between(lens: Seq<nat>, from: nat, to: nat, cols: nat) -> Seq<(usize, usize, usize)>
    decreases to,
{
    if to <= from {
        seq![]
    } else {
        segments_between(lens, from, (to - 1) as nat, cols) + line_segments((to - 1) as nat, lens[to - 1], cols)
    }
}

/// The character counts of some lines.
pub open spec fn line_lengths(lines: Seq<Vec<char>>) -> Seq<nat> {
    lines.map_values(|l: Vec<char>| l@.len())
}

/// The screen rows from line `scroll` on, at most `content_rows` of them;
/// none when there is no column.
pub open spec fn screen_map(lines: Seq<Vec<char>>, scroll: nat, cols: nat, content_rows: nat) -> Seq<(usize, usize, usize)> {
    if cols == 0 {
        seq![]
    } else {
        let all = segments_between(line_lengths(lines), scroll, lines.len(), cols);
        all.take(if content_rows <= all.len() { content_rows as int } else { all.len() as int })
    }
}

proof fn lemma_segments_step(lens: Seq<nat>, from: nat, to: nat, cols: nat)
    requires
        from <= to,
    ensures
        segments_between(lens, from, to + 1, cols) == segments_between(lens, from, to, cols) + line_segments(to, lens[to as int], cols),
{
}

proof fn lemma_segments_prefix(lens: Seq<nat>, from: nat, to: nat, to2: nat, cols: nat)
    requires
        from <= to <= to2,
    ensures
        segments_between(lens, from, to, cols).len() <= segments_between(lens, from, to2, cols).len(),
        segments_between(lens, from, to2, cols).take(segments_between(lens, from, to, cols).len() as int)
            == segments_between(lens, from, to, cols),
    decreases to2,
{
    if to < to2 {
        lemma_segments_prefix(lens, from, to, (to2 - 1) as nat, cols);
        let a = segments_between(lens, from, to, cols);
        let b = segments_between(lens, from, (to2 - 1) as nat, cols);
        let c = segments_between(lens, from, to2, cols);
        assert(c.take(a.len() as int) =~= b.take(a.len() as int));
    } else {
        let a = segments_between(lens, from, to, cols);
        assert(a.take(a.len() as int) =~= a);
    }
}

/// `a / b` rounded up is the quotient, plus one when there is a remainder.
proof fn lemma_ceil_div(a: int, b: int)
    requires
        a > 0,
        b > 0,
    ensures
        (a + b - 1) / b == a / b + if a % b == 0 {
            0int
        } else {
            1int
        },
        (a + b - 1) / b >= 1,
{
    vstd::arithmetic::div_mod::lemma_fundamental_div_mod(a, b);
    let q = a / b;
    let r = a % b;
    assert(b * q == q * b && (q + 1) * b == q * b + b) by (nonlinear_arith);
    if r == 0 {
        vstd::arithmetic::div_mod::lemma_fundamental_div_mod_converse(a + b - 1, b, q, b - 1);
        assert(q >= 1) by (nonlinear_arith)
            requires
                a == b * q,
                a > 0,
                b > 0,
        ;
    } else {
        vstd::arithmetic::div_mod::lemma_fundamental_div_mod_converse(a + b - 1, b, q + 1, r - 1);
        assert(q >= 0) by (nonlinear_arith)
            requires
                a == b * q + r,
                0 < r < b,
                a > 0,
        ;
    }
}

/// Build a per-screen-row mapping of (source line, segment start char,
/// segment end char) for source-mode rendering with line wrapping.
pub fn build_screen_map(lines: &Vec<Vec<char>>, scroll: usize, cols: usize, content_rows: usize) -> (out: Vec<(usize, usize, usize)>)
    ensures
        out@ == screen_map(lines@, scroll as nat, cols as nat, content_rows as nat),
{
    let mut out: Vec<(usize, usize, usize)> = Vec::new();
    if cols == 0 {
        return out;
    }
    let ghost lens = line_lengths(lines@);
    let ghost total = lines.len() as nat;
    if scroll >= lines.len() {
        proof {
            assert(segments_between(lens, scroll as nat, total, cols as nat) =~= Seq::<(usize, usize, usize)>::empty());
        }
        return out;
    }
    let mut li = scroll;
    while out.len() < content_rows && li < lines.len()
        invariant
            cols > 0,
            scroll <= li <= lines.len(),
            lens == line_lengths(lines@),
            total == lines.len(),
            out.len() <= content_rows,
            out.len() < content_rows ==> out@ == segments_between(lens, scroll as nat, li as nat, cols as nat),
            out.len() == content_rows ==> out@ == segments_between(lens, scroll as nat, total, cols as nat).take(content_rows as int),
            out.len() == content_rows ==> content_rows <= segments_between(lens, scroll as nat, total, cols as nat).len(),
        decreases lines.len() - li,
    {
        let chars_count = lines[li].len();
        let ghost base = out@;
        let ghost segs = line_segments(li as nat, chars_count as nat, cols as nat);
        proof {
            lemma_segments_step(lens, scroll as nat, li as nat, cols as nat);
            assert(lens[li as int] == chars_count);
        }
        if chars_count == 0 {
            out.push((li, 0, 0));
            proof {
                assert(out@ =~= base + segs);
            }
        } else {
            let q = chars_count / cols;
            if chars_count % cols != 0 {
                assert(q < usize::MAX) by (nonlinear_arith)
                    requires
                        q == chars_count / cols,
                        chars_count % cols != 0,
                        cols > 0,
                        chars_count <= usize::MAX,
                ;
            }
            let nsegs = if chars_count % cols == 0 {
                q
            } else {
                q + 1
            };
            proof {
                lemma_ceil_div(chars_count as int, cols as int);
            }
            let mut i: usize = 0;
            let ghost mut k: int = 0;
            while i < chars_count && out.len() < content_rows
                invariant
                    cols > 0,
                    chars_count > 0,
                    out.len() <= content_rows,
                    nsegs == segs.len(),
                    nsegs == (chars_count + cols - 1) / (cols as int),
                    0 <= k <= nsegs,
                    k < nsegs ==> i == k * cols && i < chars_count,
                    k == nsegs ==> i == chars_count,
                    out@ == base + segs.take(k),
                    segs == line_segments(li as nat, chars_count as nat, cols as nat),
                decreases chars_count - i,
            {
                let end = if chars_count - i <= cols {
                    chars_count
                } else {
                    i + cols
                };
                out.push((li, i, end));
                proof {
                    assert((k + 1) * cols == k * cols + cols) by (nonlinear_arith);
                    assert(segs[k] == (li, i, end));
                    assert(out@ =~= base + segs.take(k + 1));
                    if end < chars_count {
                        assert(k + 1 < nsegs) by (nonlinear_arith)
                            requires
                                end == (k + 1) * cols,
                                end < chars_count,
                                nsegs == (chars_count + cols - 1) / (cols as int),
                                cols > 0,
                        ;
                    } else {
                        assert(k + 1 == nsegs) by (nonlinear_arith)
                            requires
                                end == chars_count,
                                i == k * cols,
                                i < chars_count,
                                chars_count - i <= cols,
                                nsegs == (chars_count + cols - 1) / (cols as int),
                                cols > 0,
                        ;
                    }
                    k = k + 1;
                }
                i = end;
            }
            proof {
                if out.len() < content_rows {
                    assert(segs.take(k) =~= segs);
                }
            }
        }
        proof {
            lemma_segments_prefix(lens, scroll as nat, (li + 1) as nat, total, cols as nat);
            if out.len() == content_rows {
                let all = segments_between(lens, scroll as nat, total, cols as nat);
                let upto = segments_between(lens, scroll as nat, (li + 1) as nat, cols as nat);
                assert(upto == segments_between(lens, scroll as nat, li as nat, cols as nat) + segs);
                assert(out@ == upto.take(content_rows as int)) by {
                    assert(out@ =~= upto.take(out.len() as int));
                }
                assert(upto.len() >= content_rows);
                assert(all.take(content_rows as int) =~= upto.take(content_rows as int));
            }
        }
        li = li + 1;
    }
    proof {
        let all = segments_between(lens, scroll as nat, total, cols as nat);
        if out.len() < content_rows {
            assert(all.take(all.len() as int) =~= all);
        }
    }
    out
}


/// Where the cursor and the selection stand in the source view.
#[derive(Debug, Clone, Copy, PartialEq, Eq, Structural)]
pub struct SourceState {
    /// The first source line on screen.
    pub scroll: usize,
    pub cur_r: usize,
    pub cur_c: usize,
    pub sel_active: bool,
    pub anch_r: usize,
    pub anch_c: usize,
}

/// The characters of line `r` (none past the last line).
pub open spec fn line_at(lines: Seq<Vec<char>>, r: int) -> Seq<char> {
    if 0 <= r < lines.len() {
        lines[r]@
    } else {
        seq![]
    }
}

/// The last line's index (0 without lines).
pub open spec fn last_line(total: nat) -> nat {
    if total >= 1 {
        (total - 1) as nat
    } else {
        0
    }
}

/// The first index from `i` on that holds whitespace (or the end).
pub open spec fn skip_non_ws(chars: Seq<char>, i: nat) -> nat
    decreases chars.len() - i,
{
    if i < chars.len() && !is_white_space(chars[i as int]) {
        skip_non_ws(chars, i + 1)
    } else {
        i
    }
}

/// The first index from `i` on that holds no whitespace (or the end).
pub open spec fn skip_ws(chars: Seq<char>, i: nat) -> nat
    decreases chars.len() - i,
{
    if i < chars.len() && is_white_space(chars[i as int]) {
        skip_ws(chars, i + 1)
    } else {
        i
    }
}

/// Back from `i` over whitespace, stopping at the line start.
pub open spec fn back_over_ws(chars: Seq<char>, i: nat) -> nat
    decreases i,
{
    if i > 0 && i < chars.len() && is_white_space(chars[i as int]) {
        back_over_ws(chars, (i - 1) as nat)
    } else {
        i
    }
}

/// Back from `i` to the start of the word that ends there.
pub open spec fn back_over_word(chars: Seq<char>, i: nat) -> nat
    decreases i,
{
    if i > 0 && i - 1 < chars.len() && !is_white_space(chars[i - 1]) {
        back_over_word(chars, (i - 1) as nat)
    } else {
        i
    }
}

impl SourceState {
    /// The source view opened at `start_line` (kept within the text), with
    /// the cursor at its start and a selection begun there when asked for.
    pub fn new(total_lines: usize, start_line: usize, start_selecting: bool) -> (st: SourceState)
        ensures
            st.cur_r == if start_line <= last_line(total_lines as nat) {
                start_line as nat
            } else {
                last_line(total_lines as nat)
            },
            st.scroll == st.cur_r,
            st.anch_r == st.cur_r,
            st.cur_c == 0,
            st.anch_c == 0,
            st.sel_active == start_selecting,
    {
        let last = if total_lines >= 1 {
            total_lines - 1
        } else {
            0
        };
        let start = if start_line <= last {
            start_line
        } else {
            last
        };
        SourceState { scroll: start, cur_r: start, cur_c: 0, sel_active: start_selecting, anch_r: start, anch_c: 0 }
    }

    /// Whether the anchor comes no later than the cursor.
    pub open spec fn anchor_first(self) -> bool {
        self.anch_r < self.cur_r || (self.anch_r == self.cur_r && self.anch_c <= self.cur_c)
    }

    /// The selection's ends in reading order: (start row, start column, end
    /// row, end column).
    pub open spec fn ordered(self) -> (usize, usize, usize, usize) {
        if self.anchor_first() {
            (self.anch_r, self.anch_c, self.cur_r, self.cur_c)
        } else {
            (self.cur_r, self.cur_c, self.anch_r, self.anch_c)
        }
    }

    /// The selection's ends in reading order; with no selection, a start
    /// past every row.
    pub fn selection_bounds(&self) -> (r: (usize, usize, usize, usize))
        ensures
            r == if self.sel_active {
                self.ordered()
            } else {
                (usize::MAX, 0usize, 0usize, 0usize)
            },
    {
        if self.sel_active {
            if self.anch_r < self.cur_r || (self.anch_r == self.cur_r && self.anch_c <= self.cur_c) {
                (self.anch_r, self.anch_c, self.cur_r, self.cur_c)
            } else {
                (self.cur_r, self.cur_c, self.anch_r, self.anch_c)
            }
        } else {
            (usize::MAX, 0, 0, 0)
        }
    }
}

/// How a character cell of the source view is drawn.
#[derive(Debug, Clone, Copy, PartialEq, Eq, Structural)]
pub enum CellStyle {
    Cursor,
    Selected,
    Plain,
}

/// Whether character `ci` of line `li` lies in the selection from (sr, sc)
/// to (er, ec), the end column excluded.
pub open spec fn in_selection(li: nat, ci: nat, sr: nat, sc: nat, er: nat, ec: nat) -> bool {
    li >= sr && li <= er && if sr == er {
        ci >= sc && ci < ec
    } else if li == sr {
        ci >= sc
    } else if li == er {
        ci < ec
    } else {
        true
    }
}

impl SourceState {
    /// How character `ci` of line `li` is drawn: the cursor first, then the selection.
    pub fn cell_style(&self, li: usize, ci: usize) -> (r: CellStyle)
        ensures
            r == if li == self.cur_r && ci == self.cur_c {
                CellStyle::Cursor
            } else if self.sel_active && in_selection(
                li as nat,
                ci as nat,
                self.ordered().0 as nat,
                self.ordered().1 as nat,
                self.ordered().2 as nat,
                self.ordered().3 as nat,
            ) {
                CellStyle::Selected
            } else {
                CellStyle::Plain
            },
    {
        if li == self.cur_r && ci == self.cur_c {
            return CellStyle::Cursor;
        }
        let (sr, sc, er, ec) = self.selection_bounds();
        let is_sel = self.sel_active && li >= sr && li <= er && if sr == er {
            ci >= sc && ci < ec
        } else if li == sr {
            ci >= sc
        } else if li == er {
            ci < ec
        } else {
            true
        };
        if is_sel {
            CellStyle::Selected
        } else {
            CellStyle::Plain
        }
    }
}


/// The part of line `r` that a selection from (sr, sc) to (er, ec) covers,
/// the end column included.
pub open spec fn sel_piece(lines: Seq<Vec<char>>, r: int, sr: nat, sc: nat, er: nat, ec: nat) -> Seq<char> {
    let lc = lines[r]@;
    let s = if r == sr {
        sc
    } else {
        0
    };
    let e = if r == er {
        ec + 1
    } else {
        lc.len()
    };
    let e2 = if e <= lc.len() {
        e
    } else {
        lc.len()
    };
    lc.subrange(s as int, e2 as int)
}

/// The selected text of rows `sr` up to (not including) `r`, rows joined by line feeds.
pub open spec fn sel_text_upto(lines: Seq<Vec<char>>, sr: nat, sc: nat, er: nat, ec: nat, r: nat) -> Seq<char>
    decreases r,
{
    if r <= sr {
        seq![]
    } else {
        sel_text_upto(lines, sr, sc, er, ec, (r - 1) as nat) + (if r - 1 > sr {
            seq!['\n']
        } else {
            seq![]
        }) + sel_piece(lines, r - 1, sr, sc, er, ec)
    }
}

/// The text of a selection from (sr, sc) to (er, ec), the end included,
/// rows past the last line left out.
pub open spec fn sel_text(lines: Seq<Vec<char>>, sr: nat, sc: nat, er: nat, ec: nat) -> Seq<char> {
    sel_text_upto(lines, sr, sc, er, ec, if er + 1 <= lines.len() {
        er + 1
    } else {
        lines.len()
    })
}

/// The selection can be cut out: its first column lies within its first row.
pub open spec fn selection_cuttable(lines: Seq<Vec<char>>, sr: nat, sc: nat, ec: nat) -> bool {
    &&& sr < lines.len() ==> sc <= lines[sr as int]@.len()
    &&& ec < usize::MAX
}

/// The text of the selection from (sr, sc) to (er, ec), the end included.
pub fn selection_text(lines: &Vec<Vec<char>>, sr: usize, sc: usize, er: usize, ec: usize) -> (text: String)
    requires
        selection_cuttable(lines@, sr as nat, sc as nat, ec as nat),
        sr <= er,
        sr == er ==> sc <= ec,
    ensures
        text@ == sel_text(lines@, sr as nat, sc as nat, er as nat, ec as nat),
{
    let mut text = String::new();
    let total = lines.len();
    let stop = if er < total {
        er + 1
    } else {
        total
    };
    let mut r = sr;
    if r >= stop {
        return text;
    }
    while r < stop
        invariant
            sr <= r <= stop,
            stop <= lines.len(),
            stop == if er + 1 <= lines.len() { er + 1 } else { lines.len() as int },
            selection_cuttable(lines@, sr as nat, sc as nat, ec as nat),
            sr == er ==> sc <= ec,
            text@ == sel_text_upto(lines@, sr as nat, sc as nat, er as nat, ec as nat, r as nat),
        decreases stop - r,
    {
        let lc = &lines[r];
        let s = if r == sr {
            sc
        } else {
            0
        };
        let e = if r == er {
            ec + 1
        } else {
            lc.len()
        };
        let e2 = if e <= lc.len() {
            e
        } else {
            lc.len()
        };
        if r > sr {
            push_char(&mut text, '\n');
        }
        let ghost before = text@;
        let mut k = s;
        while k < e2
            invariant
                s <= k <= e2,
                e2 <= lc@.len(),
                text@ == before + lc@.subrange(s as int, k as int),
            decreases e2 - k,
        {
            push_char(&mut text, lc[k]);
            proof {
                assert(text@ =~= before + lc@.subrange(s as int, k + 1));
            }
            k = k + 1;
        }
        proof {
            if s > e2 {
                assert(false);
            }
            assert(text@ =~= sel_text_upto(lines@, sr as nat, sc as nat, er as nat, ec as nat, (r + 1) as nat));
        }
        r = r + 1;
    }
    text
}

/// What a key press in the source view leads to.
#[derive(Debug, Clone, PartialEq, Eq)]
pub enum SourceOutcome {
    /// Stay in the source view.
    Continue,
    /// Leave the source view.
    Exit,
    /// Put this text on the clipboard.
    Copy(String),
}

/// Whether the word-back motion stays within the cursor's line (it reads the
/// character before the cursor).
pub open spec fn word_back_ok(s: SourceState, lines: Seq<Vec<char>>) -> bool {
    (s.cur_c == 0 && s.cur_r > 0) || s.cur_c <= 1 || s.cur_c - 1 < line_at(lines, s.cur_r as int).len()
}

/// What a key does to the source view's state, whether it leaves the view,
/// and what it copies.
pub open spec fn key_effect(s: SourceState, key: KeyEvent, lines: Seq<Vec<char>>, content_rows: nat) -> (SourceState, bool, Option<Seq<char>>) {
    let total = lines.len();
    let cur_len = line_at(lines, s.cur_r as int).len();
    let left = if s.cur_c > 0 {
        SourceState { cur_c: (s.cur_c - 1) as usize, ..s }
    } else if s.cur_r > 0 {
        SourceState { cur_r: (s.cur_r - 1) as usize, cur_c: line_at(lines, s.cur_r - 1).len() as usize, ..s }
    } else {
        s
    };
    let right = if s.cur_c < cur_len {
        SourceState { cur_c: (s.cur_c + 1) as usize, ..s }
    } else {
        s
    };
    let down = if s.cur_r + 1 < total {
        let len = line_at(lines, s.cur_r + 1).len();
        SourceState { cur_r: (s.cur_r + 1) as usize, cur_c: (if s.cur_c <= len { s.cur_c as nat } else { len }) as usize, ..s }
    } else {
        s
    };
    let up = if s.cur_r > 0 {
        let len = line_at(lines, s.cur_r - 1).len();
        SourceState { cur_r: (s.cur_r - 1) as usize, cur_c: (if s.cur_c <= len { s.cur_c as nat } else { len }) as usize, ..s }
    } else {
        s
    };
    let chars = line_at(lines, s.cur_r as int);
    let fwd = skip_ws(chars, skip_non_ws(chars, s.cur_c as nat));
    let word = if fwd < chars.len() {
        SourceState { cur_c: fwd as usize, ..s }
    } else if s.cur_r + 1 < total {
        SourceState { cur_r: (s.cur_r + 1) as usize, cur_c: 0, ..s }
    } else {
        s
    };
    let back = if s.cur_c == 0 && s.cur_r > 0 {
        let len = line_at(lines, s.cur_r - 1).len();
        SourceState { cur_r: (s.cur_r - 1) as usize, cur_c: (if len >= 1 { len - 1 } else { 0 }) as usize, ..s }
    } else {
        let i0: nat = if s.cur_c >= 1 { (s.cur_c - 1) as nat } else { 0 };
        SourceState { cur_c: back_over_word(chars, back_over_ws(chars, i0)) as usize, ..s }
    };
    let o = s.ordered();
    let copied = sel_text(lines, o.0 as nat, o.1 as nat, o.2 as nat, o.3 as nat);
    match key.code {
        KeyCode::Esc => if s.sel_active {
            (SourceState { sel_active: false, ..s }, false, None)
        } else {
            (s, true, None)
        },
        KeyCode::Left => (left, false, None),
        KeyCode::Right => (right, false, None),
        KeyCode::Down => (down, false, None),
        KeyCode::Up => (up, false, None),
        KeyCode::Home => (SourceState { cur_c: 0, ..s }, false, None),
        KeyCode::End => (SourceState { cur_c: cur_len as usize, ..s }, false, None),
        KeyCode::PageDown => (SourceState { cur_r: (if s.cur_r + content_rows <= last_line(total) { s.cur_r + content_rows } else { last_line(total) as int }) as usize, ..s }, false, None),
        KeyCode::PageUp => (SourceState { cur_r: (if s.cur_r >= content_rows { s.cur_r - content_rows } else { 0 }) as usize, ..s }, false, None),
        KeyCode::Char(c) => if c == 'q' && !s.sel_active {
            (s, true, None)
        } else if c == 'v' {
            if s.sel_active {
                (SourceState { sel_active: false, ..s }, false, None)
            } else {
                (SourceState { sel_active: true, anch_r: s.cur_r, anch_c: s.cur_c, ..s }, false, None)
            }
        } else if c == 'y' && s.sel_active {
            (SourceState { sel_active: false, ..s }, false, if copied.len() > 0 { Some(copied) } else { None })
        } else if c == 'h' {
            (left, false, None)
        } else if c == 'l' {
            (right, false, None)
        } else if c == 'j' {
            (down, false, None)
        } else if c == 'k' {
            (up, false, None)
        } else if c == 'w' {
            (word, false, None)
        } else if c == 'b' {
            (back, false, None)
        } else if c == '0' {
            (SourceState { cur_c: 0, ..s }, false, None)
        } else if c == '$' {
            (SourceState { cur_c: cur_len as usize, ..s }, false, None)
        } else if c == 'g' && !s.sel_active {
            (SourceState { cur_r: 0, cur_c: 0, ..s }, false, None)
        } else if c == 'G' && !s.sel_active {
            (SourceState { cur_r: last_line(total) as usize, cur_c: 0, ..s }, false, None)
        } else if c == 'c' && key.modifiers.spec_contains(control_modifier()) {
            (s, true, None)
        } else {
            (s, false, None)
        },
        _ => (s, false, None),
    }
}

/// After a key: the view scrolls up to the cursor when it moved above it.
pub open spec fn snapped(s: SourceState) -> SourceState {
    if s.cur_r < s.scroll {
        SourceState { scroll: s.cur_r, ..s }
    } else {
        s
    }
}


/// The next word start at or after `cur_c`: past the rest of the current
/// word, then past whitespace.
fn word_forward(chars: &Vec<char>, cur_c: usize) -> (i: usize)
    ensures
        i == skip_ws(chars@, skip_non_ws(chars@, cur_c as nat)),
{
    let mut i = cur_c;
    while i < chars.len() && !is_whitespace(chars[i])
        invariant
            skip_non_ws(chars@, i as nat) == skip_non_ws(chars@, cur_c as nat),
        decreases chars.len() - i,
    {
        i = i + 1;
    }
    let ghost mid = i;
    while i < chars.len() && is_whitespace(chars[i])
        invariant
            skip_ws(chars@, i as nat) == skip_ws(chars@, mid as nat),
            mid == skip_non_ws(chars@, cur_c as nat),
        decreases chars.len() - i,
    {
        i = i + 1;
    }
    i
}

/// The start of the word before column `i`: back over whitespace, then over the word.
fn word_backward(chars: &Vec<char>, i0: usize) -> (i: usize)
    requires
        i0 == 0 || i0 < chars.len(),
    ensures
        i == back_over_word(chars@, back_over_ws(chars@, i0 as nat)),
{
    let mut i = i0;
    while i > 0 && is_whitespace(chars[i])
        invariant
            i == 0 || i < chars.len(),
            back_over_ws(chars@, i as nat) == back_over_ws(chars@, i0 as nat),
        decreases i,
    {
        i = i - 1;
    }
    let ghost mid = i;
    while i > 0 && i - 1 < chars.len() && !is_whitespace(chars[i - 1])
        invariant
            back_over_word(chars@, i as nat) == back_over_word(chars@, mid as nat),
            mid == back_over_ws(chars@, i0 as nat),
        decreases i,
    {
        i = i - 1;
    }
    i
}

/// The characters of line `r`, or none past the last line.
fn line_len(lines: &Vec<Vec<char>>, r: usize) -> (n: usize)
    ensures
        n == line_at(lines@, r as int).len(),
{
    if r < lines.len() {
        lines[r].len()
    } else {
        0
    }
}

impl SourceState {
    /// Handles a key press in the source view: moves the cursor, starts,
    /// ends or copies the selection, or leaves; then scrolls up to the cursor
    /// when it moved above the view.
    #[verifier::rlimit(60)]
    pub fn handle_key(&mut self, key: KeyEvent, lines: &Vec<Vec<char>>, content_rows: usize) -> (r: SourceOutcome)
        requires
            old(self).cur_r + content_rows <= usize::MAX,
            key.code == KeyCode::Char('b') ==> word_back_ok(*old(self), lines@),
            key.code == KeyCode::Char('y') && old(self).sel_active ==> selection_cuttable(
                lines@,
                old(self).ordered().0 as nat,
                old(self).ordered().1 as nat,
                old(self).ordered().3 as nat,
            ),
        ensures
            ({
                let (st, exit, copied) = key_effect(*old(self), key, lines@, content_rows as nat);
                &&& exit ==> r == SourceOutcome::Exit && *final(self) == st
                &&& !exit ==> *final(self) == snapped(st)
                &&& !exit ==> match r {
                    SourceOutcome::Copy(t) => copied == Some(t@),
                    SourceOutcome::Continue => copied is None,
                    SourceOutcome::Exit => false,
                }
            }),
    {
        let total = lines.len();
        let last = if total >= 1 {
            total - 1
        } else {
            0
        };
        let mut out = SourceOutcome::Continue;
        match key.code {
            KeyCode::Esc => {
                if self.sel_active {
                    self.sel_active = false;
                } else {
                    return SourceOutcome::Exit;
                }
            },
            KeyCode::Left => self.move_left(lines),
            KeyCode::Right => self.move_right(lines),
            KeyCode::Down => self.move_down(lines),
            KeyCode::Up => self.move_up(lines),
            KeyCode::Home => self.cur_c = 0,
            KeyCode::End => self.cur_c = line_len(lines, self.cur_r),
            KeyCode::PageDown => {
                self.cur_r = if self.cur_r + content_rows <= last {
                    self.cur_r + content_rows
                } else {
                    last
                };
            },
            KeyCode::PageUp => {
                self.cur_r = if self.cur_r >= content_rows {
                    self.cur_r - content_rows
                } else {
                    0
                };
            },
            KeyCode::Char(c) => {
                let (exit, o) = self.char_key(c, key.modifiers, lines);
                if exit {
                    return SourceOutcome::Exit;
                }
                out = o;
            },
            _ => {},
        }
        if self.cur_r < self.scroll {
            self.scroll = self.cur_r;
        }
        out
    }

    /// Left: back one column, or to the end of the line above.
    fn move_left(&mut self, lines: &Vec<Vec<char>>)
        ensures
            *final(self) == (if old(self).cur_c > 0 {
                SourceState { cur_c: (old(self).cur_c - 1) as usize, ..*old(self) }
            } else if old(self).cur_r > 0 {
                SourceState { cur_r: (old(self).cur_r - 1) as usize, cur_c: line_at(lines@, old(self).cur_r - 1).len() as usize, ..*old(self) }
            } else {
                *old(self)
            }),
    {
        if self.cur_c > 0 {
            self.cur_c = self.cur_c - 1;
        } else if self.cur_r > 0 {
            self.cur_r = self.cur_r - 1;
            self.cur_c = line_len(lines, self.cur_r);
        }
    }

    /// Right: forward one column, up to the line's end.
    fn move_right(&mut self, lines: &Vec<Vec<char>>)
        ensures
            *final(self) == (if old(self).cur_c < line_at(lines@, old(self).cur_r as int).len() {
                SourceState { cur_c: (old(self).cur_c + 1) as usize, ..*old(self) }
            } else {
                *old(self)
            }),
    {
        let len = line_len(lines, self.cur_r);
        if self.cur_c < len {
            self.cur_c = self.cur_c + 1;
        }
    }

    /// Down: the next line, the column kept within it.
    fn move_down(&mut self, lines: &Vec<Vec<char>>)
        ensures
            *final(self) == (if old(self).cur_r + 1 < lines.len() {
                let len = line_at(lines@, old(self).cur_r + 1).len();
                SourceState { cur_r: (old(self).cur_r + 1) as usize, cur_c: (if old(self).cur_c <= len { old(self).cur_c as nat } else { len }) as usize, ..*old(self) }
            } else {
                *old(self)
            }),
    {
        if lines.len() >= 1 && self.cur_r < lines.len() - 1 {
            self.cur_r = self.cur_r + 1;
            let len = line_len(lines, self.cur_r);
            if self.cur_c > len {
                self.cur_c = len;
            }
        }
    }

    /// Up: the line above, the column kept within it.
    fn move_up(&mut self, lines: &Vec<Vec<char>>)
        ensures
            *final(self) == (if old(self).cur_r > 0 {
                let len = line_at(lines@, old(self).cur_r - 1).len();
                SourceState { cur_r: (old(self).cur_r - 1) as usize, cur_c: (if old(self).cur_c <= len { old(self).cur_c as nat } else { len }) as usize, ..*old(self) }
            } else {
                *old(self)
            }),
    {
        if self.cur_r > 0 {
            self.cur_r = self.cur_r - 1;
            let len = line_len(lines, self.cur_r);
            if self.cur_c > len {
                self.cur_c = len;
            }
        }
    }
}


impl SourceState {
    /// A character key (see `key_effect`); says whether it leaves the view.
    fn char_key(&mut self, c: char, modifiers: KeyModifiers, lines: &Vec<Vec<char>>) -> (r: (bool, SourceOutcome))
        requires
            c == 'b' ==> word_back_ok(*old(self), lines@),
            c == 'y' && old(self).sel_active ==> selection_cuttable(
                lines@,
                old(self).ordered().0 as nat,
                old(self).ordered().1 as nat,
                old(self).ordered().3 as nat,
            ),
        ensures
            ({
                let (st, exit, copied) = key_effect(*old(self), KeyEvent { code: KeyCode::Char(c), modifiers }, lines@, 0);
                &&& r.0 == exit
                &&& exit ==> *final(self) == st && r.1 == SourceOutcome::Exit
                &&& !exit ==> *final(self) == st
                &&& !exit ==> match r.1 {
                    SourceOutcome::Copy(t) => copied == Some(t@),
                    SourceOutcome::Continue => copied is None,
                    SourceOutcome::Exit => false,
                }
            }),
    {
        let total = lines.len();
        if c == 'q' && !self.sel_active {
            return (true, SourceOutcome::Exit);
        } else if c == 'v' {
            if self.sel_active {
                self.sel_active = false;
            } else {
                self.sel_active = true;
                self.anch_r = self.cur_r;
                self.anch_c = self.cur_c;
            }
        } else if c == 'y' && self.sel_active {
            let o = self.copy_selection(lines);
            return (false, o);
        } else if c == 'h' {
            self.move_left(lines);
        } else if c == 'l' {
            self.move_right(lines);
        } else if c == 'j' {
            self.move_down(lines);
        } else if c == 'k' {
            self.move_up(lines);
        } else if c == 'w' {
            self.word_right(lines);
        } else if c == 'b' {
            self.word_left(lines);
        } else if c == '0' {
            self.cur_c = 0;
        } else if c == '$' {
            self.cur_c = line_len(lines, self.cur_r);
        } else if c == 'g' && !self.sel_active {
            self.cur_r = 0;
            self.cur_c = 0;
        } else if c == 'G' && !self.sel_active {
            self.cur_r = if total >= 1 {
                total - 1
            } else {
                0
            };
            self.cur_c = 0;
        } else if c == 'c' && modifiers.contains(KeyModifiers::control()) {
            return (true, SourceOutcome::Exit);
        }
        (false, SourceOutcome::Continue)
    }

    /// Copies the selection (when it holds any text) and ends it.
    fn copy_selection(&mut self, lines: &Vec<Vec<char>>) -> (r: SourceOutcome)
        requires
            old(self).sel_active,
            selection_cuttable(lines@, old(self).ordered().0 as nat, old(self).ordered().1 as nat, old(self).ordered().3 as nat),
        ensures
            *final(self) == (SourceState { sel_active: false, ..*old(self) }),
            ({
                let o = old(self).ordered();
                let t = sel_text(lines@, o.0 as nat, o.1 as nat, o.2 as nat, o.3 as nat);
                match r {
                    SourceOutcome::Copy(x) => t.len() > 0 && x@ == t,
                    SourceOutcome::Continue => t.len() == 0,
                    SourceOutcome::Exit => false,
                }
            }),
    {
        let (sr, sc, er, ec) = self.selection_bounds();
        let text = selection_text(lines, sr, sc, er, ec);
        self.sel_active = false;
        if !text.as_str().is_empty() {
            SourceOutcome::Copy(text)
        } else {
            SourceOutcome::Continue
        }
    }

    /// `w`: to the next word start, or the start of the next line.
    fn word_right(&mut self, lines: &Vec<Vec<char>>)
        ensures
            ({
                let s = *old(self);
                let chars = line_at(lines@, s.cur_r as int);
                let fwd = skip_ws(chars, skip_non_ws(chars, s.cur_c as nat));
                *final(self) == if fwd < chars.len() {
                    SourceState { cur_c: fwd as usize, ..s }
                } else if s.cur_r + 1 < lines.len() {
                    SourceState { cur_r: (s.cur_r + 1) as usize, cur_c: 0, ..s }
                } else {
                    s
                }
            }),
    {
        let total = lines.len();
        let empty: Vec<char> = Vec::new();
        let chars = if self.cur_r < total {
            &lines[self.cur_r]
        } else {
            &empty
        };
        proof {
            assert(chars@ == line_at(lines@, self.cur_r as int));
        }
        let i = word_forward(chars, self.cur_c);
        if i < chars.len() {
            self.cur_c = i;
        } else if total >= 1 && self.cur_r < total - 1 {
            self.cur_r = self.cur_r + 1;
            self.cur_c = 0;
        }
    }

    /// `b`: to the start of this or the previous word, or the end of the line above.
    fn word_left(&mut self, lines: &Vec<Vec<char>>)
        requires
            word_back_ok(*old(self), lines@),
        ensures
            ({
                let s = *old(self);
                let chars = line_at(lines@, s.cur_r as int);
                *final(self) == if s.cur_c == 0 && s.cur_r > 0 {
                    let len = line_at(lines@, s.cur_r - 1).len();
                    SourceState { cur_r: (s.cur_r - 1) as usize, cur_c: (if len >= 1 { len - 1 } else { 0 }) as usize, ..s }
                } else {
                    let i0: nat = if s.cur_c >= 1 { (s.cur_c - 1) as nat } else { 0 };
                    SourceState { cur_c: back_over_word(chars, back_over_ws(chars, i0)) as usize, ..s }
                }
            }),
    {
        if self.cur_c == 0 && self.cur_r > 0 {
            self.cur_r = self.cur_r - 1;
            let len = line_len(lines, self.cur_r);
            self.cur_c = if len >= 1 {
                len - 1
            } else {
                0
            };
        } else {
            let empty: Vec<char> = Vec::new();
            let chars = if self.cur_r < lines.len() {
                &lines[self.cur_r]
            } else {
                &empty
            };
            proof {
                assert(chars@ == line_at(lines@, self.cur_r as int));
            }
            let i0 = if self.cur_c >= 1 {
                self.cur_c - 1
            } else {
                0
            };
            self.cur_c = word_backward(chars, i0);
        }
    }
}


/// What the mouse did in the source view.
#[derive(Debug, Clone, Copy, PartialEq, Eq, Structural)]
pub enum MouseAction {
    LeftDown,
    LeftDrag,
    LeftUp,
    ScrollDown,
    ScrollUp,
    Other,
}

/// Every screen row of a map shows a real line.
pub open spec fn map_fits(map: Seq<(usize, usize, usize)>, lines: Seq<Vec<char>>) -> bool {
    forall|i: int| 0 <= i < map.len() ==> (#[trigger] map[i]).0 < lines.len() && map[i].1 <= lines[map[i].0 as int]@.len()
}

/// Whether a position lies within the selection's ends (both included).
pub open spec fn within_ends(r: nat, c: nat, o: (usize, usize, usize, usize)) -> bool {
    (r > o.0 || (r == o.0 && c >= o.1)) && (r < o.2 || (r == o.2 && c <= o.3))
}

/// A click at a line and column: inside the selection it moves the cursor,
/// elsewhere it starts a new (empty) selection there.
pub open spec fn clicked(s: SourceState, cr: usize, cc: usize) -> SourceState {
    if s.sel_active {
        if within_ends(cr as nat, cc as nat, s.ordered()) {
            SourceState { cur_r: cr, cur_c: cc, ..s }
        } else {
            SourceState { cur_r: cr, cur_c: cc, anch_r: cr, anch_c: cc, ..s }
        }
    } else {
        SourceState { cur_r: cr, cur_c: cc, sel_active: true, anch_r: cr, anch_c: cc, ..s }
    }
}

/// What a mouse action does to the source view (its screen rows given by `map`).
pub open spec fn mouse_effect(
    s: SourceState,
    action: MouseAction,
    row: nat,
    column: nat,
    map: Seq<(usize, usize, usize)>,
    lines: Seq<Vec<char>>,
    content_rows: nat,
) -> SourceState {
    let total = lines.len();
    match action {
        MouseAction::LeftDown => if row < map.len() {
            let (li, seg_start, _e) = map[row as int];
            let len = lines[li as int]@.len();
            let cc = if seg_start + column <= len { seg_start + column } else { len as int };
            clicked(s, li, cc as usize)
        } else {
            s
        },
        MouseAction::LeftDrag => {
            let last_row = if content_rows >= 1 { content_rows - 1 } else { 0 };
            let moved = if row == 0 && s.scroll > 0 {
                SourceState { scroll: (s.scroll - 1) as usize, cur_r: (if s.cur_r > 0 { s.cur_r - 1 } else { 0 }) as usize, ..s }
            } else if row >= last_row && s.scroll + 1 < total {
                SourceState { scroll: (s.scroll + 1) as usize, cur_r: (if s.cur_r + 1 < total { s.cur_r + 1 } else { s.cur_r as int }) as usize, ..s }
            } else if row < map.len() {
                SourceState { cur_r: map[row as int].0, cur_c: (map[row as int].1 + column) as usize, ..s }
            } else {
                s
            };
            let len = line_at(lines, moved.cur_r as int).len();
            SourceState { cur_c: (if moved.cur_c <= len { moved.cur_c as nat } else { len }) as usize, ..moved }
        },
        MouseAction::ScrollDown => {
            let limit = if total >= content_rows { total - content_rows } else { 0 };
            SourceState { scroll: (if s.scroll + 3 <= limit { s.scroll + 3 } else { limit as int }) as usize, ..s }
        },
        MouseAction::ScrollUp => SourceState { scroll: (if s.scroll >= 3 { s.scroll - 3 } else { 0 }) as usize, ..s },
        _ => s,
    }
}

impl SourceState {
    /// Handles a mouse action at a screen row and column: a click places the
    /// cursor and selects, a drag extends the selection (scrolling at the
    /// edges), the wheel scrolls without moving the cursor.
    pub fn handle_mouse(
        &mut self,
        action: MouseAction,
        row: u16,
        column: u16,
        screen_map: &Vec<(usize, usize, usize)>,
        lines: &Vec<Vec<char>>,
        content_rows: usize,
    )
        requires
            map_fits(screen_map@, lines@),
            old(self).scroll + 3 <= usize::MAX,
            row < screen_map.len() ==> screen_map@[row as int].1 + column <= usize::MAX,
        ensures
            *final(self) == mouse_effect(*old(self), action, row as nat, column as nat, screen_map@, lines@, content_rows as nat),
    {
        let total = lines.len();
        match action {
            MouseAction::LeftDown => {
                let screen_r = row as usize;
                if screen_r < screen_map.len() {
                    let (src_li, seg_start, _seg_end) = screen_map[screen_r];
                    let line_len = lines[src_li].len();
                    let cr = src_li;
                    let cc = if line_len - seg_start >= column as usize {
                        seg_start + column as usize
                    } else {
                        line_len
                    };
                    if self.sel_active {
                        let (sr, sc, er, ec) = self.selection_bounds();
                        let in_sel = (cr > sr || (cr == sr && cc >= sc)) && (cr < er || (cr == er && cc <= ec));
                        if in_sel {
                            self.cur_r = cr;
                            self.cur_c = cc;
                        } else {
                            self.cur_r = cr;
                            self.cur_c = cc;
                            self.anch_r = cr;
                            self.anch_c = cc;
                        }
                    } else {
                        self.cur_r = cr;
                        self.cur_c = cc;
                        self.sel_active = true;
                        self.anch_r = cr;
                        self.anch_c = cc;
                    }
                }
            },
            MouseAction::LeftDrag => {
                let last_row = if content_rows >= 1 {
                    content_rows - 1
                } else {
                    0
                };
                let screen_r = row as usize;
                if row == 0 && self.scroll > 0 {
                    self.scroll = self.scroll - 1;
                    if self.cur_r > 0 {
                        self.cur_r = self.cur_r - 1;
                    }
                } else if screen_r >= last_row && total >= 1 && self.scroll < total - 1 {
                    self.scroll = self.scroll + 1;
                    if self.cur_r < total - 1 {
                        self.cur_r = self.cur_r + 1;
                    }
                } else if screen_r < screen_map.len() {
                    let (src_li, seg_start, _e) = screen_map[screen_r];
                    self.cur_r = src_li;
                    self.cur_c = seg_start + column as usize;
                }
                let len = line_len(lines, self.cur_r);
                if self.cur_c > len {
                    self.cur_c = len;
                }
            },
            MouseAction::ScrollDown => {
                let limit = if total >= content_rows {
                    total - content_rows
                } else {
                    0
                };
                self.scroll = if self.scroll + 3 <= limit {
                    self.scroll + 3
                } else {
                    limit
                };
            },
            MouseAction::ScrollUp => {
                self.scroll = if self.scroll >= 3 {
                    self.scroll - 3
                } else {
                    0
                };
            },
            _ => {},
        }
    }
}

/// Whether a screen map shows the cursor's position (the end of a segment
/// included).
pub open spec fn cursor_shown(map: Seq<(usize, usize, usize)>, cur_r: usize, cur_c: usize) -> bool {
    exists|i: int| 0 <= i < map.len() && #[trigger] map[i].0 == cur_r && map[i].1 <= cur_c <= map[i].2
}

/// Whether a screen map shows the cursor.
fn shows_cursor(map: &Vec<(usize, usize, usize)>, cur_r: usize, cur_c: usize) -> (r: bool)
    ensures
        r == cursor_shown(map@, cur_r, cur_c),
{
    let mut i: usize = 0;
    while i < map.len()
        invariant
            i <= map.len(),
            forall|k: int| 0 <= k < i ==> !(#[trigger] map@[k].0 == cur_r && map@[k].1 <= cur_c <= map@[k].2),
        decreases map.len() - i,
    {
        let (li, s, e) = map[i];
        if li == cur_r && cur_c >= s && cur_c <= e {
            return true;
        }
        i = i + 1;
    }
    false
}

impl SourceState {
    /// The first line on screen once the view has scrolled up to the cursor.
    pub open spec fn view_start(self) -> usize {
        if self.cur_r < self.scroll {
            self.cur_r
        } else {
            self.scroll
        }
    }

    /// Scrolls so that the cursor shows: up to its line when it is above the
    /// view, else down one line at a time until its wrapped segment shows (or
    /// the last line is at the top). Returns the screen rows of the view.
    pub fn keep_cursor_visible(&mut self, lines: &Vec<Vec<char>>, cols: usize, content_rows: usize) -> (map: Vec<(usize, usize, usize)>)
        ensures
            final(self).cur_r == old(self).cur_r,
            final(self).cur_c == old(self).cur_c,
            final(self).sel_active == old(self).sel_active,
            final(self).anch_r == old(self).anch_r,
            final(self).anch_c == old(self).anch_c,
            old(self).view_start() <= final(self).scroll,
            map@ == screen_map(lines@, final(self).scroll as nat, cols as nat, content_rows as nat),
            cursor_shown(map@, old(self).cur_r, old(self).cur_c) || final(self).scroll >= last_line(lines.len() as nat),
            forall|t: nat|
                #![trigger screen_map(lines@, t, cols as nat, content_rows as nat)]
                old(self).view_start() <= t < final(self).scroll ==> !cursor_shown(
                    screen_map(lines@, t, cols as nat, content_rows as nat),
                    old(self).cur_r,
                    old(self).cur_c,
                ) && t < last_line(lines.len() as nat),
    {
        if self.cur_r < self.scroll {
            self.scroll = self.cur_r;
        }
        let ghost start = self.scroll;
        let total = lines.len();
        let last = if total >= 1 {
            total - 1
        } else {
            0
        };
        let mut map = build_screen_map(lines, self.scroll, cols, content_rows);
        loop
            invariant
                *self == (SourceState { scroll: self.scroll, ..*old(self) }),
                start <= self.scroll,
                start == if old(self).cur_r < old(self).scroll { old(self).cur_r } else { old(self).scroll },
                last == last_line(lines.len() as nat),
                map@ == screen_map(lines@, self.scroll as nat, cols as nat, content_rows as nat),
                forall|t: nat|
                    #![trigger screen_map(lines@, t, cols as nat, content_rows as nat)]
                    start <= t < self.scroll ==> !cursor_shown(
                        screen_map(lines@, t, cols as nat, content_rows as nat),
                        old(self).cur_r,
                        old(self).cur_c,
                    ) && t < last_line(lines.len() as nat),
            ensures
                *self == (SourceState { scroll: self.scroll, ..*old(self) }),
                start <= self.scroll,
                map@ == screen_map(lines@, self.scroll as nat, cols as nat, content_rows as nat),
                cursor_shown(map@, old(self).cur_r, old(self).cur_c) || self.scroll >= last,
                forall|t: nat|
                    #![trigger screen_map(lines@, t, cols as nat, content_rows as nat)]
                    start <= t < self.scroll ==> !cursor_shown(
                        screen_map(lines@, t, cols as nat, content_rows as nat),
                        old(self).cur_r,
                        old(self).cur_c,
                    ) && t < last_line(lines.len() as nat),
            decreases last - self.scroll,
        {
            let visible = shows_cursor(&map, self.cur_r, self.cur_c);
            if visible || self.scroll >= last {
                break;
            }
            self.scroll = self.scroll + 1;
            map = build_screen_map(lines, self.scroll, cols, content_rows);
        }
        proof {
            assert(start == old(self).view_start());
            assert forall|t: nat|
                #![trigger screen_map(lines@, t, cols as nat, content_rows as nat)]
                old(self).view_start() <= t < self.scroll implies !cursor_shown(
                    screen_map(lines@, t, cols as nat, content_rows as nat),
                    old(self).cur_r,
                    old(self).cur_c,
                ) && t < last_line(lines.len() as nat) by {
                assert(start <= t < self.scroll);
            }
        }
        map
    }
}

/// The position shown in the source view's status bar: the cursor's line
/// (from 1) and how far down the text the view's bottom is, in percent.
pub open spec fn line_info(cur_r: nat, scroll: nat, content_rows: nat, total: nat) -> Seq<char> {
    let pct = if total > 0 {
        (if scroll + content_rows <= total { scroll + content_rows } else { total }) * 100 / total
    } else {
        100
    };
    seq!['L'] + decimal(cur_r + 1) + seq![' '] + decimal(pct) + seq!['%']
}

impl SourceState {
    /// The position shown in the status bar, such as `L12 40%`.
    pub fn line_info(&self, content_rows: usize, total_lines: usize) -> (r: String)
        requires
            self.cur_r < u32::MAX,
        ensures
            r@ == line_info(self.cur_r as nat, self.scroll as nat, content_rows as nat, total_lines as nat),
    {
        let total = total_lines as u128;
        let bottom = if self.scroll as u128 + content_rows as u128 <= total {
            self.scroll as u128 + content_rows as u128
        } else {
            total
        };
        let pct: u128 = if total > 0 {
            assert(bottom * 100 / (total as int) <= 100) by (nonlinear_arith)
                requires
                    bottom <= total,
                    total > 0,
            ;
            bottom * 100 / total
        } else {
            100
        };
        let mut out = String::new();
        push_char(&mut out, 'L');
        push_decimal(&mut out, self.cur_r as u32 + 1);
        push_char(&mut out, ' ');
        push_decimal(&mut out, pct as u32);
        push_char(&mut out, '%');
        proof {
            assert(out@ =~= line_info(self.cur_r as nat, self.scroll as nat, content_rows as nat, total_lines as nat));
        }
        out
    }
}

/// The message shown after copying: the copied text's size in bytes.
pub fn copied_message(text: &String) -> (r: String)
    ensures
        r@ == "Copied "@ + decimal((vstd::utf8::encode_utf8(text@).len() as usize) as nat) + " chars"@,
{
    let mut out = String::new();
    out.append("Copied ");
    assert(out@ =~= "Copied "@);
    let t = text.as_str();
    let n = t.len();
    assert(t@ == text@);
    push_decimal_usize(&mut out, n);
    out.append(" chars");
    assert(out@ =~= "Copied "@ + decimal((vstd::utf8::encode_utf8(text@).len() as usize) as nat) + " chars"@);
    out
}

/// The cursor stands on a line of the text (the first when there is none).
pub open spec fn row_valid(s: SourceState, lines: Seq<Vec<char>>) -> bool {
    s.cur_r <= last_line(lines.len())
}

/// Every line's length fits in `usize` (as that of any line held in memory).
pub open spec fn lines_fit(lines: Seq<Vec<char>>) -> bool {
    &&& lines.len() <= usize::MAX
    &&& forall|i: int| 0 <= i < lines.len() ==> #[trigger] lines[i]@.len() <= usize::MAX
}

/// The cursor stands within its line (at most just past its end).
pub open spec fn column_in_line(s: SourceState, lines: Seq<Vec<char>>) -> bool {
    s.cur_c <= line_at(lines, s.cur_r as int).len()
}

proof fn lemma_back_over_ws_le(chars: Seq<char>, i: nat)
    ensures
        back_over_ws(chars, i) <= i,
    decreases i,
{
    if i > 0 && i < chars.len() && is_white_space(chars[i as int]) {
        lemma_back_over_ws_le(chars, (i - 1) as nat);
    }
}

proof fn lemma_back_over_word_le(chars: Seq<char>, i: nat)
    ensures
        back_over_word(chars, i) <= i,
    decreases i,
{
    if i > 0 && i - 1 < chars.len() && !is_white_space(chars[i - 1]) {
        lemma_back_over_word_le(chars, (i - 1) as nat);
    }
}

/// Every key keeps the cursor on a line of the text.
pub proof fn law_key_keeps_row_valid(s: SourceState, key: KeyEvent, lines: Seq<Vec<char>>, content_rows: nat)
    requires
        row_valid(s, lines),
    ensures
        row_valid(key_effect(s, key, lines, content_rows).0, lines),
        row_valid(snapped(key_effect(s, key, lines, content_rows).0), lines),
{
}

/// Every key but Page Up and Page Down keeps the cursor within its line
/// (those two move the cursor's line and leave its column as it was).
pub proof fn law_key_keeps_column_in_line(s: SourceState, key: KeyEvent, lines: Seq<Vec<char>>, content_rows: nat)
    requires
        row_valid(s, lines),
        column_in_line(s, lines),
        lines_fit(lines),
        key.code != KeyCode::PageDown,
        key.code != KeyCode::PageUp,
    ensures
        column_in_line(key_effect(s, key, lines, content_rows).0, lines),
{
    let chars = line_at(lines, s.cur_r as int);
    let i0: nat = if s.cur_c >= 1 {
        (s.cur_c - 1) as nat
    } else {
        0
    };
    lemma_back_over_ws_le(chars, i0);
    lemma_back_over_word_le(chars, back_over_ws(chars, i0));
    let r = key_effect(s, key, lines, content_rows).0;
    if s.cur_r > 0 {
        assert(line_at(lines, s.cur_r - 1).len() <= usize::MAX);
    }
    if s.cur_r + 1 < lines.len() {
        assert(line_at(lines, s.cur_r + 1).len() <= usize::MAX);
    }
    if s.cur_r < lines.len() {
        assert(line_at(lines, s.cur_r as int).len() <= usize::MAX);
    }
    match key.code {
        KeyCode::Char(c) => {
            if c == 'w' {
                let fwd = skip_ws(chars, skip_non_ws(chars, s.cur_c as nat));
                if fwd < chars.len() {
                    assert(r.cur_c == fwd);
                    assert(r.cur_r == s.cur_r);
                }
            } else if c == 'b' {
                assert(column_in_line(r, lines));
            } else if c == 'h' {
                assert(column_in_line(r, lines));
            } else if c == 'l' {
                assert(column_in_line(r, lines));
            } else if c == 'j' {
                assert(column_in_line(r, lines));
            } else if c == 'k' {
                assert(column_in_line(r, lines));
            } else if c == '$' {
                assert(column_in_line(r, lines));
            } else {
                assert(column_in_line(r, lines));
            }
        },
        KeyCode::Left => {
            assert(column_in_line(r, lines));
        },
        KeyCode::Right => {
            assert(column_in_line(r, lines));
        },
        KeyCode::Down => {
            assert(column_in_line(r, lines));
        },
        KeyCode::Up => {
            assert(column_in_line(r, lines));
        },
        KeyCode::End => {
            assert(column_in_line(r, lines));
        },
        _ => {
            assert(column_in_line(r, lines));
        },
    }
}

/// The arrow keys move the cursor one step and do nothing else: Up to the
/// line above and Down to the line below (keeping the column where that line
/// is long enough, else going to its end), Left one character back (to the
/// end of the line above from the start of a line), Right one character on
/// within the line; at the edge of the text the cursor stays. `k`, `j`, `h`
/// and `l` do what Up, Down, Left and Right do. (The text's lines are
/// vectors, so their number and lengths fit in `usize`.)
pub proof fn law_arrow_keys_move_one_step(s: SourceState, m: KeyModifiers, lines: Seq<Vec<char>>, content_rows: nat)
    requires
        lines.len() <= usize::MAX,
        forall|i: int| 0 <= i < lines.len() ==> #[trigger] lines[i]@.len() <= usize::MAX,
    ensures
        ({
            let (st, exit, copied) = key_effect(s, KeyEvent { code: KeyCode::Up, modifiers: m }, lines, content_rows);
            &&& !exit && copied is None
            &&& st.scroll == s.scroll && st.sel_active == s.sel_active && st.anch_r == s.anch_r && st.anch_c == s.anch_c
            &&& s.cur_r > 0 ==> st.cur_r == s.cur_r - 1 && st.cur_c == (if s.cur_c <= line_at(lines, s.cur_r - 1).len() {
                s.cur_c as int
            } else {
                line_at(lines, s.cur_r - 1).len() as int
            })
            &&& s.cur_r == 0 ==> st == s
        }),
        ({
            let (st, exit, copied) = key_effect(s, KeyEvent { code: KeyCode::Down, modifiers: m }, lines, content_rows);
            &&& !exit && copied is None
            &&& st.scroll == s.scroll && st.sel_active == s.sel_active && st.anch_r == s.anch_r && st.anch_c == s.anch_c
            &&& s.cur_r + 1 < lines.len() ==> st.cur_r == s.cur_r + 1 && st.cur_c == (if s.cur_c <= line_at(lines, s.cur_r + 1).len() {
                s.cur_c as int
            } else {
                line_at(lines, s.cur_r + 1).len() as int
            })
            &&& s.cur_r + 1 >= lines.len() ==> st == s
        }),
        ({
            let (st, exit, copied) = key_effect(s, KeyEvent { code: KeyCode::Left, modifiers: m }, lines, content_rows);
            &&& !exit && copied is None
            &&& st.scroll == s.scroll && st.sel_active == s.sel_active && st.anch_r == s.anch_r && st.anch_c == s.anch_c
            &&& s.cur_c > 0 ==> st.cur_r == s.cur_r && st.cur_c == s.cur_c - 1
            &&& s.cur_c == 0 && s.cur_r > 0 ==> st.cur_r == s.cur_r - 1 && st.cur_c == line_at(lines, s.cur_r - 1).len()
            &&& s.cur_c == 0 && s.cur_r == 0 ==> st == s
        }),
        ({
            let (st, exit, copied) = key_effect(s, KeyEvent { code: KeyCode::Right, modifiers: m }, lines, content_rows);
            &&& !exit && copied is None
            &&& st.scroll == s.scroll && st.sel_active == s.sel_active && st.anch_r == s.anch_r && st.anch_c == s.anch_c
            &&& s.cur_r < lines.len() && s.cur_c < line_at(lines, s.cur_r as int).len() ==> st.cur_r == s.cur_r && st.cur_c == s.cur_c + 1
            &&& s.cur_r < lines.len() && s.cur_c >= line_at(lines, s.cur_r as int).len() ==> st == s
        }),
        key_effect(s, KeyEvent { code: KeyCode::Char('k'), modifiers: m }, lines, content_rows)
            == key_effect(s, KeyEvent { code: KeyCode::Up, modifiers: m }, lines, content_rows),
        key_effect(s, KeyEvent { code: KeyCode::Char('j'), modifiers: m }, lines, content_rows)
            == key_effect(s, KeyEvent { code: KeyCode::Down, modifiers: m }, lines, content_rows),
        key_effect(s, KeyEvent { code: KeyCode::Char('h'), modifiers: m }, lines, content_rows)
            == key_effect(s, KeyEvent { code: KeyCode::Left, modifiers: m }, lines, content_rows),
        key_effect(s, KeyEvent { code: KeyCode::Char('l'), modifiers: m }, lines, content_rows)
            == key_effect(s, KeyEvent { code: KeyCode::Right, modifiers: m }, lines, content_rows),
{
}

/// Home and `0` go to the start of the cursor's line, End and `$` to its
/// end; without a selection `g` goes to the start of the text and `G` to the
/// start of its last line; PageDown and PageUp move the cursor a screen of
/// rows down or up, no further than the last or first line. None of them
/// leaves the view or copies.
pub proof fn law_jump_keys(s: SourceState, m: KeyModifiers, lines: Seq<Vec<char>>, content_rows: nat)
    requires
        lines.len() <= usize::MAX,
        forall|i: int| 0 <= i < lines.len() ==> #[trigger] lines[i]@.len() <= usize::MAX,
        s.cur_r + content_rows <= usize::MAX,
    ensures
        ({
            let (st, exit, copied) = key_effect(s, KeyEvent { code: KeyCode::Home, modifiers: m }, lines, content_rows);
            !exit && copied is None && st == (SourceState { cur_c: 0, ..s })
        }),
        ({
            let (st, exit, copied) = key_effect(s, KeyEvent { code: KeyCode::End, modifiers: m }, lines, content_rows);
            !exit && copied is None && st.cur_r == s.cur_r && st.cur_c == line_at(lines, s.cur_r as int).len()
                && st.scroll == s.scroll && st.sel_active == s.sel_active
        }),
        key_effect(s, KeyEvent { code: KeyCode::Char('0'), modifiers: m }, lines, content_rows)
            == key_effect(s, KeyEvent { code: KeyCode::Home, modifiers: m }, lines, content_rows),
        key_effect(s, KeyEvent { code: KeyCode::Char('$'), modifiers: m }, lines, content_rows)
            == key_effect(s, KeyEvent { code: KeyCode::End, modifiers: m }, lines, content_rows),
        !s.sel_active ==> key_effect(s, KeyEvent { code: KeyCode::Char('g'), modifiers: m }, lines, content_rows)
            == (SourceState { cur_r: 0, cur_c: 0, ..s }, false, Option::<Seq<char>>::None),
        !s.sel_active && lines.len() > 0 ==> key_effect(s, KeyEvent { code: KeyCode::Char('G'), modifiers: m }, lines, content_rows)
            == (SourceState { cur_r: (lines.len() - 1) as usize, cur_c: 0, ..s }, false, Option::<Seq<char>>::None),
        ({
            let (st, exit, copied) = key_effect(s, KeyEvent { code: KeyCode::PageDown, modifiers: m }, lines, content_rows);
            &&& !exit && copied is None && st.cur_c == s.cur_c
            &&& lines.len() > 0 && s.cur_r + content_rows < lines.len() ==> st.cur_r == s.cur_r + content_rows
            &&& lines.len() > 0 && s.cur_r + content_rows >= lines.len() ==> st.cur_r == lines.len() - 1
        }),
        ({
            let (st, exit, copied) = key_effect(s, KeyEvent { code: KeyCode::PageUp, modifiers: m }, lines, content_rows);
            &&& !exit && copied is None && st.cur_c == s.cur_c
            &&& st.cur_r == (if s.cur_r >= content_rows { s.cur_r - content_rows } else { 0 })
        }),
{
}

/// After a key the view starts no lower than the cursor's line.
pub proof fn law_key_shows_cursor_line(s: SourceState, key: KeyEvent, lines: Seq<Vec<char>>, content_rows: nat)
    ensures
        snapped(key_effect(s, key, lines, content_rows).0).scroll <= snapped(key_effect(s, key, lines, content_rows).0).cur_r,
{
}

/// Mouse actions keep the cursor on a line of the text and within it.
pub proof fn law_mouse_keeps_cursor_valid(
    s: SourceState,
    action: MouseAction,
    row: nat,
    column: nat,
    map: Seq<(usize, usize, usize)>,
    lines: Seq<Vec<char>>,
    content_rows: nat,
)
    requires
        row_valid(s, lines),
        column_in_line(s, lines),
        map_fits(map, lines),
        row < map.len() ==> map[row as int].1 + column <= usize::MAX,
    ensures
        row_valid(mouse_effect(s, action, row, column, map, lines, content_rows), lines),
        column_in_line(mouse_effect(s, action, row, column, map, lines, content_rows), lines),
{
    if row < map.len() {
        assert(map_fits(map, lines));
        let e = map[row as int];
        assert(e.0 < lines.len());
    }
}

/// The selection's ends come in reading order.
pub proof fn law_selection_ordered(s: SourceState)
    ensures
        s.ordered().0 < s.ordered().2 || (s.ordered().0 == s.ordered().2 && s.ordered().1 <= s.ordered().3),
{
}

} // verus!
