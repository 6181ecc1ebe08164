//! The status bar: panes of text on colored backgrounds, one of which may
//! stretch to fill the width, drawn as terminal escape sequences.

use vstd::prelude::*;
use crate::graphics::StatusPane;
use crate::terminal::{Terminal, move_to_command};
use crate::text::{chars_of, decimal, push_char, push_decimal};
use crate::theme::{Theme, color_to_rgb, rgb_of};

verus! {

/// `n` spaces.
pub open spec fn spaces(n: nat) -> Seq<char> {
    Seq::new(n, |i: int| ' ')
}

/// Text centered in a field of `width` characters (the odd space going
/// right), as the `^` alignment of `format!` pads it.
pub open spec fn centered(s: Seq<char>, width: nat) -> Seq<char> {
    if s.len() >= width {
        s
    } else {
        let pad = (width - s.len()) as nat;
        spaces(pad / 2) + s + spaces((pad - pad / 2) as nat)
    }
}

/// Text right-aligned in a field of `width` characters, as the `>`
/// alignment of `format!` pads it.
pub open spec fn right_aligned(s: Seq<char>, width: nat) -> Seq<char> {
    if s.len() >= width {
        s
    } else {
        spaces((width - s.len()) as nat) + s
    }
}

/// Appends `n` spaces.
fn push_spaces(out: &mut String, n: usize)
    ensures
        final(out)@ == old(out)@ + spaces(n as nat),
{
    let mut k: usize = 0;
    while k < n
        invariant
            k <= n,
            out@ == old(out)@ + spaces(k as nat),
        decreases n - k,
    {
        push_char(out, ' ');
        proof {
            assert(out@ =~= old(out)@ + spaces((k + 1) as nat));
        }
        k = k + 1;
    }
}

/// Text centered in a field of `width` characters.
pub fn center(text: &str, width: usize) -> (r: String)
    ensures
        r@ == centered(text@, width as nat),
{
    let n = chars_of(text).len();
    let mut out = String::new();
    if n >= width {
        out.append(text);
        assert(out@ =~= text@);
        return out;
    }
    let pad = width - n;
    push_spaces(&mut out, pad / 2);
    out.append(text);
    push_spaces(&mut out, pad - pad / 2);
    assert(out@ =~= centered(text@, width as nat));
    out
}

/// Text right-aligned in a field of `width` characters.
pub fn align_right(text: &str, width: usize) -> (r: String)
    ensures
        r@ == right_aligned(text@, width as nat),
{
    let n = chars_of(text).len();
    let mut out = String::new();
    if n < width {
        push_spaces(&mut out, width - n);
    }
    out.append(text);
    assert(out@ =~= right_aligned(text@, width as nat));
    out
}

/// The mode pane (`NORMAL`, `SEARCH`, ...): bold, centered in eight columns.
pub fn pane_mode(text: &str, theme: &Theme, mode_bg: [u8; 3]) -> (p: StatusPane)
    ensures
        p.text@ == centered(text@, 8),
        p.bg == mode_bg,
        p.fg == rgb_of(theme.status_bar_fg),
        p.bold,
        !p.fill,
{
    StatusPane { text: center(text, 8), bg: mode_bg, fg: color_to_rgb(theme.status_bar_fg), bold: true, fill: false }
}

/// The position pane: right-aligned in ten columns, white on the mode color.
pub fn pane_progress(text: &str, mode_bg: [u8; 3]) -> (p: StatusPane)
    ensures
        p.text@ == right_aligned(text@, 10),
        p.bg == mode_bg,
        p.fg == [255u8, 255u8, 255u8],
        !p.bold,
        !p.fill,
{
    StatusPane { text: align_right(text, 10), bg: mode_bg, fg: [255, 255, 255], bold: false, fill: false }
}

/// The file pane: the text as given, stretched over the free width.
pub fn pane_file(text: &str, theme: &Theme) -> (p: StatusPane)
    ensures
        p.text@ == text@,
        p.bg == rgb_of(theme.status_filename_bg),
        p.fg == rgb_of(theme.status_mid_fg),
        !p.bold,
        p.fill,
{
    let mut t = String::new();
    t.append(text);
    assert(t@ =~= text@);
    StatusPane { text: t, bg: color_to_rgb(theme.status_filename_bg), fg: color_to_rgb(theme.status_mid_fg), bold: false, fill: true }
}

/// The info pane: centered in twelve columns.
pub fn pane_info(text: &str, theme: &Theme) -> (p: StatusPane)
    ensures
        p.text@ == centered(text@, 12),
        p.bg == rgb_of(theme.status_info_bg),
        p.fg == rgb_of(theme.status_mid_fg),
        !p.bold,
        !p.fill,
{
    StatusPane { text: center(text, 12), bg: color_to_rgb(theme.status_info_bg), fg: color_to_rgb(theme.status_mid_fg), bold: false, fill: false }
}

/// The key-hint pane: centered in twenty-six columns, dimmed.
pub fn pane_keys(text: &str, theme: &Theme) -> (p: StatusPane)
    ensures
        p.text@ == centered(text@, 26),
        p.bg == rgb_of(theme.status_keys_bg),
        p.fg == rgb_of(theme.status_dim_fg),
        !p.bold,
        !p.fill,
{
    StatusPane { text: center(text, 26), bg: color_to_rgb(theme.status_keys_bg), fg: color_to_rgb(theme.status_dim_fg), bold: false, fill: false }
}

/// The escape that sets the foreground (`layer` 38) or background (48) to a color.
pub open spec fn color_escape(layer: Seq<char>, rgb: [u8; 3]) -> Seq<char> {
    seq!['\x1b', '['] + layer + seq![';', '2', ';'] + decimal(rgb[0] as nat) + seq![';'] + decimal(rgb[1] as nat) + seq![';']
        + decimal(rgb[2] as nat) + seq!['m']
}

/// Appends the escape that sets a color.
fn push_color(out: &mut String, background: bool, rgb: [u8; 3])
    ensures
        final(out)@ == old(out)@ + color_escape(if background { seq!['4', '8'] } else { seq!['3', '8'] }, rgb),
{
    let ghost start = out@;
    push_char(out, '\x1b');
    push_char(out, '[');
    push_char(out, if background { '4' } else { '3' });
    push_char(out, '8');
    push_char(out, ';');
    push_char(out, '2');
    push_char(out, ';');
    push_decimal(out, rgb[0] as u32);
    push_char(out, ';');
    push_decimal(out, rgb[1] as u32);
    push_char(out, ';');
    push_decimal(out, rgb[2] as u32);
    push_char(out, 'm');
    assert(out@ =~= start + color_escape(if background { seq!['4', '8'] } else { seq!['3', '8'] }, rgb));
}

/// The text a pane shows: a stretching pane cut or padded to the free width,
/// any other pane with a space on each side.
pub open spec fn pane_body(p: StatusPane, fill_width: nat) -> Seq<char> {
    if p.fill {
        if p.text@.len() >= fill_width {
            p.text@.take(fill_width as int)
        } else {
            p.text@ + spaces((fill_width - p.text@.len()) as nat)
        }
    } else {
        seq![' '] + p.text@ + seq![' ']
    }
}

/// What a pane draws: its colors, bold on and off around it when bold, and its text.
pub open spec fn pane_output(p: StatusPane, fill_width: nat) -> Seq<char> {
    color_escape(seq!['3', '8'], p.fg) + color_escape(seq!['4', '8'], p.bg) + (if p.bold {
        "\x1b[1m"@
    } else {
        seq![]
    }) + pane_body(p, fill_width) + (if p.bold {
        "\x1b[22m"@
    } else {
        seq![]
    })
}

/// Draws one pane at the cursor.
pub fn emit_pane(term: &mut Terminal, p: &StatusPane, fill_width: usize)
    ensures
        final(term).output() == old(term).output() + pane_output(*p, fill_width as nat),
        final(term).cols == old(term).cols,
        final(term).rows == old(term).rows,
        final(term).cell_width == old(term).cell_width,
        final(term).cell_height == old(term).cell_height,
{
    let ghost start = term.output();
    let out = term.stdout_mut();
    push_color(out, false, p.fg);
    push_color(out, true, p.bg);
    if p.bold {
        out.append("\x1b[1m");
    }
    let ghost before_body = out@;
    if p.fill {
        let chars = chars_of(p.text.as_str());
        let n = chars.len();
        if n >= fill_width {
            let mut k: usize = 0;
            while k < fill_width
                invariant
                    k <= fill_width <= chars.len(),
                    out@ == before_body + chars@.take(k as int),
                decreases fill_width - k,
            {
                push_char(out, chars[k]);
                proof {
                    assert(out@ =~= before_body + chars@.take(k + 1));
                }
                k = k + 1;
            }
        } else {
            out.append(p.text.as_str());
            push_spaces(out, fill_width - n);
        }
    } else {
        push_char(out, ' ');
        out.append(p.text.as_str());
        push_char(out, ' ');
    }
    proof {
        assert(out@ =~= before_body + pane_body(*p, fill_width as nat));
    }
    if p.bold {
        out.append("\x1b[22m");
    }
    proof {
        assert(out@ =~= start + pane_output(*p, fill_width as nat));
    }
}

/// The columns that the fixed (non-stretching) panes take: their text and a
/// space on each side.
pub open spec fn fixed_width(panes: Seq<StatusPane>) -> nat
    decreases panes.len(),
{
    if panes.len() == 0 {
        0
    } else {
        fixed_width(panes.drop_last()) + if panes.last().fill {
            0
        } else {
            panes.last().text@.len() + 2
        }
    }
}

/// Whether some pane stretches.
pub open spec fn any_fill(panes: Seq<StatusPane>) -> bool {
    exists|i: int| 0 <= i < panes.len() && (#[trigger] panes[i]).fill
}

/// What the panes draw one after another.
pub open spec fn panes_output(panes: Seq<StatusPane>, fill_width: nat) -> Seq<char>
    decreases panes.len(),
{
    if panes.len() == 0 {
        seq![]
    } else {
        panes_output(panes.drop_last(), fill_width) + pane_output(panes.last(), fill_width)
    }
}

/// The columns left for stretching: the terminal's width less the fixed panes.
pub open spec fn free_width(cols: nat, left: Seq<StatusPane>, right: Seq<StatusPane>) -> nat {
    let fixed = fixed_width(left) + fixed_width(right);
    if cols >= fixed {
        (cols - fixed) as nat
    } else {
        0
    }
}

/// The whole status bar: at the first row below the content, the left panes,
/// the free width filled with `fill_bg` unless a pane stretches over it, the
/// right panes, and the default colors with the theme's background restored.
pub open spec fn status_bar_output(
    left: Seq<StatusPane>,
    right: Seq<StatusPane>,
    fill_bg: [u8; 3],
    restore_bg: [u8; 3],
    cols: nat,
    status_row: u16,
) -> Seq<char> {
    let fill_width = free_width(cols, left, right);
    move_to_command(0, status_row) + panes_output(left, fill_width) + (if !any_fill(left) && !any_fill(right) {
        color_escape(seq!['4', '8'], fill_bg) + spaces(fill_width)
    } else {
        seq![]
    }) + panes_output(right, fill_width) + "\x1b[39m\x1b[22m"@ + color_escape(seq!['4', '8'], restore_bg)
}

/// The columns the fixed panes take, and whether one pane stretches.
fn measure_panes(panes: &Vec<StatusPane>) -> (r: (usize, bool))
    requires
        fixed_width(panes@) <= usize::MAX,
    ensures
        r.0 == fixed_width(panes@),
        r.1 == any_fill(panes@),
{
    let mut total: usize = 0;
    let mut fill = false;
    let mut i: usize = 0;
    while i < panes.len()
        invariant
            i <= panes.len(),
            fixed_width(panes@) <= usize::MAX,
            total == fixed_width(panes@.take(i as int)),
            fill == any_fill(panes@.take(i as int)),
        decreases panes.len() - i,
    {
        proof {
            assert(panes@.take(i + 1).drop_last() =~= panes@.take(i as int));
            lemma_fixed_width_prefix(panes@, (i + 1) as nat);
            if !fill && panes@[i as int].fill {
                assert(panes@.take(i + 1)[i as int].fill);
            }
            if fill {
                let w = choose|w: int| 0 <= w < i && (#[trigger] panes@.take(i as int)[w]).fill;
                assert(panes@.take(i + 1)[w].fill);
            }
            if !fill && !panes@[i as int].fill {
                assert forall|w: int| 0 <= w < i + 1 implies !(#[trigger] panes@.take(i + 1)[w]).fill by {
                    if w < i {
                        assert(panes@.take(i + 1)[w] == panes@.take(i as int)[w]);
                    }
                }
            }
        }
        let p = &panes[i];
        if !p.fill {
            total = total + chars_of(p.text.as_str()).len() + 2;
        }
        if p.fill {
            fill = true;
        }
        i = i + 1;
    }
    proof {
        assert(panes@.take(panes.len() as int) =~= panes@);
    }
    (total, fill)
}

/// The fixed width of a prefix of panes is at most that of all of them.
proof fn lemma_fixed_width_prefix(panes: Seq<StatusPane>, k: nat)
    requires
        k <= panes.len(),
    ensures
        fixed_width(panes.take(k as int)) <= fixed_width(panes),
    decreases panes.len(),
{
    if k < panes.len() {
        lemma_fixed_width_prefix(panes.drop_last(), k);
        assert(panes.drop_last().take(k as int) =~= panes.take(k as int));
    } else {
        assert(panes.take(k as int) =~= panes);
    }
}

/// Draws panes one after another.
fn emit_panes(term: &mut Terminal, panes: &Vec<StatusPane>, fill_width: usize)
    ensures
        final(term).output() == old(term).output() + panes_output(panes@, fill_width as nat),
        final(term).cols == old(term).cols,
        final(term).rows == old(term).rows,
        final(term).cell_width == old(term).cell_width,
        final(term).cell_height == old(term).cell_height,
{
    let ghost start = term.output();
    let mut i: usize = 0;
    while i < panes.len()
        invariant
            i <= panes.len(),
            term.output() == start + panes_output(panes@.take(i as int), fill_width as nat),
            term.cols == old(term).cols,
            term.rows == old(term).rows,
            term.cell_width == old(term).cell_width,
            term.cell_height == old(term).cell_height,
            start == old(term).output(),
        decreases panes.len() - i,
    {
        emit_pane(term, &panes[i], fill_width);
        proof {
            assert(panes@.take(i + 1).drop_last() =~= panes@.take(i as int));
            assert(term.output() =~= start + panes_output(panes@.take(i + 1), fill_width as nat));
        }
        i = i + 1;
    }
    proof {
        assert(panes@.take(panes.len() as int) =~= panes@);
    }
}

/// Writes one of the pieces of the status bar between the panes.
fn emit_parts(term: &mut Terminal, Ghost(parts): Ghost<Seq<char>>, f: BarPiece, status_row: u16, fill: bool, fill_width: usize, bg: [u8; 3])
    requires
        parts == match f {
            BarPiece::MoveTo => move_to_command(0, status_row),
            BarPiece::Fill => if fill {
                color_escape(seq!['4', '8'], bg) + spaces(fill_width as nat)
            } else {
                seq![]
            },
            BarPiece::Restore => "\x1b[39m\x1b[22m"@ + color_escape(seq!['4', '8'], bg),
        },
        status_row < u16::MAX,
    ensures
        final(term).output() == old(term).output() + parts,
        final(term).cols == old(term).cols,
        final(term).rows == old(term).rows,
        final(term).cell_width == old(term).cell_width,
        final(term).cell_height == old(term).cell_height,
{
    let ghost start = term.output();
    let out = term.stdout_mut();
    match f {
        BarPiece::MoveTo => {
            push_char(out, '\x1b');
            push_char(out, '[');
            push_decimal(out, status_row as u32 + 1);
            push_char(out, ';');
            push_decimal(out, 1);
            push_char(out, 'H');
        },
        BarPiece::Fill => {
            if fill {
                push_color(out, true, bg);
                push_spaces(out, fill_width);
            }
        },
        BarPiece::Restore => {
            out.append("\x1b[39m\x1b[22m");
            push_color(out, true, bg);
        },
    }
    assert(out@ =~= start + parts);
}

/// The pieces of the status bar written between the panes.
enum BarPiece {
    MoveTo,
    Fill,
    Restore,
}

/// Draws the status bar on the row below the content.
pub fn draw_status_panes(term: &mut Terminal, left: &Vec<StatusPane>, right: &Vec<StatusPane>, fill_bg: [u8; 3], restore_bg: [u8; 3])
    requires
        fixed_width(left@) + fixed_width(right@) <= usize::MAX,
        old(term).visible_rows() < u16::MAX,
    ensures
        final(term).output() == old(term).output() + status_bar_output(
            left@,
            right@,
            fill_bg,
            restore_bg,
            old(term).cols as nat,
            old(term).visible_rows(),
        ),
        final(term).cols == old(term).cols,
        final(term).rows == old(term).rows,
        final(term).cell_width == old(term).cell_width,
        final(term).cell_height == old(term).cell_height,
{
    let cols = term.cols as usize;
    let status_row = term.content_rows();
    let (fixed_left, left_fill) = measure_panes(left);
    let (fixed_right, right_fill) = measure_panes(right);
    let fill_width = if cols >= fixed_left + fixed_right {
        cols - (fixed_left + fixed_right)
    } else {
        0
    };
    let has_any_fill = left_fill || right_fill;
    let ghost start = term.output();
    let ghost fw = fill_width as nat;
    let ghost p1 = move_to_command(0, status_row);
    let ghost p3 = if !has_any_fill {
        color_escape(seq!['4', '8'], fill_bg) + spaces(fw)
    } else {
        seq![]
    };
    let ghost p5 = "\x1b[39m\x1b[22m"@ + color_escape(seq!['4', '8'], restore_bg);
    emit_parts(term, Ghost(p1), BarPiece::MoveTo, status_row, false, 0, fill_bg);
    emit_panes(term, left, fill_width);
    emit_parts(term, Ghost(p3), BarPiece::Fill, status_row, !has_any_fill, fill_width, fill_bg);
    emit_panes(term, right, fill_width);
    emit_parts(term, Ghost(p5), BarPiece::Restore, status_row, false, 0, restore_bg);
    proof {
        assert(fill_width == free_width(cols as nat, left@, right@));
        assert(term.output() =~= start + (p1 + panes_output(left@, fw) + p3 + panes_output(right@, fw) + p5));
    }
}


/// Centered text is as wide as its field, or its own width when longer.
pub proof fn law_centered_width(s: Seq<char>, width: nat)
    ensures
        centered(s, width).len() == if s.len() >= width { s.len() } else { width },
        right_aligned(s, width).len() == if s.len() >= width { s.len() } else { width },
{
}

/// When the fixed panes fit, they and the free width make up the whole row.
pub proof fn law_status_bar_spans_row(cols: nat, left: Seq<StatusPane>, right: Seq<StatusPane>)
    requires
        fixed_width(left) + fixed_width(right) <= cols,
    ensures
        fixed_width(left) + fixed_width(right) + free_width(cols, left, right) == cols,
{
}

} // verus!
