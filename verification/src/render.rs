//! Text-mode layout helpers: heading height estimates and table cell text.

use vstd::prelude::*;
use crate::blocks::{HeadingLevel, StyledSpan, spans_model, spans_plain_text, spans_text};
use crate::text::{chars_of, push_char, string_of};

verus! {

/// A heading level's font size, in tenths of the base font size.
pub open spec fn scale_tenths(level: HeadingLevel) -> nat {
    match level {
        HeadingLevel::H1 => 18,
        HeadingLevel::H2 => 15,
        HeadingLevel::H3 => 13,
        HeadingLevel::H4 => 11,
        HeadingLevel::H5 => 10,
        HeadingLevel::H6 => 10,
    }
}

impl HeadingLevel {
    /// The font size as a multiple of the base size, in tenths.
    pub fn font_scale_tenths(&self) -> (r: u32)
        ensures
            r == scale_tenths(*self),
    {
        match self {
            HeadingLevel::H1 => 18,
            HeadingLevel::H2 => 15,
            HeadingLevel::H3 => 13,
            HeadingLevel::H4 => 11,
            HeadingLevel::H5 => 10,
            HeadingLevel::H6 => 10,
        }
    }
}

/// `a / b` rounded up.
pub open spec fn ceil_div(a: nat, b: nat) -> nat
    recommends
        b > 0,
{
    ((a + b - 1) / b as int) as nat
}

/// The text lines of a heading of `n` characters: each character is 0.55 of
/// the heading's font size wide, and the text wraps at the pixel width; at
/// least one line.
pub open spec fn heading_lines(n: nat, level: HeadingLevel, pixel_width: nat, cell_height: nat) -> nat
    recommends
        pixel_width > 0,
{
    let l = ceil_div(n * cell_height * scale_tenths(level) * 55, 1000 * pixel_width);
    if l < 1 {
        1
    } else {
        l
    }
}

/// Terminal rows for a number of heading lines, each 1.15 font sizes tall; at least one.
pub open spec fn rows_for_lines(lines: nat, level: HeadingLevel) -> nat {
    let r = ceil_div(lines * scale_tenths(level) * 115, 1000);
    if r < 1 {
        1
    } else {
        r
    }
}

/// The estimated height in terminal rows of a heading of `n` characters,
/// computed exactly; three rows when the cell height is unknown (zero); the
/// widest count a `u16` holds when nothing fits in a zero pixel width.
pub open spec fn estimated_heading_rows(n: nat, level: HeadingLevel, pixel_width: nat, cell_height: nat) -> u16 {
    if cell_height == 0 {
        3
    } else if pixel_width == 0 {
        if n == 0 {
            rows_for_lines(1, level) as u16
        } else {
            u16::MAX
        }
    } else {
        let r = rows_for_lines(heading_lines(n, level, pixel_width, cell_height), level);
        if r > u16::MAX {
            u16::MAX
        } else {
            r as u16
        }
    }
}

/// Estimate heading height in terminal rows without rendering.
pub fn estimate_heading_rows(text: &str, level: HeadingLevel, pixel_width: u32, cell_height: u16) -> (r: u16)
    ensures
        r == estimated_heading_rows(text@.len(), level, pixel_width as nat, cell_height as nat),
{
    if cell_height == 0 {
        return 3;
    }
    let n = chars_of(text).len() as u128;
    assert(n == text@.len());
    let s10 = level.font_scale_tenths() as u128;
    let lines: u128 = if pixel_width == 0 {
        if n == 0 {
            1
        } else {
            return u16::MAX;
        }
    } else {
        let ch = cell_height as u128;
        let pw = pixel_width as u128;
        assert(n * ch * s10 * 55 <= 0xFFFF_FFFF_FFFF_FFFFu128 * 0xFFFFu128 * 18 * 55) by (nonlinear_arith)
            requires
                n <= 0xFFFF_FFFF_FFFF_FFFFu128,
                ch <= 0xFFFF,
                s10 <= 18,
        ;
        let width = n * ch * s10 * 55;
        let l = (width + 1000 * pw - 1) / (1000 * pw);
        if l < 1 {
            1
        } else {
            l
        }
    };
    assert(lines <= 0xFFFF_FFFF_FFFF_FFFFu128 * 0xFFFFu128 * 18 * 55 + 1) by (nonlinear_arith)
        requires
            pixel_width == 0 ==> lines == 1,
            pixel_width > 0 ==> lines <= (n * cell_height * s10 * 55 + 1000 * pixel_width - 1) / (
            1000 * pixel_width) || lines == 1,
            n <= 0xFFFF_FFFF_FFFF_FFFFu128,
            cell_height <= 0xFFFF,
            s10 <= 18,
    {
        if pixel_width > 0 && lines != 1 {
            let d = 1000 * pixel_width as int;
            let a = n * cell_height * s10 * 55 + d - 1;
            assert(a / d <= a);
        }
    }
    let rows = (lines * s10 * 115 + 999) / 1000;
    let rows = if rows < 1 {
        1
    } else {
        rows
    };
    if rows > 0xFFFF {
        0xFFFF
    } else {
        rows as u16
    }
}

/// The text of a table cell.
pub fn cell_text(spans: &Vec<StyledSpan>) -> (r: String)
    ensures
        r@ == spans_text(spans_model(spans@)),
{
    spans_plain_text(spans)
}

/// Text fitted to a width: padded with spaces when shorter, cut to one less
/// character followed by an ellipsis when not.
pub open spec fn padded_or_truncated(s: Seq<char>, width: nat) -> Seq<char> {
    if s.len() >= width {
        let keep = if width == 0 {
            0
        } else {
            width - 1
        };
        s.subrange(0, keep as int).push('…')
    } else {
        s + Seq::new((width - s.len()) as nat, |i: int| ' ')
    }
}

/// Fits text to a width (padding with spaces, or cutting it with an ellipsis).
pub fn pad_or_truncate(s: &str, width: usize) -> (r: String)
    ensures
        r@ == padded_or_truncated(s@, width as nat),
{
    let chars = chars_of(s);
    if chars.len() >= width {
        let keep = if width == 0 {
            0
        } else {
            width - 1
        };
        let mut out: Vec<char> = Vec::new();
        let mut i: usize = 0;
        while i < keep
            invariant
                i <= keep <= chars.len(),
                out@ == chars@.subrange(0, i as int),
            decreases keep - i,
        {
            out.push(chars[i]);
            proof {
                assert(out@ =~= chars@.subrange(0, i + 1));
            }
            i = i + 1;
        }
        out.push('…');
        string_of(out.as_slice())
    } else {
        let mut out = chars;
        let ghost base = out@;
        let mut k: usize = 0;
        let pad = width - out.len();
        while k < pad
            invariant
                k <= pad,
                out@ == base + Seq::new(k as nat, |i: int| ' '),
            decreases pad - k,
        {
            out.push(' ');
            proof {
                assert(out@ =~= base + Seq::new((k + 1) as nat, |i: int| ' '));
            }
            k = k + 1;
        }
        string_of(out.as_slice())
    }
}

/// The first `max` characters of a text (all of it when it is not longer).
pub open spec fn truncated(s: Seq<char>, max: nat) -> Seq<char> {
    if s.len() > max {
        s.subrange(0, max as int)
    } else {
        s
    }
}

/// Cuts text to at most `max` characters.
pub fn truncate(s: &str, max: usize) -> (r: String)
    ensures
        r@ == truncated(s@, max as nat),
{
    let chars = chars_of(s);
    if chars.len() > max {
        let mut out = String::new();
        let mut i: usize = 0;
        while i < max
            invariant
                i <= max < chars.len(),
                out@ == chars@.subrange(0, i as int),
            decreases max - i,
        {
            push_char(&mut out, chars[i]);
            proof {
                assert(out@ =~= chars@.subrange(0, i + 1));
            }
            i = i + 1;
        }
        out
    } else {
        string_of(chars.as_slice())
    }
}


/// Fitted text is exactly as wide as asked (for a width of at least one).
pub proof fn law_fitted_width(s: Seq<char>, width: nat)
    requires
        width > 0,
    ensures
        padded_or_truncated(s, width).len() == width,
{
}

/// Truncated text is a prefix of the text, at most `max` long.
pub proof fn law_truncated_prefix(s: Seq<char>, max: nat)
    ensures
        truncated(s, max).len() <= max || truncated(s, max) == s,
        truncated(s, max) == s.take(truncated(s, max).len() as int),
{
    assert(s.take(s.len() as int) =~= s);
}

} // verus!
