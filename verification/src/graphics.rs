//! Pixel-level helpers and the plain data that the renderer consumes:
//! alpha blending, rounded-corner masks, and the conversion of document
//! spans into colored text spans.

use vstd::prelude::*;
use crate::blocks::{StyledSpan, span_model, SpanModel};
use crate::text::{copy_string, push_char};
use crate::theme::{Theme, color_to_rgb, rgb_of};
use crate::session::{char_bytes, lemma_encode_push, utf8_width};
use crate::viewport::byte_len;

verus! {

/// A highlight range to draw in rendered text.
/// `byte_start`/`byte_end` are relative to the concatenated span text.
#[derive(Debug, Clone, Copy)]
pub struct HighlightRange {
    pub byte_start: usize,
    pub byte_end: usize,
    pub color: [u8; 3],
    pub alpha: u8,
}

/// A byte range to draw as an underline (for links).
#[derive(Debug, Clone)]
pub struct LinkRange {
    pub byte_start: usize,
    pub byte_end: usize,
    pub url: Option<String>,
}

/// A status bar pane specification.
#[derive(Debug, Clone)]
pub struct StatusPane {
    pub text: String,
    pub bg: [u8; 3],
    pub fg: [u8; 3],
    pub bold: bool,
    /// If true, this pane expands to fill remaining width after fixed panes.
    pub fill: bool,
}

/// A text span with color, weight, and style for pixel rendering.
#[derive(Debug, Clone)]
pub struct StyledTextSpan {
    pub text: String,
    pub color: [u8; 3],
    pub bold: bool,
    pub italic: bool,
}

/// One channel of `src` laid over `dst` with opacity `alpha` out of 255.
pub open spec fn blend_channel(dst: u8, src: u8, alpha: nat) -> u8 {
    ((dst * (255 - alpha) + src * alpha) / 255) as u8
}

/// Alpha-blend a source pixel onto a destination pixel in place: the three
/// color channels are mixed, and the result is fully opaque.
pub fn blend_pixel(dst: &mut [u8], src: &[u8], alpha: u32)
    requires
        old(dst)@.len() >= 4,
        src@.len() >= 3,
        alpha <= 255,
    ensures
        final(dst)@ == old(dst)@.update(0, blend_channel(old(dst)@[0], src@[0], alpha as nat)).update(
            1,
            blend_channel(old(dst)@[1], src@[1], alpha as nat),
        ).update(2, blend_channel(old(dst)@[2], src@[2], alpha as nat)).update(3, 255u8),
{
    let inv = 255 - alpha;
    let mut c: usize = 0;
    while c < 3
        invariant
            c <= 3,
            inv == 255 - alpha,
            alpha <= 255,
            src@.len() >= 3,
            old(dst)@.len() >= 4,
            dst@.len() == old(dst)@.len(),
            forall|k: int|
                0 <= k < dst@.len() ==> #[trigger] dst@[k] == if k < c {
                    blend_channel(old(dst)@[k], src@[k], alpha as nat)
                } else {
                    old(dst)@[k]
                },
        decreases 3 - c,
    {
        let d = dst[c] as u32;
        let s = src[c] as u32;
        assert(d * inv + s * alpha <= 255 * 255) by (nonlinear_arith)
            requires
                d <= 255,
                s <= 255,
                inv + alpha == 255,
        ;
        dst[c] = ((d * inv + s * alpha) / 255) as u8;
        c = c + 1;
    }
    dst[3] = 255;
    assert(dst@ =~= old(dst)@.update(0, blend_channel(old(dst)@[0], src@[0], alpha as nat)).update(
        1,
        blend_channel(old(dst)@[1], src@[1], alpha as nat),
    ).update(2, blend_channel(old(dst)@[2], src@[2], alpha as nat)).update(3, 255u8));
}

/// Whether the pixel `(x, y)` lies inside a `w` by `h` rectangle whose corners
/// are rounded with radius `r` (at most half the shorter side).
pub open spec fn inside_rounded_rect(x: int, y: int, w: int, h: int, r0: int) -> bool {
    if w == 0 || h == 0 {
        false
    } else {
        let r = if r0 <= w / 2 && r0 <= h / 2 {
            r0
        } else if w / 2 <= h / 2 {
            w / 2
        } else {
            h / 2
        };
        if x < r && y < r {
            (r - x) * (r - x) + (r - y) * (r - y) <= r * r
        } else if x >= w - r && y < r {
            (x - (w - r - 1)) * (x - (w - r - 1)) + (r - y) * (r - y) <= r * r
        } else if x < r && y >= h - r {
            (r - x) * (r - x) + (y - (h - r - 1)) * (y - (h - r - 1)) <= r * r
        } else if x >= w - r && y >= h - r {
            (x - (w - r - 1)) * (x - (w - r - 1)) + (y - (h - r - 1)) * (y - (h - r - 1)) <= r * r
        } else {
            true
        }
    }
}

/// Check if a point (x, y) is inside a rounded rectangle of size (w, h) with corner radius r.
pub fn is_inside_rounded_rect(x: u32, y: u32, w: u32, h: u32, r: u32) -> (b: bool)
    ensures
        b == inside_rounded_rect(x as int, y as int, w as int, h as int, r as int),
{
    if w == 0 || h == 0 {
        return false;
    }
    let half_w = w / 2;
    let half_h = h / 2;
    let r = if r <= half_w && r <= half_h {
        r
    } else if half_w <= half_h {
        half_w
    } else {
        half_h
    };
    let (x, y, w, h, r) = (x as u128, y as u128, w as u128, h as u128, r as u128);
    assert(r * r <= 0x1_0000_0000u128 * 0x1_0000_0000u128) by (nonlinear_arith)
        requires
            r <= 0x1_0000_0000u128,
    ;
    let rr = r * r;
    if x < r && y < r {
        let dx = r - x;
        let dy = r - y;
        assert(dx * dx + dy * dy <= 0x3_0000_0000u128 * 0x3_0000_0000u128) by (nonlinear_arith)
            requires
                dx <= 0x1_0000_0000u128,
                dy <= 0x1_0000_0000u128,
        ;
        return dx * dx + dy * dy <= rr;
    }
    if x >= w - r && y < r {
        let dx = x - (w - r - 1);
        let dy = r - y;
        assert(dx * dx + dy * dy <= 0x3_0000_0000u128 * 0x3_0000_0000u128) by (nonlinear_arith)
            requires
                dx <= 0x1_0000_0000u128,
                dy <= 0x1_0000_0000u128,
        ;
        return dx * dx + dy * dy <= rr;
    }
    if x < r && y >= h - r {
        let dx = r - x;
        let dy = y - (h - r - 1);
        assert(dx * dx + dy * dy <= 0x3_0000_0000u128 * 0x3_0000_0000u128) by (nonlinear_arith)
            requires
                dx <= 0x1_0000_0000u128,
                dy <= 0x1_0000_0000u128,
        ;
        return dx * dx + dy * dy <= rr;
    }
    if x >= w - r && y >= h - r {
        let dx = x - (w - r - 1);
        let dy = y - (h - r - 1);
        assert(dx * dx + dy * dy <= 0x3_0000_0000u128 * 0x3_0000_0000u128) by (nonlinear_arith)
            requires
                dx <= 0x1_0000_0000u128,
                dy <= 0x1_0000_0000u128,
        ;
        return dx * dx + dy * dy <= rr;
    }
    true
}

/// The non-breaking space and arrow drawn after the text of a link.
pub open spec fn link_marker() -> Seq<char> {
    seq!['\u{00A0}', '↗']
}

/// The text span that a document span is drawn as: code in the inline-code
/// color, links in the link color followed by the link marker, the rest in
/// the text color; bold and italic are kept.
pub open spec fn text_span_for(s: SpanModel, theme: Theme, r: StyledTextSpan) -> bool {
    &&& r.color == (if s.style.code {
        rgb_of(theme.inline_code)
    } else if s.link_url is Some {
        rgb_of(theme.link)
    } else {
        rgb_of(theme.text)
    })
    &&& r.text@ == (if s.link_url is Some {
        s.text + link_marker()
    } else {
        s.text
    })
    &&& r.bold == s.style.bold
    &&& r.italic == s.style.italic
}

/// Convert document spans to `StyledTextSpan`s using theme colors.
/// Shared by paragraph, blockquote and list rendering.
pub fn styled_spans_to_text_spans(spans: &Vec<StyledSpan>, theme: &Theme) -> (r: Vec<StyledTextSpan>)
    ensures
        r.len() == spans.len(),
        forall|i: int| 0 <= i < r.len() ==> text_span_for(span_model(spans@[i]), *theme, #[trigger] r@[i]),
{
    let mut result: Vec<StyledTextSpan> = Vec::new();
    let mut i: usize = 0;
    while i < spans.len()
        invariant
            i <= spans.len(),
            result.len() == i,
            forall|k: int| 0 <= k < i ==> text_span_for(span_model(spans@[k]), *theme, #[trigger] result@[k]),
        decreases spans.len() - i,
    {
        let s = &spans[i];
        let color = if s.style.code {
            color_to_rgb(theme.inline_code)
        } else if s.link_url.is_some() {
            color_to_rgb(theme.link)
        } else {
            color_to_rgb(theme.text)
        };
        let mut text = copy_string(&s.text);
        if s.link_url.is_some() {
            push_char(&mut text, '\u{00A0}');
            push_char(&mut text, '↗');
            assert(text@ =~= s.text@ + link_marker());
        }
        result.push(StyledTextSpan { text, color, bold: s.style.bold, italic: s.style.italic });
        i = i + 1;
    }
    result
}


/// Full opacity paints the source; none keeps the destination.
pub proof fn law_blend_extremes(dst: u8, src: u8)
    ensures
        blend_channel(dst, src, 255) == src,
        blend_channel(dst, src, 0) == dst,
{
    assert((dst * 0 + src * 255) / 255 == src) by (nonlinear_arith);
    assert((dst * 255 + src * 0) / 255 == dst) by (nonlinear_arith);
}

/// Where each line of a text starts, in bytes: at 0, and just after each
/// line feed.
pub open spec fn line_starts(t: Seq<char>) -> Seq<nat>
    decreases t.len(),
{
    if t.len() == 0 {
        seq![0]
    } else {
        let s = line_starts(t.drop_last());
        if t.last() == '\n' {
            s.push(byte_len(t))
        } else {
            s
        }
    }
}

/// The byte offset at which each line of a text starts, for matching the
/// glyphs of a laid-out line with byte ranges of the whole text.
pub fn line_byte_offsets(text: &str) -> (r: Vec<usize>)
    requires
        byte_len(text@) < usize::MAX,
    ensures
        r@.map_values(|x: usize| x as nat) == line_starts(text@),
{
    let chars = crate::text::chars_of(text);
    let mut r: Vec<usize> = Vec::new();
    r.push(0);
    let mut off: usize = 0;
    let mut i: usize = 0;
    proof {
        assert(chars@.take(0) =~= Seq::<char>::empty());
        assert(r@.map_values(|x: usize| x as nat) =~= line_starts(chars@.take(0)));
    }
    while i < chars.len()
        invariant
            i <= chars.len(),
            chars@ == text@,
            byte_len(text@) < usize::MAX,
            off == byte_len(chars@.take(i as int)),
            r@.map_values(|x: usize| x as nat) == line_starts(chars@.take(i as int)),
        decreases chars.len() - i,
    {
        let c = chars[i];
        proof {
            lemma_encode_push(chars@.take(i as int), c);
            assert(chars@.take(i + 1) =~= chars@.take(i as int).push(c));
            crate::session::lemma_encode_prefix(chars@, (i + 1) as nat);
        }
        off = off + utf8_width(c);
        if c == '\n' {
            r.push(off);
        }
        proof {
            let t = chars@.take(i + 1);
            assert(t.drop_last() =~= chars@.take(i as int));
            assert(t.last() == c);
            assert(r@.map_values(|x: usize| x as nat) =~= line_starts(t));
        }
        i = i + 1;
    }
    proof {
        assert(chars@.take(chars.len() as int) =~= chars@);
    }
    r
}

} // verus!
