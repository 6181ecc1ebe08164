//! Color themes: the built-in palettes, hex color parsing, and user
//! overrides applied on top of a palette.

use vstd::prelude::*;
use crate::text::{chars_equal, chars_of};

verus! {

/// A terminal color: a 24-bit color, or one of the two named colors that
/// the palettes use.
#[derive(Debug, Clone, Copy, PartialEq, Eq, Structural)]
pub enum Color {
    Rgb(u8, u8, u8),
    Black,
    White,
}

#[derive(Debug, Clone, Copy, PartialEq, Eq, Structural)]
pub struct Theme {
    pub background: Color,
    pub text: Color,
    pub status_bar_view: Color,
    pub status_bar_source: Color,
    pub status_bar_select: Color,
    pub status_bar_fg: Color,
    pub status_filename_bg: Color,
    pub status_info_bg: Color,
    pub status_keys_bg: Color,
    pub status_mid_fg: Color,
    pub status_dim_fg: Color,
    pub search_match: Color,
    pub search_match_fg: Color,
    pub search_current: Color,
    pub search_current_fg: Color,
    pub search_bar: Color,
    pub selection: Color,
    pub selection_fg: Color,
    pub cursor: Color,
    pub cursor_fg: Color,
    pub help_bg: Color,
    pub help_border: Color,
    pub help_fg: Color,
    pub heading_text: Color,
    pub inline_code: Color,
    pub inline_code_bg: Color,
    pub link: Color,
    pub list_bullet: Color,
    pub hr: Color,
    pub blockquote_bg: Color,
    pub blockquote_bar: Color,
    pub code_block_border: Color,
    pub code_block_text: Color,
    pub table_border: Color,
    pub image_match: Color,
    pub image_match_current: Color,
}

/// Color overrides from the configuration file, as hex strings such as `"#FF0000"`.
#[derive(Debug, Default)]
pub struct ColorsConfig {
    pub background: Option<String>,
    pub text: Option<String>,
    pub status_bar_view: Option<String>,
    pub status_bar_source: Option<String>,
    pub status_bar_select: Option<String>,
    pub status_bar_fg: Option<String>,
    pub status_filename_bg: Option<String>,
    pub status_info_bg: Option<String>,
    pub status_keys_bg: Option<String>,
    pub status_mid_fg: Option<String>,
    pub status_dim_fg: Option<String>,
    pub search_match: Option<String>,
    pub search_match_fg: Option<String>,
    pub search_current: Option<String>,
    pub search_current_fg: Option<String>,
    pub search_bar: Option<String>,
    pub selection: Option<String>,
    pub selection_fg: Option<String>,
    pub cursor: Option<String>,
    pub cursor_fg: Option<String>,
    pub help_bg: Option<String>,
    pub help_border: Option<String>,
    pub help_fg: Option<String>,
    pub heading_text: Option<String>,
    pub inline_code: Option<String>,
    pub inline_code_bg: Option<String>,
    pub link: Option<String>,
    pub list_bullet: Option<String>,
    pub hr: Option<String>,
    pub blockquote_bg: Option<String>,
    pub blockquote_bar: Option<String>,
    pub code_block_border: Option<String>,
    pub code_block_text: Option<String>,
    pub table_border: Option<String>,
    pub image_match: Option<String>,
    pub image_match_current: Option<String>,
}

// ── Hex colors ──────────────────────────────────────────────────────────────
/// The value of a hexadecimal digit.
pub open spec fn hex_digit(c: char) -> Option<u8> {
    if '0' <= c && c <= '9' {
        Some((c as u32 - '0' as u32) as u8)
    } else if 'a' <= c && c <= 'f' {
        Some((c as u32 - 'a' as u32 + 10) as u8)
    } else if 'A' <= c && c <= 'F' {
        Some((c as u32 - 'A' as u32 + 10) as u8)
    } else {
        None
    }
}

/// The byte that two hexadecimal digits write, the high digit first.
pub open spec fn hex_byte(a: char, b: char) -> Option<u8> {
    match (hex_digit(a), hex_digit(b)) {
        (Some(x), Some(y)) => Some((16 * x + y) as u8),
        _ => None,
    }
}

/// The color that `#RRGGBB` writes.
pub open spec fn hex_rgb(s: Seq<char>) -> Option<(u8, u8, u8)> {
    if s.len() != 7 || s[0] != '#' {
        None
    } else {
        match (hex_byte(s[1], s[2]), hex_byte(s[3], s[4]), hex_byte(s[5], s[6])) {
            (Some(r), Some(g), Some(b)) => Some((r, g, b)),
            _ => None,
        }
    }
}

fn hex_digit_value(c: char) -> (r: Option<u8>)
    ensures
        r == hex_digit(c),
{
    if '0' <= c && c <= '9' {
        Some((c as u32 - '0' as u32) as u8)
    } else if 'a' <= c && c <= 'f' {
        Some((c as u32 - 'a' as u32 + 10) as u8)
    } else if 'A' <= c && c <= 'F' {
        Some((c as u32 - 'A' as u32 + 10) as u8)
    } else {
        None
    }
}

fn hex_byte_value(a: char, b: char) -> (r: Option<u8>)
    ensures
        r == hex_byte(a, b),
{
    match (hex_digit_value(a), hex_digit_value(b)) {
        (Some(x), Some(y)) => Some(16 * x + y),
        _ => None,
    }
}

/// Reads `#RRGGBB` as three bytes.
fn parse_hex_rgb(s: &str) -> (r: Option<[u8; 3]>)
    ensures
        match hex_rgb(s@) {
            Some((x, y, z)) => r == Some([x, y, z]),
            None => r is None,
        },
{
    let c = chars_of(s);
    if c.len() != 7 || c[0] != '#' {
        return None;
    }
    let r = hex_byte_value(c[1], c[2]);
    let g = hex_byte_value(c[3], c[4]);
    let b = hex_byte_value(c[5], c[6]);
    match (r, g, b) {
        (Some(r), Some(g), Some(b)) => Some([r, g, b]),
        _ => None,
    }
}

/// The color that `#RRGGBB` writes.
pub open spec fn hex_color(s: Seq<char>) -> Option<Color> {
    match hex_rgb(s) {
        Some((r, g, b)) => Some(Color::Rgb(r, g, b)),
        None => None,
    }
}

/// Reads a `#RRGGBB` color: `#` and six hexadecimal digits, in either case.
pub fn parse_hex_color(s: &str) -> (r: Option<Color>)
    ensures
        r == hex_color(s@),
{
    match parse_hex_rgb(s) {
        Some(rgb) => Some(Color::Rgb(rgb[0], rgb[1], rgb[2])),
        None => None,
    }
}

/// The red, green and blue bytes of a color; named colors read as white.
pub open spec fn rgb_of(c: Color) -> [u8; 3] {
    match c {
        Color::Rgb(r, g, b) => [r, g, b],
        _ => [255, 255, 255],
    }
}

/// The red, green and blue bytes of a color; named colors read as white.
pub fn color_to_rgb(c: Color) -> (r: [u8; 3])
    ensures
        r == rgb_of(c),
{
    match c {
        Color::Rgb(r, g, b) => [r, g, b],
        _ => [255, 255, 255],
    }
}

// ── Built-in palettes ───────────────────────────────────────────────────────
pub open spec fn spec_default_theme() -> Theme {
    Theme {
        background: Color::Rgb(22, 22, 30),
        text: Color::Rgb(200, 200, 210),
        status_bar_view: Color::Rgb(40, 60, 120),
        status_bar_source: Color::Rgb(30, 100, 50),
        status_bar_select: Color::Rgb(140, 90, 20),
        status_bar_fg: Color::White,
        status_filename_bg: Color::Rgb(45, 45, 60),
        status_info_bg: Color::Rgb(35, 35, 48),
        status_keys_bg: Color::Rgb(30, 30, 42),
        status_mid_fg: Color::Rgb(180, 180, 195),
        status_dim_fg: Color::Rgb(120, 120, 140),
        search_match: Color::Rgb(200, 180, 80),
        search_match_fg: Color::Black,
        search_current: Color::Rgb(255, 200, 50),
        search_current_fg: Color::Black,
        search_bar: Color::Rgb(40, 40, 60),
        selection: Color::Rgb(40, 60, 90),
        selection_fg: Color::White,
        cursor: Color::Rgb(200, 200, 200),
        cursor_fg: Color::Black,
        help_bg: Color::Rgb(30, 30, 45),
        help_border: Color::Rgb(80, 80, 100),
        help_fg: Color::Rgb(200, 200, 210),
        heading_text: Color::Rgb(230, 230, 230),
        inline_code: Color::Rgb(220, 180, 100),
        inline_code_bg: Color::Rgb(40, 40, 50),
        link: Color::Rgb(100, 150, 255),
        list_bullet: Color::Rgb(120, 120, 140),
        hr: Color::Rgb(80, 80, 95),
        blockquote_bg: Color::Rgb(30, 30, 40),
        blockquote_bar: Color::Rgb(80, 80, 200),
        code_block_border: Color::Rgb(80, 80, 100),
        code_block_text: Color::White,
        table_border: Color::Rgb(70, 70, 85),
        image_match: Color::Rgb(60, 55, 20),
        image_match_current: Color::Rgb(40, 38, 15),
    }
}

pub(crate) fn default_theme() -> (t: Theme)
    ensures
        t == spec_default_theme(),
{
    Theme {
        background: Color::Rgb(22, 22, 30),
        text: Color::Rgb(200, 200, 210),
        status_bar_view: Color::Rgb(40, 60, 120),
        status_bar_source: Color::Rgb(30, 100, 50),
        status_bar_select: Color::Rgb(140, 90, 20),
        status_bar_fg: Color::White,
        status_filename_bg: Color::Rgb(45, 45, 60),
        status_info_bg: Color::Rgb(35, 35, 48),
        status_keys_bg: Color::Rgb(30, 30, 42),
        status_mid_fg: Color::Rgb(180, 180, 195),
        status_dim_fg: Color::Rgb(120, 120, 140),
        search_match: Color::Rgb(200, 180, 80),
        search_match_fg: Color::Black,
        search_current: Color::Rgb(255, 200, 50),
        search_current_fg: Color::Black,
        search_bar: Color::Rgb(40, 40, 60),
        selection: Color::Rgb(40, 60, 90),
        selection_fg: Color::White,
        cursor: Color::Rgb(200, 200, 200),
        cursor_fg: Color::Black,
        help_bg: Color::Rgb(30, 30, 45),
        help_border: Color::Rgb(80, 80, 100),
        help_fg: Color::Rgb(200, 200, 210),
        heading_text: Color::Rgb(230, 230, 230),
        inline_code: Color::Rgb(220, 180, 100),
        inline_code_bg: Color::Rgb(40, 40, 50),
        link: Color::Rgb(100, 150, 255),
        list_bullet: Color::Rgb(120, 120, 140),
        hr: Color::Rgb(80, 80, 95),
        blockquote_bg: Color::Rgb(30, 30, 40),
        blockquote_bar: Color::Rgb(80, 80, 200),
        code_block_border: Color::Rgb(80, 80, 100),
        code_block_text: Color::White,
        table_border: Color::Rgb(70, 70, 85),
        image_match: Color::Rgb(60, 55, 20),
        image_match_current: Color::Rgb(40, 38, 15),
    }
}

pub open spec fn spec_catppuccin_mocha() -> Theme {
    Theme {
        background: Color::Rgb(0x1E, 0x1E, 0x2E),
        text: Color::Rgb(0xCD, 0xD6, 0xF4),
        status_bar_view: Color::Rgb(0x89, 0xB4, 0xFA),
        status_bar_source: Color::Rgb(0xA6, 0xE3, 0xA1),
        status_bar_select: Color::Rgb(0xFA, 0xB3, 0x87),
        status_bar_fg: Color::Rgb(0x1E, 0x1E, 0x2E),
        status_filename_bg: Color::Rgb(0x31, 0x32, 0x44),
        status_info_bg: Color::Rgb(0x28, 0x28, 0x3A),
        status_keys_bg: Color::Rgb(0x24, 0x24, 0x36),
        status_mid_fg: Color::Rgb(0xBA, 0xC2, 0xDE),
        status_dim_fg: Color::Rgb(0x6C, 0x70, 0x86),
        search_match: Color::Rgb(0xF9, 0xE2, 0xAF),
        search_match_fg: Color::Rgb(0x1E, 0x1E, 0x2E),
        search_current: Color::Rgb(0xFA, 0xB3, 0x87),
        search_current_fg: Color::Rgb(0x1E, 0x1E, 0x2E),
        search_bar: Color::Rgb(0x31, 0x32, 0x44),
        selection: Color::Rgb(0x45, 0x47, 0x5A),
        selection_fg: Color::Rgb(0xCD, 0xD6, 0xF4),
        cursor: Color::Rgb(0xBA, 0xC2, 0xDE),
        cursor_fg: Color::Rgb(0x1E, 0x1E, 0x2E),
        help_bg: Color::Rgb(0x18, 0x18, 0x25),
        help_border: Color::Rgb(0x6C, 0x70, 0x86),
        help_fg: Color::Rgb(0xCD, 0xD6, 0xF4),
        heading_text: Color::Rgb(0xCD, 0xD6, 0xF4),
        inline_code: Color::Rgb(0xFA, 0xB3, 0x87),
        inline_code_bg: Color::Rgb(0x31, 0x32, 0x44),
        link: Color::Rgb(0x89, 0xB4, 0xFA),
        list_bullet: Color::Rgb(0x6C, 0x70, 0x86),
        hr: Color::Rgb(0x45, 0x47, 0x5A),
        blockquote_bg: Color::Rgb(0x18, 0x18, 0x25),
        blockquote_bar: Color::Rgb(0xB4, 0xBE, 0xFE),
        code_block_border: Color::Rgb(0x45, 0x47, 0x5A),
        code_block_text: Color::Rgb(0xCD, 0xD6, 0xF4),
        table_border: Color::Rgb(0x31, 0x32, 0x44),
        image_match: Color::Rgb(0x45, 0x47, 0x5A),
        image_match_current: Color::Rgb(0x31, 0x32, 0x44),
    }
}

fn catppuccin_mocha() -> (t: Theme)
    ensures
        t == spec_catppuccin_mocha(),
{
    Theme {
        background: Color::Rgb(0x1E, 0x1E, 0x2E),
        text: Color::Rgb(0xCD, 0xD6, 0xF4),
        status_bar_view: Color::Rgb(0x89, 0xB4, 0xFA),
        status_bar_source: Color::Rgb(0xA6, 0xE3, 0xA1),
        status_bar_select: Color::Rgb(0xFA, 0xB3, 0x87),
        status_bar_fg: Color::Rgb(0x1E, 0x1E, 0x2E),
        status_filename_bg: Color::Rgb(0x31, 0x32, 0x44),
        status_info_bg: Color::Rgb(0x28, 0x28, 0x3A),
        status_keys_bg: Color::Rgb(0x24, 0x24, 0x36),
        status_mid_fg: Color::Rgb(0xBA, 0xC2, 0xDE),
        status_dim_fg: Color::Rgb(0x6C, 0x70, 0x86),
        search_match: Color::Rgb(0xF9, 0xE2, 0xAF),
        search_match_fg: Color::Rgb(0x1E, 0x1E, 0x2E),
        search_current: Color::Rgb(0xFA, 0xB3, 0x87),
        search_current_fg: Color::Rgb(0x1E, 0x1E, 0x2E),
        search_bar: Color::Rgb(0x31, 0x32, 0x44),
        selection: Color::Rgb(0x45, 0x47, 0x5A),
        selection_fg: Color::Rgb(0xCD, 0xD6, 0xF4),
        cursor: Color::Rgb(0xBA, 0xC2, 0xDE),
        cursor_fg: Color::Rgb(0x1E, 0x1E, 0x2E),
        help_bg: Color::Rgb(0x18, 0x18, 0x25),
        help_border: Color::Rgb(0x6C, 0x70, 0x86),
        help_fg: Color::Rgb(0xCD, 0xD6, 0xF4),
        heading_text: Color::Rgb(0xCD, 0xD6, 0xF4),
        inline_code: Color::Rgb(0xFA, 0xB3, 0x87),
        inline_code_bg: Color::Rgb(0x31, 0x32, 0x44),
        link: Color::Rgb(0x89, 0xB4, 0xFA),
        list_bullet: Color::Rgb(0x6C, 0x70, 0x86),
        hr: Color::Rgb(0x45, 0x47, 0x5A),
        blockquote_bg: Color::Rgb(0x18, 0x18, 0x25),
        blockquote_bar: Color::Rgb(0xB4, 0xBE, 0xFE),
        code_block_border: Color::Rgb(0x45, 0x47, 0x5A),
        code_block_text: Color::Rgb(0xCD, 0xD6, 0xF4),
        table_border: Color::Rgb(0x31, 0x32, 0x44),
        image_match: Color::Rgb(0x45, 0x47, 0x5A),
        image_match_current: Color::Rgb(0x31, 0x32, 0x44),
    }
}

pub open spec fn spec_catppuccin_latte() -> Theme {
    Theme {
        background: Color::Rgb(0xEF, 0xF1, 0xF5),
        text: Color::Rgb(0x4C, 0x4F, 0x69),
        status_bar_view: Color::Rgb(0x1E, 0x66, 0xF5),
        status_bar_source: Color::Rgb(0x40, 0xA0, 0x2B),
        status_bar_select: Color::Rgb(0xFE, 0x64, 0x0B),
        status_bar_fg: Color::Rgb(0xEF, 0xF1, 0xF5),
        status_filename_bg: Color::Rgb(0xDC, 0xE0, 0xE8),
        status_info_bg: Color::Rgb(0xE2, 0xE5, 0xEC),
        status_keys_bg: Color::Rgb(0xE6, 0xE9, 0xEF),
        status_mid_fg: Color::Rgb(0x5C, 0x5F, 0x77),
        status_dim_fg: Color::Rgb(0x9C, 0xA0, 0xB0),
        search_match: Color::Rgb(0xDF, 0x8E, 0x1D),
        search_match_fg: Color::Rgb(0xEF, 0xF1, 0xF5),
        search_current: Color::Rgb(0xFE, 0x64, 0x0B),
        search_current_fg: Color::Rgb(0xEF, 0xF1, 0xF5),
        search_bar: Color::Rgb(0xCC, 0xD0, 0xDA),
        selection: Color::Rgb(0xBC, 0xC0, 0xCC),
        selection_fg: Color::Rgb(0x4C, 0x4F, 0x69),
        cursor: Color::Rgb(0x5C, 0x5F, 0x77),
        cursor_fg: Color::Rgb(0xEF, 0xF1, 0xF5),
        help_bg: Color::Rgb(0xE6, 0xE9, 0xEF),
        help_border: Color::Rgb(0x9C, 0xA0, 0xB0),
        help_fg: Color::Rgb(0x4C, 0x4F, 0x69),
        heading_text: Color::Rgb(0x4C, 0x4F, 0x69),
        inline_code: Color::Rgb(0xFE, 0x64, 0x0B),
        inline_code_bg: Color::Rgb(0xCC, 0xD0, 0xDA),
        link: Color::Rgb(0x1E, 0x66, 0xF5),
        list_bullet: Color::Rgb(0x9C, 0xA0, 0xB0),
        hr: Color::Rgb(0xBC, 0xC0, 0xCC),
        blockquote_bg: Color::Rgb(0xE6, 0xE9, 0xEF),
        blockquote_bar: Color::Rgb(0x72, 0x87, 0xFD),
        code_block_border: Color::Rgb(0xBC, 0xC0, 0xCC),
        code_block_text: Color::Rgb(0x4C, 0x4F, 0x69),
        table_border: Color::Rgb(0xBC, 0xC0, 0xCC),
        image_match: Color::Rgb(0xBC, 0xC0, 0xCC),
        image_match_current: Color::Rgb(0xCC, 0xD0, 0xDA),
    }
}

fn catppuccin_latte() -> (t: Theme)
    ensures
        t == spec_catppuccin_latte(),
{
    Theme {
        background: Color::Rgb(0xEF, 0xF1, 0xF5),
        text: Color::Rgb(0x4C, 0x4F, 0x69),
        status_bar_view: Color::Rgb(0x1E, 0x66, 0xF5),
        status_bar_source: Color::Rgb(0x40, 0xA0, 0x2B),
        status_bar_select: Color::Rgb(0xFE, 0x64, 0x0B),
        status_bar_fg: Color::Rgb(0xEF, 0xF1, 0xF5),
        status_filename_bg: Color::Rgb(0xDC, 0xE0, 0xE8),
        status_info_bg: Color::Rgb(0xE2, 0xE5, 0xEC),
        status_keys_bg: Color::Rgb(0xE6, 0xE9, 0xEF),
        status_mid_fg: Color::Rgb(0x5C, 0x5F, 0x77),
        status_dim_fg: Color::Rgb(0x9C, 0xA0, 0xB0),
        search_match: Color::Rgb(0xDF, 0x8E, 0x1D),
        search_match_fg: Color::Rgb(0xEF, 0xF1, 0xF5),
        search_current: Color::Rgb(0xFE, 0x64, 0x0B),
        search_current_fg: Color::Rgb(0xEF, 0xF1, 0xF5),
        search_bar: Color::Rgb(0xCC, 0xD0, 0xDA),
        selection: Color::Rgb(0xBC, 0xC0, 0xCC),
        selection_fg: Color::Rgb(0x4C, 0x4F, 0x69),
        cursor: Color::Rgb(0x5C, 0x5F, 0x77),
        cursor_fg: Color::Rgb(0xEF, 0xF1, 0xF5),
        help_bg: Color::Rgb(0xE6, 0xE9, 0xEF),
        help_border: Color::Rgb(0x9C, 0xA0, 0xB0),
        help_fg: Color::Rgb(0x4C, 0x4F, 0x69),
        heading_text: Color::Rgb(0x4C, 0x4F, 0x69),
        inline_code: Color::Rgb(0xFE, 0x64, 0x0B),
        inline_code_bg: Color::Rgb(0xCC, 0xD0, 0xDA),
        link: Color::Rgb(0x1E, 0x66, 0xF5),
        list_bullet: Color::Rgb(0x9C, 0xA0, 0xB0),
        hr: Color::Rgb(0xBC, 0xC0, 0xCC),
        blockquote_bg: Color::Rgb(0xE6, 0xE9, 0xEF),
        blockquote_bar: Color::Rgb(0x72, 0x87, 0xFD),
        code_block_border: Color::Rgb(0xBC, 0xC0, 0xCC),
        code_block_text: Color::Rgb(0x4C, 0x4F, 0x69),
        table_border: Color::Rgb(0xBC, 0xC0, 0xCC),
        image_match: Color::Rgb(0xBC, 0xC0, 0xCC),
        image_match_current: Color::Rgb(0xCC, 0xD0, 0xDA),
    }
}

pub open spec fn spec_catppuccin_frappe() -> Theme {
    Theme {
        background: Color::Rgb(0x30, 0x34, 0x46),
        text: Color::Rgb(0xC6, 0xD0, 0xF5),
        status_bar_view: Color::Rgb(0x8C, 0xAA, 0xEE),
        status_bar_source: Color::Rgb(0xA6, 0xD1, 0x89),
        status_bar_select: Color::Rgb(0xEF, 0x9F, 0x76),
        status_bar_fg: Color::Rgb(0x30, 0x34, 0x46),
        status_filename_bg: Color::Rgb(0x41, 0x45, 0x59),
        status_info_bg: Color::Rgb(0x38, 0x3C, 0x50),
        status_keys_bg: Color::Rgb(0x33, 0x37, 0x4A),
        status_mid_fg: Color::Rgb(0xB5, 0xBF, 0xE2),
        status_dim_fg: Color::Rgb(0x73, 0x78, 0x99),
        search_match: Color::Rgb(0xE5, 0xC8, 0x90),
        search_match_fg: Color::Rgb(0x30, 0x34, 0x46),
        search_current: Color::Rgb(0xEF, 0x9F, 0x76),
        search_current_fg: Color::Rgb(0x30, 0x34, 0x46),
        search_bar: Color::Rgb(0x41, 0x45, 0x59),
        selection: Color::Rgb(0x51, 0x57, 0x6D),
        selection_fg: Color::Rgb(0xC6, 0xD0, 0xF5),
        cursor: Color::Rgb(0xB5, 0xBF, 0xE2),
        cursor_fg: Color::Rgb(0x30, 0x34, 0x46),
        help_bg: Color::Rgb(0x29, 0x2C, 0x3C),
        help_border: Color::Rgb(0x73, 0x78, 0x99),
        help_fg: Color::Rgb(0xC6, 0xD0, 0xF5),
        heading_text: Color::Rgb(0xC6, 0xD0, 0xF5),
        inline_code: Color::Rgb(0xEF, 0x9F, 0x76),
        inline_code_bg: Color::Rgb(0x41, 0x45, 0x59),
        link: Color::Rgb(0x8C, 0xAA, 0xEE),
        list_bullet: Color::Rgb(0x73, 0x78, 0x99),
        hr: Color::Rgb(0x51, 0x57, 0x6D),
        blockquote_bg: Color::Rgb(0x29, 0x2C, 0x3C),
        blockquote_bar: Color::Rgb(0xBA, 0xBB, 0xF1),
        code_block_border: Color::Rgb(0x51, 0x57, 0x6D),
        code_block_text: Color::Rgb(0xC6, 0xD0, 0xF5),
        table_border: Color::Rgb(0x41, 0x45, 0x59),
        image_match: Color::Rgb(0x51, 0x57, 0x6D),
        image_match_current: Color::Rgb(0x41, 0x45, 0x59),
    }
}

fn catppuccin_frappe() -> (t: Theme)
    ensures
        t == spec_catppuccin_frappe(),
{
    Theme {
        background: Color::Rgb(0x30, 0x34, 0x46),
        text: Color::Rgb(0xC6, 0xD0, 0xF5),
        status_bar_view: Color::Rgb(0x8C, 0xAA, 0xEE),
        status_bar_source: Color::Rgb(0xA6, 0xD1, 0x89),
        status_bar_select: Color::Rgb(0xEF, 0x9F, 0x76),
        status_bar_fg: Color::Rgb(0x30, 0x34, 0x46),
        status_filename_bg: Color::Rgb(0x41, 0x45, 0x59),
        status_info_bg: Color::Rgb(0x38, 0x3C, 0x50),
        status_keys_bg: Color::Rgb(0x33, 0x37, 0x4A),
        status_mid_fg: Color::Rgb(0xB5, 0xBF, 0xE2),
        status_dim_fg: Color::Rgb(0x73, 0x78, 0x99),
        search_match: Color::Rgb(0xE5, 0xC8, 0x90),
        search_match_fg: Color::Rgb(0x30, 0x34, 0x46),
        search_current: Color::Rgb(0xEF, 0x9F, 0x76),
        search_current_fg: Color::Rgb(0x30, 0x34, 0x46),
        search_bar: Color::Rgb(0x41, 0x45, 0x59),
        selection: Color::Rgb(0x51, 0x57, 0x6D),
        selection_fg: Color::Rgb(0xC6, 0xD0, 0xF5),
        cursor: Color::Rgb(0xB5, 0xBF, 0xE2),
        cursor_fg: Color::Rgb(0x30, 0x34, 0x46),
        help_bg: Color::Rgb(0x29, 0x2C, 0x3C),
        help_border: Color::Rgb(0x73, 0x78, 0x99),
        help_fg: Color::Rgb(0xC6, 0xD0, 0xF5),
        heading_text: Color::Rgb(0xC6, 0xD0, 0xF5),
        inline_code: Color::Rgb(0xEF, 0x9F, 0x76),
        inline_code_bg: Color::Rgb(0x41, 0x45, 0x59),
        link: Color::Rgb(0x8C, 0xAA, 0xEE),
        list_bullet: Color::Rgb(0x73, 0x78, 0x99),
        hr: Color::Rgb(0x51, 0x57, 0x6D),
        blockquote_bg: Color::Rgb(0x29, 0x2C, 0x3C),
        blockquote_bar: Color::Rgb(0xBA, 0xBB, 0xF1),
        code_block_border: Color::Rgb(0x51, 0x57, 0x6D),
        code_block_text: Color::Rgb(0xC6, 0xD0, 0xF5),
        table_border: Color::Rgb(0x41, 0x45, 0x59),
        image_match: Color::Rgb(0x51, 0x57, 0x6D),
        image_match_current: Color::Rgb(0x41, 0x45, 0x59),
    }
}

pub open spec fn spec_catppuccin_macchiato() -> Theme {
    Theme {
        background: Color::Rgb(0x24, 0x27, 0x3A),
        text: Color::Rgb(0xCA, 0xD3, 0xF5),
        status_bar_view: Color::Rgb(0x8A, 0xAD, 0xF4),
        status_bar_source: Color::Rgb(0xA6, 0xDA, 0x95),
        status_bar_select: Color::Rgb(0xF5, 0xA9, 0x7F),
        status_bar_fg: Color::Rgb(0x24, 0x27, 0x3A),
        status_filename_bg: Color::Rgb(0x36, 0x3A, 0x4F),
        status_info_bg: Color::Rgb(0x2E, 0x31, 0x44),
        status_keys_bg: Color::Rgb(0x29, 0x2C, 0x3E),
        status_mid_fg: Color::Rgb(0xB8, 0xC0, 0xE0),
        status_dim_fg: Color::Rgb(0x6E, 0x73, 0x8D),
        search_match: Color::Rgb(0xEE, 0xD4, 0x9F),
        search_match_fg: Color::Rgb(0x24, 0x27, 0x3A),
        search_current: Color::Rgb(0xF5, 0xA9, 0x7F),
        search_current_fg: Color::Rgb(0x24, 0x27, 0x3A),
        search_bar: Color::Rgb(0x36, 0x3A, 0x4F),
        selection: Color::Rgb(0x49, 0x4D, 0x64),
        selection_fg: Color::Rgb(0xCA, 0xD3, 0xF5),
        cursor: Color::Rgb(0xB8, 0xC0, 0xE0),
        cursor_fg: Color::Rgb(0x24, 0x27, 0x3A),
        help_bg: Color::Rgb(0x1E, 0x20, 0x30),
        help_border: Color::Rgb(0x6E, 0x73, 0x8D),
        help_fg: Color::Rgb(0xCA, 0xD3, 0xF5),
        heading_text: Color::Rgb(0xCA, 0xD3, 0xF5),
        inline_code: Color::Rgb(0xF5, 0xA9, 0x7F),
        inline_code_bg: Color::Rgb(0x36, 0x3A, 0x4F),
        link: Color::Rgb(0x8A, 0xAD, 0xF4),
        list_bullet: Color::Rgb(0x6E, 0x73, 0x8D),
        hr: Color::Rgb(0x49, 0x4D, 0x64),
        blockquote_bg: Color::Rgb(0x1E, 0x20, 0x30),
        blockquote_bar: Color::Rgb(0xB7, 0xBD, 0xF8),
        code_block_border: Color::Rgb(0x49, 0x4D, 0x64),
        code_block_text: Color::Rgb(0xCA, 0xD3, 0xF5),
        table_border: Color::Rgb(0x36, 0x3A, 0x4F),
        image_match: Color::Rgb(0x49, 0x4D, 0x64),
        image_match_current: Color::Rgb(0x36, 0x3A, 0x4F),
    }
}

fn catppuccin_macchiato() -> (t: Theme)
    ensures
        t == spec_catppuccin_macchiato(),
{
    Theme {
        background: Color::Rgb(0x24, 0x27, 0x3A),
        text: Color::Rgb(0xCA, 0xD3, 0xF5),
        status_bar_view: Color::Rgb(0x8A, 0xAD, 0xF4),
        status_bar_source: Color::Rgb(0xA6, 0xDA, 0x95),
        status_bar_select: Color::Rgb(0xF5, 0xA9, 0x7F),
        status_bar_fg: Color::Rgb(0x24, 0x27, 0x3A),
        status_filename_bg: Color::Rgb(0x36, 0x3A, 0x4F),
        status_info_bg: Color::Rgb(0x2E, 0x31, 0x44),
        status_keys_bg: Color::Rgb(0x29, 0x2C, 0x3E),
        status_mid_fg: Color::Rgb(0xB8, 0xC0, 0xE0),
        status_dim_fg: Color::Rgb(0x6E, 0x73, 0x8D),
        search_match: Color::Rgb(0xEE, 0xD4, 0x9F),
        search_match_fg: Color::Rgb(0x24, 0x27, 0x3A),
        search_current: Color::Rgb(0xF5, 0xA9, 0x7F),
        search_current_fg: Color::Rgb(0x24, 0x27, 0x3A),
        search_bar: Color::Rgb(0x36, 0x3A, 0x4F),
        selection: Color::Rgb(0x49, 0x4D, 0x64),
        selection_fg: Color::Rgb(0xCA, 0xD3, 0xF5),
        cursor: Color::Rgb(0xB8, 0xC0, 0xE0),
        cursor_fg: Color::Rgb(0x24, 0x27, 0x3A),
        help_bg: Color::Rgb(0x1E, 0x20, 0x30),
        help_border: Color::Rgb(0x6E, 0x73, 0x8D),
        help_fg: Color::Rgb(0xCA, 0xD3, 0xF5),
        heading_text: Color::Rgb(0xCA, 0xD3, 0xF5),
        inline_code: Color::Rgb(0xF5, 0xA9, 0x7F),
        inline_code_bg: Color::Rgb(0x36, 0x3A, 0x4F),
        link: Color::Rgb(0x8A, 0xAD, 0xF4),
        list_bullet: Color::Rgb(0x6E, 0x73, 0x8D),
        hr: Color::Rgb(0x49, 0x4D, 0x64),
        blockquote_bg: Color::Rgb(0x1E, 0x20, 0x30),
        blockquote_bar: Color::Rgb(0xB7, 0xBD, 0xF8),
        code_block_border: Color::Rgb(0x49, 0x4D, 0x64),
        code_block_text: Color::Rgb(0xCA, 0xD3, 0xF5),
        table_border: Color::Rgb(0x36, 0x3A, 0x4F),
        image_match: Color::Rgb(0x49, 0x4D, 0x64),
        image_match_current: Color::Rgb(0x36, 0x3A, 0x4F),
    }
}

pub open spec fn spec_dracula() -> Theme {
    Theme {
        background: Color::Rgb(0x28, 0x2A, 0x36),
        text: Color::Rgb(0xF8, 0xF8, 0xF2),
        status_bar_view: Color::Rgb(0xBD, 0x93, 0xF9),
        status_bar_source: Color::Rgb(0x50, 0xFA, 0x7B),
        status_bar_select: Color::Rgb(0xFF, 0xB8, 0x6C),
        status_bar_fg: Color::Rgb(0x28, 0x2A, 0x36),
        status_filename_bg: Color::Rgb(0x44, 0x47, 0x5A),
        status_info_bg: Color::Rgb(0x38, 0x3A, 0x4A),
        status_keys_bg: Color::Rgb(0x31, 0x33, 0x42),
        status_mid_fg: Color::Rgb(0xF8, 0xF8, 0xF2),
        status_dim_fg: Color::Rgb(0x62, 0x72, 0xA4),
        search_match: Color::Rgb(0xF1, 0xFA, 0x8C),
        search_match_fg: Color::Rgb(0x28, 0x2A, 0x36),
        search_current: Color::Rgb(0xFF, 0xB8, 0x6C),
        search_current_fg: Color::Rgb(0x28, 0x2A, 0x36),
        search_bar: Color::Rgb(0x44, 0x47, 0x5A),
        selection: Color::Rgb(0x44, 0x47, 0x5A),
        selection_fg: Color::Rgb(0xF8, 0xF8, 0xF2),
        cursor: Color::Rgb(0xF8, 0xF8, 0xF2),
        cursor_fg: Color::Rgb(0x28, 0x2A, 0x36),
        help_bg: Color::Rgb(0x21, 0x22, 0x2C),
        help_border: Color::Rgb(0x62, 0x72, 0xA4),
        help_fg: Color::Rgb(0xF8, 0xF8, 0xF2),
        heading_text: Color::Rgb(0xF8, 0xF8, 0xF2),
        inline_code: Color::Rgb(0xFF, 0xB8, 0x6C),
        inline_code_bg: Color::Rgb(0x44, 0x47, 0x5A),
        link: Color::Rgb(0x8B, 0xE9, 0xFD),
        list_bullet: Color::Rgb(0x62, 0x72, 0xA4),
        hr: Color::Rgb(0x62, 0x72, 0xA4),
        blockquote_bg: Color::Rgb(0x21, 0x22, 0x2C),
        blockquote_bar: Color::Rgb(0xBD, 0x93, 0xF9),
        code_block_border: Color::Rgb(0x62, 0x72, 0xA4),
        code_block_text: Color::Rgb(0xF8, 0xF8, 0xF2),
        table_border: Color::Rgb(0x44, 0x47, 0x5A),
        image_match: Color::Rgb(0x44, 0x47, 0x5A),
        image_match_current: Color::Rgb(0x38, 0x3A, 0x4A),
    }
}

fn dracula() -> (t: Theme)
    ensures
        t == spec_dracula(),
{
    Theme {
        background: Color::Rgb(0x28, 0x2A, 0x36),
        text: Color::Rgb(0xF8, 0xF8, 0xF2),
        status_bar_view: Color::Rgb(0xBD, 0x93, 0xF9),
        status_bar_source: Color::Rgb(0x50, 0xFA, 0x7B),
        status_bar_select: Color::Rgb(0xFF, 0xB8, 0x6C),
        status_bar_fg: Color::Rgb(0x28, 0x2A, 0x36),
        status_filename_bg: Color::Rgb(0x44, 0x47, 0x5A),
        status_info_bg: Color::Rgb(0x38, 0x3A, 0x4A),
        status_keys_bg: Color::Rgb(0x31, 0x33, 0x42),
        status_mid_fg: Color::Rgb(0xF8, 0xF8, 0xF2),
        status_dim_fg: Color::Rgb(0x62, 0x72, 0xA4),
        search_match: Color::Rgb(0xF1, 0xFA, 0x8C),
        search_match_fg: Color::Rgb(0x28, 0x2A, 0x36),
        search_current: Color::Rgb(0xFF, 0xB8, 0x6C),
        search_current_fg: Color::Rgb(0x28, 0x2A, 0x36),
        search_bar: Color::Rgb(0x44, 0x47, 0x5A),
        selection: Color::Rgb(0x44, 0x47, 0x5A),
        selection_fg: Color::Rgb(0xF8, 0xF8, 0xF2),
        cursor: Color::Rgb(0xF8, 0xF8, 0xF2),
        cursor_fg: Color::Rgb(0x28, 0x2A, 0x36),
        help_bg: Color::Rgb(0x21, 0x22, 0x2C),
        help_border: Color::Rgb(0x62, 0x72, 0xA4),
        help_fg: Color::Rgb(0xF8, 0xF8, 0xF2),
        heading_text: Color::Rgb(0xF8, 0xF8, 0xF2),
        inline_code: Color::Rgb(0xFF, 0xB8, 0x6C),
        inline_code_bg: Color::Rgb(0x44, 0x47, 0x5A),
        link: Color::Rgb(0x8B, 0xE9, 0xFD),
        list_bullet: Color::Rgb(0x62, 0x72, 0xA4),
        hr: Color::Rgb(0x62, 0x72, 0xA4),
        blockquote_bg: Color::Rgb(0x21, 0x22, 0x2C),
        blockquote_bar: Color::Rgb(0xBD, 0x93, 0xF9),
        code_block_border: Color::Rgb(0x62, 0x72, 0xA4),
        code_block_text: Color::Rgb(0xF8, 0xF8, 0xF2),
        table_border: Color::Rgb(0x44, 0x47, 0x5A),
        image_match: Color::Rgb(0x44, 0x47, 0x5A),
        image_match_current: Color::Rgb(0x38, 0x3A, 0x4A),
    }
}

pub open spec fn spec_tokyo_night() -> Theme {
    Theme {
        background: Color::Rgb(0x1A, 0x1B, 0x26),
        text: Color::Rgb(0xA9, 0xB1, 0xD6),
        status_bar_view: Color::Rgb(0x7A, 0xA2, 0xF7),
        status_bar_source: Color::Rgb(0x9E, 0xCE, 0x6A),
        status_bar_select: Color::Rgb(0xFF, 0x9E, 0x64),
        status_bar_fg: Color::Rgb(0x1A, 0x1B, 0x26),
        status_filename_bg: Color::Rgb(0x29, 0x2E, 0x42),
        status_info_bg: Color::Rgb(0x22, 0x26, 0x38),
        status_keys_bg: Color::Rgb(0x1E, 0x21, 0x32),
        status_mid_fg: Color::Rgb(0xA9, 0xB1, 0xD6),
        status_dim_fg: Color::Rgb(0x56, 0x5F, 0x89),
        search_match: Color::Rgb(0xE0, 0xAF, 0x68),
        search_match_fg: Color::Rgb(0x1A, 0x1B, 0x26),
        search_current: Color::Rgb(0xFF, 0x9E, 0x64),
        search_current_fg: Color::Rgb(0x1A, 0x1B, 0x26),
        search_bar: Color::Rgb(0x29, 0x2E, 0x42),
        selection: Color::Rgb(0x29, 0x2E, 0x42),
        selection_fg: Color::Rgb(0xC0, 0xCA, 0xF5),
        cursor: Color::Rgb(0xC0, 0xCA, 0xF5),
        cursor_fg: Color::Rgb(0x1A, 0x1B, 0x26),
        help_bg: Color::Rgb(0x16, 0x16, 0x1E),
        help_border: Color::Rgb(0x56, 0x5F, 0x89),
        help_fg: Color::Rgb(0xC0, 0xCA, 0xF5),
        heading_text: Color::Rgb(0xC0, 0xCA, 0xF5),
        inline_code: Color::Rgb(0xFF, 0x9E, 0x64),
        inline_code_bg: Color::Rgb(0x29, 0x2E, 0x42),
        link: Color::Rgb(0x7A, 0xA2, 0xF7),
        list_bullet: Color::Rgb(0x56, 0x5F, 0x89),
        hr: Color::Rgb(0x3B, 0x40, 0x61),
        blockquote_bg: Color::Rgb(0x16, 0x16, 0x1E),
        blockquote_bar: Color::Rgb(0xBB, 0x9A, 0xF7),
        code_block_border: Color::Rgb(0x3B, 0x40, 0x61),
        code_block_text: Color::Rgb(0xC0, 0xCA, 0xF5),
        table_border: Color::Rgb(0x29, 0x2E, 0x42),
        image_match: Color::Rgb(0x29, 0x2E, 0x42),
        image_match_current: Color::Rgb(0x1F, 0x22, 0x35),
    }
}

fn tokyo_night() -> (t: Theme)
    ensures
        t == spec_tokyo_night(),
{
    Theme {
        background: Color::Rgb(0x1A, 0x1B, 0x26),
        text: Color::Rgb(0xA9, 0xB1, 0xD6),
        status_bar_view: Color::Rgb(0x7A, 0xA2, 0xF7),
        status_bar_source: Color::Rgb(0x9E, 0xCE, 0x6A),
        status_bar_select: Color::Rgb(0xFF, 0x9E, 0x64),
        status_bar_fg: Color::Rgb(0x1A, 0x1B, 0x26),
        status_filename_bg: Color::Rgb(0x29, 0x2E, 0x42),
        status_info_bg: Color::Rgb(0x22, 0x26, 0x38),
        status_keys_bg: Color::Rgb(0x1E, 0x21, 0x32),
        status_mid_fg: Color::Rgb(0xA9, 0xB1, 0xD6),
        status_dim_fg: Color::Rgb(0x56, 0x5F, 0x89),
        search_match: Color::Rgb(0xE0, 0xAF, 0x68),
        search_match_fg: Color::Rgb(0x1A, 0x1B, 0x26),
        search_current: Color::Rgb(0xFF, 0x9E, 0x64),
        search_current_fg: Color::Rgb(0x1A, 0x1B, 0x26),
        search_bar: Color::Rgb(0x29, 0x2E, 0x42),
        selection: Color::Rgb(0x29, 0x2E, 0x42),
        selection_fg: Color::Rgb(0xC0, 0xCA, 0xF5),
        cursor: Color::Rgb(0xC0, 0xCA, 0xF5),
        cursor_fg: Color::Rgb(0x1A, 0x1B, 0x26),
        help_bg: Color::Rgb(0x16, 0x16, 0x1E),
        help_border: Color::Rgb(0x56, 0x5F, 0x89),
        help_fg: Color::Rgb(0xC0, 0xCA, 0xF5),
        heading_text: Color::Rgb(0xC0, 0xCA, 0xF5),
        inline_code: Color::Rgb(0xFF, 0x9E, 0x64),
        inline_code_bg: Color::Rgb(0x29, 0x2E, 0x42),
        link: Color::Rgb(0x7A, 0xA2, 0xF7),
        list_bullet: Color::Rgb(0x56, 0x5F, 0x89),
        hr: Color::Rgb(0x3B, 0x40, 0x61),
        blockquote_bg: Color::Rgb(0x16, 0x16, 0x1E),
        blockquote_bar: Color::Rgb(0xBB, 0x9A, 0xF7),
        code_block_border: Color::Rgb(0x3B, 0x40, 0x61),
        code_block_text: Color::Rgb(0xC0, 0xCA, 0xF5),
        table_border: Color::Rgb(0x29, 0x2E, 0x42),
        image_match: Color::Rgb(0x29, 0x2E, 0x42),
        image_match_current: Color::Rgb(0x1F, 0x22, 0x35),
    }
}

pub open spec fn spec_gruvbox_dark() -> Theme {
    Theme {
        background: Color::Rgb(0x28, 0x28, 0x28),
        text: Color::Rgb(0xEB, 0xDB, 0xB2),
        status_bar_view: Color::Rgb(0x45, 0x85, 0x88),
        status_bar_source: Color::Rgb(0x98, 0x97, 0x1A),
        status_bar_select: Color::Rgb(0xD6, 0x5D, 0x0E),
        status_bar_fg: Color::Rgb(0xEB, 0xDB, 0xB2),
        status_filename_bg: Color::Rgb(0x3C, 0x38, 0x36),
        status_info_bg: Color::Rgb(0x34, 0x30, 0x2E),
        status_keys_bg: Color::Rgb(0x2E, 0x2A, 0x28),
        status_mid_fg: Color::Rgb(0xD5, 0xC4, 0xA1),
        status_dim_fg: Color::Rgb(0x66, 0x5C, 0x54),
        search_match: Color::Rgb(0xD7, 0x99, 0x21),
        search_match_fg: Color::Rgb(0x28, 0x28, 0x28),
        search_current: Color::Rgb(0xFE, 0x80, 0x19),
        search_current_fg: Color::Rgb(0x28, 0x28, 0x28),
        search_bar: Color::Rgb(0x3C, 0x38, 0x36),
        selection: Color::Rgb(0x50, 0x49, 0x45),
        selection_fg: Color::Rgb(0xEB, 0xDB, 0xB2),
        cursor: Color::Rgb(0xEB, 0xDB, 0xB2),
        cursor_fg: Color::Rgb(0x28, 0x28, 0x28),
        help_bg: Color::Rgb(0x1D, 0x20, 0x21),
        help_border: Color::Rgb(0x66, 0x5C, 0x54),
        help_fg: Color::Rgb(0xEB, 0xDB, 0xB2),
        heading_text: Color::Rgb(0xEB, 0xDB, 0xB2),
        inline_code: Color::Rgb(0xFE, 0x80, 0x19),
        inline_code_bg: Color::Rgb(0x3C, 0x38, 0x36),
        link: Color::Rgb(0x83, 0xA5, 0x98),
        list_bullet: Color::Rgb(0x66, 0x5C, 0x54),
        hr: Color::Rgb(0x50, 0x49, 0x45),
        blockquote_bg: Color::Rgb(0x1D, 0x20, 0x21),
        blockquote_bar: Color::Rgb(0xB1, 0x62, 0x86),
        code_block_border: Color::Rgb(0x50, 0x49, 0x45),
        code_block_text: Color::Rgb(0xEB, 0xDB, 0xB2),
        table_border: Color::Rgb(0x3C, 0x38, 0x36),
        image_match: Color::Rgb(0x50, 0x49, 0x45),
        image_match_current: Color::Rgb(0x3C, 0x38, 0x36),
    }
}

fn gruvbox_dark() -> (t: Theme)
    ensures
        t == spec_gruvbox_dark(),
{
    Theme {
        background: Color::Rgb(0x28, 0x28, 0x28),
        text: Color::Rgb(0xEB, 0xDB, 0xB2),
        status_bar_view: Color::Rgb(0x45, 0x85, 0x88),
        status_bar_source: Color::Rgb(0x98, 0x97, 0x1A),
        status_bar_select: Color::Rgb(0xD6, 0x5D, 0x0E),
        status_bar_fg: Color::Rgb(0xEB, 0xDB, 0xB2),
        status_filename_bg: Color::Rgb(0x3C, 0x38, 0x36),
        status_info_bg: Color::Rgb(0x34, 0x30, 0x2E),
        status_keys_bg: Color::Rgb(0x2E, 0x2A, 0x28),
        status_mid_fg: Color::Rgb(0xD5, 0xC4, 0xA1),
        status_dim_fg: Color::Rgb(0x66, 0x5C, 0x54),
        search_match: Color::Rgb(0xD7, 0x99, 0x21),
        search_match_fg: Color::Rgb(0x28, 0x28, 0x28),
        search_current: Color::Rgb(0xFE, 0x80, 0x19),
        search_current_fg: Color::Rgb(0x28, 0x28, 0x28),
        search_bar: Color::Rgb(0x3C, 0x38, 0x36),
        selection: Color::Rgb(0x50, 0x49, 0x45),
        selection_fg: Color::Rgb(0xEB, 0xDB, 0xB2),
        cursor: Color::Rgb(0xEB, 0xDB, 0xB2),
        cursor_fg: Color::Rgb(0x28, 0x28, 0x28),
        help_bg: Color::Rgb(0x1D, 0x20, 0x21),
        help_border: Color::Rgb(0x66, 0x5C, 0x54),
        help_fg: Color::Rgb(0xEB, 0xDB, 0xB2),
        heading_text: Color::Rgb(0xEB, 0xDB, 0xB2),
        inline_code: Color::Rgb(0xFE, 0x80, 0x19),
        inline_code_bg: Color::Rgb(0x3C, 0x38, 0x36),
        link: Color::Rgb(0x83, 0xA5, 0x98),
        list_bullet: Color::Rgb(0x66, 0x5C, 0x54),
        hr: Color::Rgb(0x50, 0x49, 0x45),
        blockquote_bg: Color::Rgb(0x1D, 0x20, 0x21),
        blockquote_bar: Color::Rgb(0xB1, 0x62, 0x86),
        code_block_border: Color::Rgb(0x50, 0x49, 0x45),
        code_block_text: Color::Rgb(0xEB, 0xDB, 0xB2),
        table_border: Color::Rgb(0x3C, 0x38, 0x36),
        image_match: Color::Rgb(0x50, 0x49, 0x45),
        image_match_current: Color::Rgb(0x3C, 0x38, 0x36),
    }
}

pub open spec fn spec_nord() -> Theme {
    Theme {
        background: Color::Rgb(0x2E, 0x34, 0x40),
        text: Color::Rgb(0xEC, 0xEF, 0xF4),
        status_bar_view: Color::Rgb(0x81, 0xA1, 0xC1),
        status_bar_source: Color::Rgb(0xA3, 0xBE, 0x8C),
        status_bar_select: Color::Rgb(0xD0, 0x87, 0x70),
        status_bar_fg: Color::Rgb(0x2E, 0x34, 0x40),
        status_filename_bg: Color::Rgb(0x3B, 0x42, 0x52),
        status_info_bg: Color::Rgb(0x35, 0x3C, 0x4A),
        status_keys_bg: Color::Rgb(0x31, 0x38, 0x46),
        status_mid_fg: Color::Rgb(0xD8, 0xDE, 0xE9),
        status_dim_fg: Color::Rgb(0x4C, 0x56, 0x6A),
        search_match: Color::Rgb(0xEB, 0xCB, 0x8B),
        search_match_fg: Color::Rgb(0x2E, 0x34, 0x40),
        search_current: Color::Rgb(0xD0, 0x87, 0x70),
        search_current_fg: Color::Rgb(0x2E, 0x34, 0x40),
        search_bar: Color::Rgb(0x3B, 0x42, 0x52),
        selection: Color::Rgb(0x43, 0x4C, 0x5E),
        selection_fg: Color::Rgb(0xEC, 0xEF, 0xF4),
        cursor: Color::Rgb(0xEC, 0xEF, 0xF4),
        cursor_fg: Color::Rgb(0x2E, 0x34, 0x40),
        help_bg: Color::Rgb(0x2E, 0x34, 0x40),
        help_border: Color::Rgb(0x4C, 0x56, 0x6A),
        help_fg: Color::Rgb(0xEC, 0xEF, 0xF4),
        heading_text: Color::Rgb(0xEC, 0xEF, 0xF4),
        inline_code: Color::Rgb(0xD0, 0x87, 0x70),
        inline_code_bg: Color::Rgb(0x3B, 0x42, 0x52),
        link: Color::Rgb(0x88, 0xC0, 0xD0),
        list_bullet: Color::Rgb(0x4C, 0x56, 0x6A),
        hr: Color::Rgb(0x43, 0x4C, 0x5E),
        blockquote_bg: Color::Rgb(0x2E, 0x34, 0x40),
        blockquote_bar: Color::Rgb(0xB4, 0x8E, 0xAD),
        code_block_border: Color::Rgb(0x43, 0x4C, 0x5E),
        code_block_text: Color::Rgb(0xEC, 0xEF, 0xF4),
        table_border: Color::Rgb(0x3B, 0x42, 0x52),
        image_match: Color::Rgb(0x43, 0x4C, 0x5E),
        image_match_current: Color::Rgb(0x3B, 0x42, 0x52),
    }
}

fn nord() -> (t: Theme)
    ensures
        t == spec_nord(),
{
    Theme {
        background: Color::Rgb(0x2E, 0x34, 0x40),
        text: Color::Rgb(0xEC, 0xEF, 0xF4),
        status_bar_view: Color::Rgb(0x81, 0xA1, 0xC1),
        status_bar_source: Color::Rgb(0xA3, 0xBE, 0x8C),
        status_bar_select: Color::Rgb(0xD0, 0x87, 0x70),
        status_bar_fg: Color::Rgb(0x2E, 0x34, 0x40),
        status_filename_bg: Color::Rgb(0x3B, 0x42, 0x52),
        status_info_bg: Color::Rgb(0x35, 0x3C, 0x4A),
        status_keys_bg: Color::Rgb(0x31, 0x38, 0x46),
        status_mid_fg: Color::Rgb(0xD8, 0xDE, 0xE9),
        status_dim_fg: Color::Rgb(0x4C, 0x56, 0x6A),
        search_match: Color::Rgb(0xEB, 0xCB, 0x8B),
        search_match_fg: Color::Rgb(0x2E, 0x34, 0x40),
        search_current: Color::Rgb(0xD0, 0x87, 0x70),
        search_current_fg: Color::Rgb(0x2E, 0x34, 0x40),
        search_bar: Color::Rgb(0x3B, 0x42, 0x52),
        selection: Color::Rgb(0x43, 0x4C, 0x5E),
        selection_fg: Color::Rgb(0xEC, 0xEF, 0xF4),
        cursor: Color::Rgb(0xEC, 0xEF, 0xF4),
        cursor_fg: Color::Rgb(0x2E, 0x34, 0x40),
        help_bg: Color::Rgb(0x2E, 0x34, 0x40),
        help_border: Color::Rgb(0x4C, 0x56, 0x6A),
        help_fg: Color::Rgb(0xEC, 0xEF, 0xF4),
        heading_text: Color::Rgb(0xEC, 0xEF, 0xF4),
        inline_code: Color::Rgb(0xD0, 0x87, 0x70),
        inline_code_bg: Color::Rgb(0x3B, 0x42, 0x52),
        link: Color::Rgb(0x88, 0xC0, 0xD0),
        list_bullet: Color::Rgb(0x4C, 0x56, 0x6A),
        hr: Color::Rgb(0x43, 0x4C, 0x5E),
        blockquote_bg: Color::Rgb(0x2E, 0x34, 0x40),
        blockquote_bar: Color::Rgb(0xB4, 0x8E, 0xAD),
        code_block_border: Color::Rgb(0x43, 0x4C, 0x5E),
        code_block_text: Color::Rgb(0xEC, 0xEF, 0xF4),
        table_border: Color::Rgb(0x3B, 0x42, 0x52),
        image_match: Color::Rgb(0x43, 0x4C, 0x5E),
        image_match_current: Color::Rgb(0x3B, 0x42, 0x52),
    }
}

/// The names of the built-in themes, in order.
pub open spec fn builtin_name_list() -> Seq<Seq<char>> {
    seq!["default"@, "catppuccin-mocha"@, "catppuccin-latte"@, "catppuccin-frappe"@, "catppuccin-macchiato"@, "dracula"@, "tokyo-night"@, "gruvbox-dark"@, "nord"@]
}

/// The built-in theme of a name.
pub open spec fn builtin_theme(name: Seq<char>) -> Option<Theme> {
    if name == "default"@ {
        Some(spec_default_theme())
    } else if name == "catppuccin-mocha"@ {
        Some(spec_catppuccin_mocha())
    } else if name == "catppuccin-latte"@ {
        Some(spec_catppuccin_latte())
    } else if name == "catppuccin-frappe"@ {
        Some(spec_catppuccin_frappe())
    } else if name == "catppuccin-macchiato"@ {
        Some(spec_catppuccin_macchiato())
    } else if name == "dracula"@ {
        Some(spec_dracula())
    } else if name == "tokyo-night"@ {
        Some(spec_tokyo_night())
    } else if name == "gruvbox-dark"@ {
        Some(spec_gruvbox_dark())
    } else if name == "nord"@ {
        Some(spec_nord())
    } else {
        None
    }
}

/// Each built-in theme name gives the palette of that name: its background
/// and text colors are the ones the palette is known by (Dracula's
/// `#282A36` on `#F8F8F2`, Nord's `#2E3440` on `#ECEFF4`, and so on).
pub proof fn law_builtin_names_give_their_palettes()
    ensures
        builtin_theme("default"@) matches Some(t) && t.background == Color::Rgb(0x16, 0x16, 0x1E) && t.text == Color::Rgb(0xC8, 0xC8, 0xD2),
        builtin_theme("catppuccin-mocha"@) matches Some(t) && t.background == Color::Rgb(0x1E, 0x1E, 0x2E) && t.text == Color::Rgb(0xCD, 0xD6, 0xF4),
        builtin_theme("catppuccin-latte"@) matches Some(t) && t.background == Color::Rgb(0xEF, 0xF1, 0xF5) && t.text == Color::Rgb(0x4C, 0x4F, 0x69),
        builtin_theme("catppuccin-frappe"@) matches Some(t) && t.background == Color::Rgb(0x30, 0x34, 0x46) && t.text == Color::Rgb(0xC6, 0xD0, 0xF5),
        builtin_theme("catppuccin-macchiato"@) matches Some(t) && t.background == Color::Rgb(0x24, 0x27, 0x3A) && t.text == Color::Rgb(0xCA, 0xD3, 0xF5),
        builtin_theme("dracula"@) matches Some(t) && t.background == Color::Rgb(0x28, 0x2A, 0x36) && t.text == Color::Rgb(0xF8, 0xF8, 0xF2),
        builtin_theme("tokyo-night"@) matches Some(t) && t.background == Color::Rgb(0x1A, 0x1B, 0x26) && t.text == Color::Rgb(0xA9, 0xB1, 0xD6),
        builtin_theme("gruvbox-dark"@) matches Some(t) && t.background == Color::Rgb(0x28, 0x28, 0x28) && t.text == Color::Rgb(0xEB, 0xDB, 0xB2),
        builtin_theme("nord"@) matches Some(t) && t.background == Color::Rgb(0x2E, 0x34, 0x40) && t.text == Color::Rgb(0xEC, 0xEF, 0xF4),
{
    reveal_strlit("default");
    reveal_strlit("catppuccin-mocha");
    reveal_strlit("catppuccin-latte");
    reveal_strlit("catppuccin-frappe");
    reveal_strlit("catppuccin-macchiato");
    reveal_strlit("dracula");
    reveal_strlit("tokyo-night");
    reveal_strlit("gruvbox-dark");
    reveal_strlit("nord");
    assert("default"@.len() == 7 && "dracula"@.len() == 7 && "default"@[1] != "dracula"@[1]);
    assert("catppuccin-mocha"@.len() == 16 && "catppuccin-latte"@.len() == 16);
    assert("catppuccin-mocha"@[11] != "catppuccin-latte"@[11]);
    assert("catppuccin-frappe"@.len() == 17 && "catppuccin-macchiato"@.len() == 20);
    assert("tokyo-night"@.len() == 11 && "gruvbox-dark"@.len() == 12 && "nord"@.len() == 4);
}

/// Distinct built-in names give distinct palettes (their backgrounds differ),
/// and a name that gives a palette is one of the built-in names.
pub proof fn law_builtin_palettes_are_distinct(a: Seq<char>, b: Seq<char>)
    requires
        builtin_theme(a) is Some,
        builtin_theme(b) is Some,
        a != b,
    ensures
        builtin_theme(a)->0.background != builtin_theme(b)->0.background,
        builtin_name_list().contains(a),
{
    reveal_strlit("default");
    reveal_strlit("catppuccin-mocha");
    reveal_strlit("catppuccin-latte");
    reveal_strlit("catppuccin-frappe");
    reveal_strlit("catppuccin-macchiato");
    reveal_strlit("dracula");
    reveal_strlit("tokyo-night");
    reveal_strlit("gruvbox-dark");
    reveal_strlit("nord");
    assert("default"@.len() == 7 && "dracula"@.len() == 7 && "default"@[1] != "dracula"@[1]);
    assert("catppuccin-mocha"@.len() == 16 && "catppuccin-latte"@.len() == 16);
    assert("catppuccin-mocha"@[11] != "catppuccin-latte"@[11]);
    assert("catppuccin-frappe"@.len() == 17 && "catppuccin-macchiato"@.len() == 20);
    assert("tokyo-night"@.len() == 11 && "gruvbox-dark"@.len() == 12 && "nord"@.len() == 4);
}

/// Return a built-in theme by name. Returns None for unknown names.
pub fn builtin(name: &str) -> (r: Option<Theme>)
    ensures
        r == builtin_theme(name@),
{
    let n = chars_of(name);
    if chars_equal(&n, &chars_of("default")) {
        Some(default_theme())
    } else if chars_equal(&n, &chars_of("catppuccin-mocha")) {
        Some(catppuccin_mocha())
    } else if chars_equal(&n, &chars_of("catppuccin-latte")) {
        Some(catppuccin_latte())
    } else if chars_equal(&n, &chars_of("catppuccin-frappe")) {
        Some(catppuccin_frappe())
    } else if chars_equal(&n, &chars_of("catppuccin-macchiato")) {
        Some(catppuccin_macchiato())
    } else if chars_equal(&n, &chars_of("dracula")) {
        Some(dracula())
    } else if chars_equal(&n, &chars_of("tokyo-night")) {
        Some(tokyo_night())
    } else if chars_equal(&n, &chars_of("gruvbox-dark")) {
        Some(gruvbox_dark())
    } else if chars_equal(&n, &chars_of("nord")) {
        Some(nord())
    } else {
        None
    }
}

/// The names of the built-in themes.
pub fn builtin_names() -> (r: Vec<&'static str>)
    ensures
        r@.map_values(|s: &'static str| s@) == builtin_name_list(),
{
    let mut r: Vec<&'static str> = Vec::new();
    r.push("default");
    r.push("catppuccin-mocha");
    r.push("catppuccin-latte");
    r.push("catppuccin-frappe");
    r.push("catppuccin-macchiato");
    r.push("dracula");
    r.push("tokyo-night");
    r.push("gruvbox-dark");
    r.push("nord");
    assert(r@.map_values(|s: &'static str| s@) =~= builtin_name_list());
    r
}

/// Whether a color reads as dark: its luminance 0.299 R + 0.587 G + 0.114 B
/// is below one half of full scale (computed exactly, in thousandths).
pub open spec fn is_dark(c: Color) -> bool {
    let rgb = rgb_of(c);
    299 * rgb[0] + 587 * rgb[1] + 114 * rgb[2] < 128000
}


/// A configuration override whose text is not a color.
#[derive(Debug, Clone)]
pub struct InvalidColor {
    /// The theme field that it names.
    pub field: &'static str,
    /// The text that it holds.
    pub value: String,
}

/// A field's color after an override: the override's color when it is a
/// valid `#RRGGBB`, the old color otherwise.
pub open spec fn overridden(old: Color, o: Option<String>) -> Color {
    match o {
        Some(s) => match hex_color(s@) {
            Some(c) => c,
            None => old,
        },
        None => old,
    }
}

/// The report of one field's override: the field and its text when the
/// text is not a color, nothing otherwise.
pub open spec fn invalid_entry(field: Seq<char>, o: Option<String>) -> Seq<(Seq<char>, Seq<char>)> {
    match o {
        Some(s) => if hex_color(s@) is None {
            seq![(field, s@)]
        } else {
            Seq::empty()
        },
        None => Seq::empty(),
    }
}

/// The overrides that are not colors, in the order in which they are applied.
pub open spec fn invalid_overrides(colors: &ColorsConfig) -> Seq<(Seq<char>, Seq<char>)> {
        invalid_entry("background"@, colors.background)
        + invalid_entry("text"@, colors.text)
        + invalid_entry("status_bar_view"@, colors.status_bar_view)
        + invalid_entry("status_bar_source"@, colors.status_bar_source)
        + invalid_entry("status_bar_select"@, colors.status_bar_select)
        + invalid_entry("status_bar_fg"@, colors.status_bar_fg)
        + invalid_entry("status_filename_bg"@, colors.status_filename_bg)
        + invalid_entry("status_info_bg"@, colors.status_info_bg)
        + invalid_entry("status_keys_bg"@, colors.status_keys_bg)
        + invalid_entry("status_mid_fg"@, colors.status_mid_fg)
        + invalid_entry("status_dim_fg"@, colors.status_dim_fg)
        + invalid_entry("search_match"@, colors.search_match)
        + invalid_entry("search_match_fg"@, colors.search_match_fg)
        + invalid_entry("search_current"@, colors.search_current)
        + invalid_entry("search_current_fg"@, colors.search_current_fg)
        + invalid_entry("search_bar"@, colors.search_bar)
        + invalid_entry("selection"@, colors.selection)
        + invalid_entry("selection_fg"@, colors.selection_fg)
        + invalid_entry("cursor"@, colors.cursor)
        + invalid_entry("cursor_fg"@, colors.cursor_fg)
        + invalid_entry("help_bg"@, colors.help_bg)
        + invalid_entry("help_border"@, colors.help_border)
        + invalid_entry("help_fg"@, colors.help_fg)
        + invalid_entry("inline_code"@, colors.inline_code)
        + invalid_entry("inline_code_bg"@, colors.inline_code_bg)
        + invalid_entry("link"@, colors.link)
        + invalid_entry("list_bullet"@, colors.list_bullet)
        + invalid_entry("hr"@, colors.hr)
        + invalid_entry("blockquote_bg"@, colors.blockquote_bg)
        + invalid_entry("blockquote_bar"@, colors.blockquote_bar)
        + invalid_entry("code_block_border"@, colors.code_block_border)
        + invalid_entry("code_block_text"@, colors.code_block_text)
        + invalid_entry("table_border"@, colors.table_border)
        + invalid_entry("image_match"@, colors.image_match)
        + invalid_entry("image_match_current"@, colors.image_match_current)
        + invalid_entry("heading_text"@, colors.heading_text)
}

/// A theme with each field's override applied.
pub open spec fn overridden_theme(t: Theme, colors: &ColorsConfig) -> Theme {
    Theme {
        background: overridden(t.background, colors.background),
        text: overridden(t.text, colors.text),
        status_bar_view: overridden(t.status_bar_view, colors.status_bar_view),
        status_bar_source: overridden(t.status_bar_source, colors.status_bar_source),
        status_bar_select: overridden(t.status_bar_select, colors.status_bar_select),
        status_bar_fg: overridden(t.status_bar_fg, colors.status_bar_fg),
        status_filename_bg: overridden(t.status_filename_bg, colors.status_filename_bg),
        status_info_bg: overridden(t.status_info_bg, colors.status_info_bg),
        status_keys_bg: overridden(t.status_keys_bg, colors.status_keys_bg),
        status_mid_fg: overridden(t.status_mid_fg, colors.status_mid_fg),
        status_dim_fg: overridden(t.status_dim_fg, colors.status_dim_fg),
        search_match: overridden(t.search_match, colors.search_match),
        search_match_fg: overridden(t.search_match_fg, colors.search_match_fg),
        search_current: overridden(t.search_current, colors.search_current),
        search_current_fg: overridden(t.search_current_fg, colors.search_current_fg),
        search_bar: overridden(t.search_bar, colors.search_bar),
        selection: overridden(t.selection, colors.selection),
        selection_fg: overridden(t.selection_fg, colors.selection_fg),
        cursor: overridden(t.cursor, colors.cursor),
        cursor_fg: overridden(t.cursor_fg, colors.cursor_fg),
        help_bg: overridden(t.help_bg, colors.help_bg),
        help_border: overridden(t.help_border, colors.help_border),
        help_fg: overridden(t.help_fg, colors.help_fg),
        heading_text: overridden(t.heading_text, colors.heading_text),
        inline_code: overridden(t.inline_code, colors.inline_code),
        inline_code_bg: overridden(t.inline_code_bg, colors.inline_code_bg),
        link: overridden(t.link, colors.link),
        list_bullet: overridden(t.list_bullet, colors.list_bullet),
        hr: overridden(t.hr, colors.hr),
        blockquote_bg: overridden(t.blockquote_bg, colors.blockquote_bg),
        blockquote_bar: overridden(t.blockquote_bar, colors.blockquote_bar),
        code_block_border: overridden(t.code_block_border, colors.code_block_border),
        code_block_text: overridden(t.code_block_text, colors.code_block_text),
        table_border: overridden(t.table_border, colors.table_border),
        image_match: overridden(t.image_match, colors.image_match),
        image_match_current: overridden(t.image_match_current, colors.image_match_current),
    }
}

/// The reports of invalid overrides, as mathematical values.
pub open spec fn reports(v: Seq<InvalidColor>) -> Seq<(Seq<char>, Seq<char>)> {
    v.map_values(|e: InvalidColor| (e.field@, e.value@))
}

/// One field's color after its override, reporting an override that is not a color.
fn override_field(
    current: Color,
    o: &Option<String>,
    field: &'static str,
    invalid: &mut Vec<InvalidColor>,
) -> (c: Color)
    ensures
        c == overridden(current, *o),
        reports(final(invalid)@) == reports(old(invalid)@) + invalid_entry(field@, *o),
{
    match o {
        Some(s) => match parse_hex_color(s.as_str()) {
            Some(c) => {
                assert(reports(invalid@) =~= reports(old(invalid)@) + invalid_entry(field@, *o));
                c
            },
            None => {
                invalid.push(InvalidColor { field, value: s.clone() });
                assert(reports(invalid@) =~= reports(old(invalid)@) + invalid_entry(field@, *o));
                current
            },
        },
        None => {
            assert(reports(invalid@) =~= reports(old(invalid)@) + invalid_entry(field@, *o));
            current
        },
    }
}

impl Theme {
    /// The syntax-highlighting theme that suits the heading color: a light
    /// one for dark heading text, a dark one otherwise.
    pub fn syntax_theme_name(&self) -> (r: &'static str)
        ensures
            r@ == (if is_dark(self.heading_text) {
                "InspiredGitHub"@
            } else {
                "base16-ocean.dark"@
            }),
    {
        let rgb = color_to_rgb(self.heading_text);
        let lum: u32 = 299 * (rgb[0] as u32) + 587 * (rgb[1] as u32) + 114 * (rgb[2] as u32);
        if lum < 128000 {
            "InspiredGitHub"
        } else {
            "base16-ocean.dark"
        }
    }

    /// Apply optional color overrides from config onto this theme. Each
    /// override that is a valid `#RRGGBB` color replaces its field; the
    /// fields whose override is not a valid color keep their color and are
    /// returned, in field order, with the offending text.
    #[verifier::rlimit(40)]
    pub fn apply_overrides(&mut self, colors: &ColorsConfig) -> (invalid: Vec<InvalidColor>)
        ensures
            final(self).background == overridden(old(self).background, colors.background),
            final(self).text == overridden(old(self).text, colors.text),
            final(self).status_bar_view == overridden(old(self).status_bar_view, colors.status_bar_view),
            final(self).status_bar_source == overridden(old(self).status_bar_source, colors.status_bar_source),
            final(self).status_bar_select == overridden(old(self).status_bar_select, colors.status_bar_select),
            final(self).status_bar_fg == overridden(old(self).status_bar_fg, colors.status_bar_fg),
            final(self).status_filename_bg == overridden(old(self).status_filename_bg, colors.status_filename_bg),
            final(self).status_info_bg == overridden(old(self).status_info_bg, colors.status_info_bg),
            final(self).status_keys_bg == overridden(old(self).status_keys_bg, colors.status_keys_bg),
            final(self).status_mid_fg == overridden(old(self).status_mid_fg, colors.status_mid_fg),
            final(self).status_dim_fg == overridden(old(self).status_dim_fg, colors.status_dim_fg),
            final(self).search_match == overridden(old(self).search_match, colors.search_match),
            final(self).search_match_fg == overridden(old(self).search_match_fg, colors.search_match_fg),
            final(self).search_current == overridden(old(self).search_current, colors.search_current),
            final(self).search_current_fg == overridden(old(self).search_current_fg, colors.search_current_fg),
            final(self).search_bar == overridden(old(self).search_bar, colors.search_bar),
            final(self).selection == overridden(old(self).selection, colors.selection),
            final(self).selection_fg == overridden(old(self).selection_fg, colors.selection_fg),
            final(self).cursor == overridden(old(self).cursor, colors.cursor),
            final(self).cursor_fg == overridden(old(self).cursor_fg, colors.cursor_fg),
            final(self).help_bg == overridden(old(self).help_bg, colors.help_bg),
            final(self).help_border == overridden(old(self).help_border, colors.help_border),
            final(self).help_fg == overridden(old(self).help_fg, colors.help_fg),
            final(self).heading_text == overridden(old(self).heading_text, colors.heading_text),
            final(self).inline_code == overridden(old(self).inline_code, colors.inline_code),
            final(self).inline_code_bg == overridden(old(self).inline_code_bg, colors.inline_code_bg),
            final(self).link == overridden(old(self).link, colors.link),
            final(self).list_bullet == overridden(old(self).list_bullet, colors.list_bullet),
            final(self).hr == overridden(old(self).hr, colors.hr),
            final(self).blockquote_bg == overridden(old(self).blockquote_bg, colors.blockquote_bg),
            final(self).blockquote_bar == overridden(old(self).blockquote_bar, colors.blockquote_bar),
            final(self).code_block_border == overridden(old(self).code_block_border, colors.code_block_border),
            final(self).code_block_text == overridden(old(self).code_block_text, colors.code_block_text),
            final(self).table_border == overridden(old(self).table_border, colors.table_border),
            final(self).image_match == overridden(old(self).image_match, colors.image_match),
            final(self).image_match_current == overridden(old(self).image_match_current, colors.image_match_current),
            reports(invalid@) == invalid_overrides(colors),
            *final(self) == overridden_theme(*old(self), colors),
    {
        let mut invalid: Vec<InvalidColor> = Vec::new();
        self.background = override_field(self.background, &colors.background, "background", &mut invalid);
        self.text = override_field(self.text, &colors.text, "text", &mut invalid);
        self.status_bar_view = override_field(self.status_bar_view, &colors.status_bar_view, "status_bar_view", &mut invalid);
        self.status_bar_source = override_field(self.status_bar_source, &colors.status_bar_source, "status_bar_source", &mut invalid);
        self.status_bar_select = override_field(self.status_bar_select, &colors.status_bar_select, "status_bar_select", &mut invalid);
        self.status_bar_fg = override_field(self.status_bar_fg, &colors.status_bar_fg, "status_bar_fg", &mut invalid);
        self.status_filename_bg = override_field(self.status_filename_bg, &colors.status_filename_bg, "status_filename_bg", &mut invalid);
        self.status_info_bg = override_field(self.status_info_bg, &colors.status_info_bg, "status_info_bg", &mut invalid);
        self.status_keys_bg = override_field(self.status_keys_bg, &colors.status_keys_bg, "status_keys_bg", &mut invalid);
        self.status_mid_fg = override_field(self.status_mid_fg, &colors.status_mid_fg, "status_mid_fg", &mut invalid);
        self.status_dim_fg = override_field(self.status_dim_fg, &colors.status_dim_fg, "status_dim_fg", &mut invalid);
        self.search_match = override_field(self.search_match, &colors.search_match, "search_match", &mut invalid);
        self.search_match_fg = override_field(self.search_match_fg, &colors.search_match_fg, "search_match_fg", &mut invalid);
        self.search_current = override_field(self.search_current, &colors.search_current, "search_current", &mut invalid);
        self.search_current_fg = override_field(self.search_current_fg, &colors.search_current_fg, "search_current_fg", &mut invalid);
        self.search_bar = override_field(self.search_bar, &colors.search_bar, "search_bar", &mut invalid);
        self.selection = override_field(self.selection, &colors.selection, "selection", &mut invalid);
        self.selection_fg = override_field(self.selection_fg, &colors.selection_fg, "selection_fg", &mut invalid);
        self.cursor = override_field(self.cursor, &colors.cursor, "cursor", &mut invalid);
        self.cursor_fg = override_field(self.cursor_fg, &colors.cursor_fg, "cursor_fg", &mut invalid);
        self.help_bg = override_field(self.help_bg, &colors.help_bg, "help_bg", &mut invalid);
        self.help_border = override_field(self.help_border, &colors.help_border, "help_border", &mut invalid);
        self.help_fg = override_field(self.help_fg, &colors.help_fg, "help_fg", &mut invalid);
        self.inline_code = override_field(self.inline_code, &colors.inline_code, "inline_code", &mut invalid);
        self.inline_code_bg = override_field(self.inline_code_bg, &colors.inline_code_bg, "inline_code_bg", &mut invalid);
        self.link = override_field(self.link, &colors.link, "link", &mut invalid);
        self.list_bullet = override_field(self.list_bullet, &colors.list_bullet, "list_bullet", &mut invalid);
        self.hr = override_field(self.hr, &colors.hr, "hr", &mut invalid);
        self.blockquote_bg = override_field(self.blockquote_bg, &colors.blockquote_bg, "blockquote_bg", &mut invalid);
        self.blockquote_bar = override_field(self.blockquote_bar, &colors.blockquote_bar, "blockquote_bar", &mut invalid);
        self.code_block_border = override_field(self.code_block_border, &colors.code_block_border, "code_block_border", &mut invalid);
        self.code_block_text = override_field(self.code_block_text, &colors.code_block_text, "code_block_text", &mut invalid);
        self.table_border = override_field(self.table_border, &colors.table_border, "table_border", &mut invalid);
        self.image_match = override_field(self.image_match, &colors.image_match, "image_match", &mut invalid);
        self.image_match_current = override_field(self.image_match_current, &colors.image_match_current, "image_match_current", &mut invalid);
        self.heading_text = override_field(self.heading_text, &colors.heading_text, "heading_text", &mut invalid);
        assert(reports(invalid@) =~= invalid_overrides(colors));
        invalid
    }
}


/// Every name that `builtin_names` lists is a built-in theme.
pub proof fn law_builtin_names_resolve()
    ensures
        forall|i: int| 0 <= i < builtin_name_list().len() ==> (#[trigger] builtin_theme(builtin_name_list()[i])) is Some,
{
}

/// Applying the same color overrides twice gives the theme that applying
/// them once gives.
pub proof fn law_overrides_idempotent(t: Theme, colors: &ColorsConfig)
    ensures
        overridden_theme(overridden_theme(t, colors), colors) == overridden_theme(t, colors),
{
    lemma_overridden_twice(t.background, colors.background);
    lemma_overridden_twice(t.text, colors.text);
    lemma_overridden_twice(t.status_bar_view, colors.status_bar_view);
    lemma_overridden_twice(t.status_bar_source, colors.status_bar_source);
    lemma_overridden_twice(t.status_bar_select, colors.status_bar_select);
    lemma_overridden_twice(t.status_bar_fg, colors.status_bar_fg);
    lemma_overridden_twice(t.status_filename_bg, colors.status_filename_bg);
    lemma_overridden_twice(t.status_info_bg, colors.status_info_bg);
    lemma_overridden_twice(t.status_keys_bg, colors.status_keys_bg);
    lemma_overridden_twice(t.status_mid_fg, colors.status_mid_fg);
    lemma_overridden_twice(t.status_dim_fg, colors.status_dim_fg);
    lemma_overridden_twice(t.search_match, colors.search_match);
    lemma_overridden_twice(t.search_match_fg, colors.search_match_fg);
    lemma_overridden_twice(t.search_current, colors.search_current);
    lemma_overridden_twice(t.search_current_fg, colors.search_current_fg);
    lemma_overridden_twice(t.search_bar, colors.search_bar);
    lemma_overridden_twice(t.selection, colors.selection);
    lemma_overridden_twice(t.selection_fg, colors.selection_fg);
    lemma_overridden_twice(t.cursor, colors.cursor);
    lemma_overridden_twice(t.cursor_fg, colors.cursor_fg);
    lemma_overridden_twice(t.help_bg, colors.help_bg);
    lemma_overridden_twice(t.help_border, colors.help_border);
    lemma_overridden_twice(t.help_fg, colors.help_fg);
    lemma_overridden_twice(t.heading_text, colors.heading_text);
    lemma_overridden_twice(t.inline_code, colors.inline_code);
    lemma_overridden_twice(t.inline_code_bg, colors.inline_code_bg);
    lemma_overridden_twice(t.link, colors.link);
    lemma_overridden_twice(t.list_bullet, colors.list_bullet);
    lemma_overridden_twice(t.hr, colors.hr);
    lemma_overridden_twice(t.blockquote_bg, colors.blockquote_bg);
    lemma_overridden_twice(t.blockquote_bar, colors.blockquote_bar);
    lemma_overridden_twice(t.code_block_border, colors.code_block_border);
    lemma_overridden_twice(t.code_block_text, colors.code_block_text);
    lemma_overridden_twice(t.table_border, colors.table_border);
    lemma_overridden_twice(t.image_match, colors.image_match);
    lemma_overridden_twice(t.image_match_current, colors.image_match_current);
}

/// One field overridden twice is overridden once.
proof fn lemma_overridden_twice(old: Color, o: Option<String>)
    ensures
        overridden(overridden(old, o), o) == overridden(old, o),
{
}

/// Without overrides a theme stays as it is.
pub proof fn law_no_overrides_keep_theme(t: Theme, colors: &ColorsConfig)
    requires
        colors.background is None && colors.text is None && colors.status_bar_view is None
            && colors.status_bar_source is None && colors.status_bar_select is None && colors.status_bar_fg is None
            && colors.status_filename_bg is None && colors.status_info_bg is None && colors.status_keys_bg is None
            && colors.status_mid_fg is None && colors.status_dim_fg is None && colors.search_match is None
            && colors.search_match_fg is None && colors.search_current is None && colors.search_current_fg is None
            && colors.search_bar is None && colors.selection is None && colors.selection_fg is None
            && colors.cursor is None && colors.cursor_fg is None && colors.help_bg is None && colors.help_border is None
            && colors.help_fg is None && colors.heading_text is None && colors.inline_code is None
            && colors.inline_code_bg is None && colors.link is None && colors.list_bullet is None && colors.hr is None
            && colors.blockquote_bg is None && colors.blockquote_bar is None && colors.code_block_border is None
            && colors.code_block_text is None && colors.table_border is None && colors.image_match is None
            && colors.image_match_current is None,
    ensures
        overridden_theme(t, colors) == t,
{
}

} // verus!
