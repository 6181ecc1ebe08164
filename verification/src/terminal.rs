//! The terminal as this viewer drives it: its geometry, and the escape
//! sequences of the Kitty graphics protocol that place images with Unicode
//! placeholders. The sequences are collected in a pending buffer that the
//! program writes to standard output.

use vstd::prelude::*;
use crate::text::{decimal, push_char, push_decimal};
use vstd::string::StringSliceAdditionalSpecFns;
use base64::Engine;
use image::ImageEncoder;

verus! {

/// Max image rows before needing to split into chunks (limited by diacritic count).
pub const MAX_IMAGE_ROWS: u32 = 10;

/// The combining diacritics that number rows and columns of a placeholder image.
pub open spec fn diacritics() -> Seq<char> {
    seq![
        '\u{0305}', '\u{030D}', '\u{030E}', '\u{0310}', '\u{0312}', '\u{033D}', '\u{033E}', '\u{033F}',
        '\u{0346}', '\u{034A}', '\u{034B}', '\u{034C}', '\u{0350}', '\u{0351}', '\u{0352}', '\u{0357}',
        '\u{035B}', '\u{0363}', '\u{0364}', '\u{0365}', '\u{0366}', '\u{0367}', '\u{0368}', '\u{0369}',
        '\u{036A}', '\u{036B}', '\u{036C}', '\u{036D}', '\u{036E}', '\u{036F}', '\u{0483}', '\u{0484}',
        '\u{0485}', '\u{0486}', '\u{0487}', '\u{0592}', '\u{0593}', '\u{0594}', '\u{0595}', '\u{0597}',
        '\u{0598}', '\u{0599}', '\u{059A}', '\u{059B}', '\u{059C}', '\u{059D}', '\u{059E}', '\u{059F}',
        '\u{05A0}', '\u{05A1}', '\u{05A2}', '\u{05A3}', '\u{05A4}', '\u{05A5}', '\u{05A6}', '\u{05A7}',
        '\u{05A8}',
    ]
}

/// The diacritic that encodes the number `n` (taken modulo the table's size).
pub fn diacritic(n: u32) -> (c: char)
    ensures
        c == diacritics()[(n % 57) as int],
{
    let table: [char; 57] = [
        '\u{0305}', '\u{030D}', '\u{030E}', '\u{0310}', '\u{0312}', '\u{033D}', '\u{033E}', '\u{033F}',
        '\u{0346}', '\u{034A}', '\u{034B}', '\u{034C}', '\u{0350}', '\u{0351}', '\u{0352}', '\u{0357}',
        '\u{035B}', '\u{0363}', '\u{0364}', '\u{0365}', '\u{0366}', '\u{0367}', '\u{0368}', '\u{0369}',
        '\u{036A}', '\u{036B}', '\u{036C}', '\u{036D}', '\u{036E}', '\u{036F}', '\u{0483}', '\u{0484}',
        '\u{0485}', '\u{0486}', '\u{0487}', '\u{0592}', '\u{0593}', '\u{0594}', '\u{0595}', '\u{0597}',
        '\u{0598}', '\u{0599}', '\u{059A}', '\u{059B}', '\u{059C}', '\u{059D}', '\u{059E}', '\u{059F}',
        '\u{05A0}', '\u{05A1}', '\u{05A2}', '\u{05A3}', '\u{05A4}', '\u{05A5}', '\u{05A6}', '\u{05A7}',
        '\u{05A8}',
    ];
    assert(table@ == diacritics());
    table[(n % 57) as usize]
}

/// The placeholder character of the Kitty graphics protocol.
pub open spec fn placeholder() -> char {
    '\u{10EEEE}'
}

/// `n` copies of a character.
pub open spec fn repeated(c: char, n: nat) -> Seq<char> {
    Seq::new(n, |i: int| c)
}

/// One row of a placed image: the image id's low three bytes as the
/// foreground color, a first placeholder cell tagged with the row, the first
/// column and the id's high byte, then one bare placeholder per further column.
pub open spec fn placeholder_row(image_id: u32, row_in_image: u32, num_cols: u16) -> Seq<char> {
    "\x1b[38;2;"@ + decimal((image_id / 65536 % 256) as nat) + seq![';'] + decimal((image_id / 256 % 256) as nat)
        + seq![';'] + decimal((image_id % 256) as nat) + seq!['m', placeholder()] + seq![
        diacritics()[(row_in_image % 57) as int],
        diacritics()[0],
        diacritics()[((image_id / 16777216) % 57) as int],
    ] + repeated(placeholder(), if num_cols == 0 {
        0
    } else {
        (num_cols - 1) as nat
    }) + "\x1b[39m"@
}

/// The command that deletes one image.
pub open spec fn delete_image_command(image_id: u32) -> Seq<char> {
    "\x1b_Ga=d,d=I,i="@ + decimal(image_id as nat) + ";\x1b\\"@
}

/// The command that moves the cursor to a column and row (both counted from zero).
pub open spec fn move_to_command(col: u16, row: u16) -> Seq<char> {
    seq!['\x1b', '['] + decimal((row + 1) as nat) + seq![';'] + decimal((col + 1) as nat) + seq!['H']
}

/// The commands that blank the first `rows` rows, one after another.
pub open spec fn clear_rows(rows: nat) -> Seq<char>
    decreases rows,
{
    if rows == 0 {
        seq![]
    } else {
        clear_rows((rows - 1) as nat) + move_to_command(0, (rows - 1) as u16) + "\x1b[2K"@
    }
}

/// The result of the PNG encoder (fast compression, `Sub` filter) on an RGBA
/// buffer of the given size, or `None` when it reports an error.
pub uninterp spec fn png_fast_sub(rgba: Seq<u8>, width: u32, height: u32) -> Option<Seq<u8>>;

/// The character of a six-bit value in the standard base64 alphabet
/// (`A`-`Z`, `a`-`z`, `0`-`9`, `+`, `/`).
pub open spec fn base64_digit(v: int) -> char {
    if v < 26 {
        (65 + v) as char
    } else if v < 52 {
        (97 + v - 26) as char
    } else if v < 62 {
        (48 + v - 52) as char
    } else if v == 62 {
        '+'
    } else {
        '/'
    }
}

/// The standard base64 encoding of some bytes: each group of three bytes
/// becomes four characters of six bits each; a last group of one or two
/// bytes is padded with `=` to four characters.
#[verifier::opaque]
pub open spec fn base64_standard(bytes: Seq<u8>) -> Seq<char>
    decreases bytes.len(),
{
    if bytes.len() == 0 {
        seq![]
    } else if bytes.len() == 1 {
        let b0 = bytes[0] as int;
        seq![base64_digit(b0 / 4), base64_digit((b0 % 4) * 16), '=', '=']
    } else if bytes.len() == 2 {
        let b0 = bytes[0] as int;
        let b1 = bytes[1] as int;
        seq![base64_digit(b0 / 4), base64_digit((b0 % 4) * 16 + b1 / 16), base64_digit((b1 % 16) * 4), '=']
    } else {
        let b0 = bytes[0] as int;
        let b1 = bytes[1] as int;
        let b2 = bytes[2] as int;
        seq![
            base64_digit(b0 / 4),
            base64_digit((b0 % 4) * 16 + b1 / 16),
            base64_digit((b1 % 16) * 4 + b2 / 64),
            base64_digit(b2 % 64),
        ] + base64_standard(bytes.skip(3))
    }
}

/// Encodes RGBA pixels as a PNG with `image`'s `PngEncoder` (fast
/// compression, `Sub` filter). The contract names the result; it claims
/// nothing of the PNG format itself.
#[verifier::external_body]
fn encode_png(rgba: &[u8], width: u32, height: u32) -> (r: Option<Vec<u8>>)
    requires
        rgba@.len() == width * height * 4,
    ensures
        match r {
            Some(v) => png_fast_sub(rgba@, width, height) == Some(v@),
            None => png_fast_sub(rgba@, width, height) is None,
        },
{
    let mut png_bytes = Vec::new();
    let encoder = image::codecs::png::PngEncoder::new_with_quality(
        &mut png_bytes,
        image::codecs::png::CompressionType::Fast,
        image::codecs::png::FilterType::Sub,
    );
    match encoder.write_image(rgba, width, height, image::ExtendedColorType::Rgba8) {
        Ok(()) => Some(png_bytes),
        Err(_) => None,
    }
}

/// Encodes bytes as standard base64 with `base64`'s `STANDARD` engine, which
/// uses the standard alphabet and pads with `=`; the contract states the
/// encoding.
#[verifier::external_body]
fn base64_encode(bytes: &[u8]) -> (r: String)
    requires
        bytes@.len() / 3 * 4 + 4 <= usize::MAX,
    ensures
        r@ == base64_standard(bytes@),
{
    base64::engine::general_purpose::STANDARD.encode(bytes)
}

/// The number of bytes of PNG data sent in one graphics command.
pub const PNG_CHUNK_SIZE: usize = 3072;

/// The graphics commands that transmit a PNG for virtual placement, split into
/// base64 chunks of `PNG_CHUNK_SIZE` bytes; the first command carries the id
/// and the size, every command says whether more follow.
pub open spec fn transmit_commands(png: Seq<u8>, image_id: u32, width: u32, height: u32) -> Seq<char> {
    transmit_from(png, true, image_id, width, height)
}

/// The head of a transmission command: the first carries the image's id and
/// size; `more` says whether further commands follow.
pub open spec fn command_head(first: bool, more: bool, image_id: u32, width: u32, height: u32) -> Seq<char> {
    let m = if more {
        '1'
    } else {
        '0'
    };
    if first {
        "\x1b_Gi="@ + decimal(image_id as nat) + ",a=T,U=1,f=100,q=2,s="@ + decimal(width as nat) + ",v="@
            + decimal(height as nat) + ",m="@ + seq![m, ';']
    } else {
        "\x1b_Gm="@ + seq![m, ';']
    }
}

/// The commands that send the bytes `rest`, the first of them opening the
/// transmission when `first` holds.
pub open spec fn transmit_from(rest: Seq<u8>, first: bool, image_id: u32, width: u32, height: u32) -> Seq<char>
    decreases rest.len(),
{
    if rest.len() == 0 {
        seq![]
    } else if rest.len() <= PNG_CHUNK_SIZE {
        command_head(first, false, image_id, width, height) + base64_standard(rest) + "\x1b\\"@
    } else {
        command_head(first, true, image_id, width, height) + base64_standard(rest.take(PNG_CHUNK_SIZE as int))
            + "\x1b\\"@ + transmit_from(rest.skip(PNG_CHUNK_SIZE as int), false, image_id, width, height)
    }
}

/// One step of a transmission: the commands for the bytes from `begin` on are
/// the command for the next chunk followed by those for the bytes after it.
proof fn lemma_transmit_step(
    png: Seq<u8>,
    begin: int,
    end: int,
    more: bool,
    image_id: u32,
    width: u32,
    height: u32,
)
    requires
        0 <= begin < png.len(),
        more == (png.len() - begin > PNG_CHUNK_SIZE),
        end == if more {
            begin + PNG_CHUNK_SIZE
        } else {
            png.len() as int
        },
    ensures
        transmit_from(png.skip(begin), begin == 0, image_id, width, height) == command_head(
            begin == 0,
            more,
            image_id,
            width,
            height,
        ) + base64_standard(png.subrange(begin, end)) + "\x1b\\"@ + transmit_from(
            png.skip(end),
            false,
            image_id,
            width,
            height,
        ),
{
    let rest = png.skip(begin);
    assert(png.skip(end) =~= if more {
        rest.skip(PNG_CHUNK_SIZE as int)
    } else {
        Seq::<u8>::empty()
    });
    assert(png.subrange(begin, end) =~= if more {
        rest.take(PNG_CHUNK_SIZE as int)
    } else {
        rest
    });
    if !more {
        assert(command_head(begin == 0, more, image_id, width, height) + base64_standard(
            png.subrange(begin, end),
        ) + "\x1b\\"@ =~= command_head(begin == 0, more, image_id, width, height) + base64_standard(
            png.subrange(begin, end),
        ) + "\x1b\\"@ + Seq::<char>::empty());
    }
}

/// The PNG encoder refused an image.
#[derive(Debug, Clone, Copy, PartialEq, Eq, Structural)]
pub struct PngEncodeError;

/// The terminal's size in cells and pixels, and the output not yet written.
pub struct Terminal {
    pub cols: u16,
    pub rows: u16,
    pub cell_width: u16,
    pub cell_height: u16,
    /// Output collected and not yet written to the terminal.
    pub pending: String,
}

impl Terminal {
    /// The output collected and not yet handed out.
    pub open spec fn output(&self) -> Seq<char> {
        self.pending@
    }

    /// A terminal of the given size, with nothing pending.
    pub fn new(cols: u16, rows: u16, cell_width: u16, cell_height: u16) -> (t: Terminal)
        ensures
            t.cols == cols,
            t.rows == rows,
            t.cell_width == cell_width,
            t.cell_height == cell_height,
            t.output() == Seq::<char>::empty(),
    {
        Terminal { cols, rows, cell_width, cell_height, pending: String::new() }
    }

    /// The buffer that output is collected in.
    pub fn stdout_mut(&mut self) -> (out: &mut String)
        ensures
            *out == old(self).pending,
            final(self).pending == *final(out),
            final(self).cols == old(self).cols,
            final(self).rows == old(self).rows,
            final(self).cell_width == old(self).cell_width,
            final(self).cell_height == old(self).cell_height,
    {
        &mut self.pending
    }

    /// The width of the terminal in pixels.
    pub fn content_width_px(&self) -> (r: u32)
        ensures
            r == self.cols * self.cell_width,
    {
        assert(self.cols * self.cell_width <= 0xFFFF * 0xFFFF) by (nonlinear_arith)
            requires
                self.cols <= 0xFFFF,
                self.cell_width <= 0xFFFF,
        ;
        self.cols as u32 * self.cell_width as u32
    }

    /// The height in pixels of the rows that show the document.
    pub fn content_height_px(&self) -> (r: u32)
        ensures
            r == self.visible_rows() * self.cell_height,
    {
        let rows = self.content_rows() as u32;
        assert(rows * self.cell_height <= 0xFFFF * 0xFFFF) by (nonlinear_arith)
            requires
                rows <= 0xFFFF,
                self.cell_height <= 0xFFFF,
        ;
        rows * self.cell_height as u32
    }

    /// The rows that show the document: all but the two of the status bar.
    pub open spec fn visible_rows(&self) -> u16 {
        if self.rows >= 2 {
            (self.rows - 2) as u16
        } else {
            0
        }
    }

    /// The rows that show the document: all but the two of the status bar.
    pub fn content_rows(&self) -> (r: u16)
        ensures
            r == self.visible_rows(),
    {
        if self.rows >= 2 {
            self.rows - 2
        } else {
            0
        }
    }

    /// Takes the collected output, leaving nothing pending.
    pub fn flush(&mut self) -> (out: String)
        ensures
            out@ == old(self).output(),
            final(self).output() == Seq::<char>::empty(),
            final(self).cols == old(self).cols,
            final(self).rows == old(self).rows,
            final(self).cell_width == old(self).cell_width,
            final(self).cell_height == old(self).cell_height,
    {
        let mut out = String::new();
        std::mem::swap(&mut out, &mut self.pending);
        out
    }

    /// Prints one row of a placed image at the cursor.
    pub fn print_placeholder_row(&mut self, image_id: u32, row_in_image: u32, num_cols: u16)
        ensures
            final(self).output() == old(self).output() + placeholder_row(image_id, row_in_image, num_cols),
            final(self).cols == old(self).cols,
            final(self).rows == old(self).rows,
            final(self).cell_width == old(self).cell_width,
            final(self).cell_height == old(self).cell_height,
    {
        let id_extra = image_id / 16777216;
        let r = image_id / 65536 % 256;
        let g = image_id / 256 % 256;
        let b = image_id % 256;
        let row_diac = diacritic(row_in_image);
        let col0_diac = diacritic(0);
        let extra_diac = diacritic(id_extra);
        let ghost start = self.pending@;
        self.pending.append("\x1b[38;2;");
        push_decimal(&mut self.pending, r);
        push_char(&mut self.pending, ';');
        push_decimal(&mut self.pending, g);
        push_char(&mut self.pending, ';');
        push_decimal(&mut self.pending, b);
        push_char(&mut self.pending, 'm');
        push_char(&mut self.pending, '\u{10EEEE}');
        push_char(&mut self.pending, row_diac);
        push_char(&mut self.pending, col0_diac);
        push_char(&mut self.pending, extra_diac);
        let ghost head = self.pending@;
        let mut k: u16 = 1;
        while k < num_cols
            invariant
                1 <= k,
                num_cols >= 1 ==> k <= num_cols,
                num_cols == 0 ==> k == 1,
                self.pending@ == head + repeated(placeholder(), (k - 1) as nat),
                self.cols == old(self).cols,
                self.rows == old(self).rows,
                self.cell_width == old(self).cell_width,
                self.cell_height == old(self).cell_height,
            decreases num_cols - k,
        {
            push_char(&mut self.pending, '\u{10EEEE}');
            proof {
                assert(self.pending@ =~= head + repeated(placeholder(), k as nat));
            }
            k = k + 1;
        }
        self.pending.append("\x1b[39m");
        proof {
            assert((k - 1) as nat == if num_cols == 0 {
                0
            } else {
                (num_cols - 1) as nat
            });
            assert(self.pending@ =~= start + placeholder_row(image_id, row_in_image, num_cols));
        }
    }

    /// Deletes one image.
    pub fn delete_image(&mut self, image_id: u32)
        ensures
            final(self).output() == old(self).output() + delete_image_command(image_id),
            final(self).cols == old(self).cols,
            final(self).rows == old(self).rows,
            final(self).cell_width == old(self).cell_width,
            final(self).cell_height == old(self).cell_height,
    {
        let ghost start = self.pending@;
        self.pending.append("\x1b_Ga=d,d=I,i=");
        push_decimal(&mut self.pending, image_id);
        self.pending.append(";\x1b\\");
        assert(self.pending@ =~= start + delete_image_command(image_id));
    }

    /// Deletes every image.
    pub fn delete_all_images(&mut self)
        ensures
            final(self).output() == old(self).output() + "\x1b_Ga=d;\x1b\\"@,
            final(self).cols == old(self).cols,
            final(self).rows == old(self).rows,
            final(self).cell_width == old(self).cell_width,
            final(self).cell_height == old(self).cell_height,
    {
        self.pending.append("\x1b_Ga=d;\x1b\\");
    }

    /// Shows the pointer (hand) mouse cursor.
    pub fn set_pointer_cursor(&mut self)
        ensures
            final(self).output() == old(self).output() + "\x1b]22;pointer\x07"@,
            final(self).cols == old(self).cols,
            final(self).rows == old(self).rows,
            final(self).cell_width == old(self).cell_width,
            final(self).cell_height == old(self).cell_height,
    {
        self.pending.append("\x1b]22;pointer\x07");
    }

    /// Shows the default mouse cursor.
    pub fn set_default_cursor(&mut self)
        ensures
            final(self).output() == old(self).output() + "\x1b]22;default\x07"@,
            final(self).cols == old(self).cols,
            final(self).rows == old(self).rows,
            final(self).cell_width == old(self).cell_width,
            final(self).cell_height == old(self).cell_height,
    {
        self.pending.append("\x1b]22;default\x07");
    }

    /// Puts text on the system clipboard (OSC 52, base64 payload).
    pub fn copy_to_clipboard(&mut self, text: &str)
        requires
            text.spec_bytes().len() / 3 * 4 + 4 <= usize::MAX,
        ensures
            final(self).output() == old(self).output() + "\x1b]52;c;"@ + base64_standard(text.spec_bytes())
                + "\x07"@,
            final(self).cols == old(self).cols,
            final(self).rows == old(self).rows,
            final(self).cell_width == old(self).cell_width,
            final(self).cell_height == old(self).cell_height,
    {
        let encoded = base64_encode(text.as_bytes());
        let ghost start = self.pending@;
        self.pending.append("\x1b]52;c;");
        self.pending.append(encoded.as_str());
        self.pending.append("\x07");
        assert(self.pending@ =~= start + "\x1b]52;c;"@ + base64_standard(text.spec_bytes()) + "\x07"@);
    }

    /// Clears the content area (all rows except the status bar).
    pub fn clear_content(&mut self)
        ensures
            final(self).output() == old(self).output() + clear_rows(old(self).visible_rows() as nat),
            final(self).cols == old(self).cols,
            final(self).rows == old(self).rows,
            final(self).cell_width == old(self).cell_width,
            final(self).cell_height == old(self).cell_height,
    {
        let rows = self.content_rows();
        let ghost start = self.pending@;
        let mut row: u16 = 0;
        while row < rows
            invariant
                row <= rows,
                rows < 0xFFFF,
                self.pending@ == start + clear_rows(row as nat),
                self.cols == old(self).cols,
                self.rows == old(self).rows,
                self.cell_width == old(self).cell_width,
                self.cell_height == old(self).cell_height,
            decreases rows - row,
        {
            let ghost before = self.pending@;
            push_char(&mut self.pending, '\x1b');
            push_char(&mut self.pending, '[');
            push_decimal(&mut self.pending, row as u32 + 1);
            push_char(&mut self.pending, ';');
            push_decimal(&mut self.pending, 1);
            push_char(&mut self.pending, 'H');
            self.pending.append("\x1b[2K");
            proof {
                assert(self.pending@ =~= before + move_to_command(0, row) + "\x1b[2K"@);
                assert(clear_rows((row + 1) as nat) == clear_rows(row as nat) + move_to_command(0, row) + "\x1b[2K"@);
                assert(self.pending@ =~= start + clear_rows((row + 1) as nat));
            }
            row = row + 1;
        }
    }

    /// Takes a new size (after the terminal was resized).
    pub fn update_size(&mut self, cols: u16, rows: u16, cell_width: u16, cell_height: u16)
        ensures
            final(self).cols == cols,
            final(self).rows == rows,
            final(self).cell_width == cell_width,
            final(self).cell_height == cell_height,
            final(self).output() == old(self).output(),
    {
        self.cols = cols;
        self.rows = rows;
        self.cell_width = cell_width;
        self.cell_height = cell_height;
    }

    /// Deletes every image and turns mouse tracking off, before the program
    /// leaves the alternate screen.
    pub fn cleanup(&mut self)
        ensures
            final(self).output() == old(self).output() + "\x1b_Ga=d;\x1b\\"@ + "\x1b[?1003l\x1b[?1006l"@,
            final(self).cols == old(self).cols,
            final(self).rows == old(self).rows,
            final(self).cell_width == old(self).cell_width,
            final(self).cell_height == old(self).cell_height,
    {
        self.delete_all_images();
        self.pending.append("\x1b[?1003l\x1b[?1006l");
    }

    /// Transmits an image for virtual placement (`U=1`): the pixels are
    /// encoded as a PNG and sent in base64 chunks. Fails, sending nothing,
    /// when the encoder refuses the image.
    pub fn transmit_virtual(&mut self, image_id: u32, rgba: &[u8], width: u32, height: u32) -> (r: Result<
        (),
        PngEncodeError,
    >)
        requires
            rgba@.len() == width * height * 4,
        ensures
            r is Ok <==> png_fast_sub(rgba@, width, height) is Some,
            r is Ok ==> final(self).output() == old(self).output() + transmit_commands(
                png_fast_sub(rgba@, width, height)->0,
                image_id,
                width,
                height,
            ),
            r is Err ==> final(self).output() == old(self).output(),
            final(self).cols == old(self).cols,
            final(self).rows == old(self).rows,
            final(self).cell_width == old(self).cell_width,
            final(self).cell_height == old(self).cell_height,
    {
        let png = match encode_png(rgba, width, height) {
            Some(p) => p,
            None => return Err(PngEncodeError),
        };
        let ghost start = self.pending@;
        let mut begin: usize = 0;
        assert(png@.skip(0) =~= png@);
        while begin < png.len()
            invariant
                begin <= png@.len(),
                start + transmit_from(png@, true, image_id, width, height) == self.pending@ + transmit_from(
                    png@.skip(begin as int),
                    begin == 0,
                    image_id,
                    width,
                    height,
                ),
                self.cols == old(self).cols,
                self.rows == old(self).rows,
                self.cell_width == old(self).cell_width,
                self.cell_height == old(self).cell_height,
            decreases png@.len() - begin,
        {
            let more = png.len() - begin > PNG_CHUNK_SIZE;
            let end = if more {
                begin + PNG_CHUNK_SIZE
            } else {
                png.len()
            };
            let encoded = base64_encode(&png.as_slice()[begin..end]);
            let ghost before = self.pending@;
            if begin == 0 {
                self.pending.append("\x1b_Gi=");
                push_decimal(&mut self.pending, image_id);
                self.pending.append(",a=T,U=1,f=100,q=2,s=");
                push_decimal(&mut self.pending, width);
                self.pending.append(",v=");
                push_decimal(&mut self.pending, height);
                self.pending.append(",m=");
            } else {
                self.pending.append("\x1b_Gm=");
            }
            push_char(&mut self.pending, if more { '1' } else { '0' });
            push_char(&mut self.pending, ';');
            self.pending.append(encoded.as_str());
            self.pending.append("\x1b\\");
            proof {
                lemma_transmit_step(png@, begin as int, end as int, more, image_id, width, height);
                let chunk = command_head(begin == 0, more, image_id, width, height) + base64_standard(
                    png@.subrange(begin as int, end as int),
                ) + "\x1b\\"@;
                assert(self.pending@ =~= before + chunk);
                let tail = transmit_from(png@.skip(end as int), false, image_id, width, height);
                assert(before + (chunk + tail) =~= self.pending@ + tail);
            }
            begin = end;
        }
        proof {
            assert(png@.skip(begin as int) =~= Seq::<u8>::empty());
        }
        Ok(())
    }
}

} // verus!
