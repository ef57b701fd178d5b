use vstd::prelude::*;
use crate::screen_buffer::{
    in_bounds, lemma_index_in_range, lemma_with_pixel, next_frame_id, pixel_at, ScreenBuffer,
    ScreenModel,
};

verus! {

pub const TEXT_COLS: usize = 40;
pub const TEXT_ROWS: usize = 24;
pub const GLYPH_WIDTH: usize = 7;
pub const CELL_WIDTH: usize = GLYPH_WIDTH * 2;
pub const GLYPH_HEIGHT: usize = 8;
pub const CELL_HEIGHT: usize = GLYPH_HEIGHT * 2;
pub const FRAME_WIDTH: usize = TEXT_COLS * CELL_WIDTH;
pub const FRAME_HEIGHT: usize = TEXT_ROWS * CELL_HEIGHT;

pub const COLOR_BLACK: u32 = 0xff00_0000;
pub const COLOR_WHITE: u32 = 0xffff_ffff;
pub const COLOR_PHOSPHOR_GREEN: u32 = 0xff33_ff66;

/// Size of the character memory the controller reads from.
pub const TEXT_MEMORY_SIZE: usize = 65536;
/// Number of character codes in a glyph bank.
pub const GLYPH_CODES: usize = 128;
/// Bytes in a glyph bank: one row byte per code and scanline.
pub const GLYPH_TABLE_LEN: usize = GLYPH_CODES * GLYPH_HEIGHT;
/// Bytes in one bank of a character-display ROM image.
pub const TEXT_DISPLAY_BANK_SIZE: usize = 2048;
/// Offset of the non-inverse glyphs inside the normal bank of such a ROM.
pub const NON_INVERSE_GLYPH_OFFSET: usize = GLYPH_CODES * GLYPH_HEIGHT;

/// The glyph code shown for a character byte: its high (inverse) bit is dropped.
pub open spec fn glyph_code(ch: u8) -> int {
    (ch % 128) as int
}

/// Whether pixel `gx` of scanline `gy` of glyph `code` is lit. Each row byte
/// holds seven pixels in its low bits, the least significant bit leftmost.
pub open spec fn glyph_bit(table: Seq<u8>, code: int, gy: int, gx: int) -> bool {
    ((table[code * 8 + gy] & 0x7f) >> (gx as u8)) & 1 == 1
}

/// A glyph with no lit pixel on any scanline.
pub open spec fn glyph_is_blank(table: Seq<u8>, code: int) -> bool {
    forall|gy: int| 0 <= gy < 8 ==> #[trigger] table[code * 8 + gy] & 0x7f == 0
}

/// The color of pixel `(lx, ly)` of a cell showing `ch`; each glyph pixel
/// covers a 2x2 block of the cell.
pub open spec fn cell_pixel(table: Seq<u8>, fg: u32, ch: u8, lx: int, ly: int) -> u32 {
    if glyph_bit(table, glyph_code(ch), ly / 2, lx / 2) {
        fg
    } else {
        COLOR_BLACK
    }
}

/// The character byte shown in cell `(col, row)`; addresses wrap at 64 KiB.
pub open spec fn cell_char(base: u16, ram: Seq<u8>, col: int, row: int) -> u8 {
    ram[(base + row * 40 + col) % 65536]
}

/// Whether frame pixel `(x, y)` lies in cell `(col, row)`.
pub open spec fn in_cell(col: int, row: int, x: int, y: int) -> bool {
    col * 14 <= x < col * 14 + 14 && row * 16 <= y < row * 16 + 16
}

/// A bank of 128 glyphs of 8 scanlines each.
pub struct GlyphTable {
    rows: Vec<u8>,
}

impl View for GlyphTable {
    type V = Seq<u8>;

    closed spec fn view(&self) -> Seq<u8> {
        self.rows@
    }
}

impl GlyphTable {
    /// The bank that ships with the library: a 5x7 character set laid out in
    /// the 7x8 cell with a blank left column and bottom scanline. Control
    /// codes below 0x20 and the space are blank; 0x7f is a checkerboard.
    pub fn builtin() -> (r: GlyphTable)
        ensures
            r@.len() == GLYPH_TABLE_LEN,
            forall|code: int| 0 <= code <= 0x20 ==> glyph_is_blank(r@, code),
    {
        let rows: Vec<u8> = vec![
            0x00, 0x00, 0x00, 0x00, 0x00, 0x00, 0x00, 0x00,
            0x00, 0x00, 0x00, 0x00, 0x00, 0x00, 0x00, 0x00,
            0x00, 0x00, 0x00, 0x00, 0x00, 0x00, 0x00, 0x00,
            0x00, 0x00, 0x00, 0x00, 0x00, 0x00, 0x00, 0x00,
            0x00, 0x00, 0x00, 0x00, 0x00, 0x00, 0x00, 0x00,
            0x00, 0x00, 0x00, 0x00, 0x00, 0x00, 0x00, 0x00,
            0x00, 0x00, 0x00, 0x00, 0x00, 0x00, 0x00, 0x00,
            0x00, 0x00, 0x00, 0x00, 0x00, 0x00, 0x00, 0x00,
            0x00, 0x00, 0x00, 0x00, 0x00, 0x00, 0x00, 0x00,
            0x00, 0x00, 0x00, 0x00, 0x00, 0x00, 0x00, 0x00,
            0x00, 0x00, 0x00, 0x00, 0x00, 0x00, 0x00, 0x00,
            0x00, 0x00, 0x00, 0x00, 0x00, 0x00, 0x00, 0x00,
            0x00, 0x00, 0x00, 0x00, 0x00, 0x00, 0x00, 0x00,
            0x00, 0x00, 0x00, 0x00, 0x00, 0x00, 0x00, 0x00,
            0x00, 0x00, 0x00, 0x00, 0x00, 0x00, 0x00, 0x00,
            0x00, 0x00, 0x00, 0x00, 0x00, 0x00, 0x00, 0x00,
            0x00, 0x00, 0x00, 0x00, 0x00, 0x00, 0x00, 0x00,
            0x00, 0x00, 0x00, 0x00, 0x00, 0x00, 0x00, 0x00,
            0x00, 0x00, 0x00, 0x00, 0x00, 0x00, 0x00, 0x00,
            0x00, 0x00, 0x00, 0x00, 0x00, 0x00, 0x00, 0x00,
            0x00, 0x00, 0x00, 0x00, 0x00, 0x00, 0x00, 0x00,
            0x00, 0x00, 0x00, 0x00, 0x00, 0x00, 0x00, 0x00,
            0x00, 0x00, 0x00, 0x00, 0x00, 0x00, 0x00, 0x00,
            0x00, 0x00, 0x00, 0x00, 0x00, 0x00, 0x00, 0x00,
            0x00, 0x00, 0x00, 0x00, 0x00, 0x00, 0x00, 0x00,
            0x00, 0x00, 0x00, 0x00, 0x00, 0x00, 0x00, 0x00,
            0x00, 0x00, 0x00, 0x00, 0x00, 0x00, 0x00, 0x00,
            0x00, 0x00, 0x00, 0x00, 0x00, 0x00, 0x00, 0x00,
            0x00, 0x00, 0x00, 0x00, 0x00, 0x00, 0x00, 0x00,
            0x00, 0x00, 0x00, 0x00, 0x00, 0x00, 0x00, 0x00,
            0x00, 0x00, 0x00, 0x00, 0x00, 0x00, 0x00, 0x00,
            0x00, 0x00, 0x00, 0x00, 0x00, 0x00, 0x00, 0x00,
            0x00, 0x00, 0x00, 0x00, 0x00, 0x00, 0x00, 0x00,
            0x08, 0x08, 0x08, 0x08, 0x08, 0x00, 0x08, 0x00,
            0x14, 0x14, 0x14, 0x00, 0x00, 0x00, 0x00, 0x00,
            0x14, 0x14, 0x3e, 0x14, 0x3e, 0x14, 0x14, 0x00,
            0x08, 0x3c, 0x0a, 0x1c, 0x28, 0x1e, 0x08, 0x00,
            0x06, 0x26, 0x10, 0x08, 0x04, 0x32, 0x30, 0x00,
            0x04, 0x0a, 0x0a, 0x04, 0x2a, 0x12, 0x2c, 0x00,
            0x08, 0x08, 0x08, 0x00, 0x00, 0x00, 0x00, 0x00,
            0x08, 0x04, 0x02, 0x02, 0x02, 0x04, 0x08, 0x00,
            0x08, 0x10, 0x20, 0x20, 0x20, 0x10, 0x08, 0x00,
            0x08, 0x2a, 0x1c, 0x08, 0x1c, 0x2a, 0x08, 0x00,
            0x00, 0x08, 0x08, 0x3e, 0x08, 0x08, 0x00, 0x00,
            0x00, 0x00, 0x00, 0x00, 0x08, 0x08, 0x04, 0x00,
            0x00, 0x00, 0x00, 0x3e, 0x00, 0x00, 0x00, 0x00,
            0x00, 0x00, 0x00, 0x00, 0x00, 0x00, 0x08, 0x00,
            0x00, 0x20, 0x10, 0x08, 0x04, 0x02, 0x00, 0x00,
            0x1c, 0x22, 0x32, 0x2a, 0x26, 0x22, 0x1c, 0x00,
            0x08, 0x0c, 0x08, 0x08, 0x08, 0x08, 0x1c, 0x00,
            0x1c, 0x22, 0x20, 0x18, 0x04, 0x02, 0x3e, 0x00,
            0x3e, 0x20, 0x10, 0x18, 0x20, 0x22, 0x1c, 0x00,
            0x10, 0x18, 0x14, 0x12, 0x3e, 0x10, 0x10, 0x00,
            0x3e, 0x02, 0x1e, 0x20, 0x20, 0x22, 0x1c, 0x00,
            0x38, 0x04, 0x02, 0x1e, 0x22, 0x22, 0x1c, 0x00,
            0x3e, 0x20, 0x10, 0x08, 0x04, 0x04, 0x04, 0x00,
            0x1c, 0x22, 0x22, 0x1c, 0x22, 0x22, 0x1c, 0x00,
            0x1c, 0x22, 0x22, 0x3c, 0x20, 0x10, 0x0e, 0x00,
            0x00, 0x00, 0x08, 0x00, 0x08, 0x00, 0x00, 0x00,
            0x00, 0x00, 0x08, 0x00, 0x08, 0x08, 0x04, 0x00,
            0x10, 0x08, 0x04, 0x02, 0x04, 0x08, 0x10, 0x00,
            0x00, 0x00, 0x3e, 0x00, 0x3e, 0x00, 0x00, 0x00,
            0x04, 0x08, 0x10, 0x20, 0x10, 0x08, 0x04, 0x00,
            0x1c, 0x22, 0x10, 0x08, 0x08, 0x00, 0x08, 0x00,
            0x1c, 0x22, 0x2a, 0x3a, 0x1a, 0x02, 0x3c, 0x00,
            0x08, 0x14, 0x22, 0x22, 0x3e, 0x22, 0x22, 0x00,
            0x1e, 0x22, 0x22, 0x1e, 0x22, 0x22, 0x1e, 0x00,
            0x1c, 0x22, 0x02, 0x02, 0x02, 0x22, 0x1c, 0x00,
            0x1e, 0x22, 0x22, 0x22, 0x22, 0x22, 0x1e, 0x00,
            0x3e, 0x02, 0x02, 0x1e, 0x02, 0x02, 0x3e, 0x00,
            0x3e, 0x02, 0x02, 0x1e, 0x02, 0x02, 0x02, 0x00,
            0x3c, 0x02, 0x02, 0x32, 0x22, 0x22, 0x3c, 0x00,
            0x22, 0x22, 0x22, 0x3e, 0x22, 0x22, 0x22, 0x00,
            0x1c, 0x08, 0x08, 0x08, 0x08, 0x08, 0x1c, 0x00,
            0x20, 0x20, 0x20, 0x20, 0x20, 0x22, 0x1c, 0x00,
            0x22, 0x12, 0x0a, 0x06, 0x0a, 0x12, 0x22, 0x00,
            0x02, 0x02, 0x02, 0x02, 0x02, 0x02, 0x3e, 0x00,
            0x22, 0x36, 0x2a, 0x2a, 0x22, 0x22, 0x22, 0x00,
            0x22, 0x22, 0x26, 0x2a, 0x32, 0x22, 0x22, 0x00,
            0x1c, 0x22, 0x22, 0x22, 0x22, 0x22, 0x1c, 0x00,
            0x1e, 0x22, 0x22, 0x1e, 0x02, 0x02, 0x02, 0x00,
            0x1c, 0x22, 0x22, 0x22, 0x2a, 0x12, 0x2c, 0x00,
            0x1e, 0x22, 0x22, 0x1e, 0x0a, 0x12, 0x22, 0x00,
            0x1c, 0x22, 0x02, 0x1c, 0x20, 0x22, 0x1c, 0x00,
            0x3e, 0x08, 0x08, 0x08, 0x08, 0x08, 0x08, 0x00,
            0x22, 0x22, 0x22, 0x22, 0x22, 0x22, 0x1c, 0x00,
            0x22, 0x22, 0x22, 0x22, 0x22, 0x14, 0x08, 0x00,
            0x22, 0x22, 0x22, 0x2a, 0x2a, 0x36, 0x22, 0x00,
            0x22, 0x22, 0x14, 0x08, 0x14, 0x22, 0x22, 0x00,
            0x22, 0x22, 0x14, 0x08, 0x08, 0x08, 0x08, 0x00,
            0x3e, 0x20, 0x10, 0x08, 0x04, 0x02, 0x3e, 0x00,
            0x3e, 0x06, 0x06, 0x06, 0x06, 0x06, 0x3e, 0x00,
            0x00, 0x02, 0x04, 0x08, 0x10, 0x20, 0x00, 0x00,
            0x3e, 0x30, 0x30, 0x30, 0x30, 0x30, 0x3e, 0x00,
            0x00, 0x00, 0x08, 0x14, 0x22, 0x00, 0x00, 0x00,
            0x00, 0x00, 0x00, 0x00, 0x00, 0x00, 0x3e, 0x00,
            0x04, 0x08, 0x10, 0x00, 0x00, 0x00, 0x00, 0x00,
            0x00, 0x00, 0x1c, 0x20, 0x3c, 0x22, 0x3c, 0x00,
            0x02, 0x02, 0x1e, 0x22, 0x22, 0x22, 0x1e, 0x00,
            0x00, 0x00, 0x3c, 0x02, 0x02, 0x02, 0x3c, 0x00,
            0x20, 0x20, 0x3c, 0x22, 0x22, 0x22, 0x3c, 0x00,
            0x00, 0x00, 0x1c, 0x22, 0x3e, 0x02, 0x3c, 0x00,
            0x18, 0x24, 0x04, 0x1e, 0x04, 0x04, 0x04, 0x00,
            0x00, 0x00, 0x1c, 0x22, 0x22, 0x3c, 0x20, 0x00,
            0x02, 0x02, 0x1e, 0x22, 0x22, 0x22, 0x22, 0x00,
            0x08, 0x00, 0x0c, 0x08, 0x08, 0x08, 0x1c, 0x00,
            0x10, 0x00, 0x18, 0x10, 0x10, 0x10, 0x12, 0x00,
            0x02, 0x02, 0x22, 0x12, 0x0e, 0x12, 0x22, 0x00,
            0x0c, 0x08, 0x08, 0x08, 0x08, 0x08, 0x1c, 0x00,
            0x00, 0x00, 0x16, 0x2a, 0x2a, 0x2a, 0x2a, 0x00,
            0x00, 0x00, 0x1e, 0x22, 0x22, 0x22, 0x22, 0x00,
            0x00, 0x00, 0x1c, 0x22, 0x22, 0x22, 0x1c, 0x00,
            0x00, 0x00, 0x1e, 0x22, 0x22, 0x1e, 0x02, 0x00,
            0x00, 0x00, 0x3c, 0x22, 0x22, 0x3c, 0x20, 0x00,
            0x00, 0x00, 0x3a, 0x06, 0x02, 0x02, 0x02, 0x00,
            0x00, 0x00, 0x3c, 0x02, 0x1c, 0x20, 0x1e, 0x00,
            0x04, 0x04, 0x1e, 0x04, 0x04, 0x24, 0x18, 0x00,
            0x00, 0x00, 0x22, 0x22, 0x22, 0x32, 0x2c, 0x00,
            0x00, 0x00, 0x22, 0x22, 0x22, 0x14, 0x08, 0x00,
            0x00, 0x00, 0x22, 0x22, 0x2a, 0x2a, 0x14, 0x00,
            0x00, 0x00, 0x22, 0x14, 0x08, 0x14, 0x22, 0x00,
            0x00, 0x00, 0x22, 0x22, 0x22, 0x3c, 0x20, 0x00,
            0x00, 0x00, 0x3e, 0x10, 0x08, 0x04, 0x3e, 0x00,
            0x38, 0x0c, 0x0c, 0x06, 0x0c, 0x0c, 0x38, 0x00,
            0x08, 0x08, 0x08, 0x08, 0x08, 0x08, 0x08, 0x00,
            0x0e, 0x18, 0x18, 0x30, 0x18, 0x18, 0x0e, 0x00,
            0x2c, 0x1a, 0x00, 0x00, 0x00, 0x00, 0x00, 0x00,
            0x2a, 0x54, 0x2a, 0x54, 0x2a, 0x54, 0x2a, 0x00,
        ];
        proof {
            assert forall|i: int| 0 <= i < 0x21 * 8 implies #[trigger] rows@[i] == 0u8 by {}
            assert(0u8 & 0x7f == 0) by (bit_vector);
            assert forall|code: int| 0 <= code <= 0x20 implies glyph_is_blank(rows@, code) by {
                assert forall|gy: int| 0 <= gy < 8 implies #[trigger] rows@[code * 8 + gy] & 0x7f
                    == 0 by {
                    assert(rows@[code * 8 + gy] == 0u8);
                }
            }
        }
        GlyphTable { rows }
    }

    /// Takes the non-inverse glyphs of the normal bank out of a character
    /// display ROM image; `None` when the image is shorter than one bank.
    pub fn from_rom(rom: &[u8]) -> (r: Option<GlyphTable>)
        ensures
            r is Some <==> rom@.len() >= TEXT_DISPLAY_BANK_SIZE,
            r is Some ==> r->0@ == rom@.subrange(
                NON_INVERSE_GLYPH_OFFSET as int,
                (NON_INVERSE_GLYPH_OFFSET + GLYPH_TABLE_LEN) as int,
            ),
    {
        if rom.len() < TEXT_DISPLAY_BANK_SIZE {
            return None;
        }
        let mut rows: Vec<u8> = Vec::with_capacity(GLYPH_TABLE_LEN);
        let mut i: usize = 0;
        while i < GLYPH_TABLE_LEN
            invariant
                i <= GLYPH_TABLE_LEN,
                rom@.len() >= TEXT_DISPLAY_BANK_SIZE,
                rows@ == rom@.subrange(
                    NON_INVERSE_GLYPH_OFFSET as int,
                    (NON_INVERSE_GLYPH_OFFSET + i) as int,
                ),
            decreases GLYPH_TABLE_LEN - i,
        {
            rows.push(rom[NON_INVERSE_GLYPH_OFFSET + i]);
            i = i + 1;
        }
        Some(GlyphTable { rows })
    }

    /// The row byte of scanline `y` of glyph `code`.
    pub fn row(&self, code: u8, y: usize) -> (r: u8)
        requires
            self@.len() == GLYPH_TABLE_LEN,
            code < GLYPH_CODES,
            y < GLYPH_HEIGHT,
        ensures
            r == self@[code * 8 + y],
    {
        self.rows[code as usize * GLYPH_HEIGHT + y]
    }
}

/// Abstract configuration of a text video controller.
pub struct TextVideoModel {
    pub text_base: u16,
    pub foreground: u32,
    pub glyphs: Seq<u8>,
}

impl TextVideoModel {
    pub open spec fn wf(self) -> bool {
        self.glyphs.len() == GLYPH_TABLE_LEN
    }

    /// The color of frame pixel `(x, y)` when the character memory holds `ram`.
    pub open spec fn frame_pixel(self, ram: Seq<u8>, x: int, y: int) -> u32 {
        cell_pixel(
            self.glyphs,
            self.foreground,
            cell_char(self.text_base, ram, x / 14, y / 16),
            x % 14,
            y % 16,
        )
    }
}

/// Renders a 40x24 window of character memory into a 560x384 frame.
pub struct TextVideoController {
    text_base: u16,
    foreground: u32,
    glyphs: GlyphTable,
}

impl View for TextVideoController {
    type V = TextVideoModel;

    closed spec fn view(&self) -> TextVideoModel {
        TextVideoModel { text_base: self.text_base, foreground: self.foreground, glyphs: self.glyphs@ }
    }
}

/// Pixel `(x, y)` of cell `(col, row)` sits at offset `(x % 14, y % 16)`.
proof fn lemma_cell_offsets(col: int, row: int, x: int, y: int)
    requires
        in_cell(col, row, x, y),
    ensures
        x / 14 == col,
        y / 16 == row,
        x % 14 == x - col * 14,
        y % 16 == y - row * 16,
{
}

/// Where the Apple IIe keeps its first text page.
pub const DEFAULT_TEXT_BASE: u16 = 0x0400;

impl Default for TextVideoController {
    fn default() -> (r: Self)
        ensures
            r@.wf(),
            r@.text_base == DEFAULT_TEXT_BASE,
            r@.foreground == COLOR_PHOSPHOR_GREEN,
            forall|code: int| 0 <= code <= 0x20 ==> glyph_is_blank(r@.glyphs, code),
    {
        TextVideoController::new(DEFAULT_TEXT_BASE)
    }
}

impl TextVideoController {
    /// A controller reading from `text_base`, drawing the built-in glyphs in
    /// phosphor green.
    pub fn new(text_base: u16) -> (r: TextVideoController)
        ensures
            r@.wf(),
            r@.text_base == text_base,
            r@.foreground == COLOR_PHOSPHOR_GREEN,
            forall|code: int| 0 <= code <= 0x20 ==> glyph_is_blank(r@.glyphs, code),
    {
        TextVideoController { text_base, foreground: COLOR_PHOSPHOR_GREEN, glyphs: GlyphTable::builtin() }
    }

    /// The same controller with another foreground color.
    pub fn with_foreground_color(self, color: u32) -> (r: TextVideoController)
        ensures
            r@ == (TextVideoModel { foreground: color, ..self@ }),
    {
        TextVideoController { foreground: color, ..self }
    }

    /// The same controller drawing from another glyph bank.
    pub fn with_glyphs(self, glyphs: GlyphTable) -> (r: TextVideoController)
        ensures
            r@ == (TextVideoModel { glyphs: glyphs@, ..self@ }),
    {
        TextVideoController { glyphs, ..self }
    }

    pub fn frame_dimensions(&self) -> (r: (usize, usize))
        ensures
            r == (FRAME_WIDTH, FRAME_HEIGHT),
    {
        (FRAME_WIDTH, FRAME_HEIGHT)
    }

    /// Draws the whole frame for the character memory `ram` into `out`, then
    /// publishes it. Every pixel is the 2x2-doubled glyph pixel of its cell.
    pub fn render_frame(&self, ram: &[u8; 65536], out: &mut ScreenBuffer)
        requires
            self@.wf(),
            old(out)@.wf(),
            old(out)@.width == FRAME_WIDTH,
            old(out)@.height == FRAME_HEIGHT,
        ensures
            final(out)@.wf(),
            final(out)@.width == FRAME_WIDTH,
            final(out)@.height == FRAME_HEIGHT,
            final(out)@.frame_id == next_frame_id(old(out)@.frame_id),
            forall|x: int, y: int|
                in_bounds(final(out)@, x, y) ==> #[trigger] pixel_at(final(out)@, x, y)
                    == self@.frame_pixel(ram@, x, y),
    {
        out.clear(COLOR_BLACK);
        proof {
            let m = out@;
            assert forall|x: int, y: int| in_bounds(m, x, y) implies #[trigger] pixel_at(m, x, y)
                == COLOR_BLACK by {
                lemma_index_in_range(m.width, m.height, x, y);
            }
        }
        let mut row: usize = 0;
        while row < TEXT_ROWS
            invariant
                self@.wf(),
                row <= TEXT_ROWS,
                out@.wf(),
                out@.width == FRAME_WIDTH,
                out@.height == FRAME_HEIGHT,
                out@.frame_id == old(out)@.frame_id,
                forall|x: int, y: int|
                    in_bounds(out@, x, y) ==> #[trigger] pixel_at(out@, x, y) == if y < row * 16 {
                        self@.frame_pixel(ram@, x, y)
                    } else {
                        COLOR_BLACK
                    },
            decreases TEXT_ROWS - row,
        {
            let mut col: usize = 0;
            while col < TEXT_COLS
                invariant
                    self@.wf(),
                    row < TEXT_ROWS,
                    col <= TEXT_COLS,
                    out@.wf(),
                    out@.width == FRAME_WIDTH,
                    out@.height == FRAME_HEIGHT,
                    out@.frame_id == old(out)@.frame_id,
                    forall|x: int, y: int|
                        in_bounds(out@, x, y) ==> #[trigger] pixel_at(out@, x, y) == if y < row
                            * 16 || (y < row * 16 + 16 && x < col * 14) {
                            self@.frame_pixel(ram@, x, y)
                        } else {
                            COLOR_BLACK
                        },
                decreases TEXT_COLS - col,
            {
                let addr = (self.text_base as usize + row * TEXT_COLS + col) % TEXT_MEMORY_SIZE;
                let ch = ram[addr];
                self.render_cell(ch, col, row, out);
                proof {
                    let m = out@;
                    assert forall|x: int, y: int| in_bounds(m, x, y) implies #[trigger] pixel_at(
                        m,
                        x,
                        y,
                    ) == if y < row * 16 || (y < row * 16 + 16 && x < (col + 1) * 14) {
                        self@.frame_pixel(ram@, x, y)
                    } else {
                        COLOR_BLACK
                    } by {
                        if in_cell(col as int, row as int, x, y) {
                            lemma_cell_offsets(col as int, row as int, x, y);
                        }
                    }
                }
                col = col + 1;
            }
            row = row + 1;
        }
        let ghost drawn = out@;
        out.publish_frame();
        proof {
            assert forall|x: int, y: int| in_bounds(out@, x, y) implies #[trigger] pixel_at(
                out@,
                x,
                y,
            ) == self@.frame_pixel(ram@, x, y) by {
                assert(pixel_at(drawn, x, y) == pixel_at(out@, x, y));
            }
        }
    }

    /// Draws the cell `(col, row)` showing `ch`; nothing outside the cell changes.
    fn render_cell(&self, ch: u8, col: usize, row: usize, out: &mut ScreenBuffer)
        requires
            self@.wf(),
            old(out)@.wf(),
            old(out)@.width == FRAME_WIDTH,
            old(out)@.height == FRAME_HEIGHT,
            col < TEXT_COLS,
            row < TEXT_ROWS,
        ensures
            final(out)@.wf(),
            final(out)@.width == FRAME_WIDTH,
            final(out)@.height == FRAME_HEIGHT,
            final(out)@.frame_id == old(out)@.frame_id,
            forall|x: int, y: int|
                in_bounds(final(out)@, x, y) ==> #[trigger] pixel_at(final(out)@, x, y) == if in_cell(
                    col as int,
                    row as int,
                    x,
                    y,
                ) {
                    cell_pixel(self@.glyphs, self@.foreground, ch, x - col * 14, y - row * 16)
                } else {
                    pixel_at(old(out)@, x, y)
                },
    {
        let x0 = col * CELL_WIDTH;
        let y0 = row * CELL_HEIGHT;
        let code = ch & 0x7f;
        assert(code == glyph_code(ch)) by (bit_vector)
            requires
                code == ch & 0x7f,
        ;
        let ghost start = out@;
        let mut glyph_y: usize = 0;
        while glyph_y < GLYPH_HEIGHT
            invariant
                self@.wf(),
                col < TEXT_COLS,
                row < TEXT_ROWS,
                x0 == col * 14,
                y0 == row * 16,
                code == glyph_code(ch),
                glyph_y <= GLYPH_HEIGHT,
                start == old(out)@,
                out@.wf(),
                out@.width == FRAME_WIDTH,
                out@.height == FRAME_HEIGHT,
                out@.frame_id == old(out)@.frame_id,
                forall|x: int, y: int|
                    in_bounds(out@, x, y) ==> #[trigger] pixel_at(out@, x, y) == if in_cell(
                        col as int,
                        row as int,
                        x,
                        y,
                    ) && y - y0 < 2 * glyph_y {
                        cell_pixel(self@.glyphs, self@.foreground, ch, x - x0, y - y0)
                    } else {
                        pixel_at(start, x, y)
                    },
            decreases GLYPH_HEIGHT - glyph_y,
        {
            let row_bits = self.glyphs.row(code, glyph_y) & 0x7f;
            let py = y0 + glyph_y * 2;
            let mut x: usize = 0;
            while x < CELL_WIDTH
                invariant
                    self@.wf(),
                    col < TEXT_COLS,
                    row < TEXT_ROWS,
                    x0 == col * 14,
                    y0 == row * 16,
                    code == glyph_code(ch),
                    glyph_y < GLYPH_HEIGHT,
                    py == y0 + glyph_y * 2,
                    row_bits == self@.glyphs[code * 8 + glyph_y] & 0x7f,
                    x <= CELL_WIDTH,
                    out@.wf(),
                    out@.width == FRAME_WIDTH,
                    out@.height == FRAME_HEIGHT,
                    out@.frame_id == old(out)@.frame_id,
                    forall|x2: int, y: int|
                        in_bounds(out@, x2, y) ==> #[trigger] pixel_at(out@, x2, y) == if in_cell(
                            col as int,
                            row as int,
                            x2,
                            y,
                        ) && (y - y0 < 2 * glyph_y || (y - y0 < 2 * glyph_y + 2 && x2 - x0 < x)) {
                            cell_pixel(self@.glyphs, self@.foreground, ch, x2 - x0, y - y0)
                        } else {
                            pixel_at(start, x2, y)
                        },
                decreases CELL_WIDTH - x,
            {
                let px = x0 + x;
                let glyph_x = x / 2;
                let glyph_on = ((row_bits >> (glyph_x as u8)) & 0x01) != 0;
                let color = if glyph_on {
                    self.foreground
                } else {
                    COLOR_BLACK
                };
                proof {
                    let b = self@.glyphs[code * 8 + glyph_y];
                    let gx = glyph_x as u8;
                    assert(((row_bits >> gx) & 1 != 0) == (((b & 0x7f) >> gx) & 1 == 1))
                        by (bit_vector)
                        requires
                            row_bits == b & 0x7f,
                    ;
                    assert(color == cell_pixel(
                        self@.glyphs,
                        self@.foreground,
                        ch,
                        px - x0,
                        py - y0,
                    ));
                    assert(color == cell_pixel(
                        self@.glyphs,
                        self@.foreground,
                        ch,
                        px - x0,
                        py + 1 - y0,
                    ));
                    lemma_with_pixel(out@, px as int, py as int, color);
                    lemma_with_pixel(
                        out@.with_pixel(px as int, py as int, color),
                        px as int,
                        (py + 1) as int,
                        color,
                    );
                }
                out.set_pixel(px, py, color);
                out.set_pixel(px, py + 1, color);
                x = x + 1;
            }
            glyph_y = glyph_y + 1;
        }
    }
}

/// A cell whose glyph has no lit pixel is drawn entirely in the background color.
pub proof fn lemma_blank_glyph_draws_background(
    video: TextVideoModel,
    ram: Seq<u8>,
    col: int,
    row: int,
)
    requires
        video.wf(),
        ram.len() == TEXT_MEMORY_SIZE,
        0 <= col < TEXT_COLS,
        0 <= row < TEXT_ROWS,
        glyph_is_blank(video.glyphs, glyph_code(cell_char(video.text_base, ram, col, row))),
    ensures
        forall|x: int, y: int|
            in_cell(col, row, x, y) ==> #[trigger] video.frame_pixel(ram, x, y) == COLOR_BLACK,
{
    let code = glyph_code(cell_char(video.text_base, ram, col, row));
    assert forall|x: int, y: int| in_cell(col, row, x, y) implies #[trigger] video.frame_pixel(
        ram,
        x,
        y,
    ) == COLOR_BLACK by {
        lemma_cell_offsets(col, row, x, y);
        let gy = (y % 16) / 2;
        let b = video.glyphs[code * 8 + gy];
        let gx = ((x % 14) / 2) as u8;
        assert(b & 0x7f == 0);
        assert(((b & 0x7f) >> gx) & 1 == 0) by (bit_vector)
            requires
                b & 0x7f == 0,
        ;
    }
}

/// A cell whose glyph has a lit pixel on scanline `gy` shows the foreground
/// color somewhere in the matching pair of frame rows.
pub proof fn lemma_lit_glyph_draws_foreground(
    video: TextVideoModel,
    ram: Seq<u8>,
    col: int,
    row: int,
    gy: int,
)
    requires
        video.wf(),
        ram.len() == TEXT_MEMORY_SIZE,
        0 <= col < TEXT_COLS,
        0 <= row < TEXT_ROWS,
        0 <= gy < GLYPH_HEIGHT,
        video.glyphs[glyph_code(cell_char(video.text_base, ram, col, row)) * 8 + gy] & 0x7f != 0,
    ensures
        exists|x: int|
            col * 14 <= x < col * 14 + 14 && #[trigger] video.frame_pixel(ram, x, row * 16 + 2 * gy)
                == video.foreground && video.frame_pixel(ram, x, row * 16 + 2 * gy + 1)
                == video.foreground,
{
    let code = glyph_code(cell_char(video.text_base, ram, col, row));
    let b = video.glyphs[code * 8 + gy];
    assert(((b & 0x7f) >> 0u8) & 1 == 1 || ((b & 0x7f) >> 1u8) & 1 == 1 || ((b & 0x7f) >> 2u8) & 1
        == 1 || ((b & 0x7f) >> 3u8) & 1 == 1 || ((b & 0x7f) >> 4u8) & 1 == 1 || ((b & 0x7f)
        >> 5u8) & 1 == 1 || ((b & 0x7f) >> 6u8) & 1 == 1) by (bit_vector)
        requires
            b & 0x7f != 0,
    ;
    let y = row * 16 + 2 * gy;
    let gx: int = if ((b & 0x7f) >> 0u8) & 1 == 1 {
        0
    } else if ((b & 0x7f) >> 1u8) & 1 == 1 {
        1
    } else if ((b & 0x7f) >> 2u8) & 1 == 1 {
        2
    } else if ((b & 0x7f) >> 3u8) & 1 == 1 {
        3
    } else if ((b & 0x7f) >> 4u8) & 1 == 1 {
        4
    } else if ((b & 0x7f) >> 5u8) & 1 == 1 {
        5
    } else {
        6
    };
    assert(((b & 0x7f) >> (gx as u8)) & 1 == 1);
    let x = col * 14 + 2 * gx;
    lemma_cell_offsets(col, row, x, y);
    lemma_cell_offsets(col, row, x, y + 1);
    assert(video.frame_pixel(ram, x, y) == video.foreground);
    assert(video.frame_pixel(ram, x, y + 1) == video.foreground);
}

} // verus!
