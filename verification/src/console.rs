//! Console output on the PC-98 text VRAM, driven by the IO.SYS work area.
//!
//! Every operation is stated as a function on the image of guest memory:
//! the exact sequence of stores the operation makes, in order.

use vstd::prelude::*;

use crate::console_esc::EscParser;
use crate::iosys::{
    COLUMNS, IOSYS_BASE, IOSYS_OFF_CLEAR_ATTR, IOSYS_OFF_CLEAR_CHAR, IOSYS_OFF_CURSOR_VISIBLE,
    IOSYS_OFF_CURSOR_X, IOSYS_OFF_CURSOR_Y, IOSYS_OFF_DISPLAY_ATTR, IOSYS_OFF_KANJI_HI_BYTE,
    IOSYS_OFF_KANJI_HI_FLAG, IOSYS_OFF_LINE_WRAP, IOSYS_OFF_SAVED_CURSOR_ATTR,
    IOSYS_OFF_SAVED_CURSOR_X, IOSYS_OFF_SAVED_CURSOR_Y, IOSYS_OFF_SCREEN_LINES,
    IOSYS_OFF_SCROLL_LOWER, IOSYS_OFF_SCROLL_UPPER, TEXT_ATTR_BASE, TEXT_CHAR_BASE,
};
use crate::memory::{image, poke, poke_word, word_of, Image, MemoryAccess};

verus! {

pub const CURSOR_Y_ADDR: u32 = IOSYS_BASE + IOSYS_OFF_CURSOR_Y;
pub const CURSOR_X_ADDR: u32 = IOSYS_BASE + IOSYS_OFF_CURSOR_X;
pub const DISPLAY_ATTR_ADDR: u32 = IOSYS_BASE + IOSYS_OFF_DISPLAY_ATTR;
pub const CLEAR_ATTR_ADDR: u32 = IOSYS_BASE + IOSYS_OFF_CLEAR_ATTR;
pub const CLEAR_CHAR_ADDR: u32 = IOSYS_BASE + IOSYS_OFF_CLEAR_CHAR;
pub const SCROLL_UPPER_ADDR: u32 = IOSYS_BASE + IOSYS_OFF_SCROLL_UPPER;
pub const SCROLL_LOWER_ADDR: u32 = IOSYS_BASE + IOSYS_OFF_SCROLL_LOWER;
pub const LINE_WRAP_ADDR: u32 = IOSYS_BASE + IOSYS_OFF_LINE_WRAP;
pub const KANJI_HI_FLAG_ADDR: u32 = IOSYS_BASE + IOSYS_OFF_KANJI_HI_FLAG;
pub const KANJI_HI_BYTE_ADDR: u32 = IOSYS_BASE + IOSYS_OFF_KANJI_HI_BYTE;
pub const SAVED_CURSOR_Y_ADDR: u32 = IOSYS_BASE + IOSYS_OFF_SAVED_CURSOR_Y;
pub const SAVED_CURSOR_X_ADDR: u32 = IOSYS_BASE + IOSYS_OFF_SAVED_CURSOR_X;
pub const SAVED_CURSOR_ATTR_ADDR: u32 = IOSYS_BASE + IOSYS_OFF_SAVED_CURSOR_ATTR;
pub const CURSOR_VISIBLE_ADDR: u32 = IOSYS_BASE + IOSYS_OFF_CURSOR_VISIBLE;
pub const SCREEN_LINES_ADDR: u32 = IOSYS_BASE + IOSYS_OFF_SCREEN_LINES;

/// Address of the character word of a text cell.
pub open spec fn char_addr(row: u8, col: u8) -> u32 {
    (TEXT_CHAR_BASE + (row * 80 + col) * 2) as u32
}

/// Address of the attribute word of a text cell.
pub open spec fn attr_addr(row: u8, col: u8) -> u32 {
    (TEXT_ATTR_BASE + (row * 80 + col) * 2) as u32
}

proof fn lemma_row_offset(row: u8)
    ensures
        row as u32 * 80 <= 255 * 80,
{
    assert(row as u32 * 80 <= 255 * 80) by (nonlinear_arith)
        requires
            row <= 255,
    ;
}

pub fn vram_char_addr(row: u8, col: u8) -> (r: u32)
    ensures
        r == char_addr(row, col),
{
    proof {
        lemma_row_offset(row);
    }
    TEXT_CHAR_BASE + (row as u32 * COLUMNS as u32 + col as u32) * 2
}

pub fn vram_attr_addr(row: u8, col: u8) -> (r: u32)
    ensures
        r == attr_addr(row, col),
{
    proof {
        lemma_row_offset(row);
    }
    TEXT_ATTR_BASE + (row as u32 * COLUMNS as u32 + col as u32) * 2
}

pub open spec fn cursor_row_of(f: Image) -> u8 {
    f(CURSOR_Y_ADDR)
}

pub open spec fn cursor_col_of(f: Image) -> u8 {
    f(CURSOR_X_ADDR)
}

pub open spec fn display_attr_of(f: Image) -> u8 {
    f(DISPLAY_ATTR_ADDR)
}

pub open spec fn scroll_upper_of(f: Image) -> u8 {
    f(SCROLL_UPPER_ADDR)
}

pub open spec fn scroll_lower_of(f: Image) -> u8 {
    f(SCROLL_LOWER_ADDR)
}

pub open spec fn clear_char_of(f: Image) -> u8 {
    f(CLEAR_CHAR_ADDR)
}

pub open spec fn clear_attr_of(f: Image) -> u8 {
    f(CLEAR_ATTR_ADDR)
}

/// Line wrap is on when the wrap flag is 0.
pub open spec fn wrap_enabled_of(f: Image) -> bool {
    f(LINE_WRAP_ADDR) == 0
}

/// The image after the cursor is moved.
pub open spec fn with_cursor(f: Image, row: u8, col: u8) -> Image {
    poke(poke(f, CURSOR_Y_ADDR, row), CURSOR_X_ADDR, col)
}

/// The image after one text cell is written: the two character bytes,
/// then the attribute word.
pub open spec fn with_cell(f: Image, row: u8, col: u8, even: u8, odd: u8, attr: u8) -> Image {
    let ca = char_addr(row, col);
    poke_word(poke(poke(f, ca, even), (ca + 1) as u32, odd), attr_addr(row, col), attr as u16)
}

/// The image after the cells `c0..c1` of a row are written, left to right.
pub open spec fn fill_cols(
    f: Image,
    row: u8,
    c0: int,
    c1: int,
    even: u8,
    odd: u8,
    attr: u8,
) -> Image
    decreases c1 - c0,
{
    if c1 <= c0 {
        f
    } else {
        with_cell(fill_cols(f, row, c0, c1 - 1, even, odd, attr), row, (c1 - 1) as u8, even, odd, attr)
    }
}

/// The image after the whole rows `r0..r1` are written, top to bottom.
pub open spec fn fill_rows(f: Image, r0: int, r1: int, even: u8, odd: u8, attr: u8) -> Image
    decreases r1 - r0,
{
    if r1 <= r0 {
        f
    } else {
        fill_cols(fill_rows(f, r0, r1 - 1, even, odd, attr), (r1 - 1) as u8, 0, 80, even, odd, attr)
    }
}

/// A cell filled with the clear character and clear attribute.
pub open spec fn clear_rows(f: Image, g: Image, r0: int, r1: int) -> Image {
    fill_rows(f, r0, r1, clear_char_of(g), 0, clear_attr_of(g))
}

pub open spec fn clear_cols(f: Image, g: Image, row: u8, c0: int, c1: int) -> Image {
    fill_cols(f, row, c0, c1, clear_char_of(g), 0, clear_attr_of(g))
}

/// Reading the console work area.
pub struct Console {
    pub esc_parser: EscParser,
}

impl Console {
    pub fn new() -> (r: Self)
        ensures
            r.esc_parser.is_initial(),
    {
        Console { esc_parser: EscParser::new() }
    }

    pub fn cursor_row<M: MemoryAccess>(&self, memory: &M) -> (r: u8)
        ensures
            r == cursor_row_of(image(memory)),
    {
        memory.read_byte(CURSOR_Y_ADDR)
    }

    pub fn cursor_col<M: MemoryAccess>(&self, memory: &M) -> (r: u8)
        ensures
            r == cursor_col_of(image(memory)),
    {
        memory.read_byte(CURSOR_X_ADDR)
    }

    pub fn set_cursor<M: MemoryAccess>(&self, memory: &mut M, row: u8, col: u8)
        ensures
            image(final(memory)) == with_cursor(image(old(memory)), row, col),
    {
        memory.write_byte(CURSOR_Y_ADDR, row);
        memory.write_byte(CURSOR_X_ADDR, col);
        assert(image(memory) =~= with_cursor(image(old(memory)), row, col));
    }

    pub fn display_attr<M: MemoryAccess>(&self, memory: &M) -> (r: u8)
        ensures
            r == display_attr_of(image(memory)),
    {
        memory.read_byte(DISPLAY_ATTR_ADDR)
    }

    fn clear_attr<M: MemoryAccess>(&self, memory: &M) -> (r: u8)
        ensures
            r == clear_attr_of(image(memory)),
    {
        memory.read_byte(CLEAR_ATTR_ADDR)
    }

    fn clear_char<M: MemoryAccess>(&self, memory: &M) -> (r: u8)
        ensures
            r == clear_char_of(image(memory)),
    {
        memory.read_byte(CLEAR_CHAR_ADDR)
    }

    pub fn scroll_upper<M: MemoryAccess>(&self, memory: &M) -> (r: u8)
        ensures
            r == scroll_upper_of(image(memory)),
    {
        memory.read_byte(SCROLL_UPPER_ADDR)
    }

    pub fn scroll_lower<M: MemoryAccess>(&self, memory: &M) -> (r: u8)
        ensures
            r == scroll_lower_of(image(memory)),
    {
        memory.read_byte(SCROLL_LOWER_ADDR)
    }

    fn line_wrap_enabled<M: MemoryAccess>(&self, memory: &M) -> (r: bool)
        ensures
            r == wrap_enabled_of(image(memory)),
    {
        memory.read_byte(LINE_WRAP_ADDR) == 0x00
    }

    /// The Shift-JIS lead byte waiting for its trail byte, if any.
    pub fn pending_shift_jis_lead<M: MemoryAccess>(&self, memory: &M) -> (r: Option<u8>)
        ensures
            r == pending_lead_of(image(memory)),
    {
        if memory.read_byte(KANJI_HI_FLAG_ADDR) == 0 {
            None
        } else {
            Some(memory.read_byte(KANJI_HI_BYTE_ADDR))
        }
    }

    pub fn set_pending_shift_jis_lead<M: MemoryAccess>(&self, memory: &mut M, byte: u8)
        ensures
            image(final(memory)) == poke(
                poke(image(old(memory)), KANJI_HI_FLAG_ADDR, 1),
                KANJI_HI_BYTE_ADDR,
                byte,
            ),
    {
        memory.write_byte(KANJI_HI_FLAG_ADDR, 0x01);
        memory.write_byte(KANJI_HI_BYTE_ADDR, byte);
        assert(image(memory) =~= poke(
            poke(image(old(memory)), KANJI_HI_FLAG_ADDR, 1),
            KANJI_HI_BYTE_ADDR,
            byte,
        ));
    }

    pub fn clear_pending_shift_jis_lead<M: MemoryAccess>(&self, memory: &mut M)
        ensures
            image(final(memory)) == without_pending_lead(image(old(memory))),
    {
        memory.write_byte(KANJI_HI_FLAG_ADDR, 0x00);
        memory.write_byte(KANJI_HI_BYTE_ADDR, 0x00);
        assert(image(memory) =~= without_pending_lead(image(old(memory))));
    }

    /// Writes one cell: its two character bytes, then its attribute word.
    pub fn write_cell<M: MemoryAccess>(
        &self,
        memory: &mut M,
        row: u8,
        col: u8,
        even: u8,
        odd: u8,
        attr: u8,
    )
        ensures
            image(final(memory)) == with_cell(image(old(memory)), row, col, even, odd, attr),
    {
        let char_addr = vram_char_addr(row, col);
        memory.write_byte(char_addr, even);
        memory.write_byte(char_addr + 1, odd);
        let ghost mid = image(memory);
        memory.write_word(vram_attr_addr(row, col), attr as u16);
        assert(image(memory) =~= poke_word(mid, attr_addr(row, col), attr as u16));
        assert(mid =~= poke(poke(image(old(memory)), char_addr, even), (char_addr + 1) as u32, odd));
    }

    /// Writes the cells `c0..c1` of a row with one character and attribute.
    fn fill_row_span<M: MemoryAccess>(
        &self,
        memory: &mut M,
        row: u8,
        c0: u16,
        c1: u16,
        even: u8,
        odd: u8,
        attr: u8,
    )
        requires
            c1 <= 256,
        ensures
            image(final(memory)) == fill_cols(image(old(memory)), row, c0 as int, c1 as int, even, odd, attr),
    {
        let mut c = c0;
        if c1 <= c0 {
            return;
        }
        while c < c1
            invariant
                c0 <= c <= c1 <= 256,
                image(memory) == fill_cols(image(old(memory)), row, c0 as int, c as int, even, odd, attr),
            decreases c1 - c,
        {
            self.write_cell(memory, row, c as u8, even, odd, attr);
            c += 1;
        }
    }

    /// Writes the whole rows `r0..r1` with one character and attribute.
    fn fill_row_range<M: MemoryAccess>(
        &self,
        memory: &mut M,
        r0: u8,
        r1: u16,
        even: u8,
        odd: u8,
        attr: u8,
    )
        requires
            r1 <= 256,
        ensures
            image(final(memory)) == fill_rows(image(old(memory)), r0 as int, r1 as int, even, odd, attr),
    {
        if r1 <= r0 as u16 {
            return;
        }
        let mut r: u16 = r0 as u16;
        while r < r1
            invariant
                r0 <= r <= r1 <= 256,
                image(memory) == fill_rows(image(old(memory)), r0 as int, r as int, even, odd, attr),
            decreases r1 - r,
        {
            self.fill_row_span(memory, r as u8, 0, 80, even, odd, attr);
            r += 1;
        }
    }
}

impl Console {
    /// Copies the cells of row `src` to row `dst`, left to right.
    fn copy_row<M: MemoryAccess>(&self, memory: &mut M, dst: u8, src: u8)
        ensures
            image(final(memory)) == copy_cols(image(old(memory)), dst, src, 80),
    {
        let mut col: u8 = 0;
        while col < COLUMNS
            invariant
                col <= 80,
                image(memory) == copy_cols(image(old(memory)), dst, src, col as int),
            decreases 80 - col,
        {
            proof {
                lemma_cell_addrs(src, col);
                lemma_cell_addrs(dst, col);
            }
            let ghost f0 = image(memory);
            let src_char = vram_char_addr(src, col);
            let dst_char = vram_char_addr(dst, col);
            let ch = memory.read_word(src_char);
            memory.write_word(dst_char, ch);
            let ghost f1 = image(memory);
            assert(f1 =~= poke_word(f0, dst_char, ch));
            let src_attr = vram_attr_addr(src, col);
            let dst_attr = vram_attr_addr(dst, col);
            let attr = memory.read_word(src_attr);
            memory.write_word(dst_attr, attr);
            assert(image(memory) =~= poke_word(f1, dst_attr, attr));
            assert(image(memory) =~= copy_cell(f0, dst, src, col));
            col += 1;
        }
    }

    /// Scrolls the scroll region up by `count` rows, clearing the rows freed
    /// at the bottom with the clear character and attribute.
    pub fn scroll_up<M: MemoryAccess>(&self, memory: &mut M, count: u8)
        requires
            scroll_region_ok(image(old(memory))),
        ensures
            image(final(memory)) == scroll_up_image(image(old(memory)), count),
    {
        let ghost f = image(memory);
        let upper = self.scroll_upper(memory);
        let lower = self.scroll_lower(memory);
        let count = if count < lower - upper + 1 {
            count
        } else {
            lower - upper + 1
        };
        let ghost end: int = if lower >= count { lower - count + 1 } else { upper as int };
        let last = if lower >= count { lower - count } else { 0 };
        let mut row: u16 = upper as u16;
        while row <= last as u16 && row + count as u16 <= lower as u16
            invariant
                upper <= row <= 256,
                row <= end,
                end == (if lower >= count { lower - count + 1 } else { upper as int }),
                last == (if lower >= count { lower - count } else { 0 }),
                lower < 255,
                end <= lower + 1,
                image(memory) == copy_rows_up(f, upper as int, row as int, count as int),
            decreases 256 - row,
        {
            let src_row = row as u8 + count;
            self.copy_row(memory, row as u8, src_row);
            row += 1;
        }
        assert(row == end);
        let ghost g = image(memory);
        let clear_ch = self.clear_char(memory);
        let clear_at = self.clear_attr(memory);
        self.fill_row_range(memory, lower + 1 - count, lower as u16 + 1, clear_ch, 0, clear_at);
    }

    /// Scrolls the scroll region down by `count` rows, clearing the rows
    /// freed at the top with the clear character and attribute.
    pub fn scroll_down<M: MemoryAccess>(&self, memory: &mut M, count: u8)
        requires
            scroll_region_ok(image(old(memory))),
        ensures
            image(final(memory)) == scroll_down_image(image(old(memory)), count),
    {
        let ghost f = image(memory);
        let upper = self.scroll_upper(memory);
        let lower = self.scroll_lower(memory);
        let count = if count < lower - upper + 1 {
            count
        } else {
            lower - upper + 1
        };
        let first = upper + count;
        let mut row: u16 = lower as u16 + 1;
        while row > first as u16
            invariant
                first <= row <= lower + 1,
                first == upper + count,
                count <= lower - upper + 1,
                lower < 255,
                image(memory) == copy_rows_down(f, row as int, lower as int, count as int),
            decreases row,
        {
            row -= 1;
            let src_row = row as u8 - count;
            self.copy_row(memory, row as u8, src_row);
        }
        let clear_ch = self.clear_char(memory);
        let clear_at = self.clear_attr(memory);
        self.fill_row_range(memory, upper, upper as u16 + count as u16, clear_ch, 0, clear_at);
    }

    /// Clears the rows `0..=scroll_lower` and homes the cursor.
    pub fn clear_screen<M: MemoryAccess>(&self, memory: &mut M)
        ensures
            image(final(memory)) == clear_screen_image(image(old(memory))),
    {
        let ghost f = image(memory);
        let clear_ch = self.clear_char(memory);
        let clear_at = self.clear_attr(memory);
        let lower = self.scroll_lower(memory);
        self.fill_row_range(memory, 0, lower as u16 + 1, clear_ch, 0, clear_at);
        proof {
            lemma_fill_rows_vram(f, 0, lower + 1, clear_ch, 0, clear_at);
        }
        self.set_cursor(memory, 0, 0);
    }

    /// Clears from the cursor to the end of the scroll region's last row.
    pub fn clear_screen_from_cursor<M: MemoryAccess>(&self, memory: &mut M)
        requires
            cursor_row_of(image(old(memory))) < 255,
        ensures
            image(final(memory)) == clear_from_cursor_image(image(old(memory))),
    {
        let ghost f = image(memory);
        let row = self.cursor_row(memory);
        let col = self.cursor_col(memory);
        let lower = self.scroll_lower(memory);
        let clear_ch = self.clear_char(memory);
        let clear_at = self.clear_attr(memory);
        self.fill_row_span(memory, row, col as u16, 80, clear_ch, 0, clear_at);
        self.fill_row_range(memory, row + 1, lower as u16 + 1, clear_ch, 0, clear_at);
    }

    /// Clears from the top of the screen to the cursor, inclusive.
    pub fn clear_screen_to_cursor<M: MemoryAccess>(&self, memory: &mut M)
        ensures
            image(final(memory)) == clear_to_cursor_image(image(old(memory))),
    {
        let row = self.cursor_row(memory);
        let col = self.cursor_col(memory);
        let clear_ch = self.clear_char(memory);
        let clear_at = self.clear_attr(memory);
        self.fill_row_range(memory, 0, row as u16, clear_ch, 0, clear_at);
        self.fill_row_span(memory, row, 0, col as u16 + 1, clear_ch, 0, clear_at);
    }

    /// Clears the cursor's row from the cursor to its end.
    pub fn clear_line_from_cursor<M: MemoryAccess>(&self, memory: &mut M)
        ensures
            image(final(memory)) == clear_line_from_image(image(old(memory))),
    {
        let row = self.cursor_row(memory);
        let col = self.cursor_col(memory);
        let clear_ch = self.clear_char(memory);
        let clear_at = self.clear_attr(memory);
        self.fill_row_span(memory, row, col as u16, 80, clear_ch, 0, clear_at);
    }

    /// Clears the cursor's row from its start to the cursor, inclusive.
    pub fn clear_line_to_cursor<M: MemoryAccess>(&self, memory: &mut M)
        ensures
            image(final(memory)) == clear_line_to_image(image(old(memory))),
    {
        let row = self.cursor_row(memory);
        let col = self.cursor_col(memory);
        let clear_ch = self.clear_char(memory);
        let clear_at = self.clear_attr(memory);
        self.fill_row_span(memory, row, 0, col as u16 + 1, clear_ch, 0, clear_at);
    }

    /// Clears the whole cursor row.
    pub fn clear_line<M: MemoryAccess>(&self, memory: &mut M)
        ensures
            image(final(memory)) == clear_line_image(image(old(memory))),
    {
        let row = self.cursor_row(memory);
        let clear_ch = self.clear_char(memory);
        let clear_at = self.clear_attr(memory);
        self.fill_row_span(memory, row, 0, 80, clear_ch, 0, clear_at);
    }
}

impl Console {
    /// Moves the cursor, clamped to the scroll region's last row and the
    /// last column.
    pub fn set_cursor_position<M: MemoryAccess>(&self, memory: &mut M, row: u8, col: u8)
        ensures
            image(final(memory)) == cursor_position_image(image(old(memory)), row, col),
    {
        let lower = self.scroll_lower(memory);
        let clamped_row = if row < lower {
            row
        } else {
            lower
        };
        let clamped_col = if col < COLUMNS - 1 {
            col
        } else {
            COLUMNS - 1
        };
        self.set_cursor(memory, clamped_row, clamped_col);
    }

    /// Stores the cursor and the display attribute in the save slots.
    pub fn save_cursor<M: MemoryAccess>(&self, memory: &mut M)
        ensures
            image(final(memory)) == save_cursor_image(image(old(memory))),
    {
        let row = self.cursor_row(memory);
        let col = self.cursor_col(memory);
        let attr = self.display_attr(memory);
        memory.write_byte(SAVED_CURSOR_Y_ADDR, row);
        memory.write_byte(SAVED_CURSOR_X_ADDR, col);
        memory.write_byte(SAVED_CURSOR_ATTR_ADDR, attr);
        assert(image(memory) =~= save_cursor_image(image(old(memory))));
    }

    /// Loads the cursor and the display attribute from the save slots.
    pub fn restore_cursor<M: MemoryAccess>(&self, memory: &mut M)
        ensures
            image(final(memory)) == restore_cursor_image(image(old(memory))),
    {
        let row = memory.read_byte(SAVED_CURSOR_Y_ADDR);
        let col = memory.read_byte(SAVED_CURSOR_X_ADDR);
        let attr = memory.read_byte(SAVED_CURSOR_ATTR_ADDR);
        self.set_cursor(memory, row, col);
        memory.write_byte(DISPLAY_ATTR_ADDR, attr);
        assert(image(memory) =~= restore_cursor_image(image(old(memory))));
    }

    /// Sets the attribute of the characters written from now on.
    pub fn set_attribute<M: MemoryAccess>(&self, memory: &mut M, attr: u8)
        ensures
            image(final(memory)) == poke(image(old(memory)), DISPLAY_ATTR_ADDR, attr),
    {
        memory.write_byte(DISPLAY_ATTR_ADDR, attr);
        assert(image(memory) =~= poke(image(old(memory)), DISPLAY_ATTR_ADDR, attr));
    }

    pub fn set_cursor_visible<M: MemoryAccess>(&self, memory: &mut M, visible: bool)
        ensures
            image(final(memory)) == poke(
                image(old(memory)),
                CURSOR_VISIBLE_ADDR,
                if visible { 1u8 } else { 0u8 },
            ),
    {
        memory.write_byte(CURSOR_VISIBLE_ADDR, if visible { 1 } else { 0 });
        assert(image(memory) =~= poke(
            image(old(memory)),
            CURSOR_VISIBLE_ADDR,
            if visible { 1u8 } else { 0u8 },
        ));
    }

    /// `(columns, rows)` of the text screen: 20 rows when the screen-lines
    /// flag is 0, 25 otherwise.
    pub fn screen_size<M: MemoryAccess>(&self, memory: &M) -> (r: (u8, u8))
        ensures
            r == (80u8, if image(memory)(SCREEN_LINES_ADDR) == 0 { 20u8 } else { 25u8 }),
    {
        let rows = if memory.read_byte(SCREEN_LINES_ADDR) == 0 {
            20
        } else {
            25
        };
        (COLUMNS, rows)
    }

    pub fn cursor_up<M: MemoryAccess>(&self, memory: &mut M, count: u8)
        ensures
            image(final(memory)) == cursor_up_image(image(old(memory)), count),
    {
        let row = self.cursor_row(memory);
        let col = self.cursor_col(memory);
        let upper = self.scroll_upper(memory);
        let up = row.saturating_sub(count);
        let new_row = if up >= upper {
            up
        } else {
            upper
        };
        self.set_cursor(memory, new_row, col);
    }

    pub fn cursor_down<M: MemoryAccess>(&self, memory: &mut M, count: u8)
        ensures
            image(final(memory)) == cursor_down_image(image(old(memory)), count),
    {
        let row = self.cursor_row(memory);
        let col = self.cursor_col(memory);
        let lower = self.scroll_lower(memory);
        let down = row.saturating_add(count);
        let new_row = if down <= lower {
            down
        } else {
            lower
        };
        self.set_cursor(memory, new_row, col);
    }

    pub fn cursor_right<M: MemoryAccess>(&self, memory: &mut M, count: u8)
        ensures
            image(final(memory)) == cursor_right_image(image(old(memory)), count),
    {
        let row = self.cursor_row(memory);
        let col = self.cursor_col(memory);
        let right = col.saturating_add(count);
        let new_col = if right <= COLUMNS - 1 {
            right
        } else {
            COLUMNS - 1
        };
        self.set_cursor(memory, row, new_col);
    }

    pub fn cursor_left<M: MemoryAccess>(&self, memory: &mut M, count: u8)
        ensures
            image(final(memory)) == cursor_left_image(image(old(memory)), count),
    {
        let row = self.cursor_row(memory);
        let col = self.cursor_col(memory);
        let new_col = col.saturating_sub(count);
        self.set_cursor(memory, row, new_col);
    }

    pub fn carriage_return<M: MemoryAccess>(&self, memory: &mut M)
        ensures
            image(final(memory)) == carriage_return_image(image(old(memory))),
    {
        let row = self.cursor_row(memory);
        self.set_cursor(memory, row, 0);
    }

    pub fn linefeed<M: MemoryAccess>(&self, memory: &mut M)
        requires
            linefeed_ok(image(old(memory))),
        ensures
            image(final(memory)) == linefeed_image(image(old(memory))),
    {
        let row = self.cursor_row(memory);
        let col = self.cursor_col(memory);
        let scroll_lower = self.scroll_lower(memory);
        if row >= scroll_lower {
            self.scroll_up(memory, 1);
        } else {
            self.set_cursor(memory, row + 1, col);
        }
    }

    pub fn reverse_linefeed<M: MemoryAccess>(&self, memory: &mut M)
        requires
            reverse_linefeed_ok(image(old(memory))),
        ensures
            image(final(memory)) == reverse_linefeed_image(image(old(memory))),
    {
        let row = self.cursor_row(memory);
        let col = self.cursor_col(memory);
        let scroll_upper = self.scroll_upper(memory);
        if row <= scroll_upper {
            self.scroll_down(memory, 1);
        } else {
            self.set_cursor(memory, row - 1, col);
        }
    }

    pub fn backspace<M: MemoryAccess>(&self, memory: &mut M)
        ensures
            image(final(memory)) == backspace_image(image(old(memory))),
    {
        let row = self.cursor_row(memory);
        let col = self.cursor_col(memory);
        if col > 0 {
            self.set_cursor(memory, row, col - 1);
        }
    }

    /// Moves to the start of the next line, scrolling at the region's
    /// bottom; does nothing and answers `false` when wrapping is off.
    fn wrap_to_next_line<M: MemoryAccess>(&self, memory: &mut M) -> (r: bool)
        requires
            wrap_ok(image(old(memory))),
        ensures
            r == wrap_enabled_of(image(old(memory))),
            image(final(memory)) == if r {
                wrap_image(image(old(memory)))
            } else {
                image(old(memory))
            },
    {
        if !self.line_wrap_enabled(memory) {
            return false;
        }
        let row = self.cursor_row(memory);
        let scroll_lower = self.scroll_lower(memory);
        if row >= scroll_lower {
            self.scroll_up(memory, 1);
            self.set_cursor(memory, scroll_lower, 0);
        } else {
            self.set_cursor(memory, row + 1, 0);
        }
        true
    }

    fn advance_cursor<M: MemoryAccess>(&self, memory: &mut M)
        requires
            advance_ok(image(old(memory))),
        ensures
            image(final(memory)) == advance_image(image(old(memory))),
    {
        let col = self.cursor_col(memory) + 1;
        let row = self.cursor_row(memory);
        if col >= COLUMNS {
            if !self.wrap_to_next_line(memory) {
                self.set_cursor(memory, row, COLUMNS - 1);
            }
        } else {
            self.set_cursor(memory, row, col);
        }
    }

    /// Writes a single-width character at the cursor with the display
    /// attribute and advances the cursor.
    pub fn put_char<M: MemoryAccess>(&self, memory: &mut M, ch: u8)
        requires
            advance_ok(image(old(memory))),
        ensures
            image(final(memory)) == put_char_image(image(old(memory)), ch),
    {
        let ghost f = image(memory);
        let row = self.cursor_row(memory);
        let col = self.cursor_col(memory);
        let attr = self.display_attr(memory);
        self.write_cell(memory, row, col, ch, 0, attr);
        proof {
            lemma_with_cell_vram(f, row, col, ch, 0, attr);
            lemma_advance_ok_vram(f, image(memory));
        }
        self.advance_cursor(memory);
    }
}

impl Console {
    /// Writes spaces up to the next multiple of 8, stopping at the last
    /// column.
    pub fn tab<M: MemoryAccess>(&self, memory: &mut M)
        requires
            cursor_col_of(image(old(memory))) <= 247,
        ensures
            image(final(memory)) == tab_image(image(old(memory))),
    {
        let ghost f = image(memory);
        let col = self.cursor_col(memory);
        let next_tab = (col + 8) & !7u8;
        proof {
            lemma_tab_stop(col);
        }
        let target = if next_tab < COLUMNS - 1 {
            next_tab
        } else {
            COLUMNS - 1
        };
        let mut c = col;
        while c < target
            invariant
                col <= c,
                target <= 79,
                c <= target || c == col,
                image(memory) == put_chars(f, 0x20, c - col),
                cursor_col_of(image(memory)) == c,
                cursor_row_of(image(memory)) == cursor_row_of(f),
            decreases target - c,
        {
            let ghost g = image(memory);
            self.put_char(memory, 0x20);
            proof {
                let h = with_cell(g, cursor_row_of(g), cursor_col_of(g), 0x20, 0, display_attr_of(g));
                lemma_with_cell_vram(g, cursor_row_of(g), cursor_col_of(g), 0x20, 0, display_attr_of(g));
                lemma_advance_ok_vram(g, h);
            }
            c += 1;
        }
    }

    /// Writes a double-width character: wraps first when the cursor is on
    /// the last column (dropping the character when wrapping is off), then
    /// writes the character and a blank right half and advances twice.
    pub fn put_fullwidth_char<M: MemoryAccess>(&self, memory: &mut M, even: u8, odd: u8)
        requires
            fullwidth_ok(image(old(memory))),
        ensures
            image(final(memory)) == fullwidth_image(image(old(memory)), even, odd),
    {
        let ghost f = image(memory);
        let mut row = self.cursor_row(memory);
        let mut col = self.cursor_col(memory);
        if col == COLUMNS - 1 {
            if !self.wrap_to_next_line(memory) {
                return;
            }
            row = self.cursor_row(memory);
            col = self.cursor_col(memory);
        }
        let ghost g = image(memory);
        let attr = self.display_attr(memory);
        self.write_cell(memory, row, col, even, odd, attr);
        let ghost g1 = image(memory);
        self.write_cell(memory, row, col + 1, 0, 0, attr);
        proof {
            lemma_with_cell_vram(g, row, col, even, odd, attr);
            lemma_with_cell_vram(g1, row, (col + 1) as u8, 0, 0, attr);
        }
        self.advance_cursor(memory);
        self.advance_cursor(memory);
    }
}

proof fn lemma_tab_stop(col: u8)
    requires
        col <= 247,
    ensures
        ((col + 8) as u8 & !7u8) as int == (col + 8) - (col + 8) % 8,
        ((col + 8) as u8 & !7u8) > col,
{
    let x = (col + 8) as u8;
    assert(x & !7u8 == x - x % 8) by (bit_vector);
    assert(x - x % 8 > col) by (bit_vector)
        requires
            x == col + 8,
            col <= 247,
    ;
}

/// The column a tab moves to from `col`.
pub open spec fn tab_target(col: u8) -> int {
    let next = (col + 8) - (col + 8) % 8;
    if next < 79 {
        next
    } else {
        79
    }
}

/// The image after `n` copies of one character are put.
pub open spec fn put_chars(f: Image, ch: u8, n: int) -> Image
    decreases n,
{
    if n <= 0 {
        f
    } else {
        put_char_image(put_chars(f, ch, n - 1), ch)
    }
}

/// The image after a tab: spaces up to the next tab stop.
pub open spec fn tab_image(f: Image) -> Image {
    let col = cursor_col_of(f);
    put_chars(f, 0x20, tab_target(col) - col)
}

/// The state before the double-width character is written: after the wrap
/// that the last column forces.
pub open spec fn fullwidth_start(f: Image) -> Image {
    if cursor_col_of(f) == 79 {
        wrap_image(f)
    } else {
        f
    }
}

/// The state after both halves of a double-width character are written.
pub open spec fn fullwidth_written(f: Image, even: u8, odd: u8) -> Image {
    let g = fullwidth_start(f);
    let row = cursor_row_of(g);
    let col = cursor_col_of(g);
    let attr = display_attr_of(g);
    with_cell(with_cell(g, row, col, even, odd, attr), row, (col + 1) as u8, 0, 0, attr)
}

/// Writing a double-width character does not overflow.
pub open spec fn fullwidth_ok(f: Image) -> bool {
    &&& cursor_col_of(f) == 79 ==> wrap_ok(f)
    &&& !(cursor_col_of(f) == 79 && !wrap_enabled_of(f)) ==> {
        let h = fullwidth_written(f, 0, 0);
        &&& cursor_col_of(fullwidth_start(f)) < 255
        &&& advance_ok(h)
        &&& advance_ok(advance_image(h))
    }
}

/// The image after a double-width character is put.
pub open spec fn fullwidth_image(f: Image, even: u8, odd: u8) -> Image {
    if cursor_col_of(f) == 79 && !wrap_enabled_of(f) {
        f
    } else {
        advance_image(advance_image(fullwidth_written(f, even, odd)))
    }
}

/// Moving to the next line does not overflow: scrolling needs an ordered
/// region.
pub open spec fn wrap_ok(f: Image) -> bool {
    wrap_enabled_of(f) && cursor_row_of(f) >= scroll_lower_of(f) ==> scroll_region_ok(f)
}

/// The image after a wrap to the start of the next line.
pub open spec fn wrap_image(f: Image) -> Image {
    let row = cursor_row_of(f);
    let lower = scroll_lower_of(f);
    if row >= lower {
        with_cursor(scroll_up_image(f, 1), lower, 0)
    } else {
        with_cursor(f, (row + 1) as u8, 0)
    }
}

/// Advancing the cursor does not overflow.
pub open spec fn advance_ok(f: Image) -> bool {
    &&& cursor_col_of(f) < 255
    &&& cursor_col_of(f) + 1 >= 80 ==> wrap_ok(f)
}

/// The image after the cursor advances one column, wrapping or sticking at
/// the last column.
pub open spec fn advance_image(f: Image) -> Image {
    let col = cursor_col_of(f) + 1;
    let row = cursor_row_of(f);
    if col >= 80 {
        if wrap_enabled_of(f) {
            wrap_image(f)
        } else {
            with_cursor(f, row, 79)
        }
    } else {
        with_cursor(f, row, col as u8)
    }
}

/// The image after a single-width character is put at the cursor.
pub open spec fn put_char_image(f: Image, ch: u8) -> Image {
    advance_image(with_cell(f, cursor_row_of(f), cursor_col_of(f), ch, 0, display_attr_of(f)))
}

pub proof fn lemma_advance_ok_vram(f: Image, g: Image)
    requires
        same_below_vram(f, g),
    ensures
        advance_ok(f) == advance_ok(g),
        wrap_ok(f) == wrap_ok(g),
        cursor_row_of(f) == cursor_row_of(g),
        cursor_col_of(f) == cursor_col_of(g),
        display_attr_of(f) == display_attr_of(g),
        scroll_lower_of(f) == scroll_lower_of(g),
        scroll_upper_of(f) == scroll_upper_of(g),
        wrap_enabled_of(f) == wrap_enabled_of(g),
{
    assert(below_vram(CURSOR_X_ADDR));
    assert(below_vram(CURSOR_Y_ADDR));
    assert(below_vram(LINE_WRAP_ADDR));
    assert(below_vram(SCROLL_LOWER_ADDR));
    assert(below_vram(SCROLL_UPPER_ADDR));
    assert(below_vram(DISPLAY_ATTR_ADDR));
}

pub open spec fn linefeed_ok(f: Image) -> bool {
    cursor_row_of(f) >= scroll_lower_of(f) ==> scroll_region_ok(f)
}

/// The image after a line feed: down one row, or a scroll at the region's
/// bottom.
pub open spec fn linefeed_image(f: Image) -> Image {
    let row = cursor_row_of(f);
    if row >= scroll_lower_of(f) {
        scroll_up_image(f, 1)
    } else {
        with_cursor(f, (row + 1) as u8, cursor_col_of(f))
    }
}

pub open spec fn reverse_linefeed_ok(f: Image) -> bool {
    cursor_row_of(f) <= scroll_upper_of(f) ==> scroll_region_ok(f)
}

/// The image after a reverse line feed: up one row, or a scroll down at the
/// region's top.
pub open spec fn reverse_linefeed_image(f: Image) -> Image {
    let row = cursor_row_of(f);
    if row <= scroll_upper_of(f) {
        scroll_down_image(f, 1)
    } else {
        with_cursor(f, (row - 1) as u8, cursor_col_of(f))
    }
}

/// The image after the cursor is moved with clamping.
pub open spec fn cursor_position_image(f: Image, row: u8, col: u8) -> Image {
    let lower = scroll_lower_of(f);
    with_cursor(f, if row < lower { row } else { lower }, if col < 79 { col } else { 79 })
}

pub open spec fn save_cursor_image(f: Image) -> Image {
    poke(
        poke(poke(f, SAVED_CURSOR_Y_ADDR, cursor_row_of(f)), SAVED_CURSOR_X_ADDR, cursor_col_of(f)),
        SAVED_CURSOR_ATTR_ADDR,
        display_attr_of(f),
    )
}

pub open spec fn restore_cursor_image(f: Image) -> Image {
    poke(
        with_cursor(f, f(SAVED_CURSOR_Y_ADDR), f(SAVED_CURSOR_X_ADDR)),
        DISPLAY_ATTR_ADDR,
        f(SAVED_CURSOR_ATTR_ADDR),
    )
}

pub open spec fn cursor_up_image(f: Image, count: u8) -> Image {
    let up = if cursor_row_of(f) >= count { cursor_row_of(f) - count } else { 0 };
    with_cursor(
        f,
        if up >= scroll_upper_of(f) { up as u8 } else { scroll_upper_of(f) },
        cursor_col_of(f),
    )
}

pub open spec fn cursor_down_image(f: Image, count: u8) -> Image {
    let down = if cursor_row_of(f) + count <= 255 { cursor_row_of(f) + count } else { 255 };
    with_cursor(
        f,
        if down <= scroll_lower_of(f) { down as u8 } else { scroll_lower_of(f) },
        cursor_col_of(f),
    )
}

pub open spec fn cursor_right_image(f: Image, count: u8) -> Image {
    let right = cursor_col_of(f) + count;
    with_cursor(f, cursor_row_of(f), if right <= 79 { right as u8 } else { 79u8 })
}

pub open spec fn cursor_left_image(f: Image, count: u8) -> Image {
    with_cursor(
        f,
        cursor_row_of(f),
        if cursor_col_of(f) >= count { (cursor_col_of(f) - count) as u8 } else { 0u8 },
    )
}

pub open spec fn carriage_return_image(f: Image) -> Image {
    with_cursor(f, cursor_row_of(f), 0)
}

pub open spec fn backspace_image(f: Image) -> Image {
    if cursor_col_of(f) > 0 {
        with_cursor(f, cursor_row_of(f), (cursor_col_of(f) - 1) as u8)
    } else {
        f
    }
}

/// The image after `ESC[K`.
pub open spec fn clear_line_from_image(f: Image) -> Image {
    clear_cols(f, f, cursor_row_of(f), cursor_col_of(f) as int, 80)
}

/// The image after `ESC[1K`.
pub open spec fn clear_line_to_image(f: Image) -> Image {
    clear_cols(f, f, cursor_row_of(f), 0, cursor_col_of(f) + 1)
}

/// The image after `ESC[2K`.
pub open spec fn clear_line_image(f: Image) -> Image {
    clear_cols(f, f, cursor_row_of(f), 0, 80)
}

/// The image after `ESC[2J`: rows `0..=scroll_lower` cleared, cursor home.
pub open spec fn clear_screen_image(f: Image) -> Image {
    with_cursor(clear_rows(f, f, 0, scroll_lower_of(f) + 1), 0, 0)
}

/// The image after `ESC[0J`.
pub open spec fn clear_from_cursor_image(f: Image) -> Image {
    let row = cursor_row_of(f);
    clear_rows(
        clear_cols(f, f, row, cursor_col_of(f) as int, 80),
        f,
        row + 1,
        scroll_lower_of(f) + 1,
    )
}

/// The image after `ESC[1J`.
pub open spec fn clear_to_cursor_image(f: Image) -> Image {
    let row = cursor_row_of(f);
    clear_cols(clear_rows(f, f, 0, row as int), f, row, 0, cursor_col_of(f) + 1)
}

/// The lead byte recorded as pending, if any.
pub open spec fn pending_lead_of(f: Image) -> Option<u8> {
    if f(KANJI_HI_FLAG_ADDR) == 0 {
        None
    } else {
        Some(f(KANJI_HI_BYTE_ADDR))
    }
}

/// The image after the pending lead byte is dropped.
pub open spec fn without_pending_lead(f: Image) -> Image {
    poke(poke(f, KANJI_HI_FLAG_ADDR, 0), KANJI_HI_BYTE_ADDR, 0)
}

/// Addresses below the text VRAM: the IO.SYS work area lies there.
pub open spec fn below_vram(a: u32) -> bool {
    a < TEXT_CHAR_BASE
}

/// Two images agree below the text VRAM.
pub open spec fn same_below_vram(f: Image, g: Image) -> bool {
    forall|a: u32| below_vram(a) ==> #[trigger] g(a) == f(a)
}

pub proof fn lemma_cell_addrs(row: u8, col: u8)
    ensures
        TEXT_CHAR_BASE <= char_addr(row, col),
        char_addr(row, col) as int == TEXT_CHAR_BASE + (row * 80 + col) * 2,
        attr_addr(row, col) as int == TEXT_ATTR_BASE + (row * 80 + col) * 2,
        attr_addr(row, col) + 1 < 0x100000,
{
    assert(row * 80 + col <= 255 * 80 + 255) by (nonlinear_arith)
        requires
            row <= 255,
            col <= 255,
    ;
}

proof fn lemma_with_cell_vram(f: Image, row: u8, col: u8, even: u8, odd: u8, attr: u8)
    ensures
        same_below_vram(f, with_cell(f, row, col, even, odd, attr)),
{
    lemma_cell_addrs(row, col);
}

proof fn lemma_fill_cols_vram(f: Image, row: u8, c0: int, c1: int, even: u8, odd: u8, attr: u8)
    ensures
        same_below_vram(f, fill_cols(f, row, c0, c1, even, odd, attr)),
    decreases c1 - c0,
{
    if c1 > c0 {
        let g = fill_cols(f, row, c0, c1 - 1, even, odd, attr);
        lemma_fill_cols_vram(f, row, c0, c1 - 1, even, odd, attr);
        lemma_with_cell_vram(g, row, (c1 - 1) as u8, even, odd, attr);
    }
}

proof fn lemma_fill_rows_vram(f: Image, r0: int, r1: int, even: u8, odd: u8, attr: u8)
    ensures
        same_below_vram(f, fill_rows(f, r0, r1, even, odd, attr)),
    decreases r1 - r0,
{
    if r1 > r0 {
        let g = fill_rows(f, r0, r1 - 1, even, odd, attr);
        lemma_fill_rows_vram(f, r0, r1 - 1, even, odd, attr);
        lemma_fill_cols_vram(g, (r1 - 1) as u8, 0, 80, even, odd, attr);
    }
}

/// The image after the cell `col` of row `src` is copied to row `dst`:
/// the character word, then the attribute word.
pub open spec fn copy_cell(f: Image, dst: u8, src: u8, col: u8) -> Image {
    let f1 = poke_word(f, char_addr(dst, col), word_of(f, char_addr(src, col)));
    poke_word(f1, attr_addr(dst, col), word_of(f1, attr_addr(src, col)))
}

/// The image after the cells `0..c` of row `src` are copied to row `dst`.
pub open spec fn copy_cols(f: Image, dst: u8, src: u8, c: int) -> Image
    decreases c,
{
    if c <= 0 {
        f
    } else {
        copy_cell(copy_cols(f, dst, src, c - 1), dst, src, (c - 1) as u8)
    }
}

/// The image after the rows `r0..r1` take the rows `count` below them, top
/// to bottom.
pub open spec fn copy_rows_up(f: Image, r0: int, r1: int, count: int) -> Image
    decreases r1 - r0,
{
    if r1 <= r0 {
        f
    } else {
        copy_cols(copy_rows_up(f, r0, r1 - 1, count), (r1 - 1) as u8, (r1 - 1 + count) as u8, 80)
    }
}

/// The image after the rows `r0..=r1` take the rows `count` above them,
/// bottom to top.
pub open spec fn copy_rows_down(f: Image, r0: int, r1: int, count: int) -> Image
    decreases r1 - r0 + 1,
{
    if r1 < r0 {
        f
    } else {
        copy_cols(copy_rows_down(f, r0 + 1, r1, count), r0 as u8, (r0 - count) as u8, 80)
    }
}

proof fn lemma_copy_cell_vram(f: Image, dst: u8, src: u8, col: u8)
    ensures
        same_below_vram(f, copy_cell(f, dst, src, col)),
{
    lemma_cell_addrs(dst, col);
}

proof fn lemma_copy_cols_vram(f: Image, dst: u8, src: u8, c: int)
    ensures
        same_below_vram(f, copy_cols(f, dst, src, c)),
    decreases c,
{
    if c > 0 {
        lemma_copy_cols_vram(f, dst, src, c - 1);
        lemma_copy_cell_vram(copy_cols(f, dst, src, c - 1), dst, src, (c - 1) as u8);
    }
}

proof fn lemma_copy_rows_up_vram(f: Image, r0: int, r1: int, count: int)
    ensures
        same_below_vram(f, copy_rows_up(f, r0, r1, count)),
    decreases r1 - r0,
{
    if r1 > r0 {
        lemma_copy_rows_up_vram(f, r0, r1 - 1, count);
        lemma_copy_cols_vram(
            copy_rows_up(f, r0, r1 - 1, count),
            (r1 - 1) as u8,
            (r1 - 1 + count) as u8,
            80,
        );
    }
}

proof fn lemma_copy_rows_down_vram(f: Image, r0: int, r1: int, count: int)
    ensures
        same_below_vram(f, copy_rows_down(f, r0, r1, count)),
    decreases r1 - r0 + 1,
{
    if r1 >= r0 {
        lemma_copy_rows_down_vram(f, r0 + 1, r1, count);
        lemma_copy_cols_vram(
            copy_rows_down(f, r0 + 1, r1, count),
            r0 as u8,
            (r0 - count) as u8,
            80,
        );
    }
}

/// The scroll region is ordered and its bottom is not the last possible row.
pub open spec fn scroll_region_ok(f: Image) -> bool {
    scroll_upper_of(f) <= scroll_lower_of(f) < 255
}

/// The number of rows a scroll of `count` moves in the region `upper..=lower`.
pub open spec fn scroll_count(count: u8, upper: u8, lower: u8) -> int {
    if count < lower - upper + 1 {
        count as int
    } else {
        lower - upper + 1
    }
}

/// The image after a scroll up by `count` rows within the scroll region:
/// rows move up and the freed rows at the bottom are cleared.
pub open spec fn scroll_up_image(f: Image, count: u8) -> Image {
    let upper = scroll_upper_of(f);
    let lower = scroll_lower_of(f);
    let n = scroll_count(count, upper, lower);
    let end = if lower >= n { lower - n + 1 } else { upper as int };
    let g = copy_rows_up(f, upper as int, end, n);
    clear_rows(g, g, lower + 1 - n, lower + 1)
}

/// The image after a scroll down by `count` rows within the scroll region:
/// rows move down and the freed rows at the top are cleared.
pub open spec fn scroll_down_image(f: Image, count: u8) -> Image {
    let upper = scroll_upper_of(f);
    let lower = scroll_lower_of(f);
    let n = scroll_count(count, upper, lower);
    let g = copy_rows_down(f, upper + n, lower as int, n);
    clear_rows(g, g, upper as int, upper + n)
}

pub proof fn lemma_scroll_up_vram(f: Image, count: u8)
    ensures
        same_below_vram(f, scroll_up_image(f, count)),
{
    let upper = scroll_upper_of(f);
    let lower = scroll_lower_of(f);
    let n = scroll_count(count, upper, lower);
    let end = if lower >= n { lower - n + 1 } else { upper as int };
    let g = copy_rows_up(f, upper as int, end, n);
    lemma_copy_rows_up_vram(f, upper as int, end, n);
    lemma_fill_rows_vram(g, lower + 1 - n, lower + 1, clear_char_of(g), 0, clear_attr_of(g));
}

pub proof fn lemma_scroll_down_vram(f: Image, count: u8)
    ensures
        same_below_vram(f, scroll_down_image(f, count)),
{
    let upper = scroll_upper_of(f);
    let lower = scroll_lower_of(f);
    let n = scroll_count(count, upper, lower);
    let g = copy_rows_down(f, upper + n, lower as int, n);
    lemma_copy_rows_down_vram(f, upper + n, lower as int, n);
    lemma_fill_rows_vram(g, upper as int, upper + n, clear_char_of(g), 0, clear_attr_of(g));
}

/// A row whose cells lie in the character plane, below the attribute
/// plane (rows 0 to 50).
pub open spec fn plane_row(r: int) -> bool {
    0 <= r <= 50
}

/// The two words of a text cell: the character word and the attribute
/// word.
pub open spec fn cell(f: Image, r: u8, c: u8) -> (u16, u16) {
    (word_of(f, char_addr(r, c)), word_of(f, attr_addr(r, c)))
}

/// The word whose low byte is `lo` and high byte is `hi`.
pub open spec fn byte_pair(lo: u8, hi: u8) -> u16 {
    (lo as u16 | ((hi as u16) << 8u16)) as u16
}

/// The cell that clearing writes: the clear character and the clear
/// attribute of `f`.
pub open spec fn clear_cell(f: Image) -> (u16, u16) {
    (byte_pair(clear_char_of(f), 0), clear_attr_of(f) as u16)
}

proof fn lemma_word_of_poke_word(f: Image, a: u32, v: u16, b: u32)
    requires
        a < 0xFFFF_0000,
        b < 0xFFFF_0000,
    ensures
        b == a ==> word_of(poke_word(f, a, v), b) == v,
        b + 1 < a || b > a + 1 ==> word_of(poke_word(f, a, v), b) == word_of(f, b),
{
    if b == a {
        assert((((v & 0xFF) as u8) as u16 | ((((v >> 8u16) as u8) as u16) << 8u16)) as u16 == v) by (bit_vector);
    }
}

proof fn lemma_word_of_poke_pair(f: Image, a: u32, lo: u8, hi: u8, b: u32)
    requires
        a < 0xFFFF_0000,
        b < 0xFFFF_0000,
    ensures
        b == a ==> word_of(poke(poke(f, a, lo), (a + 1) as u32, hi), b) == byte_pair(lo, hi),
        b + 1 < a || b > a + 1 ==> word_of(poke(poke(f, a, lo), (a + 1) as u32, hi), b) == word_of(f, b),
{
}

/// Cells of plane rows, and within 80 columns, have words that do not
/// overlap one another.
proof fn lemma_cells_apart(r1: u8, c1: u8, r2: u8, c2: u8)
    requires
        plane_row(r1 as int),
        plane_row(r2 as int),
        c1 < 80,
        c2 < 80,
    ensures
        char_addr(r1, c1) < 0xFFFF_0000,
        attr_addr(r1, c1) < 0xFFFF_0000,
        (r1, c1) != (r2, c2) ==> {
            &&& char_addr(r1, c1) + 1 < char_addr(r2, c2) || char_addr(r1, c1) > char_addr(r2, c2) + 1
            &&& attr_addr(r1, c1) + 1 < attr_addr(r2, c2) || attr_addr(r1, c1) > attr_addr(r2, c2) + 1
        },
        char_addr(r1, c1) + 1 < attr_addr(r2, c2),
{
    lemma_cell_addrs(r1, c1);
    lemma_cell_addrs(r2, c2);
    if r1 != r2 {
        if r1 < r2 {
            assert(r1 * 80 + 80 <= r2 * 80) by (nonlinear_arith)
                requires
                    r1 < r2,
            ;
        } else {
            assert(r2 * 80 + 80 <= r1 * 80) by (nonlinear_arith)
                requires
                    r2 < r1,
            ;
        }
    }
    assert(r1 * 80 <= 50 * 80) by (nonlinear_arith)
        requires
            r1 <= 50,
    ;
}

proof fn lemma_copy_cell_at(f: Image, dst: u8, src: u8, col: u8, r: u8, c: u8)
    requires
        plane_row(dst as int),
        plane_row(src as int),
        plane_row(r as int),
        col < 80,
        c < 80,
    ensures
        cell(copy_cell(f, dst, src, col), r, c) == (if r == dst && c == col {
            cell(f, src, col)
        } else {
            cell(f, r, c)
        }),
{
    let f1 = poke_word(f, char_addr(dst, col), word_of(f, char_addr(src, col)));
    let g = copy_cell(f, dst, src, col);
    lemma_cells_apart(r, c, dst, col);
    lemma_cells_apart(dst, col, r, c);
    lemma_cells_apart(src, col, dst, col);
    lemma_cells_apart(dst, col, src, col);
    lemma_word_of_poke_word(f, char_addr(dst, col), word_of(f, char_addr(src, col)), char_addr(r, c));
    lemma_word_of_poke_word(f, char_addr(dst, col), word_of(f, char_addr(src, col)), attr_addr(r, c));
    lemma_word_of_poke_word(f, char_addr(dst, col), word_of(f, char_addr(src, col)), attr_addr(src, col));
    lemma_word_of_poke_word(f1, attr_addr(dst, col), word_of(f1, attr_addr(src, col)), char_addr(r, c));
    lemma_word_of_poke_word(f1, attr_addr(dst, col), word_of(f1, attr_addr(src, col)), attr_addr(r, c));
}

proof fn lemma_copy_cols_at(f: Image, dst: u8, src: u8, k: int, r: u8, c: u8)
    requires
        plane_row(dst as int),
        plane_row(src as int),
        plane_row(r as int),
        k <= 80,
        c < 80,
    ensures
        cell(copy_cols(f, dst, src, k), r, c) == (if r == dst && c < k {
            cell(f, src, c)
        } else {
            cell(f, r, c)
        }),
    decreases k,
{
    if k > 0 {
        let g = copy_cols(f, dst, src, k - 1);
        lemma_copy_cols_at(f, dst, src, k - 1, r, c);
        lemma_copy_cols_at(f, dst, src, k - 1, src, (k - 1) as u8);
        lemma_copy_cell_at(g, dst, src, (k - 1) as u8, r, c);
    }
}

proof fn lemma_copy_rows_up_at(f: Image, r0: int, r1: int, n: int, r: u8, c: u8)
    requires
        0 <= r0,
        0 <= n,
        r1 - 1 + n <= 50,
        plane_row(r as int),
        c < 80,
    ensures
        cell(copy_rows_up(f, r0, r1, n), r, c) == (if r0 <= r < r1 {
            cell(f, (r + n) as u8, c)
        } else {
            cell(f, r, c)
        }),
    decreases r1 - r0,
{
    if r1 > r0 {
        let h = copy_rows_up(f, r0, r1 - 1, n);
        lemma_copy_rows_up_at(f, r0, r1 - 1, n, r, c);
        lemma_copy_rows_up_at(f, r0, r1 - 1, n, (r1 - 1 + n) as u8, c);
        lemma_copy_cols_at(h, (r1 - 1) as u8, (r1 - 1 + n) as u8, 80, r, c);
    }
}

proof fn lemma_copy_rows_down_at(f: Image, r0: int, r1: int, n: int, r: u8, c: u8)
    requires
        0 <= n <= r0,
        r1 <= 50,
        plane_row(r as int),
        c < 80,
    ensures
        cell(copy_rows_down(f, r0, r1, n), r, c) == (if r0 <= r <= r1 {
            cell(f, (r - n) as u8, c)
        } else {
            cell(f, r, c)
        }),
    decreases r1 - r0 + 1,
{
    if r1 >= r0 {
        let h = copy_rows_down(f, r0 + 1, r1, n);
        lemma_copy_rows_down_at(f, r0 + 1, r1, n, r, c);
        lemma_copy_rows_down_at(f, r0 + 1, r1, n, (r0 - n) as u8, c);
        lemma_copy_cols_at(h, r0 as u8, (r0 - n) as u8, 80, r, c);
    }
}

proof fn lemma_with_cell_at(f: Image, row: u8, col: u8, even: u8, odd: u8, attr: u8, r: u8, c: u8)
    requires
        plane_row(row as int),
        plane_row(r as int),
        col < 80,
        c < 80,
    ensures
        cell(with_cell(f, row, col, even, odd, attr), r, c) == (if r == row && c == col {
            (byte_pair(even, odd), attr as u16)
        } else {
            cell(f, r, c)
        }),
{
    let ca = char_addr(row, col);
    let g = poke(poke(f, ca, even), (ca + 1) as u32, odd);
    lemma_cells_apart(r, c, row, col);
    lemma_cells_apart(row, col, r, c);
    lemma_word_of_poke_pair(f, ca, even, odd, char_addr(r, c));
    lemma_word_of_poke_pair(f, ca, even, odd, attr_addr(r, c));
    lemma_word_of_poke_word(g, attr_addr(row, col), attr as u16, char_addr(r, c));
    lemma_word_of_poke_word(g, attr_addr(row, col), attr as u16, attr_addr(r, c));
}

proof fn lemma_fill_cols_at(f: Image, row: u8, c0: int, c1: int, even: u8, odd: u8, attr: u8, r: u8, c: u8)
    requires
        plane_row(row as int),
        plane_row(r as int),
        0 <= c0,
        c1 <= 80,
        c < 80,
    ensures
        cell(fill_cols(f, row, c0, c1, even, odd, attr), r, c) == (if r == row && c0 <= c < c1 {
            (byte_pair(even, odd), attr as u16)
        } else {
            cell(f, r, c)
        }),
    decreases c1 - c0,
{
    if c1 > c0 {
        lemma_fill_cols_at(f, row, c0, c1 - 1, even, odd, attr, r, c);
        lemma_with_cell_at(fill_cols(f, row, c0, c1 - 1, even, odd, attr), row, (c1 - 1) as u8, even, odd, attr, r, c);
    }
}

proof fn lemma_fill_rows_at(f: Image, r0: int, r1: int, even: u8, odd: u8, attr: u8, r: u8, c: u8)
    requires
        0 <= r0,
        r1 - 1 <= 50,
        plane_row(r as int),
        c < 80,
    ensures
        cell(fill_rows(f, r0, r1, even, odd, attr), r, c) == (if r0 <= r < r1 {
            (byte_pair(even, odd), attr as u16)
        } else {
            cell(f, r, c)
        }),
    decreases r1 - r0,
{
    if r1 > r0 {
        lemma_fill_rows_at(f, r0, r1 - 1, even, odd, attr, r, c);
        lemma_fill_cols_at(fill_rows(f, r0, r1 - 1, even, odd, attr), (r1 - 1) as u8, 0, 80, even, odd, attr, r, c);
    }
}

/// After a scroll up by `count`, each cell of the scroll region holds the
/// cell `n` rows below it, where `n` is the count clipped to the region's
/// height; the `n` freed rows at the bottom hold the clear cell; every cell
/// outside the region is as it was.
pub proof fn lemma_scroll_up_cells(f: Image, count: u8, r: u8, c: u8)
    requires
        scroll_region_ok(f),
        plane_row(scroll_lower_of(f) as int),
        plane_row(r as int),
        c < 80,
    ensures
        ({
            let upper = scroll_upper_of(f);
            let lower = scroll_lower_of(f);
            let n = scroll_count(count, upper, lower);
            cell(scroll_up_image(f, count), r, c) == (if upper <= r <= lower && r + n > lower {
                clear_cell(f)
            } else if upper <= r <= lower {
                cell(f, (r + n) as u8, c)
            } else {
                cell(f, r, c)
            })
        }),
{
    let upper = scroll_upper_of(f);
    let lower = scroll_lower_of(f);
    let n = scroll_count(count, upper, lower);
    let end = if lower >= n { lower - n + 1 } else { upper as int };
    let g = copy_rows_up(f, upper as int, end, n);
    lemma_copy_rows_up_vram(f, upper as int, end, n);
    assert(below_vram(CLEAR_CHAR_ADDR) && below_vram(CLEAR_ATTR_ADDR));
    assert(clear_char_of(g) == clear_char_of(f) && clear_attr_of(g) == clear_attr_of(f));
    lemma_copy_rows_up_at(f, upper as int, end, n, r, c);
    lemma_fill_rows_at(g, lower + 1 - n, lower + 1, clear_char_of(g), 0, clear_attr_of(g), r, c);
}

/// After a scroll down by `count`, each cell of the scroll region holds the
/// cell `n` rows above it; the `n` freed rows at the top hold the clear
/// cell; every cell outside the region is as it was.
pub proof fn lemma_scroll_down_cells(f: Image, count: u8, r: u8, c: u8)
    requires
        scroll_region_ok(f),
        plane_row(scroll_lower_of(f) as int),
        plane_row(r as int),
        c < 80,
    ensures
        ({
            let upper = scroll_upper_of(f);
            let lower = scroll_lower_of(f);
            let n = scroll_count(count, upper, lower);
            cell(scroll_down_image(f, count), r, c) == (if upper <= r <= lower && r < upper + n {
                clear_cell(f)
            } else if upper <= r <= lower {
                cell(f, (r - n) as u8, c)
            } else {
                cell(f, r, c)
            })
        }),
{
    let upper = scroll_upper_of(f);
    let lower = scroll_lower_of(f);
    let n = scroll_count(count, upper, lower);
    let g = copy_rows_down(f, upper + n, lower as int, n);
    lemma_copy_rows_down_vram(f, upper + n, lower as int, n);
    assert(below_vram(CLEAR_CHAR_ADDR) && below_vram(CLEAR_ATTR_ADDR));
    assert(clear_char_of(g) == clear_char_of(f) && clear_attr_of(g) == clear_attr_of(f));
    lemma_copy_rows_down_at(f, upper + n, lower as int, n, r, c);
    lemma_fill_rows_at(g, upper as int, upper + n, clear_char_of(g), 0, clear_attr_of(g), r, c);
}

} // verus!

verus! {

/// Restoring the cursor after saving it gives back the cursor position and
/// the display attribute that were saved.
pub proof fn lemma_save_then_restore(f: Image)
    ensures
        cursor_row_of(restore_cursor_image(save_cursor_image(f))) == cursor_row_of(f),
        cursor_col_of(restore_cursor_image(save_cursor_image(f))) == cursor_col_of(f),
        display_attr_of(restore_cursor_image(save_cursor_image(f))) == display_attr_of(f),
{
}

/// Moving the cursor to a position inside the scroll area puts it there.
pub proof fn lemma_cursor_position_exact(f: Image, row: u8, col: u8)
    requires
        row <= scroll_lower_of(f),
        col <= 79,
    ensures
        cursor_row_of(cursor_position_image(f, row, col)) == row,
        cursor_col_of(cursor_position_image(f, row, col)) == col,
{
}

/// Moving the cursor right and then left by the same count returns it to
/// its column when the move right stays on the screen.
pub proof fn lemma_right_then_left(f: Image, count: u8)
    requires
        cursor_col_of(f) + count <= 79,
    ensures
        cursor_col_of(cursor_left_image(cursor_right_image(f, count), count)) == cursor_col_of(f),
        cursor_row_of(cursor_left_image(cursor_right_image(f, count), count)) == cursor_row_of(f),
{
}

/// Clearing a line keeps the cursor where it is.
pub proof fn lemma_clear_line_keeps_cursor(f: Image)
    ensures
        cursor_row_of(clear_line_image(f)) == cursor_row_of(f),
        cursor_col_of(clear_line_image(f)) == cursor_col_of(f),
{
    lemma_fill_cols_vram(f, cursor_row_of(f), 0, 80, clear_char_of(f), 0, clear_attr_of(f));
}

} // verus!
