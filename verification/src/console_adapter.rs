//! Drawing on the text screen by cell: characters written at a given row
//! and column, runs of them clipped at the right edge, and filled regions.
//! Full-width characters take two cells, the second holding code 0.

use vstd::prelude::*;
use crate::memory::{MemoryAccess, Image, image};
use crate::console::{Console, with_cell};
use crate::jis::{vram_bytes, jis_to_vram_bytes};

verus! {

/// Columns of the text screen.
pub const SCREEN_COLUMNS: u8 = 80;

/// Rows of the text screen.
pub const SCREEN_ROWS: u8 = 25;

/// Cells a character code takes: one for an ANK code (below 100h), two
/// for a JIS code.
pub open spec fn jis_width(code: u16) -> int {
    if code < 0x100 {
        1
    } else {
        2
    }
}

/// The screen after a character is written at `row`, `col`: its cell, and
/// for a full-width character not in the last column, the next cell with
/// code 0.
pub open spec fn char_image(f: Image, row: u8, col: u8, code: u16, attr: u8) -> Image {
    let g = with_cell(f, row, col, vram_bytes(code).0, vram_bytes(code).1, attr);
    if jis_width(code) == 2 && col < 79 {
        with_cell(g, row, (col + 1) as u8, 0, 0, attr)
    } else {
        g
    }
}

/// Writes one character at `row`, `col`.
pub fn write_jis_char<M: MemoryAccess>(
    console: &Console,
    memory: &mut M,
    row: u8,
    col: u8,
    code: u16,
    attr: u8,
)
    ensures
        image(final(memory)) == char_image(image(old(memory)), row, col, code, attr),
{
    let (even, odd) = jis_to_vram_bytes(code);
    console.write_cell(memory, row, col, even, odd, attr);
    if code >= 0x100 && col < 79 {
        console.write_cell(memory, row, col + 1, 0, 0, attr);
    }
}

/// The screen and the next column after a run of characters is written
/// from `col` on; the run stops before the first character that would
/// cross the right edge.
pub open spec fn jis_run(f: Image, row: u8, col: int, codes: Seq<u16>, attr: u8) -> (Image, int)
    decreases codes.len(),
{
    if codes.len() == 0 || col + jis_width(codes[0]) > 80 {
        (f, col)
    } else {
        jis_run(
            char_image(f, row, col as u8, codes[0], attr),
            row,
            col + jis_width(codes[0]),
            codes.skip(1),
            attr,
        )
    }
}

/// Writes a run of characters from `row`, `col`; gives the column after
/// the last one written.
pub fn write_jis<M: MemoryAccess>(
    console: &Console,
    memory: &mut M,
    row: u8,
    col: u8,
    codes: &[u16],
    attr: u8,
) -> (r: u8)
    ensures
        (image(final(memory)), r as int) == jis_run(image(old(memory)), row, col as int, codes@, attr),
{
    let ghost target = jis_run(image(old(memory)), row, col as int, codes@, attr);
    let mut current: u8 = col;
    let mut i: usize = 0;
    assert(codes@.skip(0) =~= codes@);
    while i < codes.len()
        invariant_except_break
            i <= codes@.len(),
            target == jis_run(image(memory), row, current as int, codes@.skip(i as int), attr),
            current <= col || current <= 80,
        ensures
            target == (image(memory), current as int),
        decreases codes@.len() - i,
    {
        let code = codes[i];
        let wide = code >= 0x100;
        assert(codes@.skip(i as int)[0] == code);
        if (!wide && current >= 80) || (wide && current >= 79) {
            break;
        }
        write_jis_char(console, memory, row, current, code, attr);
        assert(codes@.skip(i as int).skip(1) =~= codes@.skip(i + 1));
        current = if wide {
            current + 2
        } else {
            current + 1
        };
        i = i + 1;
    }
    current
}

/// The screen and the next column after bytes are written as ANK
/// characters from `col` on, up to the right edge.
pub open spec fn ank_run(f: Image, row: u8, col: int, bytes: Seq<u8>, attr: u8) -> (Image, int)
    decreases bytes.len(),
{
    if bytes.len() == 0 || col >= 80 {
        (f, col)
    } else {
        ank_run(char_image(f, row, col as u8, bytes[0] as u16, attr), row, col + 1, bytes.skip(1), attr)
    }
}

/// Writes bytes as ANK characters from `row`, `col`; gives the column
/// after the last one written.
pub fn write_ank_at<M: MemoryAccess>(
    console: &Console,
    memory: &mut M,
    row: u8,
    col: u8,
    bytes: &[u8],
    attr: u8,
) -> (r: u8)
    ensures
        (image(final(memory)), r as int) == ank_run(image(old(memory)), row, col as int, bytes@, attr),
{
    let ghost target = ank_run(image(old(memory)), row, col as int, bytes@, attr);
    let mut current: u8 = col;
    let mut i: usize = 0;
    assert(bytes@.skip(0) =~= bytes@);
    while i < bytes.len()
        invariant_except_break
            i <= bytes@.len(),
            target == ank_run(image(memory), row, current as int, bytes@.skip(i as int), attr),
            current <= col || current <= 80,
        ensures
            target == (image(memory), current as int),
        decreases bytes@.len() - i,
    {
        if current >= 80 {
            break;
        }
        let b = bytes[i];
        assert(bytes@.skip(i as int)[0] == b);
        write_jis_char(console, memory, row, current, b as u16, attr);
        assert(bytes@.skip(i as int).skip(1) =~= bytes@.skip(i + 1));
        current = current + 1;
        i = i + 1;
    }
    current
}

/// The screen after one row is filled with a character from `col` up to
/// (not including) `end`, a character at a time.
pub open spec fn fill_run(f: Image, row: u8, col: int, end: int, code: u16, attr: u8) -> Image
    decreases end + 1 - col,
{
    if col >= end {
        f
    } else {
        fill_run(char_image(f, row, col as u8, code, attr), row, col + jis_width(code), end, code, attr)
    }
}

/// The screen after the rows `row..row_end` are filled from `left` up to
/// `col_end`, top to bottom.
pub open spec fn fill_rows(
    f: Image,
    row: int,
    row_end: int,
    left: u8,
    col_end: int,
    code: u16,
    attr: u8,
) -> Image
    decreases row_end - row,
{
    if row >= row_end {
        f
    } else {
        fill_rows(fill_run(f, row as u8, left as int, col_end, code, attr), row + 1, row_end, left, col_end, code, attr)
    }
}

/// The end of a span that starts at `start` and is `len` long, counted
/// saturating at 255 and clipped at `limit`.
pub open spec fn clipped_end(start: u8, len: u8, limit: int) -> int {
    let end = if start + len > 255 { 255 } else { start + len };
    if end < limit { end } else { limit }
}

/// Fills a region with one character: rows `top..top + height` and
/// columns `left..left + width`, clipped to the screen.
pub fn fill_region<M: MemoryAccess>(
    console: &Console,
    memory: &mut M,
    top: u8,
    left: u8,
    height: u8,
    width: u8,
    code: u16,
    attr: u8,
)
    ensures
        image(final(memory)) == fill_rows(
            image(old(memory)),
            top as int,
            clipped_end(top, height, 25),
            left,
            clipped_end(left, width, 80),
            code,
            attr,
        ),
{
    let row_end: u8 = {
        let e = top.saturating_add(height);
        if e < 25 {
            e
        } else {
            25
        }
    };
    let col_end: u8 = {
        let e = left.saturating_add(width);
        if e < 80 {
            e
        } else {
            80
        }
    };
    let ghost target = fill_rows(image(old(memory)), top as int, row_end as int, left, col_end as int, code, attr);
    let step: u8 = if code >= 0x100 {
        2
    } else {
        1
    };
    let mut row: u8 = top;
    while row < row_end
        invariant
            top <= row,
            row <= row_end || row_end <= top,
            row_end <= 25,
            col_end <= 80,
            step as int == jis_width(code),
            target == fill_rows(image(memory), row as int, row_end as int, left, col_end as int, code, attr),
        decreases row_end - row,
    {
        let ghost row_target = fill_run(image(memory), row, left as int, col_end as int, code, attr);
        let mut col: u8 = left;
        while col < col_end
            invariant
                col == left || col <= 81,
                col_end <= 80,
                1 <= step <= 2,
                step as int == jis_width(code),
                row_target == fill_run(image(memory), row, col as int, col_end as int, code, attr),
            decreases col_end + 1 - col,
        {
            write_jis_char(console, memory, row, col, code, attr);
            col = col + step;
        }
        row = row + 1;
    }
}

} // verus!
