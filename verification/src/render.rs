//! Text helpers of the editor's screen: Shift-JIS text as screen
//! characters, its width, its ANK-only form, and sizes in KB.

use vstd::prelude::*;
use vstd::string::StringSliceAdditionalSpecFns;
use crate::jis::{is_lead, is_trail, sjis_to_jis, is_shift_jis_lead_byte, is_shift_jis_trail_byte, shift_jis_pair_to_jis};
use crate::memory::{MemoryAccess, image};
use crate::console::Console;
use crate::console_adapter::{jis_run, write_jis, ank_run, write_ank_at};
use crate::text::{push_bytes, push_decimal_digits, decimal_digits};

verus! {

/// A Shift-JIS pair that names a JIS character starts at `i`.
pub open spec fn sjis_pair_at(s: Seq<u8>, i: int) -> bool {
    &&& 0 <= i
    &&& i + 1 < s.len()
    &&& is_lead(s[i])
    &&& is_trail(s[i + 1])
    &&& sjis_to_jis(s[i], s[i + 1]) is Some
}

/// The screen code of a byte shown on its own: itself when printable,
/// else `?`.
pub open spec fn ank_code(b: u8) -> u8 {
    if b >= 0x20 {
        b
    } else {
        0x3F
    }
}

/// Columns that bytes take on screen: two for each Shift-JIS pair, one for
/// every other byte.
pub open spec fn sjis_width(s: Seq<u8>) -> nat
    decreases s.len(),
{
    if s.len() == 0 {
        0
    } else if sjis_pair_at(s, 0) {
        2 + sjis_width(s.skip(2))
    } else {
        1 + sjis_width(s.skip(1))
    }
}

/// The screen characters of Shift-JIS text: each pair as its JIS code,
/// every other byte as its ANK code.
pub open spec fn sjis_codes(s: Seq<u8>) -> Seq<u16>
    decreases s.len(),
{
    if s.len() == 0 {
        Seq::empty()
    } else if sjis_pair_at(s, 0) {
        seq![sjis_to_jis(s[0], s[1]).unwrap()] + sjis_codes(s.skip(2))
    } else {
        seq![ank_code(s[0]) as u16] + sjis_codes(s.skip(1))
    }
}

/// Shift-JIS text as ANK bytes: each pair becomes one `?`, every other
/// byte its ANK code.
pub open spec fn ank_lossy(s: Seq<u8>) -> Seq<u8>
    decreases s.len(),
{
    if s.len() == 0 {
        Seq::empty()
    } else if sjis_pair_at(s, 0) {
        seq![0x3Fu8] + ank_lossy(s.skip(2))
    } else {
        seq![ank_code(s[0])] + ank_lossy(s.skip(1))
    }
}

/// Whether a pair starts at `i` of `s`, looking at `s[..limit]` only.
fn pair_at(s: &[u8], i: usize, limit: usize) -> (r: bool)
    requires
        i < limit <= s@.len(),
    ensures
        r == sjis_pair_at(s@.take(limit as int), i as int),
        r == sjis_pair_at(s@.take(limit as int).skip(i as int), 0),
{
    let b = s[i];
    let r = i + 1 < limit && is_shift_jis_lead_byte(b) && is_shift_jis_trail_byte(s[i + 1])
        && shift_jis_pair_to_jis(b, s[i + 1]).is_some();
    r
}

/// Columns that the first `byte_count` bytes (or all, when fewer) take on
/// screen.
pub fn display_width_for_prefix(bytes: &[u8], byte_count: usize) -> (r: usize)
    ensures
        r == sjis_width(bytes@.take(if byte_count < bytes@.len() { byte_count as int } else { bytes@.len() as int })),
{
    let limit = if byte_count < bytes.len() {
        byte_count
    } else {
        bytes.len()
    };
    let ghost s = bytes@.take(limit as int);
    let mut width: usize = 0;
    let mut index: usize = 0;
    assert(s.skip(0) =~= s);
    while index < limit
        invariant
            limit <= bytes@.len(),
            s == bytes@.take(limit as int),
            index <= limit,
            width <= index,
            sjis_width(s) == width + sjis_width(s.skip(index as int)),
        decreases limit - index,
    {
        if pair_at(bytes, index, limit) {
            assert(s.skip(index as int).skip(2) =~= s.skip(index + 2));
            width = width + 2;
            index = index + 2;
        } else {
            assert(s.skip(index as int).skip(1) =~= s.skip(index + 1));
            width = width + 1;
            index = index + 1;
        }
    }
    width
}

/// The screen characters of Shift-JIS text.
pub fn shift_jis_codes(bytes: &[u8]) -> (r: Vec<u16>)
    ensures
        r@ == sjis_codes(bytes@),
{
    let ghost s = bytes@;
    let mut codes: Vec<u16> = Vec::new();
    let mut index: usize = 0;
    assert(s.take(s.len() as int) =~= s);
    assert(s.skip(0) =~= s);
    while index < bytes.len()
        invariant
            s == bytes@,
            index <= s.len(),
            sjis_codes(s) == codes@ + sjis_codes(s.skip(index as int)),
        decreases s.len() - index,
    {
        let b = bytes[index];
        if pair_at(bytes, index, bytes.len()) {
            let code = shift_jis_pair_to_jis(b, bytes[index + 1]).unwrap();
            assert(s.skip(index as int).skip(2) =~= s.skip(index + 2));
            codes.push(code);
            index = index + 2;
        } else {
            assert(s.skip(index as int).skip(1) =~= s.skip(index + 1));
            codes.push(if b >= 0x20 {
                b as u16
            } else {
                0x3F
            });
            index = index + 1;
        }
        assert(sjis_codes(s) =~= codes@ + sjis_codes(s.skip(index as int)));
    }
    codes
}

/// Writes Shift-JIS text at `row`, `col`, clipped at the right edge; gives
/// the column after the last character written.
pub fn write_shift_jis<M: MemoryAccess>(
    console: &Console,
    memory: &mut M,
    row: u8,
    col: u8,
    bytes: &[u8],
    attr: u8,
) -> (r: u8)
    ensures
        (image(final(memory)), r as int) == jis_run(image(old(memory)), row, col as int, sjis_codes(bytes@), attr),
{
    let codes = shift_jis_codes(bytes);
    write_jis(console, memory, row, col, codes.as_slice(), attr)
}

/// Appends Shift-JIS text as ANK bytes.
pub fn append_ank_lossy_shift_jis(buffer: &mut Vec<u8>, bytes: &[u8])
    ensures
        final(buffer)@ == old(buffer)@ + ank_lossy(bytes@),
{
    let ghost s = bytes@;
    let mut index: usize = 0;
    assert(s.take(s.len() as int) =~= s);
    assert(s.skip(0) =~= s);
    while index < bytes.len()
        invariant
            s == bytes@,
            index <= s.len(),
            old(buffer)@ + ank_lossy(s) == buffer@ + ank_lossy(s.skip(index as int)),
        decreases s.len() - index,
    {
        let b = bytes[index];
        if pair_at(bytes, index, bytes.len()) {
            assert(s.skip(index as int).skip(2) =~= s.skip(index + 2));
            buffer.push(0x3F);
            index = index + 2;
        } else {
            assert(s.skip(index as int).skip(1) =~= s.skip(index + 1));
            buffer.push(if b >= 0x20 {
                b
            } else {
                0x3F
            });
            index = index + 1;
        }
        assert(old(buffer)@ + ank_lossy(s) =~= buffer@ + ank_lossy(s.skip(index as int)));
    }
}

/// A file size in whole KB, rounded up, at least 1.
pub open spec fn size_kb(file_size: u32) -> nat {
    let kb = (file_size + 1023) / 1024;
    if kb < 1 {
        1
    } else {
        kb as nat
    }
}

/// Appends a file size as `n KB`.
pub fn append_size_kb(buffer: &mut Vec<u8>, file_size: u32)
    ensures
        final(buffer)@ == old(buffer)@ + decimal_digits(size_kb(file_size)) + " KB".spec_bytes(),
{
    let kb = (file_size as u64 + 1023) / 1024;
    let kb = if kb < 1 {
        1
    } else {
        kb
    };
    push_decimal_digits(buffer, kb);
    push_bytes(buffer, " KB".as_bytes());
}

/// Writes ANK text so that it ends at the right edge of `row` (from column
/// 0 when it is wider than the screen).
pub fn right_align_bytes<M: MemoryAccess>(console: &Console, memory: &mut M, row: u8, text: &[u8], attr: u8)
    ensures
        image(final(memory)) == ank_run(
            image(old(memory)),
            row,
            if text@.len() < 80 { 80 - text@.len() } else { 0 },
            text@,
            attr,
        ).0,
{
    let col: u8 = if text.len() < 80 {
        (80 - text.len()) as u8
    } else {
        0
    };
    write_ank_at(console, memory, row, col, text, attr);
}

} // verus!
