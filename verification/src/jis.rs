//! Shift-JIS and JIS X 0208 codes as the PC-98 text VRAM stores them.

use vstd::prelude::*;

verus! {

/// A Shift-JIS lead byte: 81h-9Fh or E0h-FCh.
pub open spec fn is_lead(b: u8) -> bool {
    (0x81 <= b <= 0x9F) || (0xE0 <= b <= 0xFC)
}

/// A Shift-JIS trail byte: 40h-7Eh or 80h-FCh.
pub open spec fn is_trail(b: u8) -> bool {
    (0x40 <= b <= 0x7E) || (0x80 <= b <= 0xFC)
}

pub fn is_shift_jis_lead_byte(b: u8) -> (r: bool)
    ensures
        r == is_lead(b),
{
    (0x81 <= b && b <= 0x9F) || (0xE0 <= b && b <= 0xFC)
}

pub fn is_shift_jis_trail_byte(b: u8) -> (r: bool)
    ensures
        r == is_trail(b),
{
    (0x40 <= b && b <= 0x7E) || (0x80 <= b && b <= 0xFC)
}

/// The JIS X 0208 row byte of a Shift-JIS pair.
pub open spec fn jis_row(lead: u8, trail: u8) -> int {
    let base = if lead <= 0x9F { lead - 0x71 } else { lead - 0xB1 };
    let t = if trail > 0x7F { trail - 1 } else { trail as int };
    base * 2 + 1 + (if t >= 0x9E { 1int } else { 0int })
}

/// The JIS X 0208 cell byte of a Shift-JIS pair.
pub open spec fn jis_cell(trail: u8) -> int {
    let t = if trail > 0x7F { trail - 1 } else { trail as int };
    if t >= 0x9E {
        t - 0x7D
    } else {
        t - 0x1F
    }
}

/// The JIS code of a Shift-JIS pair, when the pair is well formed and
/// names a JIS X 0208 position (rows and cells 21h-7Eh).
pub open spec fn sjis_to_jis(lead: u8, trail: u8) -> Option<u16> {
    if is_lead(lead) && is_trail(trail) && 0x21 <= jis_row(lead, trail) <= 0x7E && 0x21
        <= jis_cell(trail) <= 0x7E {
        Some((jis_row(lead, trail) * 256 + jis_cell(trail)) as u16)
    } else {
        None
    }
}

/// Converts a Shift-JIS byte pair to its JIS X 0208 code.
pub fn shift_jis_pair_to_jis(lead: u8, trail: u8) -> (r: Option<u16>)
    ensures
        r == sjis_to_jis(lead, trail),
{
    if !is_shift_jis_lead_byte(lead) || !is_shift_jis_trail_byte(trail) {
        return None;
    }
    let base: u16 = if lead <= 0x9F {
        (lead - 0x71) as u16
    } else {
        (lead - 0xB1) as u16
    };
    let t: u16 = if trail > 0x7F {
        (trail - 1) as u16
    } else {
        trail as u16
    };
    let (row, cell) = if t >= 0x9E {
        (base * 2 + 2, t - 0x7D)
    } else {
        (base * 2 + 1, t - 0x1F)
    };
    if row < 0x21 || row > 0x7E || cell < 0x21 || cell > 0x7E {
        return None;
    }
    Some(row * 256 + cell)
}

/// The two VRAM bytes of a character code: an ANK code (below 100h) is
/// stored as itself and 0; a JIS code stores its row byte less 20h, then
/// its cell byte.
pub open spec fn vram_bytes(code: u16) -> (u8, u8) {
    if code < 0x100 {
        (code as u8, 0)
    } else {
        let hi = code / 256;
        ((if hi >= 0x20 { hi - 0x20 } else { hi + 0xE0 }) as u8, (code % 256) as u8)
    }
}

pub fn jis_to_vram_bytes(code: u16) -> (r: (u8, u8))
    ensures
        r == vram_bytes(code),
{
    if code < 0x100 {
        (code as u8, 0)
    } else {
        let hi = (code / 256) as u8;
        let even = if hi >= 0x20 {
            hi - 0x20
        } else {
            hi + 0xE0
        };
        (even, (code % 256) as u8)
    }
}

/// The character code that two VRAM bytes hold.
pub open spec fn code_of_vram(even: u8, odd: u8) -> u16 {
    if odd == 0 {
        even as u16
    } else {
        (((even + 0x20) % 256) * 256 + odd) as u16
    }
}

pub fn jis_from_vram_bytes(even: u8, odd: u8) -> (r: u16)
    ensures
        r == code_of_vram(even, odd),
{
    if odd == 0 {
        even as u16
    } else {
        let hi: u16 = if even < 0xE0 {
            even as u16 + 0x20
        } else {
            even as u16 - 0xE0
        };
        hi * 256 + odd as u16
    }
}

/// A JIS code survives the trip to VRAM and back.
pub proof fn lemma_vram_round_trip(code: u16)
    requires
        code < 0x100 || (0x21 <= code / 256 <= 0x7E && 0x21 <= code % 256 <= 0x7E),
    ensures
        code_of_vram(vram_bytes(code).0, vram_bytes(code).1) == code,
{
}

/// Whether a code names a JIS X 0208 position (row and cell bytes 21h-7Eh).
pub open spec fn is_jis_pair(code: u16) -> bool {
    0x21 <= code / 256 <= 0x7E && 0x21 <= code % 256 <= 0x7E
}

/// The Shift-JIS lead byte of a JIS X 0208 code.
pub open spec fn sjis_lead(code: u16) -> int {
    let row = code / 256;
    (row + 1) / 2 + (if row <= 0x5E { 0x70int } else { 0xB0int })
}

/// The Shift-JIS trail byte of a JIS X 0208 code.
pub open spec fn sjis_trail(code: u16) -> int {
    let row = code / 256;
    let cell = code % 256;
    if row % 2 == 1 {
        cell + (if cell >= 0x60 { 0x20int } else { 0x1Fint })
    } else {
        cell + 0x7E
    }
}

/// The Shift-JIS encoding of a character code: an ANK code (below 100h) is
/// one byte, a JIS X 0208 code two bytes; other codes have none.
pub enum ShiftJis {
    Single(u8),
    Double(u8, u8),
}

/// The bytes that a Shift-JIS encoding stands for.
pub open spec fn shift_jis_bytes(e: ShiftJis) -> Seq<u8> {
    match e {
        ShiftJis::Single(b) => seq![b],
        ShiftJis::Double(lead, trail) => seq![lead, trail],
    }
}

/// The Shift-JIS bytes of a character code, when it has any.
pub open spec fn jis_to_sjis(code: u16) -> Option<Seq<u8>> {
    if code < 0x100 {
        Some(seq![code as u8])
    } else if is_jis_pair(code) {
        Some(seq![sjis_lead(code) as u8, sjis_trail(code) as u8])
    } else {
        None
    }
}

impl ShiftJis {
    /// Appends the encoded bytes to `output`.
    pub fn write_to(self, output: &mut Vec<u8>)
        ensures
            final(output)@ == old(output)@ + shift_jis_bytes(self),
    {
        match self {
            ShiftJis::Single(b) => {
                output.push(b);
            },
            ShiftJis::Double(lead, trail) => {
                output.push(lead);
                output.push(trail);
            },
        }
        assert(output@ =~= old(output)@ + shift_jis_bytes(self));
    }
}

/// Encodes a character code as Shift-JIS.
pub fn jis_to_shift_jis(code: u16) -> (r: Option<ShiftJis>)
    ensures
        r matches Some(e) ==> jis_to_sjis(code) == Some(shift_jis_bytes(e)),
        r is None ==> jis_to_sjis(code) is None,
{
    if code < 0x100 {
        return Some(ShiftJis::Single(code as u8));
    }
    let row = code / 256;
    let cell = code % 256;
    if row < 0x21 || row > 0x7E || cell < 0x21 || cell > 0x7E {
        return None;
    }
    let lead: u16 = (row + 1) / 2 + if row <= 0x5E {
        0x70
    } else {
        0xB0
    };
    let trail: u16 = if row % 2 == 1 {
        cell + if cell >= 0x60 {
            0x20
        } else {
            0x1F
        }
    } else {
        cell + 0x7E
    };
    let e = ShiftJis::Double(lead as u8, trail as u8);
    assert(shift_jis_bytes(e) =~= seq![sjis_lead(code) as u8, sjis_trail(code) as u8]);
    Some(e)
}

/// Decoding the Shift-JIS bytes of a JIS X 0208 code gives the code back.
pub proof fn lemma_sjis_round_trip(code: u16)
    requires
        is_jis_pair(code),
    ensures
        0x81 <= sjis_lead(code) <= 0xEF,
        0x40 <= sjis_trail(code) <= 0xFC,
        sjis_to_jis(sjis_lead(code) as u8, sjis_trail(code) as u8) == Some(code),
{
    let row = code / 256;
    let cell = code % 256;
    assert(code == row * 256 + cell);
}

/// Encoding the JIS code of a Shift-JIS pair gives the pair back.
pub proof fn lemma_jis_round_trip(lead: u8, trail: u8)
    requires
        sjis_to_jis(lead, trail) is Some,
    ensures
        is_jis_pair(sjis_to_jis(lead, trail).unwrap()),
        jis_to_sjis(sjis_to_jis(lead, trail).unwrap()) == Some(seq![lead, trail]),
{
    let row = jis_row(lead, trail);
    let cell = jis_cell(trail);
    let code = sjis_to_jis(lead, trail).unwrap();
    assert(code as int == row * 256 + cell);
    assert(code / 256 == row && code % 256 == cell);
    assert(sjis_lead(code) == lead as int);
    assert(sjis_trail(code) == trail as int);
}

} // verus!
