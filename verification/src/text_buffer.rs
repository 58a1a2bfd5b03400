//! The editor's text buffer: lines of character units, a cursor, a viewport,
//! and Shift-JIS file contents in and out.

use vstd::prelude::*;
use crate::text::{joined, lemma_joined_cut, lemma_joined_push};
use crate::jis::{
    is_lead, is_trail, sjis_to_jis, jis_to_sjis, is_shift_jis_lead_byte,
    is_shift_jis_trail_byte, shift_jis_pair_to_jis, jis_to_shift_jis, shift_jis_bytes,
    lemma_jis_round_trip,
};

verus! {

/// Lines that one page step moves the cursor, and rows of the text view.
pub const PAGE_ROWS: usize = 19;

/// Columns of the text view.
pub const VIEW_COLS: usize = 80;

/// Upper bound on the number of lines of a buffer.
pub const MAX_LINES: usize = 0x0FFF_FFFF;

/// Upper bound on the number of units of a line.
pub const MAX_UNITS: usize = 0x0FFF_FFFF;

/// Upper bound on the horizontal scroll offset.
pub const MAX_SCROLL: usize = 0x6000_0000;

/// One unit of text: a character (an ANK code below 100h, or a JIS X 0208
/// code), or a control byte kept as it was read.
#[derive(Debug, Clone, Copy, PartialEq, Eq, Structural)]
pub enum TextUnit {
    Char(u16),
    Raw(u8),
}

/// Screen columns a unit takes: two for a JIS X 0208 character, one otherwise.
pub open spec fn unit_width(u: TextUnit) -> nat {
    match u {
        TextUnit::Char(c) => if c < 0x100 {
            1
        } else {
            2
        },
        TextUnit::Raw(_) => 1,
    }
}

/// The character shown for a unit: a character as itself, the DOS end-of-file
/// byte 1Ah as its own glyph, any other control byte as `?`.
pub open spec fn display_code(u: TextUnit) -> u16 {
    match u {
        TextUnit::Char(c) => c,
        TextUnit::Raw(b) => if b == 0x1A {
            0x1A
        } else {
            0x3F
        },
    }
}

/// The file bytes of a unit: a character's Shift-JIS encoding (`?` where it
/// has none), a raw byte as itself.
pub open spec fn unit_bytes(u: TextUnit) -> Seq<u8> {
    match u {
        TextUnit::Char(c) => match jis_to_sjis(c) {
            Some(bytes) => bytes,
            None => seq![0x3Fu8],
        },
        TextUnit::Raw(b) => seq![b],
    }
}

/// One decoded unit at the front of `b`: a Shift-JIS pair naming a JIS X 0208
/// character, else a printable byte as an ANK character, else a raw byte;
/// with the number of bytes it takes.
pub open spec fn front_unit(b: Seq<u8>) -> (TextUnit, nat) {
    if b.len() >= 2 && is_lead(b[0]) && is_trail(b[1]) && sjis_to_jis(b[0], b[1]) is Some {
        (TextUnit::Char(sjis_to_jis(b[0], b[1]).unwrap()), 2)
    } else if b[0] >= 0x20 {
        (TextUnit::Char(b[0] as u16), 1)
    } else {
        (TextUnit::Raw(b[0]), 1)
    }
}

/// The lines of a file: CR LF, a lone CR and a lone LF each end a line, and
/// the text after the last line end is the last line.
pub open spec fn decode(b: Seq<u8>) -> Seq<Seq<TextUnit>>
    decreases b.len(),
{
    if b.len() == 0 {
        seq![Seq::empty()]
    } else if b[0] == 0x0D {
        let n: int = if b.len() >= 2 && b[1] == 0x0A {
            2
        } else {
            1
        };
        seq![Seq::empty()] + decode(b.skip(n))
    } else if b[0] == 0x0A {
        seq![Seq::empty()] + decode(b.skip(1))
    } else {
        let (u, n) = front_unit(b);
        let rest = decode(b.skip(n as int));
        rest.update(0, seq![u] + rest[0])
    }
}

/// The bytes of a sequence of units.
pub open spec fn units_bytes(s: Seq<TextUnit>) -> Seq<u8>
    decreases s.len(),
{
    if s.len() == 0 {
        Seq::empty()
    } else {
        units_bytes(s.drop_last()) + unit_bytes(s.last())
    }
}

/// The CR LF line end.
pub open spec fn crlf() -> Seq<u8> {
    seq![0x0Du8, 0x0Au8]
}

/// The file bytes of a text: its lines joined by CR LF.
pub open spec fn lines_bytes(t: Seq<Seq<TextUnit>>) -> Seq<u8>
    decreases t.len(),
{
    if t.len() == 0 {
        Seq::empty()
    } else if t.len() == 1 {
        units_bytes(t[0])
    } else {
        lines_bytes(t.drop_last()) + crlf() + units_bytes(t.last())
    }
}

/// A file's bytes with every line end (CR LF, lone CR, lone LF) written as CR LF.
pub open spec fn crlf_normalized(b: Seq<u8>) -> Seq<u8>
    decreases b.len(),
{
    if b.len() == 0 {
        Seq::empty()
    } else if b[0] == 0x0D {
        let n: int = if b.len() >= 2 && b[1] == 0x0A {
            2
        } else {
            1
        };
        crlf() + crlf_normalized(b.skip(n))
    } else if b[0] == 0x0A {
        crlf() + crlf_normalized(b.skip(1))
    } else {
        seq![b[0]] + crlf_normalized(b.skip(1))
    }
}

/// Screen columns taken by a sequence of units.
pub open spec fn width_of(s: Seq<TextUnit>) -> nat
    decreases s.len(),
{
    if s.len() == 0 {
        0
    } else {
        width_of(s.drop_last()) + unit_width(s.last())
    }
}

/// The first index of `s` at which the units before it take at least
/// `col` columns, or the length of `s` when there is none.
pub open spec fn col_index(s: Seq<TextUnit>, col: int) -> nat
    decreases s.len(),
{
    if s.len() == 0 {
        0
    } else if width_of(s.drop_last()) >= col {
        col_index(s.drop_last(), col)
    } else {
        s.len()
    }
}

/// The first visible line after scrolling just enough to show `line`.
pub open spec fn scrolled_top(top: nat, line: nat) -> nat {
    if line < top {
        line
    } else if line >= top + PAGE_ROWS {
        (line + 1 - PAGE_ROWS) as nat
    } else {
        top
    }
}

/// The first visible column after scrolling just enough to show `col`.
pub open spec fn scrolled_col(scroll: nat, col: nat) -> nat {
    if col < scroll {
        col
    } else if col >= scroll + VIEW_COLS {
        (col + 1 - VIEW_COLS) as nat
    } else {
        scroll
    }
}

/// The unit that typing a single byte gives: a printable byte is an ANK
/// character, a control byte is kept raw.
pub open spec fn byte_unit(b: u8) -> TextUnit {
    if b >= 0x20 {
        TextUnit::Char(b as u16)
    } else {
        TextUnit::Raw(b)
    }
}

/// A line with `u` typed at `index`: inserted in insert mode or at the end
/// of the line, else written over the unit at `index`.
pub open spec fn typed_into(line: Seq<TextUnit>, index: int, u: TextUnit, insert_mode: bool) -> Seq<
    TextUnit,
> {
    if insert_mode || index >= line.len() {
        line.insert(index, u)
    } else {
        line.update(index, u)
    }
}

/// The characters shown for a line scrolled by `scroll` columns in a view of
/// `max_cols` columns, the walk having skipped `skipped` and shown `used`
/// columns so far: units that end within the scrolled-off columns are
/// skipped, and the walk stops at the first unit that does not fit.
pub open spec fn visible_codes(s: Seq<TextUnit>, skipped: int, used: int, scroll: int, max_cols: int) -> Seq<u16>
    decreases s.len(),
{
    if s.len() == 0 {
        Seq::empty()
    } else {
        let w = unit_width(s[0]);
        if skipped + w <= scroll {
            visible_codes(s.skip(1), skipped + w, used, scroll, max_cols)
        } else if used + w > max_cols {
            Seq::empty()
        } else {
            seq![display_code(s[0])] + visible_codes(s.skip(1), skipped, used + w, scroll, max_cols)
        }
    }
}

/// The state of a text buffer.
pub struct BufferView {
    pub path: Seq<u8>,
    pub text: Seq<Seq<TextUnit>>,
    pub line: nat,
    pub index: nat,
    pub top: nat,
    pub scroll: nat,
    pub insert_mode: bool,
    pub modified: bool,
    pub read_only: bool,
    pub pending: Option<u8>,
}

impl BufferView {
    /// The text fits the size bounds.
    pub open spec fn sized(self) -> bool {
        &&& 1 <= self.text.len() <= MAX_LINES
        &&& forall|i: int| 0 <= i < self.text.len() ==> #[trigger] self.text[i].len() <= MAX_UNITS
    }

    /// The cursor stands within the text and the viewport offsets are in range.
    pub open spec fn cursor_ok(self) -> bool {
        &&& self.line < self.text.len()
        &&& self.index <= self.text[self.line as int].len()
        &&& self.top <= MAX_LINES
        &&& self.scroll <= MAX_SCROLL
    }

    /// The text fits the size bounds and the cursor stands within it.
    pub open spec fn wf(self) -> bool {
        &&& self.sized()
        &&& self.cursor_ok()
    }

    /// The cursor line has room for the units that one input byte may add.
    pub open spec fn has_room(self) -> bool {
        &&& self.cursor_ok()
        &&& self.text.len() <= MAX_LINES + 1
        &&& self.text[self.line as int].len() + (if self.pending is Some {
            2int
        } else {
            1int
        }) <= 2 * MAX_UNITS
    }

    /// The screen column of the cursor.
    pub open spec fn col(self) -> nat {
        width_of(self.text[self.line as int].take(self.index as int))
    }

    pub open spec fn with_cursor(self, line: nat, index: nat) -> BufferView {
        BufferView { line, index, ..self }
    }

    pub open spec fn without_pending(self) -> BufferView {
        BufferView { pending: None, ..self }
    }

    /// The viewport scrolled just enough to show the cursor.
    pub open spec fn settled(self) -> BufferView {
        BufferView {
            top: scrolled_top(self.top, self.line),
            scroll: scrolled_col(self.scroll, self.col()),
            ..self
        }
    }

    pub open spec fn moved_left(self) -> BufferView {
        let v = self.without_pending();
        if self.index > 0 {
            v.with_cursor(self.line, (self.index - 1) as nat).settled()
        } else if self.line > 0 {
            let l = (self.line - 1) as nat;
            v.with_cursor(l, self.text[l as int].len()).settled()
        } else {
            v.settled()
        }
    }

    pub open spec fn moved_right(self) -> BufferView {
        let v = self.without_pending();
        if self.index < self.text[self.line as int].len() {
            v.with_cursor(self.line, self.index + 1).settled()
        } else if self.line + 1 < self.text.len() {
            v.with_cursor(self.line + 1, 0).settled()
        } else {
            v.settled()
        }
    }

    pub open spec fn moved_up(self) -> BufferView {
        let v = self.without_pending();
        if self.line > 0 {
            let l = (self.line - 1) as nat;
            v.with_cursor(l, col_index(self.text[l as int], self.col() as int)).settled()
        } else {
            v.settled()
        }
    }

    pub open spec fn moved_down(self) -> BufferView {
        let v = self.without_pending();
        if self.line + 1 < self.text.len() {
            let l = self.line + 1;
            v.with_cursor(l, col_index(self.text[l as int], self.col() as int)).settled()
        } else {
            v.settled()
        }
    }

    pub open spec fn paged_up(self) -> BufferView {
        let l: nat = if self.line >= PAGE_ROWS {
            (self.line - PAGE_ROWS) as nat
        } else {
            0
        };
        self.with_cursor(l, col_index(self.text[l as int], self.col() as int)).settled()
    }

    pub open spec fn paged_down(self) -> BufferView {
        let l: nat = if self.line + PAGE_ROWS <= self.text.len() - 1 {
            (self.line + PAGE_ROWS) as nat
        } else {
            (self.text.len() - 1) as nat
        };
        self.with_cursor(l, col_index(self.text[l as int], self.col() as int)).settled()
    }

    pub open spec fn moved_home(self) -> BufferView {
        self.without_pending().with_cursor(self.line, 0).settled()
    }

    pub open spec fn moved_end(self) -> BufferView {
        self.without_pending().with_cursor(self.line, self.text[self.line as int].len()).settled()
    }

    /// `u` typed at the cursor, unless the buffer is read-only.
    pub open spec fn with_unit(self, u: TextUnit) -> BufferView {
        if self.read_only {
            self
        } else {
            let line = typed_into(self.text[self.line as int], self.index as int, u, self.insert_mode);
            BufferView {
                text: self.text.update(self.line as int, line),
                index: self.index + 1,
                modified: true,
                ..self
            }.settled()
        }
    }

    /// The buffer after one input byte: a Shift-JIS lead byte waits for its
    /// trail byte; a lead byte that no valid trail byte follows is kept raw.
    pub open spec fn typed(self, byte: u8) -> BufferView
        decreases (if self.pending is Some {
            1int
        } else {
            0int
        }),
    {
        match self.pending {
            Some(lead) => {
                let v = self.without_pending();
                if is_trail(byte) && sjis_to_jis(lead, byte) is Some {
                    v.with_unit(TextUnit::Char(sjis_to_jis(lead, byte).unwrap()))
                } else {
                    v.with_unit(TextUnit::Raw(lead)).typed(byte)
                }
            },
            None => if is_lead(byte) {
                BufferView { pending: Some(byte), ..self }
            } else {
                self.with_unit(byte_unit(byte))
            },
        }
    }

    /// A waiting lead byte typed as a raw unit.
    pub open spec fn flushed(self) -> BufferView {
        match self.pending {
            Some(lead) => self.without_pending().with_unit(TextUnit::Raw(lead)),
            None => self,
        }
    }

    pub open spec fn backspaced(self) -> BufferView {
        if self.read_only {
            self
        } else {
            let v = self.flushed();
            let l = v.line as int;
            if v.index > 0 {
                BufferView {
                    text: v.text.update(l, v.text[l].remove(v.index - 1)),
                    index: (v.index - 1) as nat,
                    modified: true,
                    ..v
                }.settled()
            } else if v.line > 0 {
                let merged = v.text[l - 1] + v.text[l];
                BufferView {
                    text: v.text.update(l - 1, merged).remove(l),
                    line: (l - 1) as nat,
                    index: v.text[l - 1].len(),
                    modified: true,
                    ..v
                }.settled()
            } else {
                v.settled()
            }
        }
    }

    pub open spec fn deleted(self) -> BufferView {
        if self.read_only {
            self
        } else {
            let v = self.flushed();
            let l = v.line as int;
            if v.index < v.text[l].len() {
                BufferView {
                    text: v.text.update(l, v.text[l].remove(v.index as int)),
                    modified: true,
                    ..v
                }.settled()
            } else if l + 1 < v.text.len() {
                let merged = v.text[l] + v.text[l + 1];
                BufferView {
                    text: v.text.update(l, merged).remove(l + 1),
                    modified: true,
                    ..v
                }.settled()
            } else {
                v.settled()
            }
        }
    }

    pub open spec fn split(self) -> BufferView {
        if self.read_only {
            self
        } else {
            let v = self.flushed();
            let l = v.line as int;
            let line = v.text[l];
            BufferView {
                text: v.text.update(l, line.take(v.index as int)).insert(l + 1, line.skip(v.index as int)),
                line: v.line + 1,
                index: 0,
                modified: true,
                ..v
            }.settled()
        }
    }
}


impl BufferView {
    /// Room for any one key: a line more, two units more on the cursor
    /// line, and the cursor line (with a waiting lead byte kept) joined with
    /// either neighbour, all within the size bounds.
    pub open spec fn key_room(self) -> bool {
        &&& self.text.len() < MAX_LINES
        &&& self.text[self.line as int].len() + 2 <= MAX_UNITS
        &&& self.line > 0 ==> self.text[self.line - 1].len() + self.text[self.line as int].len() + 1
            <= MAX_UNITS
        &&& self.line + 1 < self.text.len() ==> self.text[self.line as int].len() + 1
            + self.text[self.line as int + 1].len() <= MAX_UNITS
    }

    /// `w` has the lines of `self`, the cursor line grown by at most `k`
    /// units, and the cursor on the same line.
    pub open spec fn grown_by(self, w: BufferView, k: int) -> bool {
        &&& w.text.len() == self.text.len()
        &&& w.line == self.line
        &&& w.index <= w.text[w.line as int].len()
        &&& w.text[self.line as int].len() <= self.text[self.line as int].len() + k
        &&& forall|i: int| 0 <= i < self.text.len() && i != self.line ==> #[trigger] w.text[i] == self.text[i]
    }
}

/// Adding one unit grows the cursor line by at most one.
proof fn lemma_with_unit_growth(v: BufferView, u: TextUnit)
    requires
        v.line < v.text.len(),
        v.index <= v.text[v.line as int].len(),
    ensures
        v.grown_by(v.with_unit(u), 1),
{
}

/// An input byte grows the cursor line by at most two.
proof fn lemma_typed_growth(v: BufferView, byte: u8)
    requires
        v.line < v.text.len(),
        v.index <= v.text[v.line as int].len(),
    ensures
        v.grown_by(v.typed(byte), 2),
    decreases (if v.pending is Some {
        1int
    } else {
        0int
    }),
{
    match v.pending {
        Some(lead) => {
            let w = v.without_pending();
            if is_trail(byte) && sjis_to_jis(lead, byte) is Some {
                lemma_with_unit_growth(w, TextUnit::Char(sjis_to_jis(lead, byte).unwrap()));
            } else {
                let x = w.with_unit(TextUnit::Raw(lead));
                lemma_with_unit_growth(w, TextUnit::Raw(lead));
                lemma_typed_growth(x, byte);
                assert forall|i: int| 0 <= i < v.text.len() && i != v.line implies #[trigger] x.typed(byte).text[i]
                    == v.text[i] by {
                    assert(x.text[i] == w.text[i]);
                }
            }
        },
        None => {
            if !is_lead(byte) {
                lemma_with_unit_growth(v, byte_unit(byte));
            }
        },
    }
}

/// Keeping a waiting lead byte grows the cursor line by at most one.
proof fn lemma_flushed_growth(v: BufferView)
    requires
        v.line < v.text.len(),
        v.index <= v.text[v.line as int].len(),
    ensures
        v.grown_by(v.flushed(), 1),
{
    match v.pending {
        Some(lead) => lemma_with_unit_growth(v.without_pending(), TextUnit::Raw(lead)),
        None => {},
    }
}

/// Growth within the room of a key keeps the lines within the bound.
proof fn lemma_grown_sized(v: BufferView, w: BufferView, k: int)
    requires
        v.sized(),
        v.grown_by(w, k),
        v.text[v.line as int].len() + k <= MAX_UNITS,
        v.line < v.text.len(),
    ensures
        w.sized(),
{
    assert forall|i: int| 0 <= i < w.text.len() implies #[trigger] w.text[i].len() <= MAX_UNITS by {
        if i != v.line {
            assert(w.text[i] == v.text[i]);
        }
    }
}

/// Typing a byte or a tab keeps the size bounds when there is room for it.
pub proof fn lemma_typing_keeps_size(v: BufferView, byte: u8)
    requires
        v.wf(),
        v.key_room(),
    ensures
        v.typed(byte).sized(),
        v.with_unit(TextUnit::Raw(0x09)).sized(),
{
    lemma_typed_growth(v, byte);
    lemma_grown_sized(v, v.typed(byte), 2);
    lemma_with_unit_growth(v, TextUnit::Raw(0x09));
    lemma_grown_sized(v, v.with_unit(TextUnit::Raw(0x09)), 1);
}

/// Backspace keeps the size bounds when there is room for a key.
#[verifier::spinoff_prover]
pub proof fn lemma_backspace_keeps_size(v: BufferView)
    requires
        v.wf(),
        v.key_room(),
    ensures
        v.backspaced().sized(),
{
    if !v.read_only {
        lemma_flushed_growth(v);
        let f = v.flushed();
        lemma_grown_sized(v, f, 1);
        let l = v.line as int;
        if f.index == 0 && f.line > 0 {
            let merged = f.text[l - 1] + f.text[l];
            let nt = f.text.update(l - 1, merged).remove(l);
            assert(f.text[l - 1] == v.text[l - 1]);
            assert forall|i: int| 0 <= i < nt.len() implies #[trigger] nt[i].len() <= MAX_UNITS by {
                if i < l - 1 {
                    assert(nt[i] == f.text[i]);
                } else if i >= l {
                    assert(nt[i] == f.text[i + 1]);
                }
            }
        } else if f.index > 0 {
            let nt = f.text.update(l, f.text[l].remove(f.index - 1));
            assert forall|i: int| 0 <= i < nt.len() implies #[trigger] nt[i].len() <= MAX_UNITS by {
                if i != l {
                    assert(nt[i] == f.text[i]);
                }
            }
        }
    }
}

/// Delete keeps the size bounds when there is room for a key.
#[verifier::spinoff_prover]
pub proof fn lemma_delete_keeps_size(v: BufferView)
    requires
        v.wf(),
        v.key_room(),
    ensures
        v.deleted().sized(),
{
    if !v.read_only {
        lemma_flushed_growth(v);
        let f = v.flushed();
        lemma_grown_sized(v, f, 1);
        let l = v.line as int;
        if f.index < f.text[l].len() {
            let nt = f.text.update(l, f.text[l].remove(f.index as int));
            assert forall|i: int| 0 <= i < nt.len() implies #[trigger] nt[i].len() <= MAX_UNITS by {
                if i != l {
                    assert(nt[i] == f.text[i]);
                }
            }
        } else if l + 1 < f.text.len() {
            let merged = f.text[l] + f.text[l + 1];
            let nt = f.text.update(l, merged).remove(l + 1);
            assert(f.text[l + 1] == v.text[l + 1]);
            assert forall|i: int| 0 <= i < nt.len() implies #[trigger] nt[i].len() <= MAX_UNITS by {
                if i < l {
                    assert(nt[i] == f.text[i]);
                } else if i > l {
                    assert(nt[i] == f.text[i + 1]);
                }
            }
        }
    }
}

/// Enter keeps the size bounds when there is room for a key.
#[verifier::spinoff_prover]
pub proof fn lemma_split_keeps_size(v: BufferView)
    requires
        v.wf(),
        v.key_room(),
    ensures
        v.split().sized(),
{
    if !v.read_only {
        lemma_flushed_growth(v);
        let f = v.flushed();
        lemma_grown_sized(v, f, 1);
        let l = v.line as int;
        let line = f.text[l];
        let nt = f.text.update(l, line.take(f.index as int)).insert(l + 1, line.skip(f.index as int));
        assert forall|i: int| 0 <= i < nt.len() implies #[trigger] nt[i].len() <= MAX_UNITS by {
            if i < l {
                assert(nt[i] == f.text[i]);
            } else if i > l + 1 {
                assert(nt[i] == f.text[i - 1]);
            }
        }
    }
}

impl TextUnit {
    pub fn display_width(self) -> (w: usize)
        ensures
            w == unit_width(self),
    {
        match self {
            TextUnit::Char(c) => if c < 0x100 {
                1
            } else {
                2
            },
            TextUnit::Raw(_) => 1,
        }
    }

    pub fn display_char(self) -> (c: u16)
        ensures
            c == display_code(self),
    {
        match self {
            TextUnit::Char(c) => c,
            TextUnit::Raw(0x1A) => 0x1A,
            TextUnit::Raw(_) => 0x3F,
        }
    }

    /// Appends the unit's file bytes to `output`.
    pub fn write_encoded_bytes(self, output: &mut Vec<u8>)
        ensures
            final(output)@ == old(output)@ + unit_bytes(self),
    {
        match self {
            TextUnit::Char(c) => {
                match jis_to_shift_jis(c) {
                    Some(encoded) => encoded.write_to(output),
                    None => {
                        output.push(0x3F);
                        assert(output@ =~= old(output)@ + unit_bytes(self));
                    },
                }
            },
            TextUnit::Raw(b) => {
                output.push(b);
                assert(output@ =~= old(output)@ + unit_bytes(self));
            },
        }
    }
}

} // verus!

verus! {

/// Columns taken by the first `i + 1` units: those of the first `i`, and the
/// width of unit `i`.
pub proof fn lemma_width_step(s: Seq<TextUnit>, i: int)
    requires
        0 <= i < s.len(),
    ensures
        width_of(s.take(i + 1)) == width_of(s.take(i)) + unit_width(s[i]),
{
    assert(s.take(i + 1).drop_last() =~= s.take(i));
}

/// A unit takes at most two columns.
pub proof fn lemma_width_bound(s: Seq<TextUnit>)
    ensures
        width_of(s) <= 2 * s.len(),
    decreases s.len(),
{
    if s.len() > 0 {
        lemma_width_bound(s.drop_last());
    }
}

/// `col_index` is the first index whose prefix takes at least `col` columns,
/// or the length when no index before the end does.
pub proof fn lemma_col_index_least(s: Seq<TextUnit>, col: int, k: int)
    requires
        0 <= k <= s.len(),
        k < s.len() ==> width_of(s.take(k)) >= col,
        forall|j: int| 0 <= j < k ==> width_of(#[trigger] s.take(j)) < col,
    ensures
        col_index(s, col) == k,
    decreases s.len(),
{
    if s.len() > 0 {
        let d = s.drop_last();
        assert(s.take(s.len() - 1) =~= d);
        if k < s.len() {
            assert forall|j: int| 0 <= j < k implies width_of(#[trigger] d.take(j)) < col by {
                assert(d.take(j) =~= s.take(j));
            }
            if k < d.len() {
                assert(d.take(k) =~= s.take(k));
            }
            if k == s.len() - 1 {
                assert(width_of(d) >= col);
            } else {
                assert(width_of(s.take(s.len() - 1)) < col || width_of(d) >= col);
                assert(width_of(d) >= col) by {
                    if width_of(d) < col {
                        lemma_width_monotone(s, k, s.len() - 1);
                    }
                }
            }
            lemma_col_index_least(d, col, k);
        } else {
            assert(width_of(s.take(s.len() - 1)) < col);
        }
    }
}

/// Longer prefixes take at least as many columns.
pub proof fn lemma_width_monotone(s: Seq<TextUnit>, i: int, j: int)
    requires
        0 <= i <= j <= s.len(),
    ensures
        width_of(s.take(i)) <= width_of(s.take(j)),
    decreases j - i,
{
    if i < j {
        lemma_width_step(s, j - 1);
        lemma_width_monotone(s, i, j - 1);
    }
}

/// The index that `col_index` gives lies within the sequence.
pub proof fn lemma_col_index_bound(s: Seq<TextUnit>, col: int)
    ensures
        col_index(s, col) <= s.len(),
    decreases s.len(),
{
    if s.len() > 0 {
        lemma_col_index_bound(s.drop_last(), col);
    }
}

/// A file always decodes to at least one line.
pub proof fn lemma_decode_nonempty(b: Seq<u8>)
    ensures
        decode(b).len() >= 1,
    decreases b.len(),
{
    if b.len() > 0 {
        if b[0] == 0x0D {
            let n: int = if b.len() >= 2 && b[1] == 0x0A {
                2
            } else {
                1
            };
            lemma_decode_nonempty(b.skip(n));
        } else if b[0] == 0x0A {
            lemma_decode_nonempty(b.skip(1));
        } else {
            let (u, n) = front_unit(b);
            lemma_decode_nonempty(b.skip(n as int));
        }
    }
}

/// Bytes of the first `j + 1` units: those of the first `j`, then unit `j`'s.
pub proof fn lemma_units_bytes_step(s: Seq<TextUnit>, j: int)
    requires
        0 <= j < s.len(),
    ensures
        units_bytes(s.take(j + 1)) == units_bytes(s.take(j)) + unit_bytes(s[j]),
{
    assert(s.take(j + 1).drop_last() =~= s.take(j));
}

/// Bytes of the first `i + 1` lines: those of the first `i`, a line end
/// when `i > 0`, then line `i`'s.
pub proof fn lemma_lines_bytes_step(t: Seq<Seq<TextUnit>>, i: int)
    requires
        0 <= i < t.len(),
    ensures
        lines_bytes(t.take(i + 1)) == lines_bytes(t.take(i)) + (if i > 0 {
            crlf()
        } else {
            Seq::empty()
        }) + units_bytes(t[i]),
{
    assert(t.take(i + 1).drop_last() =~= t.take(i));
    if i == 0 {
        assert(lines_bytes(t.take(0)) =~= Seq::<u8>::empty());
        assert(lines_bytes(t.take(1)) =~= Seq::<u8>::empty() + Seq::<u8>::empty() + units_bytes(t[0]));
    }
}

/// A line of text.
pub struct Line {
    pub units: Vec<TextUnit>,
}

/// The editor's text buffer.
pub struct TextBuffer {
    pub path: Vec<u8>,
    pub lines: Vec<Line>,
    pub cursor_line: usize,
    pub cursor_index: usize,
    pub viewport_top: usize,
    pub horizontal_scroll: usize,
    pub insert_mode: bool,
    pub modified: bool,
    pub read_only: bool,
    pub pending_lead: Option<u8>,
}

impl View for TextBuffer {
    type V = BufferView;

    open spec fn view(&self) -> BufferView {
        BufferView {
            path: self.path@,
            text: self.lines@.map_values(|l: Line| l.units@),
            line: self.cursor_line as nat,
            index: self.cursor_index as nat,
            top: self.viewport_top as nat,
            scroll: self.horizontal_scroll as nat,
            insert_mode: self.insert_mode,
            modified: self.modified,
            read_only: self.read_only,
            pending: self.pending_lead,
        }
    }
}

/// An empty buffer: one empty line, the cursor at its start, insert mode on.
pub open spec fn empty_buffer(path: Seq<u8>, read_only: bool) -> BufferView {
    BufferView {
        path,
        text: seq![Seq::empty()],
        line: 0,
        index: 0,
        top: 0,
        scroll: 0,
        insert_mode: true,
        modified: false,
        read_only,
        pending: None,
    }
}

impl TextBuffer {
    pub fn new(path: Vec<u8>, read_only: bool) -> (r: TextBuffer)
        ensures
            r@ == empty_buffer(path@, read_only),
            r@.wf(),
    {
        let mut lines: Vec<Line> = Vec::new();
        lines.push(Line { units: Vec::new() });
        let r = TextBuffer {
            path,
            lines,
            cursor_line: 0,
            cursor_index: 0,
            viewport_top: 0,
            horizontal_scroll: 0,
            insert_mode: true,
            modified: false,
            read_only,
            pending_lead: None,
        };
        assert(r@.text =~= seq![Seq::<TextUnit>::empty()]);
        r
    }

    pub fn set_path(&mut self, path: Vec<u8>)
        ensures
            final(self)@ == (BufferView { path: path@, ..old(self)@ }),
    {
        self.path = path;
    }

    pub fn clear_modified(&mut self)
        ensures
            final(self)@ == (BufferView { modified: false, ..old(self)@ }),
    {
        self.modified = false;
    }

    /// Whether there is room for any one key (see `BufferView::key_room`).
    pub fn has_key_room(&self) -> (r: bool)
        requires
            self@.wf(),
        ensures
            r == self@.key_room(),
    {
        let cl = self.cursor_line;
        let cur = self.lines[cl].units.len();
        proof {
            assert(self@.text[cl as int] == self.lines@[cl as int].units@);
            if cl > 0 {
                assert(self@.text[cl - 1] == self.lines@[cl - 1].units@);
            }
            if cl + 1 < self.lines.len() {
                assert(self@.text[cl + 1] == self.lines@[cl + 1].units@);
            }
        }
        if self.lines.len() >= MAX_LINES || cur + 2 > MAX_UNITS {
            return false;
        }
        if cl > 0 && self.lines[cl - 1].units.len() + cur + 1 > MAX_UNITS {
            return false;
        }
        if cl + 1 < self.lines.len() && cur + 1 + self.lines[cl + 1].units.len() > MAX_UNITS {
            return false;
        }
        true
    }

    pub fn toggle_insert_mode(&mut self)
        ensures
            final(self)@ == (BufferView { insert_mode: !old(self)@.insert_mode, ..old(self)@ }),
    {
        self.insert_mode = !self.insert_mode;
    }

    /// Columns taken by the first `index` units of line `line_index` (0 for
    /// a line that does not exist).
    pub fn visual_width_for_index(&self, line_index: usize, index: usize) -> (r: usize)
        requires
            line_index < self@.text.len() ==> self@.text[line_index as int].len() <= 3 * MAX_UNITS,
        ensures
            r == (if line_index < self@.text.len() {
                let line = self@.text[line_index as int];
                width_of(line.take(if index <= line.len() {
                    index as int
                } else {
                    line.len() as int
                }))
            } else {
                0
            }),
    {
        if line_index >= self.lines.len() {
            return 0;
        }
        let units = &self.lines[line_index].units;
        assert(units@ == self@.text[line_index as int]);
        let n = if index <= units.len() {
            index
        } else {
            units.len()
        };
        let mut total: usize = 0;
        let mut i: usize = 0;
        while i < n
            invariant
                n <= units@.len() <= 3 * MAX_UNITS,
                i <= n,
                total == width_of(units@.take(i as int)),
                total <= 2 * i,
            decreases n - i,
        {
            proof {
                lemma_width_step(units@, i as int);
            }
            total = total + units[i].display_width();
            i = i + 1;
        }
        total
    }

    /// The index in line `line_index` of the first unit whose start lies at
    /// or right of column `visual_col` (0 for a line that does not exist).
    pub fn index_for_visual_col(&self, line_index: usize, visual_col: usize) -> (r: usize)
        requires
            line_index < self@.text.len() ==> self@.text[line_index as int].len() <= 3 * MAX_UNITS,
        ensures
            r == (if line_index < self@.text.len() {
                col_index(self@.text[line_index as int], visual_col as int)
            } else {
                0
            }),
    {
        if line_index >= self.lines.len() {
            return 0;
        }
        let units = &self.lines[line_index].units;
        assert(units@ == self@.text[line_index as int]);
        let mut used: usize = 0;
        let mut index: usize = 0;
        while index < units.len()
            invariant
                line_index < self@.text.len(),
                units@ == self@.text[line_index as int],
                units@.len() <= 3 * MAX_UNITS,
                index <= units@.len(),
                used == width_of(units@.take(index as int)),
                used <= 2 * index,
                forall|j: int| 0 <= j < index ==> width_of(#[trigger] units@.take(j)) < visual_col,
            decreases units@.len() - index,
        {
            if used >= visual_col {
                proof {
                    lemma_col_index_least(units@, visual_col as int, index as int);
                }
                return index;
            }
            proof {
                lemma_width_step(units@, index as int);
            }
            used = used + units[index].display_width();
            index = index + 1;
        }
        proof {
            lemma_col_index_least(units@, visual_col as int, index as int);
        }
        index
    }

    /// The screen column of the cursor.
    pub fn visual_cursor_col(&self) -> (r: usize)
        requires
            self@.line < self@.text.len(),
            self@.index <= self@.text[self@.line as int].len(),
            self@.text[self@.line as int].len() <= 3 * MAX_UNITS,
        ensures
            r == self@.col(),
    {
        self.visual_width_for_index(self.cursor_line, self.cursor_index)
    }

    /// Scrolls the viewport just enough to show the cursor.
    fn ensure_cursor_visible(&mut self)
        requires
            old(self)@.line < old(self)@.text.len(),
            old(self)@.index <= old(self)@.text[old(self)@.line as int].len(),
            old(self)@.text[old(self)@.line as int].len() <= 3 * MAX_UNITS,
            old(self)@.top <= MAX_LINES,
            old(self)@.scroll <= MAX_SCROLL,
        ensures
            final(self)@ == old(self)@.settled(),
            final(self)@.top <= old(self)@.top || final(self)@.top <= final(self)@.line,
            final(self)@.scroll <= MAX_SCROLL,
    {
        if self.cursor_line < self.viewport_top {
            self.viewport_top = self.cursor_line;
        }
        if self.cursor_line >= self.viewport_top + PAGE_ROWS {
            self.viewport_top = self.cursor_line - (PAGE_ROWS - 1);
        }
        let visual_col = self.visual_cursor_col();
        proof {
            lemma_width_bound(self@.text[self@.line as int].take(self@.index as int));
        }
        if visual_col < self.horizontal_scroll {
            self.horizontal_scroll = visual_col;
        }
        if visual_col >= self.horizontal_scroll + VIEW_COLS {
            self.horizontal_scroll = visual_col + 1 - VIEW_COLS;
        }
    }
    pub fn move_left(&mut self)
        requires
            old(self)@.wf(),
        ensures
            final(self)@ == old(self)@.moved_left(),
            final(self)@.wf(),
    {
        self.pending_lead = None;
        if self.cursor_index > 0 {
            self.cursor_index -= 1;
        } else if self.cursor_line > 0 {
            self.cursor_line -= 1;
            self.cursor_index = self.lines[self.cursor_line].units.len();
        }
        self.ensure_cursor_visible();
    }

    pub fn move_right(&mut self)
        requires
            old(self)@.wf(),
        ensures
            final(self)@ == old(self)@.moved_right(),
            final(self)@.wf(),
    {
        self.pending_lead = None;
        if self.cursor_index < self.lines[self.cursor_line].units.len() {
            self.cursor_index += 1;
        } else if self.cursor_line + 1 < self.lines.len() {
            self.cursor_line += 1;
            self.cursor_index = 0;
        }
        self.ensure_cursor_visible();
    }

    pub fn move_up(&mut self)
        requires
            old(self)@.wf(),
        ensures
            final(self)@ == old(self)@.moved_up(),
            final(self)@.wf(),
    {
        self.pending_lead = None;
        if self.cursor_line > 0 {
            let visual = self.visual_cursor_col();
            self.cursor_line -= 1;
            self.cursor_index = self.index_for_visual_col(self.cursor_line, visual);
            proof {
                lemma_col_index_bound(self@.text[self@.line as int], visual as int);
            }
        }
        self.ensure_cursor_visible();
    }

    pub fn move_down(&mut self)
        requires
            old(self)@.wf(),
        ensures
            final(self)@ == old(self)@.moved_down(),
            final(self)@.wf(),
    {
        self.pending_lead = None;
        if self.cursor_line + 1 < self.lines.len() {
            let visual = self.visual_cursor_col();
            self.cursor_line += 1;
            self.cursor_index = self.index_for_visual_col(self.cursor_line, visual);
            proof {
                lemma_col_index_bound(self@.text[self@.line as int], visual as int);
            }
        }
        self.ensure_cursor_visible();
    }

    pub fn page_up(&mut self)
        requires
            old(self)@.wf(),
        ensures
            final(self)@ == old(self)@.paged_up(),
            final(self)@.wf(),
    {
        let visual = self.visual_cursor_col();
        self.cursor_line = self.cursor_line.saturating_sub(PAGE_ROWS);
        self.cursor_index = self.index_for_visual_col(self.cursor_line, visual);
        proof {
            lemma_col_index_bound(self@.text[self@.line as int], visual as int);
        }
        self.ensure_cursor_visible();
    }

    pub fn page_down(&mut self)
        requires
            old(self)@.wf(),
        ensures
            final(self)@ == old(self)@.paged_down(),
            final(self)@.wf(),
    {
        let visual = self.visual_cursor_col();
        let last = self.lines.len() - 1;
        self.cursor_line = if self.cursor_line + PAGE_ROWS <= last {
            self.cursor_line + PAGE_ROWS
        } else {
            last
        };
        self.cursor_index = self.index_for_visual_col(self.cursor_line, visual);
        proof {
            lemma_col_index_bound(self@.text[self@.line as int], visual as int);
        }
        self.ensure_cursor_visible();
    }

    pub fn move_home(&mut self)
        requires
            old(self)@.wf(),
        ensures
            final(self)@ == old(self)@.moved_home(),
            final(self)@.wf(),
    {
        self.pending_lead = None;
        self.cursor_index = 0;
        self.ensure_cursor_visible();
    }

    pub fn move_end(&mut self)
        requires
            old(self)@.wf(),
        ensures
            final(self)@ == old(self)@.moved_end(),
            final(self)@.wf(),
    {
        self.pending_lead = None;
        self.cursor_index = self.lines[self.cursor_line].units.len();
        self.ensure_cursor_visible();
    }
    /// Types `unit` at the cursor, unless the buffer is read-only.
    fn insert_unit(&mut self, unit: TextUnit)
        requires
            old(self)@.line < old(self)@.text.len() <= MAX_LINES + 1,
            old(self)@.index <= old(self)@.text[old(self)@.line as int].len(),
            old(self)@.text[old(self)@.line as int].len() < 2 * MAX_UNITS,
            old(self)@.top <= MAX_LINES,
            old(self)@.scroll <= MAX_SCROLL,
        ensures
            final(self)@ == old(self)@.with_unit(unit),
            final(self)@.cursor_ok(),
    {
        if self.read_only {
            return;
        }
        let ghost pre = self@;
        let cl = self.cursor_line;
        let ci = self.cursor_index;
        let line = &mut self.lines[cl].units;
        if self.insert_mode || ci >= line.len() {
            line.insert(ci, unit);
        } else {
            line[ci] = unit;
        }
        self.cursor_index = ci + 1;
        self.modified = true;
        assert(self@.text =~= pre.text.update(
            cl as int,
            typed_into(pre.text[cl as int], ci as int, unit, pre.insert_mode),
        ));
        self.ensure_cursor_visible();
    }
    /// Takes one input byte: a Shift-JIS lead byte waits for its trail
    /// byte; a waiting lead byte that no valid trail byte follows is typed
    /// as a raw unit before the new byte.
    pub fn insert_input_byte(&mut self, byte: u8)
        requires
            old(self)@.has_room(),
        ensures
            final(self)@ == old(self)@.typed(byte),
            final(self)@.cursor_ok(),
        decreases (if old(self)@.pending is Some {
            1int
        } else {
            0int
        }),
    {
        match self.pending_lead.take() {
            Some(lead) => {
                if is_shift_jis_trail_byte(byte) {
                    if let Some(jis) = shift_jis_pair_to_jis(lead, byte) {
                        self.insert_unit(TextUnit::Char(jis));
                        return;
                    }
                }
                self.insert_unit(TextUnit::Raw(lead));
                self.insert_input_byte(byte);
            },
            None => {
                if is_shift_jis_lead_byte(byte) {
                    self.pending_lead = Some(byte);
                    return;
                }
                if byte >= 0x20 {
                    self.insert_unit(TextUnit::Char(byte as u16));
                } else {
                    self.insert_unit(TextUnit::Raw(byte));
                }
            },
        }
    }

    /// Types a tab as a raw unit.
    pub fn insert_tab(&mut self)
        requires
            old(self)@.has_room(),
        ensures
            final(self)@ == old(self)@.with_unit(TextUnit::Raw(0x09)),
            final(self)@.cursor_ok(),
    {
        self.insert_unit(TextUnit::Raw(0x09));
    }

    /// Types a waiting lead byte as a raw unit.
    pub fn flush_pending_input(&mut self)
        requires
            old(self)@.has_room(),
        ensures
            final(self)@ == old(self)@.flushed(),
            final(self)@.cursor_ok(),
    {
        if let Some(lead) = self.pending_lead.take() {
            self.insert_unit(TextUnit::Raw(lead));
        }
    }
    /// Removes the unit before the cursor, or joins the line to the one
    /// above when the cursor is at its start.
    pub fn backspace(&mut self)
        requires
            old(self)@.wf(),
        ensures
            final(self)@ == old(self)@.backspaced(),
            final(self)@.cursor_ok(),
    {
        if self.read_only {
            return;
        }
        self.flush_pending_input();
        let ghost v = self@;
        let cl = self.cursor_line;
        if self.cursor_index > 0 {
            let ci = self.cursor_index - 1;
            self.cursor_index = ci;
            let line = &mut self.lines[cl].units;
            line.remove(ci);
            self.modified = true;
            assert(self@.text =~= v.text.update(cl as int, v.text[cl as int].remove(ci as int)));
        } else if cl > 0 {
            assert(v.text == old(self)@.text);
            let mut current = self.lines.remove(cl);
            self.cursor_line = cl - 1;
            self.cursor_index = self.lines[cl - 1].units.len();
            let above = &mut self.lines[cl - 1].units;
            above.append(&mut current.units);
            self.modified = true;
            assert(self@.text =~= v.text.update(
                cl - 1,
                v.text[cl - 1] + v.text[cl as int],
            ).remove(cl as int));
        }
        self.ensure_cursor_visible();
    }

    /// Removes the unit at the cursor, or joins the next line to this one
    /// when the cursor is at the end of the line.
    pub fn delete(&mut self)
        requires
            old(self)@.wf(),
        ensures
            final(self)@ == old(self)@.deleted(),
            final(self)@.cursor_ok(),
    {
        if self.read_only {
            return;
        }
        self.flush_pending_input();
        let ghost v = self@;
        let cl = self.cursor_line;
        let ci = self.cursor_index;
        if ci < self.lines[cl].units.len() {
            let line = &mut self.lines[cl].units;
            line.remove(ci);
            self.modified = true;
            assert(self@.text =~= v.text.update(cl as int, v.text[cl as int].remove(ci as int)));
        } else if cl + 1 < self.lines.len() {
            assert(v.text[cl as int].len() <= MAX_UNITS + 1);
            assert(v.text[cl + 1] == old(self)@.text[cl + 1]);
            let mut next = self.lines.remove(cl + 1);
            let line = &mut self.lines[cl].units;
            line.append(&mut next.units);
            self.modified = true;
            assert(self@.text =~= v.text.update(
                cl as int,
                v.text[cl as int] + v.text[cl + 1],
            ).remove(cl + 1));
        }
        self.ensure_cursor_visible();
    }

    /// Splits the line at the cursor; the cursor moves to the start of the
    /// new line.
    pub fn split_line(&mut self)
        requires
            old(self)@.wf(),
        ensures
            final(self)@ == old(self)@.split(),
            final(self)@.cursor_ok(),
    {
        if self.read_only {
            return;
        }
        self.flush_pending_input();
        let ghost v = self@;
        let cl = self.cursor_line;
        let ci = self.cursor_index;
        let line = &mut self.lines[cl].units;
        let trailing = line.split_off(ci);
        self.lines.insert(cl + 1, Line { units: trailing });
        self.cursor_line = cl + 1;
        self.cursor_index = 0;
        self.modified = true;
        assert(self@.text =~= v.text.update(cl as int, v.text[cl as int].take(ci as int)).insert(
            cl + 1,
            v.text[cl as int].skip(ci as int),
        ));
        self.ensure_cursor_visible();
    }
    /// Fills `output` with the characters shown for line `line_index`
    /// under the current horizontal scroll, in a view of `max_cols` columns.
    pub fn fill_visible_units(&self, line_index: usize, max_cols: usize, output: &mut Vec<u16>)
        ensures
            final(output)@ == (if line_index < self@.text.len() {
                visible_codes(self@.text[line_index as int], 0, 0, self@.scroll as int, max_cols as int)
            } else {
                Seq::empty()
            }),
    {
        output.clear();
        if line_index >= self.lines.len() {
            return;
        }
        let units = &self.lines[line_index].units;
        let ghost s = units@;
        let ghost scroll = self.horizontal_scroll as int;
        assert(s == self@.text[line_index as int]);
        let mut skipped: usize = 0;
        let mut used: usize = 0;
        let mut i: usize = 0;
        assert(s.skip(0) =~= s);
        assert(output@ + visible_codes(s, 0, 0, scroll, max_cols as int) =~= visible_codes(
            s,
            0,
            0,
            scroll,
            max_cols as int,
        ));
        while i < units.len()
            invariant
                s == units@,
                line_index < self@.text.len(),
                s == self@.text[line_index as int],
                scroll == self.horizontal_scroll,
                i <= s.len(),
                skipped <= scroll,
                used <= max_cols,
                output@ + visible_codes(s.skip(i as int), skipped as int, used as int, scroll, max_cols as int)
                    == visible_codes(s, 0, 0, scroll, max_cols as int),
            decreases s.len() - i,
        {
            let unit = units[i];
            let width = unit.display_width();
            assert(s.skip(i as int)[0] == unit);
            assert(s.skip(i as int).skip(1) =~= s.skip(i + 1));
            if width <= self.horizontal_scroll - skipped {
                skipped = skipped + width;
                i = i + 1;
                continue;
            }
            if width > max_cols - used {
                assert(visible_codes(s.skip(i as int), skipped as int, used as int, scroll, max_cols as int)
                    =~= Seq::<u16>::empty());
                assert(output@ =~= output@ + Seq::<u16>::empty());
                return;
            }
            let ghost o = output@;
            output.push(unit.display_char());
            used = used + width;
            i = i + 1;
            assert(output@ + visible_codes(s.skip(i as int), skipped as int, used as int, scroll, max_cols as int)
                =~= o + (seq![display_code(unit)] + visible_codes(s.skip(i as int), skipped as int, used as int, scroll, max_cols as int)));
        }
        assert(s.skip(i as int) =~= Seq::<TextUnit>::empty());
        assert(output@ =~= output@ + Seq::<u16>::empty());
    }

    /// Reads a file's bytes into a buffer.
    pub fn from_bytes(path: Vec<u8>, bytes: &[u8], read_only: bool) -> (r: TextBuffer)
        requires
            bytes@.len() < MAX_UNITS,
        ensures
            r@ == (BufferView { text: decode(bytes@), ..empty_buffer(path@, read_only) }),
            r@.wf(),
    {
        let ghost b = bytes@;
        let mut lines: Vec<Line> = Vec::new();
        let mut current: Vec<TextUnit> = Vec::new();
        let mut index: usize = 0;
        proof {
            lemma_decode_nonempty(b);
            assert(b.skip(0) =~= b);
            assert(lines@.map_values(|l: Line| l.units@) =~= Seq::empty());
            assert(Seq::<TextUnit>::empty() + decode(b)[0] =~= decode(b)[0]);
            assert(joined(Seq::empty(), Seq::empty(), decode(b)) =~= decode(b));
        }
        while index < bytes.len()
            invariant
                b == bytes@,
                b.len() < MAX_UNITS,
                index <= b.len(),
                decode(b) == joined(lines@.map_values(|l: Line| l.units@), current@, decode(b.skip(index as int))),
                lines@.len() <= index,
                current@.len() <= index,
                forall|i: int| 0 <= i < lines@.len() ==> #[trigger] lines@[i].units@.len() <= index,
            decreases b.len() - index,
        {
            let ghost done = lines@.map_values(|l: Line| l.units@);
            let ghost here = b.skip(index as int);
            let byte = bytes[index];
            assert(here[0] == byte);
            if byte == 0x0D || byte == 0x0A {
                let mut n: usize = 1;
                if byte == 0x0D && index + 1 < bytes.len() && bytes[index + 1] == 0x0A {
                    n = 2;
                    assert(here[1] == 0x0A);
                }
                proof {
                    assert(here.skip(n as int) =~= b.skip(index + n));
                    lemma_decode_nonempty(b.skip(index + n));
                    assert(decode(here) == seq![Seq::<TextUnit>::empty()] + decode(b.skip(index + n)));
                    lemma_joined_cut(done, current@, decode(b.skip(index + n)));
                }
                let ghost finished = current@;
                lines.push(Line { units: current });
                current = Vec::new();
                index = index + n;
                assert(lines@.map_values(|l: Line| l.units@) =~= done.push(finished));
                continue;
            }
            if is_shift_jis_lead_byte(byte) && index + 1 < bytes.len() && is_shift_jis_trail_byte(
                bytes[index + 1],
            ) {
                if let Some(jis) = shift_jis_pair_to_jis(byte, bytes[index + 1]) {
                    proof {
                        assert(here[1] == b[index + 1]);
                        assert(front_unit(here) == (TextUnit::Char(jis), 2nat));
                        assert(here.skip(2) =~= b.skip(index + 2));
                        lemma_decode_nonempty(b.skip(index + 2));
                        let rest = decode(b.skip(index + 2));
                        let u = TextUnit::Char(jis);
                        assert(decode(here) == rest.update(0, seq![u] + rest[0]));
                        lemma_joined_push(done, current@, u, rest);
                    }
                    current.push(TextUnit::Char(jis));
                    index = index + 2;
                    continue;
                }
            }
            let unit = if byte >= 0x20 {
                TextUnit::Char(byte as u16)
            } else {
                TextUnit::Raw(byte)
            };
            proof {
                if here.len() >= 2 {
                    assert(here[1] == b[index + 1]);
                }
                assert(front_unit(here) == (unit, 1nat));
                assert(here.skip(1) =~= b.skip(index + 1));
                lemma_decode_nonempty(b.skip(index + 1));
                let rest = decode(b.skip(index + 1));
                assert(decode(here) == rest.update(0, seq![unit] + rest[0]));
                lemma_joined_push(done, current@, unit, rest);
            }
            current.push(unit);
            index = index + 1;
        }
        let ghost done = lines@.map_values(|l: Line| l.units@);
        assert(b.skip(index as int) =~= Seq::<u8>::empty());
        assert(decode(b.skip(index as int)) =~= seq![Seq::<TextUnit>::empty()]);
        lines.push(Line { units: current });
        let r = TextBuffer {
            path,
            lines,
            cursor_line: 0,
            cursor_index: 0,
            viewport_top: 0,
            horizontal_scroll: 0,
            insert_mode: true,
            modified: false,
            read_only,
            pending_lead: None,
        };
        assert(r@.text =~= decode(b));
        r
    }

    /// The file bytes of the buffer: the lines joined by CR LF.
    pub fn encode(&self) -> (r: Vec<u8>)
        ensures
            r@ == lines_bytes(self@.text),
    {
        let ghost t = self@.text;
        let mut bytes: Vec<u8> = Vec::new();
        let mut i: usize = 0;
        assert(lines_bytes(t.take(0)) =~= Seq::<u8>::empty());
        while i < self.lines.len()
            invariant
                t == self@.text,
                i <= t.len(),
                bytes@ == lines_bytes(t.take(i as int)) + (if 0 < i < t.len() {
                    crlf()
                } else {
                    Seq::empty()
                }),
            decreases t.len() - i,
        {
            let units = &self.lines[i].units;
            let ghost start = bytes@;
            assert(units@ == t[i as int]);
            let mut j: usize = 0;
            assert(units_bytes(units@.take(0)) =~= Seq::<u8>::empty());
            while j < units.len()
                invariant
                    j <= units@.len(),
                    bytes@ == start + units_bytes(units@.take(j as int)),
                decreases units@.len() - j,
            {
                proof {
                    lemma_units_bytes_step(units@, j as int);
                }
                units[j].write_encoded_bytes(&mut bytes);
                j = j + 1;
                assert(bytes@ =~= start + units_bytes(units@.take(j as int)));
            }
            proof {
                assert(units@.take(j as int) =~= units@);
                lemma_lines_bytes_step(t, i as int);
            }
            if i + 1 < self.lines.len() {
                bytes.push(0x0D);
                bytes.push(0x0A);
            }
            i = i + 1;
            assert(bytes@ =~= lines_bytes(t.take(i as int)) + (if 0 < i < t.len() {
                crlf()
            } else {
                Seq::empty()
            }));
        }
        assert(t.take(i as int) =~= t);
        assert(bytes@ =~= lines_bytes(t));
        bytes
    }
}

} // verus!

verus! {

/// The bytes of a unit followed by more units.
proof fn lemma_units_bytes_front(u: TextUnit, s: Seq<TextUnit>)
    ensures
        units_bytes(seq![u] + s) == unit_bytes(u) + units_bytes(s),
    decreases s.len(),
{
    if s.len() == 0 {
        assert(seq![u] + s =~= seq![u]);
        assert(seq![u].drop_last() =~= Seq::<TextUnit>::empty());
        assert(seq![u].last() == u);
        assert(units_bytes(Seq::<TextUnit>::empty()) =~= Seq::<u8>::empty());
        assert(units_bytes(seq![u]) == units_bytes(Seq::<TextUnit>::empty()) + unit_bytes(u));
        assert(units_bytes(seq![u]) =~= unit_bytes(u));
        assert(unit_bytes(u) + units_bytes(s) =~= unit_bytes(u));
    } else {
        lemma_units_bytes_front(u, s.drop_last());
        assert((seq![u] + s).drop_last() =~= seq![u] + s.drop_last());
        assert(units_bytes(seq![u] + s) =~= unit_bytes(u) + units_bytes(s));
    }
}

/// The bytes of a line followed by more lines.
proof fn lemma_lines_bytes_front(l0: Seq<TextUnit>, rest: Seq<Seq<TextUnit>>)
    ensures
        lines_bytes(seq![l0] + rest) == units_bytes(l0) + (if rest.len() > 0 {
            crlf() + lines_bytes(rest)
        } else {
            Seq::empty()
        }),
    decreases rest.len(),
{
    let t = seq![l0] + rest;
    if rest.len() == 0 {
        assert(t =~= seq![l0]);
        assert(units_bytes(l0) + Seq::<u8>::empty() =~= units_bytes(l0));
    } else {
        assert(t.drop_last() =~= seq![l0] + rest.drop_last());
        lemma_lines_bytes_front(l0, rest.drop_last());
        if rest.len() == 1 {
            assert(rest.drop_last() =~= Seq::<Seq<TextUnit>>::empty());
            assert(lines_bytes(rest) == units_bytes(rest[0]));
        }
        assert(lines_bytes(t) =~= units_bytes(l0) + (crlf() + lines_bytes(rest)));
    }
}

/// The Shift-JIS bytes of a unit read from the front of a file are the
/// bytes it was read from, and the bytes of the first line-end-free part
/// of the file follow the same way.
proof fn lemma_front_unit_bytes(b: Seq<u8>)
    requires
        b.len() > 0,
        b[0] != 0x0D,
        b[0] != 0x0A,
    ensures
        front_unit(b).1 <= b.len(),
        unit_bytes(front_unit(b).0) + crlf_normalized(b.skip(front_unit(b).1 as int))
            == crlf_normalized(b),
{
    let (u, n) = front_unit(b);
    if n == 2 {
        lemma_jis_round_trip(b[0], b[1]);
        assert(unit_bytes(u) == seq![b[0], b[1]]);
        assert(b.skip(1)[0] == b[1]);
        assert(b.skip(1).skip(1) =~= b.skip(2));
        assert(crlf_normalized(b.skip(1)) == seq![b[1]] + crlf_normalized(b.skip(2)));
        assert(seq![b[0], b[1]] + crlf_normalized(b.skip(2)) =~= seq![b[0]] + (seq![b[1]]
            + crlf_normalized(b.skip(2))));
    } else {
        assert(unit_bytes(u) =~= seq![b[0]]);
    }
}

/// The line-end step of `lemma_encode_decode`.
proof fn lemma_encode_decode_break(b: Seq<u8>, n: int)
    requires
        b.len() > 0,
        b[0] == 0x0D || b[0] == 0x0A,
        n == (if b[0] == 0x0D && b.len() >= 2 && b[1] == 0x0A {
            2int
        } else {
            1int
        }),
        lines_bytes(decode(b.skip(n))) == crlf_normalized(b.skip(n)),
    ensures
        lines_bytes(decode(b)) == crlf_normalized(b),
{
    let rest = decode(b.skip(n));
    lemma_decode_nonempty(b.skip(n));
    assert(decode(b) == seq![Seq::<TextUnit>::empty()] + rest);
    assert(crlf_normalized(b) == crlf() + crlf_normalized(b.skip(n)));
    lemma_lines_bytes_front(Seq::empty(), rest);
    assert(units_bytes(Seq::<TextUnit>::empty()) =~= Seq::<u8>::empty());
    assert(Seq::<u8>::empty() + (crlf() + lines_bytes(rest)) =~= crlf() + lines_bytes(rest));
}

/// The unit step of `lemma_encode_decode`.
#[verifier::spinoff_prover]
proof fn lemma_encode_decode_unit(b: Seq<u8>)
    requires
        b.len() > 0,
        b[0] != 0x0D,
        b[0] != 0x0A,
        lines_bytes(decode(b.skip(front_unit(b).1 as int))) == crlf_normalized(
            b.skip(front_unit(b).1 as int),
        ),
    ensures
        lines_bytes(decode(b)) == crlf_normalized(b),
{
    let (u, n) = front_unit(b);
    lemma_front_unit_bytes(b);
    let rest = decode(b.skip(n as int));
    lemma_decode_nonempty(b.skip(n as int));
    assert(decode(b) == rest.update(0, seq![u] + rest[0]));
    assert(rest =~= seq![rest[0]] + rest.skip(1));
    assert(rest.update(0, seq![u] + rest[0]) =~= seq![seq![u] + rest[0]] + rest.skip(1));
    lemma_lines_bytes_front(rest[0], rest.skip(1));
    lemma_lines_bytes_front(seq![u] + rest[0], rest.skip(1));
    lemma_units_bytes_front(u, rest[0]);
    let tail: Seq<u8> = if rest.skip(1).len() > 0 {
        crlf() + lines_bytes(rest.skip(1))
    } else {
        Seq::empty()
    };
    assert(lines_bytes(decode(b)) =~= unit_bytes(u) + (units_bytes(rest[0]) + tail));
    assert(lines_bytes(rest) == units_bytes(rest[0]) + tail);
}

/// Writing a file read into a buffer gives back its bytes, with every line
/// end written as CR LF.
pub proof fn lemma_encode_decode(b: Seq<u8>)
    ensures
        lines_bytes(decode(b)) == crlf_normalized(b),
    decreases b.len(),
{
    if b.len() == 0 {
        assert(lines_bytes(seq![Seq::<TextUnit>::empty()]) == units_bytes(Seq::<TextUnit>::empty()));
        assert(lines_bytes(decode(b)) =~= crlf_normalized(b));
    } else if b[0] == 0x0D || b[0] == 0x0A {
        let n: int = if b[0] == 0x0D && b.len() >= 2 && b[1] == 0x0A {
            2
        } else {
            1
        };
        lemma_encode_decode(b.skip(n));
        lemma_encode_decode_break(b, n);
    } else {
        lemma_front_unit_bytes(b);
        lemma_encode_decode(b.skip(front_unit(b).1 as int));
        lemma_encode_decode_unit(b);
    }
}

/// Splitting a line and then pressing backspace restores the text and
/// the cursor.
pub proof fn lemma_split_then_backspace(v: BufferView)
    requires
        v.wf(),
        !v.read_only,
        v.pending is None,
    ensures
        v.split().backspaced().text == v.text,
        v.split().backspaced().line == v.line,
        v.split().backspaced().index == v.index,
{
    let l = v.line as int;
    let i = v.index as int;
    let w = v.split();
    assert(v.flushed() == v);
    let t1 = v.text.update(l, v.text[l].take(i)).insert(l + 1, v.text[l].skip(i));
    assert(w.text == t1);
    assert(w.flushed() == w);
    assert(t1[l] == v.text[l].take(i));
    assert(t1[l + 1] == v.text[l].skip(i));
    assert(t1[l] + t1[l + 1] =~= v.text[l]);
    let t2 = t1.update(l, t1[l] + t1[l + 1]).remove(l + 1);
    assert(t2 =~= v.text);
}

/// Typing a unit in insert mode and then pressing backspace restores the
/// text and the cursor.
pub proof fn lemma_insert_then_backspace(v: BufferView, u: TextUnit)
    requires
        v.wf(),
        !v.read_only,
        v.insert_mode,
        v.pending is None,
    ensures
        v.with_unit(u).backspaced().text == v.text,
        v.with_unit(u).backspaced().line == v.line,
        v.with_unit(u).backspaced().index == v.index,
{
    let l = v.line as int;
    let i = v.index as int;
    let w = v.with_unit(u);
    assert(w.flushed() == w);
    assert(w.text[l] == v.text[l].insert(i, u));
    assert(w.text[l].remove(i) =~= v.text[l]);
    assert(w.text.update(l, w.text[l].remove(i)) =~= v.text);
}

/// Moving right and then left returns the cursor to where it was, unless
/// it stood at the very end of the text.
pub proof fn lemma_right_then_left(v: BufferView)
    requires
        v.wf(),
        !(v.line + 1 == v.text.len() && v.index == v.text[v.line as int].len()),
    ensures
        v.moved_right().moved_left().line == v.line,
        v.moved_right().moved_left().index == v.index,
{
}

/// Typing the two bytes of a Shift-JIS character types that character.
pub proof fn lemma_typed_pair(v: BufferView, lead: u8, trail: u8)
    requires
        v.pending is None,
        sjis_to_jis(lead, trail) is Some,
    ensures
        v.typed(lead).typed(trail) == v.with_unit(TextUnit::Char(sjis_to_jis(lead, trail).unwrap())),
{
    let w = v.typed(lead);
    assert(w == BufferView { pending: Some(lead), ..v });
    assert(w.without_pending() == v);
}

} // verus!
