//! The one-line byte input field of the editor's prompts and path box.

use vstd::prelude::*;
use crate::jis::{is_lead, is_shift_jis_lead_byte};

verus! {

/// Scan code of the Roll Up key.
pub const SCAN_ROLL_UP: u8 = 0x36;
/// Scan code of the Roll Down key.
pub const SCAN_ROLL_DOWN: u8 = 0x37;
/// Scan code of the Insert key.
pub const SCAN_INSERT: u8 = 0x38;
/// Scan code of the Delete key.
pub const SCAN_DELETE: u8 = 0x39;
/// Scan code of the Up key.
pub const SCAN_UP: u8 = 0x3A;
/// Scan code of the Left key.
pub const SCAN_LEFT: u8 = 0x3B;
/// Scan code of the Right key.
pub const SCAN_RIGHT: u8 = 0x3C;
/// Scan code of the Down key.
pub const SCAN_DOWN: u8 = 0x3D;
/// Scan code of the Home key.
pub const SCAN_HOME: u8 = 0x3E;
/// Scan code of the End key.
pub const SCAN_END: u8 = 0x3F;
/// Scan code of the F1 key.
pub const SCAN_F1: u8 = 0x62;
/// Scan code of the F2 key.
pub const SCAN_F2: u8 = 0x63;
/// Scan code of the F3 key.
pub const SCAN_F3: u8 = 0x64;
/// Scan code of the F4 key.
pub const SCAN_F4: u8 = 0x65;
/// Scan code of the F5 key.
pub const SCAN_F5: u8 = 0x66;
/// Scan code of the F6 key.
pub const SCAN_F6: u8 = 0x67;
/// Scan code of the F7 key.
pub const SCAN_F7: u8 = 0x68;

/// A byte that a text field takes as input: a printable byte or a
/// Shift-JIS lead byte.
pub open spec fn is_text_input(b: u8) -> bool {
    b >= 0x20 || is_lead(b)
}

pub fn is_text_input_byte(byte: u8) -> (r: bool)
    ensures
        r == is_text_input(byte),
{
    byte >= 0x20 || is_shift_jis_lead_byte(byte)
}

/// A line of input bytes with a cursor.
#[derive(Debug)]
pub struct ByteField {
    pub bytes: Vec<u8>,
    pub cursor: usize,
}

impl View for ByteField {
    type V = (Seq<u8>, nat);

    open spec fn view(&self) -> (Seq<u8>, nat) {
        (self.bytes@, self.cursor as nat)
    }
}

impl ByteField {
    /// The cursor stands within the bytes.
    pub open spec fn wf(&self) -> bool {
        self@.1 <= self@.0.len()
    }

    /// A field holding `bytes`, with the cursor at the end.
    pub fn new(bytes: Vec<u8>) -> (r: ByteField)
        ensures
            r@ == (bytes@, bytes@.len()),
    {
        let cursor = bytes.len();
        ByteField { bytes, cursor }
    }

    pub fn bytes(&self) -> (r: &[u8])
        ensures
            r@ == self@.0,
    {
        self.bytes.as_slice()
    }

    /// Replaces the bytes; the cursor moves to the end.
    pub fn set_bytes(&mut self, bytes: Vec<u8>)
        ensures
            final(self)@ == (bytes@, bytes@.len()),
    {
        self.bytes = bytes;
        self.cursor = self.bytes.len();
    }

    /// Inserts a byte at the cursor and moves the cursor past it.
    pub fn insert_byte(&mut self, byte: u8)
        requires
            old(self).wf(),
        ensures
            final(self)@ == (old(self)@.0.insert(old(self)@.1 as int, byte), old(self)@.1 + 1),
    {
        self.bytes.insert(self.cursor, byte);
        let len = self.bytes.len();
        assert(self.cursor < len);
        self.cursor += 1;
    }

    /// Removes the byte before the cursor.
    pub fn backspace(&mut self)
        requires
            old(self).wf(),
        ensures
            final(self)@ == (if old(self)@.1 > 0 {
                (old(self)@.0.remove(old(self)@.1 - 1), (old(self)@.1 - 1) as nat)
            } else {
                old(self)@
            }),
    {
        if self.cursor > 0 {
            self.cursor -= 1;
            self.bytes.remove(self.cursor);
        }
    }

    /// Removes the byte at the cursor.
    pub fn delete(&mut self)
        requires
            old(self).wf(),
        ensures
            final(self)@ == (if old(self)@.1 < old(self)@.0.len() {
                (old(self)@.0.remove(old(self)@.1 as int), old(self)@.1)
            } else {
                old(self)@
            }),
    {
        if self.cursor < self.bytes.len() {
            self.bytes.remove(self.cursor);
        }
    }

    pub fn move_left(&mut self)
        ensures
            final(self)@ == (old(self)@.0, if old(self)@.1 > 0 {
                (old(self)@.1 - 1) as nat
            } else {
                old(self)@.1
            }),
    {
        if self.cursor > 0 {
            self.cursor -= 1;
        }
    }

    pub fn move_right(&mut self)
        ensures
            final(self)@ == (old(self)@.0, if old(self)@.1 < old(self)@.0.len() {
                old(self)@.1 + 1
            } else {
                old(self)@.1
            }),
    {
        if self.cursor < self.bytes.len() {
            self.cursor += 1;
        }
    }

    pub fn move_home(&mut self)
        ensures
            final(self)@ == (old(self)@.0, 0nat),
    {
        self.cursor = 0;
    }

    pub fn move_end(&mut self)
        ensures
            final(self)@ == (old(self)@.0, old(self)@.0.len()),
    {
        self.cursor = self.bytes.len();
    }
}

/// Inserting a byte and then pressing backspace restores the field.
pub proof fn lemma_insert_then_backspace(v: (Seq<u8>, nat), byte: u8)
    requires
        v.1 <= v.0.len(),
    ensures
        v.0.insert(v.1 as int, byte).remove(v.1 as int) == v.0,
{
    assert(v.0.insert(v.1 as int, byte).remove(v.1 as int) =~= v.0);
}

} // verus!
