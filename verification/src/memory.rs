//! The guest memory as the DOS code sees it, and a sparse in-host memory.

use vstd::prelude::*;
use std::collections::HashMap;

verus! {

broadcast use vstd::std_specs::hash::group_hash_axioms;

/// The contents of the whole 32-bit address space, byte by byte.
pub type Image = spec_fn(u32) -> u8;

/// The image after one byte is stored.
pub open spec fn poke(f: Image, address: u32, value: u8) -> Image {
    |a: u32| if a == address { value } else { f(a) }
}

/// The little-endian word at `address`.
pub open spec fn word_of(f: Image, address: u32) -> u16 {
    (f(address) as u16 | ((f((address + 1) as u32) as u16) << 8u16)) as u16
}

/// The image after a little-endian word is stored.
pub open spec fn poke_word(f: Image, address: u32, value: u16) -> Image {
    poke(poke(f, address, (value & 0xFF) as u8), (address + 1) as u32, (value >> 8u16) as u8)
}

/// Byte-addressed guest memory. The emulator core implements it over the
/// guest's real memory; `SparseMemory` implements it in the host.
pub trait MemoryAccess {
    /// The byte stored at `address`.
    spec fn peek(&self, address: u32) -> u8;

    fn read_byte(&self, address: u32) -> (r: u8)
        ensures
            r == self.peek(address),
    ;

    fn write_byte(&mut self, address: u32, value: u8)
        ensures
            forall|a: u32| #[trigger]
                final(self).peek(a) == (if a == address {
                    value
                } else {
                    old(self).peek(a)
                }),
    ;

    fn read_word(&self, address: u32) -> (r: u16)
        requires
            address < u32::MAX,
        ensures
            r == (self.peek(address) as u16 | ((self.peek((address + 1) as u32) as u16) << 8u16)) as u16,
    ;

    fn write_block(&mut self, address: u32, data: &[u8])
        requires
            address + data@.len() <= u32::MAX,
        ensures
            forall|a: u32| #[trigger]
                final(self).peek(a) == (if address <= a < address + data@.len() {
                    data@[a - address]
                } else {
                    old(self).peek(a)
                }),
    ;

    fn write_word(&mut self, address: u32, value: u16)
        requires
            address < u32::MAX,
        ensures
            forall|a: u32| #[trigger]
                final(self).peek(a) == (if a == address {
                    (value & 0xFF) as u8
                } else if a == address + 1 {
                    (value >> 8u16) as u8
                } else {
                    old(self).peek(a)
                }),
    ;
}

/// Reading a word gives the word of the image.
pub proof fn lemma_read_word<M: MemoryAccess>(m: &M, address: u32, r: u16)
    requires
        address < u32::MAX,
        r == (m.peek(address) as u16 | ((m.peek((address + 1) as u32) as u16) << 8u16)) as u16,
    ensures
        r == word_of(image(m), address),
{
}

/// The image of a memory.
pub open spec fn image<M: MemoryAccess + ?Sized>(m: &M) -> Image {
    |a: u32| m.peek(a)
}

/// Guest memory held in the host: every byte never written reads as 0.
pub struct SparseMemory {
    bytes: HashMap<u32, u8>,
}

impl SparseMemory {
    /// An all-zero memory.
    pub fn new() -> (r: Self)
        ensures
            forall|a: u32| #[trigger] r.peek(a) == 0,
    {
        SparseMemory { bytes: HashMap::new() }
    }
}

impl MemoryAccess for SparseMemory {
    closed spec fn peek(&self, address: u32) -> u8 {
        if self.bytes@.contains_key(address) {
            self.bytes@[address]
        } else {
            0
        }
    }

    fn read_byte(&self, address: u32) -> (r: u8) {
        match self.bytes.get(&address) {
            Some(v) => *v,
            None => 0,
        }
    }

    fn write_byte(&mut self, address: u32, value: u8) {
        self.bytes.insert(address, value);
    }

    fn read_word(&self, address: u32) -> (r: u16) {
        let lo = self.read_byte(address) as u16;
        let hi = self.read_byte(address + 1) as u16;
        lo | (hi << 8)
    }

    fn write_block(&mut self, address: u32, data: &[u8]) {
        let mut i: usize = 0;
        while i < data.len()
            invariant
                i <= data@.len(),
                address + data@.len() <= u32::MAX,
                forall|a: u32| #[trigger]
                    self.peek(a) == (if address <= a < address + i {
                        data@[a - address]
                    } else {
                        old(self).peek(a)
                    }),
            decreases data.len() - i,
        {
            self.write_byte(address + i as u32, data[i]);
            i += 1;
        }
    }

    fn write_word(&mut self, address: u32, value: u16) {
        self.write_byte(address, (value & 0xFF) as u8);
        self.write_byte(address + 1, (value >> 8) as u8);
    }
}

} // verus!
