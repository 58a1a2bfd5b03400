//! The current directory structure (CDS): one entry per drive in guest
//! memory, holding the drive's current path (NUL-terminated, at most 67
//! bytes) and a flags word that is nonzero for a drive in use.

use vstd::prelude::*;
use crate::memory::{MemoryAccess, Image, image, word_of};

verus! {

/// The longest current path an entry holds.
pub const CDS_PATH_MAX: u32 = 67;

/// Where the CDS lies: its first entry, the size of an entry, and where the
/// path and the flags word stand in an entry.
#[derive(Clone, Copy, Debug, PartialEq, Eq)]
pub struct CdsLayout {
    pub base: u32,
    pub entry_size: u32,
    pub path_offset: u32,
    pub flags_offset: u32,
}

/// The 26 entries, with their paths and flags, lie within the address space.
pub open spec fn layout_fits(l: CdsLayout) -> bool {
    &&& l.base + 25 * l.entry_size + l.path_offset + CDS_PATH_MAX <= u32::MAX
    &&& l.base + 25 * l.entry_size + l.flags_offset + 2 <= u32::MAX
}

/// The address of a drive's entry.
pub open spec fn entry_addr(l: CdsLayout, drive: u8) -> int {
    l.base + drive * l.entry_size
}

/// The bytes from `addr` up to the first NUL, at most `max` of them.
pub open spec fn asciiz(f: Image, addr: int, max: nat) -> Seq<u8>
    decreases max,
{
    if max == 0 || f(addr as u32) == 0 {
        Seq::empty()
    } else {
        seq![f(addr as u32)] + asciiz(f, addr + 1, (max - 1) as nat)
    }
}

/// Such a string holds at most `max` bytes.
pub proof fn lemma_asciiz_len(f: Image, addr: int, max: nat)
    ensures
        asciiz(f, addr, max).len() <= max,
    decreases max,
{
    if max > 0 && f(addr as u32) != 0 {
        lemma_asciiz_len(f, addr + 1, (max - 1) as nat);
    }
}

/// A drive's current path as its entry holds it.
pub open spec fn cds_path_of(f: Image, l: CdsLayout, drive: u8) -> Seq<u8> {
    asciiz(f, entry_addr(l, drive) + l.path_offset, CDS_PATH_MAX as nat)
}

/// Offsets within the entries stay in range.
proof fn lemma_entry_bound(l: CdsLayout, drive: u8)
    requires
        layout_fits(l),
        drive < 26,
    ensures
        entry_addr(l, drive) + l.path_offset + CDS_PATH_MAX <= u32::MAX,
        entry_addr(l, drive) + l.flags_offset + 2 <= u32::MAX,
        entry_addr(l, drive) >= 0,
{
    assert(drive * l.entry_size <= 25 * l.entry_size) by (nonlinear_arith)
        requires
            drive <= 25,
    ;
    assert(drive * l.entry_size >= 0) by (nonlinear_arith);
}

/// Reads a drive's current path from its CDS entry.
pub fn cds_path<M: MemoryAccess>(memory: &M, layout: CdsLayout, drive: u8) -> (r: Vec<u8>)
    requires
        layout_fits(layout),
        drive < 26,
    ensures
        r@ == cds_path_of(image(memory), layout, drive),
{
    proof {
        lemma_entry_bound(layout, drive);
    }
    let start: u32 = layout.base + drive as u32 * layout.entry_size + layout.path_offset;
    let ghost f = image(memory);
    let mut path: Vec<u8> = Vec::new();
    let mut i: u32 = 0;
    while i < CDS_PATH_MAX
        invariant_except_break
            f == image(memory),
            start as int + CDS_PATH_MAX <= u32::MAX,
            i <= CDS_PATH_MAX,
            path@ + asciiz(f, start + i, (CDS_PATH_MAX - i) as nat) == asciiz(f, start as int, CDS_PATH_MAX as nat),
        ensures
            path@ == asciiz(f, start as int, CDS_PATH_MAX as nat),
        decreases CDS_PATH_MAX - i,
    {
        let byte = memory.read_byte(start + i);
        if byte == 0 {
            break;
        }
        let ghost before = path@;
        path.push(byte);
        assert(before + asciiz(f, start + i, (CDS_PATH_MAX - i) as nat) == path@ + asciiz(
            f,
            start + i + 1,
            (CDS_PATH_MAX - i - 1) as nat,
        ));
        i = i + 1;
    }
    path
}

/// The drives whose CDS flags word is nonzero, in order.
pub open spec fn drives_in_use(f: Image, l: CdsLayout, n: nat) -> Seq<u8>
    decreases n,
{
    if n == 0 {
        Seq::empty()
    } else {
        let d = (n - 1) as u8;
        let earlier = drives_in_use(f, l, (n - 1) as nat);
        if word_of(f, (entry_addr(l, d) + l.flags_offset) as u32) != 0 {
            earlier.push(d)
        } else {
            earlier
        }
    }
}

/// The drives a user can pick: those whose CDS entry is in use.
pub fn drive_choices<M: MemoryAccess>(memory: &M, layout: CdsLayout) -> (r: Vec<u8>)
    requires
        layout_fits(layout),
    ensures
        r@ == drives_in_use(image(memory), layout, 26),
{
    let mut drives: Vec<u8> = Vec::new();
    let mut d: u8 = 0;
    while d < 26
        invariant
            layout_fits(layout),
            d <= 26,
            drives@ == drives_in_use(image(memory), layout, d as nat),
        decreases 26 - d,
    {
        proof {
            lemma_entry_bound(layout, d);
        }
        let word = memory.read_word(layout.base + d as u32 * layout.entry_size + layout.flags_offset);
        proof {
            crate::memory::lemma_read_word(memory, (layout.base + d * layout.entry_size + layout.flags_offset) as u32, word);
        }
        if word != 0 {
            drives.push(d);
        }
        d = d + 1;
    }
    drives
}

/// A drive's current directory: its CDS path, or its root when the path
/// is empty.
pub open spec fn current_directory_of(f: Image, l: CdsLayout, drive: u8) -> Seq<u8> {
    let p = cds_path_of(f, l, drive);
    if p.len() == 0 {
        seq![(0x41 + drive) as u8, 0x3Au8, 0x5Cu8]
    } else {
        p
    }
}

/// A drive's current directory.
pub fn current_directory_path<M: MemoryAccess>(memory: &M, layout: CdsLayout, drive: u8) -> (r: Vec<u8>)
    requires
        layout_fits(layout),
        drive < 26,
    ensures
        r@ == current_directory_of(image(memory), layout, drive),
{
    let path = cds_path(memory, layout, drive);
    if path.len() == 0 {
        let r = vec![0x41 + drive, 0x3A, 0x5C];
        assert(r@ =~= seq![(0x41 + drive) as u8, 0x3Au8, 0x5Cu8]);
        r
    } else {
        path
    }
}

} // verus!
