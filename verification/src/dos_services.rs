//! Pieces of the DOS services: the bytes a key gives the character input
//! functions (function keys expand to their programmed sequences), the
//! line editing of buffered input, and the drive parameter block derived
//! from a BIOS parameter block.

use vstd::prelude::*;
use crate::memory::{MemoryAccess, Image, image, poke, word_of};
use crate::file_io::{dword_of, read_dword};
use crate::commands::format::{BpbParams, hdd_boot, floppy_boot, le16, le32};

verus! {

/// Where a scan code's sequence lies in the function key map, and its
/// longest length: F1-F10 (62h-6Bh) in 16-byte slots from 0, the editing
/// keys (36h-3Fh) in 6-byte slots from 320.
pub open spec fn fnkey_slot(scan: u8) -> Option<(int, int)> {
    if 0x62 <= scan <= 0x6B {
        Some(((scan - 0x62) * 16, 15))
    } else if 0x36 <= scan <= 0x3F {
        Some((320 + (scan - 0x36) * 6, 5))
    } else {
        None
    }
}

/// A byte of the map, 0 past its end.
pub open spec fn map_byte(map: Seq<u8>, i: int) -> u8 {
    if 0 <= i < map.len() {
        map[i]
    } else {
        0
    }
}

/// The bytes of the map from `offset` up to the first NUL, at most `n`.
pub open spec fn map_string(map: Seq<u8>, offset: int, n: nat) -> Seq<u8>
    decreases n,
{
    if n == 0 || map_byte(map, offset) == 0 {
        Seq::empty()
    } else {
        seq![map_byte(map, offset)] + map_string(map, offset + 1, (n - 1) as nat)
    }
}

/// The sequence programmed for a function or editing key, or `None` for
/// another scan code.
pub open spec fn fnkey_sequence(map: Seq<u8>, scan: u8) -> Option<Seq<u8>> {
    match fnkey_slot(scan) {
        Some((offset, len)) => Some(map_string(map, offset, len as nat)),
        None => None,
    }
}

/// Looks up the sequence programmed for a key.
pub fn lookup_fnkey_sequence(map: &[u8], scan: u8) -> (r: Option<Vec<u8>>)
    ensures
        match r {
            Some(s) => fnkey_sequence(map@, scan) == Some(s@),
            None => fnkey_sequence(map@, scan) is None,
        },
{
    let (offset, max_len): (usize, usize) = if 0x62 <= scan && scan <= 0x6B {
        ((scan - 0x62) as usize * 16, 15)
    } else if 0x36 <= scan && scan <= 0x3F {
        (320 + (scan - 0x36) as usize * 6, 5)
    } else {
        return None;
    };
    let ghost target = map_string(map@, offset as int, max_len as nat);
    let mut seq: Vec<u8> = Vec::new();
    let mut i: usize = 0;
    while i < max_len
        invariant_except_break
            i <= max_len <= 15,
            offset <= 380,
            seq@ + map_string(map@, offset + i, (max_len - i) as nat) == target,
        ensures
            seq@ == target,
        decreases max_len - i,
    {
        let b: u8 = if offset + i < map.len() {
            map[offset + i]
        } else {
            0
        };
        if b == 0 {
            break;
        }
        let ghost before = seq@;
        seq.push(b);
        assert(before + map_string(map@, offset + i, (max_len - i) as nat) == seq@ + map_string(
            map@,
            offset + i + 1,
            (max_len - i - 1) as nat,
        ));
        i = i + 1;
    }
    Some(seq)
}

/// The bytes one key gives the character input functions: its character;
/// for an extended key (character 0), its programmed sequence, or 0 and
/// the scan code when it has none.
pub open spec fn key_bytes(map: Seq<u8>, scan: u8, ch: u8) -> Seq<u8> {
    if ch != 0 {
        seq![ch]
    } else {
        match fnkey_sequence(map, scan) {
            Some(s) => if s.len() > 0 {
                s
            } else {
                seq![0u8, scan]
            },
            None => seq![0u8, scan],
        }
    }
}

/// The bytes a key gives, the first of which the input function returns
/// at once while the rest wait their turn.
pub fn expand_key(map: &[u8], scan: u8, ch: u8) -> (r: Vec<u8>)
    ensures
        r@ == key_bytes(map@, scan, ch),
        r@.len() >= 1,
{
    if ch != 0 {
        return vec![ch];
    }
    match lookup_fnkey_sequence(map, scan) {
        Some(s) => {
            if s.len() > 0 {
                s
            } else {
                vec![0, scan]
            }
        },
        None => vec![0, scan],
    }
}

/// A buffered line being typed: the buffer (byte 0 its capacity, byte 1
/// the count, the text from byte 2), its capacity, and the typed length.
#[derive(Clone, Copy, Debug, PartialEq, Eq)]
pub struct BufferedInput {
    pub buffer_addr: u32,
    pub max_chars: u8,
    pub current_pos: u8,
}

/// The buffer lies within the address space, and the typed length stays
/// below the capacity.
pub open spec fn input_wf(b: BufferedInput) -> bool {
    &&& b.buffer_addr + 2 + 255 <= u32::MAX
    &&& b.current_pos < b.max_chars
}

/// Starts a buffered line on the buffer at `buffer_addr`; none when its
/// capacity byte is 0.
pub fn buffered_input_start<M: MemoryAccess>(memory: &M, buffer_addr: u32) -> (r: Option<BufferedInput>)
    requires
        buffer_addr + 2 + 255 <= u32::MAX,
    ensures
        image(memory)(buffer_addr) == 0 ==> r is None,
        image(memory)(buffer_addr) != 0 ==> r == Some(
            BufferedInput { buffer_addr, max_chars: image(memory)(buffer_addr), current_pos: 0 },
        ),
        r matches Some(b) ==> input_wf(b),
{
    let max_chars = memory.read_byte(buffer_addr);
    if max_chars == 0 {
        None
    } else {
        Some(BufferedInput { buffer_addr, max_chars, current_pos: 0 })
    }
}

/// The buffer, the line and the echo after a key: Enter stores the count
/// and a CR and ends the line (echo CR LF); Backspace takes the last byte
/// back (echo BS, space, BS); another byte is stored and echoed while there
/// is room (one byte is kept for the CR).
pub open spec fn input_key(f: Image, b: BufferedInput, ch: u8) -> (Image, Option<BufferedInput>, Seq<u8>) {
    if ch == 0x0D {
        (
            poke(poke(f, (b.buffer_addr + 1) as u32, b.current_pos), (b.buffer_addr + 2 + b.current_pos) as u32, 0x0D),
            None,
            seq![0x0Du8, 0x0Au8],
        )
    } else if ch == 0x08 {
        if b.current_pos > 0 {
            (f, Some(BufferedInput { current_pos: (b.current_pos - 1) as u8, ..b }), seq![0x08u8, 0x20u8, 0x08u8])
        } else {
            (f, Some(b), Seq::empty())
        }
    } else if b.current_pos + 1 < b.max_chars {
        (
            poke(f, (b.buffer_addr + 2 + b.current_pos) as u32, ch),
            Some(BufferedInput { current_pos: (b.current_pos + 1) as u8, ..b }),
            seq![ch],
        )
    } else {
        (f, Some(b), Seq::empty())
    }
}

/// Takes one key of a buffered line; gives the line (none when it ended)
/// and the bytes to echo.
pub fn buffered_input_key<M: MemoryAccess>(memory: &mut M, input: BufferedInput, ch: u8) -> (r: (Option<BufferedInput>, Vec<u8>))
    requires
        input_wf(input),
    ensures
        input_key(image(old(memory)), input, ch) == (image(final(memory)), r.0, r.1@),
        r.0 matches Some(b) ==> input_wf(b),
{
    let addr = input.buffer_addr;
    let pos = input.current_pos;
    if ch == 0x0D {
        memory.write_byte(addr + 1, pos);
        memory.write_byte(addr + 2 + pos as u32, 0x0D);
        (None, vec![0x0D, 0x0A])
    } else if ch == 0x08 {
        if pos > 0 {
            (Some(BufferedInput { current_pos: pos - 1, ..input }), vec![0x08, 0x20, 0x08])
        } else {
            (Some(input), Vec::new())
        }
    } else if pos + 1 < input.max_chars {
        memory.write_byte(addr + 2 + pos as u32, ch);
        (Some(BufferedInput { current_pos: pos + 1, ..input }), vec![ch])
    } else {
        (Some(input), Vec::new())
    }
}

/// The fields of a BIOS parameter block that a drive parameter block is
/// built from.
#[derive(Clone, Copy, Debug, PartialEq, Eq)]
pub struct BpbFields {
    pub bytes_per_sector: u16,
    pub sectors_per_cluster: u8,
    pub reserved_sectors: u16,
    pub num_fats: u8,
    pub root_entries: u16,
    pub total_sectors_16: u16,
    pub media_descriptor: u8,
    pub sectors_per_fat: u16,
    pub total_sectors_32: u32,
}

/// The BPB fields stored at `addr`.
pub open spec fn bpb_at(f: Image, addr: u32) -> BpbFields {
    BpbFields {
        bytes_per_sector: word_of(f, addr),
        sectors_per_cluster: f((addr + 0x02) as u32),
        reserved_sectors: word_of(f, (addr + 0x03) as u32),
        num_fats: f((addr + 0x05) as u32),
        root_entries: word_of(f, (addr + 0x06) as u32),
        total_sectors_16: word_of(f, (addr + 0x08) as u32),
        media_descriptor: f((addr + 0x0A) as u32),
        sectors_per_fat: word_of(f, (addr + 0x0B) as u32),
        total_sectors_32: dword_of(f, (addr + 0x15) as u32),
    }
}

/// Reads the BPB stored at `addr`.
pub fn read_bpb<M: MemoryAccess>(memory: &M, addr: u32) -> (r: BpbFields)
    requires
        addr + 0x19 <= u32::MAX,
    ensures
        r == bpb_at(image(memory), addr),
{
    let bytes_per_sector = memory.read_word(addr);
    let reserved_sectors = memory.read_word(addr + 0x03);
    let root_entries = memory.read_word(addr + 0x06);
    let total_sectors_16 = memory.read_word(addr + 0x08);
    let sectors_per_fat = memory.read_word(addr + 0x0B);
    proof {
        crate::memory::lemma_read_word(memory, addr, bytes_per_sector);
        crate::memory::lemma_read_word(memory, (addr + 0x03) as u32, reserved_sectors);
        crate::memory::lemma_read_word(memory, (addr + 0x06) as u32, root_entries);
        crate::memory::lemma_read_word(memory, (addr + 0x08) as u32, total_sectors_16);
        crate::memory::lemma_read_word(memory, (addr + 0x0B) as u32, sectors_per_fat);
    }
    BpbFields {
        bytes_per_sector,
        sectors_per_cluster: memory.read_byte(addr + 0x02),
        reserved_sectors,
        num_fats: memory.read_byte(addr + 0x05),
        root_entries,
        total_sectors_16,
        media_descriptor: memory.read_byte(addr + 0x0A),
        sectors_per_fat,
        total_sectors_32: read_dword(memory, addr + 0x15),
    }
}

/// The fields of a drive parameter block that a BPB determines.
#[derive(Clone, Copy, Debug, PartialEq, Eq)]
pub struct DpbFields {
    pub bytes_per_sector: u16,
    pub cluster_mask: u8,
    pub cluster_shift: u8,
    pub reserved_sectors: u16,
    pub num_fats: u8,
    pub root_entries: u16,
    pub first_data_sector: u16,
    pub max_cluster: u16,
    pub sectors_per_fat: u16,
    pub first_root_sector: u16,
    pub media_descriptor: u8,
}

/// The total sectors: the 16-bit count, or the 32-bit one when that is 0.
pub open spec fn total_sectors(b: BpbFields) -> u32 {
    if b.total_sectors_16 != 0 {
        b.total_sectors_16 as u32
    } else {
        b.total_sectors_32
    }
}

/// A value clipped to 16 bits.
pub open spec fn clip16(x: int) -> u16 {
    if x > 0xFFFF {
        0xFFFF
    } else {
        x as u16
    }
}

/// The power of two that `x` is.
pub open spec fn is_power_of_two(x: u8) -> bool {
    exists|k: nat| k < 8 && x == vstd::arithmetic::power2::pow2(k)
}

/// The DPB a BPB gives, or `None` when the BPB is unusable (no bytes per
/// sector, sectors per cluster not a power of two, no FATs, no FAT
/// sectors, or no sectors). The cluster shift is the power of two of the
/// sectors per cluster; the first data sector and the last cluster number
/// are clipped to 16 bits.
pub open spec fn dpb_of(b: BpbFields) -> Option<DpbFields> {
    let total = total_sectors(b);
    if b.bytes_per_sector == 0 || !is_power_of_two(b.sectors_per_cluster) || b.num_fats == 0
        || b.sectors_per_fat == 0 || total == 0 {
        None
    } else {
        let first_root = b.reserved_sectors + b.num_fats * b.sectors_per_fat;
        let root_sectors = (b.root_entries * 32 + b.bytes_per_sector - 1) / (b.bytes_per_sector as int);
        let first_data = first_root + root_sectors;
        let data = if total >= first_data {
            total - first_data
        } else {
            0
        };
        let shift = choose|k: nat| k < 8 && b.sectors_per_cluster == vstd::arithmetic::power2::pow2(k);
        Some(
            DpbFields {
                bytes_per_sector: b.bytes_per_sector,
                cluster_mask: (b.sectors_per_cluster - 1) as u8,
                cluster_shift: shift as u8,
                reserved_sectors: b.reserved_sectors,
                num_fats: b.num_fats,
                root_entries: b.root_entries,
                first_data_sector: clip16(first_data),
                max_cluster: clip16(data / (b.sectors_per_cluster as int) + 1),
                sectors_per_fat: b.sectors_per_fat,
                first_root_sector: clip16(first_root),
                media_descriptor: b.media_descriptor,
            },
        )
    }
}

/// The power of two of a nonzero byte, if it is one.
fn power_of_two_shift(x: u8) -> (r: Option<u8>)
    ensures
        match r {
            Some(k) => k < 8 && x == vstd::arithmetic::power2::pow2(k as nat),
            None => !is_power_of_two(x),
        },
{
    let mut k: u8 = 0;
    let mut p: u16 = 1;
    proof {
        vstd::arithmetic::power2::lemma2_to64();
    }
    while k < 8
        invariant
            k <= 8,
            p == vstd::arithmetic::power2::pow2(k as nat),
            vstd::arithmetic::power2::pow2(7) == 128,
            forall|j: nat| j < k ==> x != vstd::arithmetic::power2::pow2(j),
        decreases 8 - k,
    {
        if p == x as u16 {
            return Some(k);
        }
        proof {
            vstd::arithmetic::power2::lemma_pow2_unfold((k + 1) as nat);
            if k < 7 {
                vstd::arithmetic::power2::lemma_pow2_strictly_increases(k as nat, 7);
            }
        }
        p = p * 2;
        k = k + 1;
    }
    assert(!is_power_of_two(x));
    None
}

/// Builds the DPB that a BPB gives.
pub fn dpb_from_bpb(b: &BpbFields) -> (r: Option<DpbFields>)
    ensures
        r == dpb_of(*b),
{
    let total: u32 = if b.total_sectors_16 != 0 {
        b.total_sectors_16 as u32
    } else {
        b.total_sectors_32
    };
    let shift = power_of_two_shift(b.sectors_per_cluster);
    if b.bytes_per_sector == 0 || shift.is_none() || b.num_fats == 0 || b.sectors_per_fat == 0
        || total == 0 {
        return None;
    }
    let shift = shift.unwrap();
    proof {
        vstd::arithmetic::power2::lemma_pow2_pos(shift as nat);
    }
    assert(b.num_fats as u32 * b.sectors_per_fat as u32 <= 255 * 65535) by (nonlinear_arith)
        requires
            b.num_fats <= 255,
            b.sectors_per_fat <= 65535,
    ;
    let first_root: u32 = b.reserved_sectors as u32 + b.num_fats as u32 * b.sectors_per_fat as u32;
    let root_sectors: u32 = (b.root_entries as u32 * 32 + b.bytes_per_sector as u32 - 1)
        / b.bytes_per_sector as u32;
    assert(root_sectors <= 65535 * 32 + 65535);
    let first_data: u32 = first_root + root_sectors;
    let data: u32 = total.saturating_sub(first_data);
    let clusters: u32 = data / b.sectors_per_cluster as u32;
    assert(first_data >= 1) by (nonlinear_arith)
        requires
            first_data == first_root + root_sectors,
            first_root == b.reserved_sectors + b.num_fats * b.sectors_per_fat,
            b.num_fats >= 1,
            b.sectors_per_fat >= 1,
    ;
    assert(data <= u32::MAX - 1);
    assert(clusters <= data) by (nonlinear_arith)
        requires
            clusters == data / (b.sectors_per_cluster as u32),
            b.sectors_per_cluster >= 1,
    ;
    let max_cluster = clusters + 1;
    let clip = |x: u32| -> (c: u16)
        ensures
            c == clip16(x as int),
        {
            if x > 0xFFFF {
                0xFFFF
            } else {
                x as u16
            }
        };
    proof {
        let k = choose|k: nat| k < 8 && b.sectors_per_cluster == vstd::arithmetic::power2::pow2(k);
        if k != shift {
            if k < shift {
                vstd::arithmetic::power2::lemma_pow2_strictly_increases(k, shift as nat);
            } else {
                vstd::arithmetic::power2::lemma_pow2_strictly_increases(shift as nat, k);
            }
        }
    }
    Some(DpbFields {
        bytes_per_sector: b.bytes_per_sector,
        cluster_mask: b.sectors_per_cluster - 1,
        cluster_shift: shift,
        reserved_sectors: b.reserved_sectors,
        num_fats: b.num_fats,
        root_entries: b.root_entries,
        first_data_sector: clip(first_data),
        max_cluster: clip(max_cluster),
        sectors_per_fat: b.sectors_per_fat,
        first_root_sector: clip(first_root),
        media_descriptor: b.media_descriptor,
    })
}

/// The BPB fields that a boot sector's parameters give.
pub open spec fn bpb_of_params(bpb: BpbParams, total16: u16, total32: u32) -> BpbFields {
    BpbFields {
        bytes_per_sector: bpb.bytes_per_sector,
        sectors_per_cluster: bpb.sectors_per_cluster,
        reserved_sectors: bpb.reserved_sectors,
        num_fats: bpb.num_fats,
        root_entries: bpb.root_entry_count,
        total_sectors_16: total16,
        media_descriptor: bpb.media_descriptor,
        sectors_per_fat: bpb.sectors_per_fat,
        total_sectors_32: total32,
    }
}

/// Memory that holds `bytes` from `base` on.
pub open spec fn holds_at(f: Image, base: u32, bytes: Seq<u8>) -> bool {
    forall|i: int| 0 <= i < bytes.len() ==> #[trigger] f((base + i) as u32) == bytes[i]
}

proof fn lemma_word_of_le16(f: Image, a: u32, v: u16)
    requires
        a < u32::MAX,
        f(a) == le16(v)[0],
        f((a + 1) as u32) == le16(v)[1],
    ensures
        word_of(f, a) == v,
{
    let lo = (v & 0xFF) as u8;
    let hi = (v >> 8u16) as u8;
    assert((lo as u16 | ((hi as u16) << 8u16)) as u16 == v) by (bit_vector)
        requires
            lo == (v & 0xFF) as u8,
            hi == (v >> 8u16) as u8;
}

proof fn lemma_dword_of_le32(f: Image, a: u32, v: u32)
    requires
        a + 3 <= u32::MAX,
        f(a) == le32(v)[0],
        f((a + 1) as u32) == le32(v)[1],
        f((a + 2) as u32) == le32(v)[2],
        f((a + 3) as u32) == le32(v)[3],
    ensures
        dword_of(f, a) == v,
{
    let b0 = (v & 0xFF) as u8;
    let b1 = ((v >> 8u32) & 0xFF) as u8;
    let b2 = ((v >> 16u32) & 0xFF) as u8;
    let b3 = (v >> 24u32) as u8;
    let lo = (b0 as u16 | ((b1 as u16) << 8u16)) as u16;
    let hi = (b2 as u16 | ((b3 as u16) << 8u16)) as u16;
    assert(word_of(f, a) == lo);
    assert(word_of(f, (a + 2) as u32) == hi);
    assert((lo as u32 | ((hi as u32) << 16u32)) as u32 == v) by (bit_vector)
        requires
            b0 == (v & 0xFF) as u8,
            b1 == ((v >> 8u32) & 0xFF) as u8,
            b2 == ((v >> 16u32) & 0xFF) as u8,
            b3 == (v >> 24u32) as u8,
            lo == (b0 as u16 | ((b1 as u16) << 8u16)) as u16,
            hi == (b2 as u16 | ((b3 as u16) << 8u16)) as u16;
}

/// The BPB at offset 11 of a boot sector whose bytes 11 to 35 are `fields`.
proof fn lemma_bpb_of_sector(f: Image, base: u32, sector: Seq<u8>, bpb: BpbParams, total16: u16, total32: u32)
    requires
        base + 36 <= u32::MAX,
        sector.len() >= 36,
        holds_at(f, base, sector),
        sector.subrange(11, 13) == le16(bpb.bytes_per_sector),
        sector[13] == bpb.sectors_per_cluster,
        sector.subrange(14, 16) == le16(bpb.reserved_sectors),
        sector[16] == bpb.num_fats,
        sector.subrange(17, 19) == le16(bpb.root_entry_count),
        sector.subrange(19, 21) == le16(total16),
        sector[21] == bpb.media_descriptor,
        sector.subrange(22, 24) == le16(bpb.sectors_per_fat),
        sector.subrange(32, 36) == le32(total32),
    ensures
        bpb_at(f, (base + 11) as u32) == bpb_of_params(bpb, total16, total32),
{
    let a = (base + 11) as u32;
    assert forall|i: int| 0 <= i < 36 implies f((base + i) as u32) == #[trigger] sector[i] by {}
    assert(f(a) == sector[11] && f((a + 1) as u32) == sector[12]);
    assert(sector[11] == le16(bpb.bytes_per_sector)[0] && sector[12] == le16(bpb.bytes_per_sector)[1]) by {
        assert(sector.subrange(11, 13)[0] == sector[11]);
        assert(sector.subrange(11, 13)[1] == sector[12]);
    }
    lemma_word_of_le16(f, a, bpb.bytes_per_sector);
    assert(f((a + 2) as u32) == sector[13]);
    assert(f((a + 3) as u32) == sector[14] && f((a + 4) as u32) == sector[15]);
    assert(sector.subrange(14, 16)[0] == sector[14] && sector.subrange(14, 16)[1] == sector[15]);
    lemma_word_of_le16(f, (a + 3) as u32, bpb.reserved_sectors);
    assert(f((a + 5) as u32) == sector[16]);
    assert(f((a + 6) as u32) == sector[17] && f((a + 7) as u32) == sector[18]);
    assert(sector.subrange(17, 19)[0] == sector[17] && sector.subrange(17, 19)[1] == sector[18]);
    lemma_word_of_le16(f, (a + 6) as u32, bpb.root_entry_count);
    assert(f((a + 8) as u32) == sector[19] && f((a + 9) as u32) == sector[20]);
    assert(sector.subrange(19, 21)[0] == sector[19] && sector.subrange(19, 21)[1] == sector[20]);
    lemma_word_of_le16(f, (a + 8) as u32, total16);
    assert(f((a + 10) as u32) == sector[21]);
    assert(f((a + 11) as u32) == sector[22] && f((a + 12) as u32) == sector[23]);
    assert(sector.subrange(22, 24)[0] == sector[22] && sector.subrange(22, 24)[1] == sector[23]);
    lemma_word_of_le16(f, (a + 11) as u32, bpb.sectors_per_fat);
    assert(f((a + 21) as u32) == sector[32] && f((a + 22) as u32) == sector[33]);
    assert(f((a + 23) as u32) == sector[34] && f((a + 24) as u32) == sector[35]);
    let t = sector.subrange(32, 36);
    assert(t[0] == sector[32] && t[1] == sector[33] && t[2] == sector[34] && t[3] == sector[35]);
    lemma_dword_of_le32(f, (a + 21) as u32, total32);
}

/// What FORMAT writes, DOS reads back: with a hard disk boot sector in
/// memory at `base`, the BPB read at offset 11 is the one FORMAT used, and
/// the volume's sector count read from it is the partition's size.
pub proof fn lemma_hdd_boot_bpb_reads_back(
    f: Image,
    base: u32,
    sector_size: nat,
    partition_sectors: u32,
    bpb: BpbParams,
    sectors_per_track: u8,
    heads: u8,
    partition_offset: u32,
)
    requires
        36 <= sector_size,
        base + 36 <= u32::MAX,
        holds_at(f, base, hdd_boot(sector_size, partition_sectors, bpb, sectors_per_track, heads, partition_offset)),
    ensures
        bpb_at(f, (base + 11) as u32) == (if partition_sectors <= 0xFFFF {
            bpb_of_params(bpb, partition_sectors as u16, 0)
        } else {
            bpb_of_params(bpb, 0, partition_sectors)
        }),
        partition_sectors > 0 ==> total_sectors(bpb_at(f, (base + 11) as u32)) == partition_sectors,
{
    let s = hdd_boot(sector_size, partition_sectors, bpb, sectors_per_track, heads, partition_offset);
    let small = partition_sectors <= 0xFFFF;
    let t16: u16 = if small { partition_sectors as u16 } else { 0 };
    let t32: u32 = if small { 0 } else { partition_sectors };
    let tail = if small { seq![0u8, 0u8, 0u8, 0u8] } else { le32(partition_sectors) };
    assert(le32(0) =~= seq![0u8, 0u8, 0u8, 0u8]) by {
        assert((0u32 & 0xFF) as u8 == 0 && ((0u32 >> 8u32) & 0xFF) as u8 == 0
            && ((0u32 >> 16u32) & 0xFF) as u8 == 0 && (0u32 >> 24u32) as u8 == 0) by (bit_vector);
    }
    assert(crate::commands::format::zeros(4) =~= seq![0u8, 0u8, 0u8, 0u8]);
    assert(s.subrange(11, 13) =~= le16(bpb.bytes_per_sector));
    assert(s.subrange(14, 16) =~= le16(bpb.reserved_sectors));
    assert(s.subrange(17, 19) =~= le16(bpb.root_entry_count));
    assert(s.subrange(19, 21) =~= le16(t16));
    assert(s.subrange(22, 24) =~= le16(bpb.sectors_per_fat));
    assert(s.subrange(32, 36) =~= le32(t32));
    lemma_bpb_of_sector(f, base, s, bpb, t16, t32);
}

/// The same for a floppy: the 16-bit count holds the disk's size, capped at
/// FFFFh, and the 32-bit field reads as 0.
pub proof fn lemma_floppy_boot_bpb_reads_back(
    f: Image,
    base: u32,
    sector_size: nat,
    total: u32,
    bpb: BpbParams,
    sectors_per_track: u8,
    heads: u8,
)
    requires
        36 <= sector_size,
        base + 36 <= u32::MAX,
        holds_at(f, base, floppy_boot(sector_size, total, bpb, sectors_per_track, heads)),
    ensures
        bpb_at(f, (base + 11) as u32) == bpb_of_params(
            bpb,
            if total <= 0xFFFF { total as u16 } else { 0xFFFF },
            0,
        ),
        0 < total <= 0xFFFF ==> total_sectors(bpb_at(f, (base + 11) as u32)) == total,
{
    let s = floppy_boot(sector_size, total, bpb, sectors_per_track, heads);
    let t16: u16 = if total <= 0xFFFF { total as u16 } else { 0xFFFF };
    assert(le32(0) =~= seq![0u8, 0u8, 0u8, 0u8]) by {
        assert((0u32 & 0xFF) as u8 == 0 && ((0u32 >> 8u32) & 0xFF) as u8 == 0
            && ((0u32 >> 16u32) & 0xFF) as u8 == 0 && (0u32 >> 24u32) as u8 == 0) by (bit_vector);
    }
    assert(s.subrange(11, 13) =~= le16(bpb.bytes_per_sector));
    assert(s.subrange(14, 16) =~= le16(bpb.reserved_sectors));
    assert(s.subrange(17, 19) =~= le16(bpb.root_entry_count));
    assert(s.subrange(19, 21) =~= le16(t16));
    assert(s.subrange(22, 24) =~= le16(bpb.sectors_per_fat));
    assert(s.subrange(32, 36) =~= le32(0));
    lemma_bpb_of_sector(f, base, s, bpb, t16, 0);
}

} // verus!
