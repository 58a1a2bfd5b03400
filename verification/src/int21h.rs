//! INT 21h calls that work on the registers, the DOS state and guest
//! memory alone, and the carry flag in the interrupt's return frame that
//! reports their success or failure.

use vstd::prelude::*;
use vstd::string::StringSliceAdditionalSpecFns;
use crate::memory::{MemoryAccess, Image, image, poke, poke_word, word_of};
use crate::cds::{CdsLayout, layout_fits, cds_path_of, entry_addr, cds_path};
use crate::dos::root_len;
use crate::console::Console;
use crate::console_esc::{parser_wf, byte_step, byte_step_ok};

verus! {

/// A segment register, for forming linear addresses.
#[derive(Clone, Copy, Debug, PartialEq, Eq, Structural)]
pub enum SegmentRegister {
    ES,
    CS,
    SS,
    DS,
}

/// The registers that the DOS calls read and write.
pub struct Regs {
    pub ax: u16,
    pub bx: u16,
    pub cx: u16,
    pub dx: u16,
    pub si: u16,
    pub di: u16,
    pub ds: u16,
    pub es: u16,
}

/// The CPU as the DOS calls see it. The emulator core implements it over
/// the guest CPU; `CpuRegisters` implements it in the host.
pub trait CpuAccess {
    /// The register values.
    spec fn regs(&self) -> Regs;

    /// The linear address of `segment:offset`.
    spec fn linear(&self, segment: SegmentRegister, offset: u16) -> u32;

    /// Where the flags word of the interrupt's return frame lies.
    spec fn frame_flags(&self) -> u32;

    fn ax(&self) -> (r: u16)
        ensures
            r == self.regs().ax,
    ;

    fn bx(&self) -> (r: u16)
        ensures
            r == self.regs().bx,
    ;

    fn cx(&self) -> (r: u16)
        ensures
            r == self.regs().cx,
    ;

    fn dx(&self) -> (r: u16)
        ensures
            r == self.regs().dx,
    ;

    fn si(&self) -> (r: u16)
        ensures
            r == self.regs().si,
    ;

    fn ds(&self) -> (r: u16)
        ensures
            r == self.regs().ds,
    ;

    fn es(&self) -> (r: u16)
        ensures
            r == self.regs().es,
    ;

    fn set_ax(&mut self, value: u16)
        ensures
            final(self).regs() == (Regs { ax: value, ..old(self).regs() }),
            final(self).frame_flags() == old(self).frame_flags(),
            forall|s: SegmentRegister, o: u16| #[trigger] final(self).linear(s, o) == old(self).linear(s, o),
    ;

    fn set_bx(&mut self, value: u16)
        ensures
            final(self).regs() == (Regs { bx: value, ..old(self).regs() }),
            final(self).frame_flags() == old(self).frame_flags(),
            forall|s: SegmentRegister, o: u16| #[trigger] final(self).linear(s, o) == old(self).linear(s, o),
    ;

    fn set_cx(&mut self, value: u16)
        ensures
            final(self).regs() == (Regs { cx: value, ..old(self).regs() }),
            final(self).frame_flags() == old(self).frame_flags(),
            forall|s: SegmentRegister, o: u16| #[trigger] final(self).linear(s, o) == old(self).linear(s, o),
    ;

    fn set_dx(&mut self, value: u16)
        ensures
            final(self).regs() == (Regs { dx: value, ..old(self).regs() }),
            final(self).frame_flags() == old(self).frame_flags(),
            forall|s: SegmentRegister, o: u16| #[trigger] final(self).linear(s, o) == old(self).linear(s, o),
    ;

    fn set_si(&mut self, value: u16)
        ensures
            final(self).regs() == (Regs { si: value, ..old(self).regs() }),
            final(self).frame_flags() == old(self).frame_flags(),
            forall|s: SegmentRegister, o: u16| #[trigger] final(self).linear(s, o) == old(self).linear(s, o),
    ;

    fn set_ds(&mut self, value: u16)
        ensures
            final(self).regs() == (Regs { ds: value, ..old(self).regs() }),
            final(self).frame_flags() == old(self).frame_flags(),
    ;

    fn set_es(&mut self, value: u16)
        ensures
            final(self).regs() == (Regs { es: value, ..old(self).regs() }),
            final(self).frame_flags() == old(self).frame_flags(),
    ;

    fn linear_address(&self, segment: SegmentRegister, offset: u16) -> (r: u32)
        ensures
            r == self.linear(segment, offset),
    ;

    fn iret_flags_addr(&self) -> (r: u32)
        ensures
            r == self.frame_flags(),
    ;
}

/// CPU registers held in the host. Linear addresses are real-mode
/// (segment * 16 + offset); the interrupt's return frame is at SS:SP, so
/// its flags word is at SS:SP+4.
pub struct CpuRegisters {
    pub ax: u16,
    pub bx: u16,
    pub cx: u16,
    pub dx: u16,
    pub si: u16,
    pub di: u16,
    pub ds: u16,
    pub es: u16,
    pub cs: u16,
    pub ss: u16,
    pub sp: u16,
}

/// The value of a segment register.
pub open spec fn segment_value(c: CpuRegisters, segment: SegmentRegister) -> u16 {
    match segment {
        SegmentRegister::ES => c.es,
        SegmentRegister::CS => c.cs,
        SegmentRegister::SS => c.ss,
        SegmentRegister::DS => c.ds,
    }
}

/// `offset + 4` within the 64 KB segment.
pub open spec fn frame_offset(sp: u16) -> u16 {
    if sp <= 0xFFFB {
        (sp + 4) as u16
    } else {
        (sp - 0xFFFC) as u16
    }
}

impl CpuRegisters {
    /// All registers 0.
    pub fn new() -> (r: Self)
        ensures
            r.regs() == (Regs { ax: 0, bx: 0, cx: 0, dx: 0, si: 0, di: 0, ds: 0, es: 0 }),
            r.cs == 0 && r.ss == 0 && r.sp == 0,
    {
        CpuRegisters { ax: 0, bx: 0, cx: 0, dx: 0, si: 0, di: 0, ds: 0, es: 0, cs: 0, ss: 0, sp: 0 }
    }
}

impl CpuAccess for CpuRegisters {
    open spec fn regs(&self) -> Regs {
        Regs {
            ax: self.ax,
            bx: self.bx,
            cx: self.cx,
            dx: self.dx,
            si: self.si,
            di: self.di,
            ds: self.ds,
            es: self.es,
        }
    }

    open spec fn linear(&self, segment: SegmentRegister, offset: u16) -> u32 {
        (segment_value(*self, segment) * 16 + offset) as u32
    }

    open spec fn frame_flags(&self) -> u32 {
        (self.ss * 16 + frame_offset(self.sp)) as u32
    }

    fn ax(&self) -> (r: u16) {
        self.ax
    }

    fn bx(&self) -> (r: u16) {
        self.bx
    }

    fn cx(&self) -> (r: u16) {
        self.cx
    }

    fn dx(&self) -> (r: u16) {
        self.dx
    }

    fn si(&self) -> (r: u16) {
        self.si
    }

    fn ds(&self) -> (r: u16) {
        self.ds
    }

    fn es(&self) -> (r: u16) {
        self.es
    }

    fn set_ax(&mut self, value: u16) {
        self.ax = value;
    }

    fn set_bx(&mut self, value: u16) {
        self.bx = value;
    }

    fn set_cx(&mut self, value: u16) {
        self.cx = value;
    }

    fn set_dx(&mut self, value: u16) {
        self.dx = value;
    }

    fn set_si(&mut self, value: u16) {
        self.si = value;
    }

    fn set_ds(&mut self, value: u16) {
        self.ds = value;
    }

    fn set_es(&mut self, value: u16) {
        self.es = value;
    }

    fn linear_address(&self, segment: SegmentRegister, offset: u16) -> (r: u32) {
        let base: u16 = match segment {
            SegmentRegister::ES => self.es,
            SegmentRegister::CS => self.cs,
            SegmentRegister::SS => self.ss,
            SegmentRegister::DS => self.ds,
        };
        base as u32 * 16 + offset as u32
    }

    fn iret_flags_addr(&self) -> (r: u32) {
        let offset: u16 = if self.sp <= 0xFFFB {
            self.sp + 4
        } else {
            self.sp - 0xFFFC
        };
        self.ss as u32 * 16 + offset as u32
    }
}

/// The low byte of a register.
pub open spec fn low(w: u16) -> u8 {
    (w & 0xFF) as u8
}

/// A register with its low byte replaced.
pub open spec fn with_low(w: u16, b: u8) -> u16 {
    (w & 0xFF00 | b as u16) as u16
}

/// 1 for true, 0 for false.
pub open spec fn flag_byte(b: bool) -> u8 {
    if b {
        1
    } else {
        0
    }
}

/// A flags word with its carry bit set or cleared.
pub open spec fn with_carry_bit(flags: u16, carry: bool) -> u16 {
    if carry {
        (flags | 1) as u16
    } else {
        (flags & 0xFFFE) as u16
    }
}

/// The memory after the carry flag of the return frame at `addr` is set or
/// cleared.
pub open spec fn with_carry(f: Image, addr: u32, carry: bool) -> Image {
    poke_word(f, addr, with_carry_bit(word_of(f, addr), carry))
}

/// Whether the return frame's flags word at `addr` has its carry set.
pub open spec fn carry_of(f: Image, addr: u32) -> bool {
    word_of(f, addr) & 1 != 0
}

/// Sets or clears the carry flag that the interrupt returns with.
pub fn set_iret_carry<C: CpuAccess, M: MemoryAccess>(cpu: &C, memory: &mut M, carry: bool)
    requires
        cpu.frame_flags() < u32::MAX,
    ensures
        image(final(memory)) == with_carry(image(old(memory)), cpu.frame_flags(), carry),
{
    let addr = cpu.iret_flags_addr();
    let flags = memory.read_word(addr);
    proof {
        crate::memory::lemma_read_word(memory, addr, flags);
    }
    let value = if carry {
        flags | 1
    } else {
        flags & 0xFFFE
    };
    memory.write_word(addr, value);
    assert(image(memory) =~= with_carry(image(old(memory)), addr, carry));
}

/// After setting the carry flag, it reads back as set.
pub proof fn lemma_carry_reads_back(f: Image, addr: u32, carry: bool)
    requires
        addr < u32::MAX,
    ensures
        carry_of(with_carry(f, addr, carry), addr) == carry,
{
    let w = word_of(f, addr);
    let v = with_carry_bit(w, carry);
    let g = with_carry(f, addr, carry);
    assert(g(addr) == (v & 0xFF) as u8);
    assert(g((addr + 1) as u32) == (v >> 8u16) as u8);
    assert(((v & 0xFF) as u8 as u16 | (((v >> 8u16) as u8 as u16) << 8u16)) as u16 == v) by (bit_vector);
    assert(((w | 1) as u16) & 1 != 0) by (bit_vector);
    assert(((w & 0xFFFE) as u16) & 1 == 0) by (bit_vector);
}

/// The memory after `data` is stored from `address` on.
pub open spec fn poke_block(f: Image, address: u32, data: Seq<u8>) -> Image {
    |a: u32| if address <= a < address + data.len() { data[a - address] } else { f(a) }
}

/// The volume label that media info reports.
pub open spec fn media_label() -> Seq<u8> {
    "NO NAME    ".spec_bytes()
}

/// The file system type that media info reports.
pub open spec fn media_fs_type() -> Seq<u8> {
    "FAT12   ".spec_bytes()
}

/// The 25-byte media info of a drive written at `buf`: info level 0, a
/// serial number made from the drive, the label and the file system type.
pub open spec fn media_info_image(f: Image, buf: u32, drive: u8) -> Image {
    poke_block(
        poke_block(
            poke_word(poke_word(poke_word(f, buf, 0), (buf + 2) as u32, 0x1234), (buf + 4) as u32, (0x5678 + drive) as u16),
            (buf + 6) as u32,
            media_label(),
        ),
        (buf + 17) as u32,
        media_fs_type(),
    )
}

/// The drive a call names in a register byte: 0 for the current drive,
/// else one more than the drive's index.
pub open spec fn named_drive(st: DosState, b: u8) -> int {
    if b == 0 {
        st.current_drive as int
    } else {
        b - 1
    }
}

/// What AH=47h writes: the current path without its drive and root, then
/// a NUL.
pub open spec fn directory_text(path: Seq<u8>) -> Seq<u8> {
    path.skip(root_len(path))
}

/// The flags word of a drive's CDS entry.
pub open spec fn cds_flags(f: Image, l: CdsLayout, drive: u8) -> u16 {
    word_of(f, (entry_addr(l, drive) + l.flags_offset) as u32)
}

/// AH=02h: writes DL to the console; AL = DL.
pub fn int21h_02h_display_character<C: CpuAccess, M: MemoryAccess>(console: &mut Console, cpu: &mut C, memory: &mut M)
    requires
        parser_wf(old(console).esc_parser@),
        byte_step_ok(old(console).esc_parser@, image(old(memory)), low(old(cpu).regs().dx)),
    ensures
        parser_wf(final(console).esc_parser@),
        (final(console).esc_parser@, image(final(memory))) == byte_step(
            old(console).esc_parser@,
            image(old(memory)),
            low(old(cpu).regs().dx),
        ),
        final(cpu).regs() == (Regs { ax: with_low(old(cpu).regs().ax, low(old(cpu).regs().dx)), ..old(cpu).regs() }),
{
    let dl = (cpu.dx() & 0xFF) as u8;
    console.process_byte(memory, dl);
    let ax = cpu.ax();
    cpu.set_ax((ax & 0xFF00) | dl as u16);
}

/// A word stored and read back is the word stored.
proof fn lemma_word_of_poke_word(f: Image, a: u32, v: u16)
    requires
        a < u32::MAX,
    ensures
        word_of(poke_word(f, a, v), a) == v,
{
    let g = poke_word(f, a, v);
    assert(g(a) == (v & 0xFF) as u8);
    assert(g((a + 1) as u32) == (v >> 8u16) as u8);
    assert(((v & 0xFF) as u8 as u16 | (((v >> 8u16) as u8 as u16) << 8u16)) as u16 == v) by (bit_vector);
}

/// Setting an interrupt vector (AH=25h) and getting it back (AH=35h) gives
/// the handler that was set: with the table updated as AH=25h updates it,
/// the words that AH=35h reads into BX and ES are the offset and segment
/// stored.
pub proof fn lemma_vector_set_then_get(f: Image, vector: u8, segment: u16, offset: u16)
    ensures
        ({
            let g = poke_word(poke_word(f, (vector * 4) as u32, offset), (vector * 4 + 2) as u32, segment);
            &&& word_of(g, (vector * 4) as u32) == offset
            &&& word_of(g, (vector * 4 + 2) as u32) == segment
        }),
{
    let a = (vector * 4) as u32;
    let f1 = poke_word(f, a, offset);
    let g = poke_word(f1, (a + 2) as u32, segment);
    lemma_word_of_poke_word(f, a, offset);
    lemma_word_of_poke_word(f1, (a + 2) as u32, segment);
    assert(g(a) == f1(a) && g((a + 1) as u32) == f1((a + 1) as u32));
}


/// The allocation strategies AH=58h AL=01h accepts: first, best or last
/// fit (0-2), low memory only, high first, or high only (+40h, +80h).
pub open spec fn valid_strategy(s: u16) -> bool {
    s == 0x00 || s == 0x01 || s == 0x02 || s == 0x40 || s == 0x41 || s == 0x42 || s == 0x80
        || s == 0x81 || s == 0x82
}


/// AH=33h on the state and registers: the state and registers after it.
pub open spec fn extended_33h(st: DosState, r: Regs) -> (DosState, Regs) {
    let dl_set = low(r.dx) != 0;
    match low(r.ax) {
        0x00 => (st, Regs { dx: with_low(r.dx, flag_byte(st.ctrl_break)), ..r }),
        0x01 => (DosState { ctrl_break: dl_set, ..st }, r),
        0x02 => (DosState { ctrl_break: dl_set, ..st }, Regs { dx: with_low(r.dx, flag_byte(st.ctrl_break)), ..r }),
        0x03 | 0x04 => (st, Regs { ax: with_low(r.ax, 0xFF), ..r }),
        0x06 => (st, Regs { bx: ((st.version.1 as u16) << 8u16 | st.version.0 as u16) as u16, dx: 0, ..r }),
        _ => (st, r),
    }
}

/// AH=37h on the state and registers.
pub open spec fn switch_char_37h(st: DosState, r: Regs) -> (DosState, Regs) {
    let ok = (r.ax & 0xFF00) as u16;
    match low(r.ax) {
        0x00 => (st, Regs { ax: ok, dx: with_low(r.dx, st.switch_char), ..r }),
        0x01 => (DosState { switch_char: low(r.dx), ..st }, Regs { ax: ok, ..r }),
        0x02 => (st, Regs { ax: ok, dx: with_low(r.dx, 0xFF), ..r }),
        0x03 => (st, Regs { ax: ok, ..r }),
        _ => (st, Regs { ax: with_low(r.ax, 0xFF), ..r }),
    }
}

/// AH=1Ah on the state: the DTA is DS:DX, at linear address `addr`.
pub open spec fn set_dta_1ah(st: DosState, r: Regs, addr: u32) -> DosState {
    DosState { dta_segment: r.ds, dta_offset: r.dx, dta_address: addr, ..st }
}

/// AH=2Fh on the registers.
pub open spec fn get_dta_2fh(st: DosState, r: Regs) -> Regs {
    Regs { es: st.dta_segment, bx: st.dta_offset, ..r }
}

/// Setting the Ctrl-Break flag (AH=33h AL=01h) and getting it
/// (AL=00h) gives back whether DL was nonzero, in DL; swapping (AL=02h)
/// gives the old flag and keeps the new.
pub proof fn lemma_ctrl_break_set_then_get(st: DosState, set: Regs, get: Regs)
    requires
        low(set.ax) == 0x01 || low(set.ax) == 0x02,
        low(get.ax) == 0x00,
    ensures
        low(extended_33h(extended_33h(st, set).0, get).1.dx) == flag_byte(low(set.dx) != 0),
        low(set.ax) == 0x02 ==> low(extended_33h(st, set).1.dx) == flag_byte(st.ctrl_break),
{
    let b = flag_byte(low(set.dx) != 0);
    let d = get.dx;
    assert(low(with_low(d, b)) == b) by (bit_vector)
        requires
            b == 0 || b == 1;
    let c = flag_byte(st.ctrl_break);
    let e = set.dx;
    assert(low(with_low(e, c)) == c) by (bit_vector)
        requires
            c == 0 || c == 1;
}

/// Setting the switch character (AH=37h AL=01h) and getting it (AL=00h)
/// gives back DL.
pub proof fn lemma_switch_char_set_then_get(st: DosState, set: Regs, get: Regs)
    requires
        low(set.ax) == 0x01,
        low(get.ax) == 0x00,
    ensures
        low(switch_char_37h(switch_char_37h(st, set).0, get).1.dx) == low(set.dx),
{
    let c = low(set.dx);
    let d = get.dx;
    assert(low(with_low(d, c)) == c) by (bit_vector);
}

/// Setting the DTA (AH=1Ah) and getting it (AH=2Fh) gives back the DS:DX
/// that was set, in ES:BX.
pub proof fn lemma_dta_set_then_get(st: DosState, set: Regs, addr: u32, get: Regs)
    ensures
        get_dta_2fh(set_dta_1ah(st, set, addr), get).es == set.ds,
        get_dta_2fh(set_dta_1ah(st, set, addr), get).bx == set.dx,
{
}


/// AH=58h on the state and registers: whether upper memory is to be
/// linked (`Some`) before the call can end, the state and registers after
/// it, and the carry it sets (`None` while the call waits for the link).
pub open spec fn strategy_58h(st: DosState, r: Regs, umb_first: Option<u16>) -> (Option<bool>, DosState, Regs, Option<bool>) {
    match low(r.ax) {
        0x00 => (None, st, Regs { ax: st.allocation_strategy, ..r }, Some(false)),
        0x01 => if valid_strategy(r.bx) {
            (None, DosState { allocation_strategy: r.bx, ..st }, r, Some(false))
        } else {
            (None, st, Regs { ax: 1, ..r }, Some(true))
        },
        0x02 => (None, st, Regs { ax: with_low(r.ax, flag_byte(st.umb_link)), ..r }, Some(false)),
        0x03 => if r.bx > 1 {
            (None, st, Regs { ax: 1, ..r }, Some(true))
        } else if umb_first is None {
            (None, DosState { umb_link: false, ..st }, r, Some(false))
        } else {
            (Some(r.bx != 0), st, r, None)
        },
        _ => (None, st, Regs { ax: 1, ..r }, Some(true)),
    }
}

/// The end of AH=58h AL=03h once the chain was linked or unlinked: the
/// state, registers and carry.
pub open spec fn link_done_58h(st: DosState, r: Regs, linked: bool, result: Result<(), u8>) -> (DosState, Regs, bool) {
    match result {
        Ok(()) => (DosState { umb_link: linked, ..st }, r, false),
        Err(code) => (st, Regs { ax: code as u16, ..r }, true),
    }
}

/// A strategy set with AH=58h AL=01h is the one AL=00h gives back in AX;
/// one DOS does not know is refused and changes nothing.
pub proof fn lemma_strategy_set_then_get(st: DosState, set: Regs, get: Regs, umb_first: Option<u16>)
    requires
        low(set.ax) == 0x01,
        low(get.ax) == 0x00,
    ensures
        ({
            let after = strategy_58h(st, set, umb_first).1;
            &&& strategy_58h(after, get, umb_first).2.ax == (if valid_strategy(set.bx) {
                set.bx
            } else {
                st.allocation_strategy
            })
            &&& strategy_58h(st, set, umb_first).3 == Some(!valid_strategy(set.bx))
        }),
{
}

/// Once a link or unlink asked for by AH=58h AL=03h succeeds, AL=02h
/// reports the new link state.
pub proof fn lemma_umb_link_then_get(st: DosState, set: Regs, r: Regs, get: Regs, umb: u16)
    requires
        low(set.ax) == 0x03,
        set.bx <= 1,
        low(get.ax) == 0x02,
    ensures
        ({
            let (link, st1, _, _) = strategy_58h(st, set, Some(umb));
            &&& link == Some(set.bx == 1)
            &&& low(strategy_58h(link_done_58h(st1, r, set.bx == 1, Ok(())).0, get, Some(umb)).2.ax)
                == set.bx
        }),
{
    let b = flag_byte(set.bx == 1);
    let a = get.ax;
    assert(low(with_low(a, b)) == b) by (bit_vector)
        requires
            b == 0 || b == 1;
}

/// The part of the DOS state that these calls read and change.
pub struct DosState {
    /// The version reported, as (major, minor).
    pub version: (u8, u8),
    pub ctrl_break: bool,
    pub switch_char: u8,
    pub indos_addr: u32,
    pub dbcs_table_addr: u32,
    pub interim_console_flag: u8,
    pub current_drive: u8,
    pub current_psp: u16,
    pub dta_segment: u16,
    pub dta_offset: u16,
    pub dta_address: u32,
    pub last_return_code: u8,
    pub last_termination_type: u8,
    /// The memory allocation strategy (AH=58h).
    pub allocation_strategy: u16,
    /// Whether upper memory is linked into the DOS memory chain.
    pub umb_link: bool,
}

impl DosState {
    /// AH=19h: the current drive in AL.
    pub fn int21h_19h_get_current_drive<C: CpuAccess>(&self, cpu: &mut C)
        ensures
            final(cpu).regs() == (Regs { ax: with_low(old(cpu).regs().ax, self.current_drive), ..old(cpu).regs() }),
    {
        let ax = cpu.ax();
        cpu.set_ax((ax & 0xFF00) | self.current_drive as u16);
    }

    /// AH=30h: the version, major in AL and minor in AH; BX = 0.
    pub fn int21h_30h_get_version<C: CpuAccess>(&self, cpu: &mut C)
        ensures
            final(cpu).regs() == (Regs {
                ax: ((self.version.1 as u16) << 8u16 | self.version.0 as u16) as u16,
                bx: 0,
                ..old(cpu).regs()
            }),
    {
        let (major, minor) = self.version;
        cpu.set_ax((minor as u16) << 8 | major as u16);
        cpu.set_bx(0x0000);
    }

    /// AH=1Ah: the DTA becomes DS:DX.
    pub fn int21h_1ah_set_dta<C: CpuAccess>(&mut self, cpu: &C)
        ensures
            *final(self) == set_dta_1ah(*old(self), cpu.regs(), cpu.linear(SegmentRegister::DS, cpu.regs().dx)),
    {
        self.dta_segment = cpu.ds();
        self.dta_offset = cpu.dx();
        self.dta_address = cpu.linear_address(SegmentRegister::DS, cpu.dx());
    }

    /// AH=2Fh: the DTA in ES:BX.
    pub fn int21h_2fh_get_dta<C: CpuAccess>(&self, cpu: &mut C)
        ensures
            final(cpu).regs() == get_dta_2fh(*self, old(cpu).regs()),
    {
        cpu.set_es(self.dta_segment);
        cpu.set_bx(self.dta_offset);
    }

    /// AH=2Bh and AH=2Dh: setting the date or time is accepted and ignored;
    /// AL = 0.
    pub fn int21h_2bh_set_date<C: CpuAccess>(&mut self, cpu: &mut C)
        ensures
            final(cpu).regs() == (Regs { ax: (old(cpu).regs().ax & 0xFF00) as u16, ..old(cpu).regs() }),
            *final(self) == *old(self),
    {
        let ax = cpu.ax();
        cpu.set_ax(ax & 0xFF00);
    }

    /// AH=2Dh: see AH=2Bh.
    pub fn int21h_2dh_set_time<C: CpuAccess>(&mut self, cpu: &mut C)
        ensures
            final(cpu).regs() == (Regs { ax: (old(cpu).regs().ax & 0xFF00) as u16, ..old(cpu).regs() }),
            *final(self) == *old(self),
    {
        let ax = cpu.ax();
        cpu.set_ax(ax & 0xFF00);
    }

    /// AH=34h: the InDOS flag's address in ES:BX.
    pub fn int21h_34h_get_indos<C: CpuAccess>(&self, cpu: &mut C)
        ensures
            final(cpu).regs() == (Regs {
                es: (self.indos_addr >> 4u32) as u16,
                bx: (self.indos_addr & 0x0F) as u16,
                ..old(cpu).regs()
            }),
    {
        let segment = (self.indos_addr >> 4) as u16;
        let offset = (self.indos_addr & 0x0F) as u16;
        cpu.set_es(segment);
        cpu.set_bx(offset);
    }

    /// AH=4Dh: the last child's return code in AL and termination type in
    /// AH; both are then cleared.
    pub fn int21h_4dh_get_return_code<C: CpuAccess>(&mut self, cpu: &mut C)
        ensures
            final(cpu).regs() == (Regs {
                ax: ((old(self).last_termination_type as u16) << 8u16 | old(self).last_return_code as u16) as u16,
                ..old(cpu).regs()
            }),
            *final(self) == (DosState { last_return_code: 0, last_termination_type: 0, ..*old(self) }),
    {
        cpu.set_ax((self.last_termination_type as u16) << 8 | self.last_return_code as u16);
        self.last_return_code = 0;
        self.last_termination_type = 0;
    }

    /// AH=50h: the current PSP becomes BX.
    pub fn int21h_50h_set_psp<C: CpuAccess>(&mut self, cpu: &C)
        ensures
            *final(self) == (DosState { current_psp: cpu.regs().bx, ..*old(self) }),
    {
        self.current_psp = cpu.bx();
    }

    /// AH=51h and AH=62h: the current PSP in BX.
    pub fn int21h_51h_get_psp<C: CpuAccess>(&self, cpu: &mut C)
        ensures
            final(cpu).regs() == (Regs { bx: self.current_psp, ..old(cpu).regs() }),
    {
        cpu.set_bx(self.current_psp);
    }

    /// AH=62h: see AH=51h.
    pub fn int21h_62h_get_psp<C: CpuAccess>(&self, cpu: &mut C)
        ensures
            final(cpu).regs() == (Regs { bx: self.current_psp, ..old(cpu).regs() }),
    {
        cpu.set_bx(self.current_psp);
    }

    /// AH=33h: the Ctrl-Break flag: AL=00h gets it in DL, 01h sets it from
    /// DL, 02h swaps it with DL; AL=03h/04h (code pages) answer AL=FFh;
    /// AL=06h gives the true version in BX and DX = 0; others change
    /// nothing.
    pub fn int21h_33h_extended<C: CpuAccess>(&mut self, cpu: &mut C)
        ensures
            (*final(self), final(cpu).regs()) == extended_33h(*old(self), old(cpu).regs()),
    {
        let ax = cpu.ax();
        let al = (ax & 0xFF) as u8;
        let flag: u16 = if self.ctrl_break { 1 } else { 0 };
        if al == 0x00 {
            let dx = cpu.dx();
            cpu.set_dx((dx & 0xFF00) | flag);
        } else if al == 0x01 {
            self.ctrl_break = (cpu.dx() & 0x00FF) != 0;
            proof {
                let d = old(cpu).regs().dx;
                assert((d & 0x00FF != 0) == (((d & 0xFF) as u8) != 0)) by (bit_vector);
            }
        } else if al == 0x02 {
            let dx = cpu.dx();
            self.ctrl_break = (dx & 0x00FF) != 0;
            cpu.set_dx((dx & 0xFF00) | flag);
            proof {
                assert((dx & 0x00FF != 0) == (((dx & 0xFF) as u8) != 0)) by (bit_vector);
            }
        } else if al == 0x03 || al == 0x04 {
            cpu.set_ax((ax & 0xFF00) | 0xFF);
        } else if al == 0x06 {
            let (major, minor) = self.version;
            cpu.set_bx((minor as u16) << 8 | major as u16);
            cpu.set_dx(0x0000);
        }
    }

    /// AH=37h: the switch character: AL=00h gets it in DL, 01h sets it from
    /// DL, 02h reports device names as always available (DL=FFh), 03h is
    /// accepted; each answers AL=0. Other subfunctions answer AL=FFh.
    pub fn int21h_37h_switch_char<C: CpuAccess>(&mut self, cpu: &mut C)
        ensures
            (*final(self), final(cpu).regs()) == switch_char_37h(*old(self), old(cpu).regs()),
    {
        let ax = cpu.ax();
        let al = (ax & 0xFF) as u8;
        if al == 0x00 {
            let dx = cpu.dx();
            cpu.set_dx((dx & 0xFF00) | self.switch_char as u16);
            cpu.set_ax(ax & 0xFF00);
        } else if al == 0x01 {
            self.switch_char = (cpu.dx() & 0xFF) as u8;
            cpu.set_ax(ax & 0xFF00);
        } else if al == 0x02 {
            let dx = cpu.dx();
            cpu.set_dx((dx & 0xFF00) | 0xFF);
            cpu.set_ax(ax & 0xFF00);
        } else if al == 0x03 {
            cpu.set_ax(ax & 0xFF00);
        } else {
            cpu.set_ax((ax & 0xFF00) | 0xFF);
        }
    }

    /// AH=63h: DBCS support: AL=00h gives the lead byte table in DS:SI,
    /// 01h sets the interim console flag from DL, 02h gets it in DL;
    /// others change nothing.
    pub fn int21h_63h_dbcs_support<C: CpuAccess>(&mut self, cpu: &mut C)
        ensures
            ({
                let r = old(cpu).regs();
                let st = *old(self);
                match low(r.ax) {
                    0x00 => final(cpu).regs() == (Regs {
                        ds: (st.dbcs_table_addr >> 4u32) as u16,
                        si: (st.dbcs_table_addr & 0x0F) as u16,
                        ..r
                    }) && *final(self) == st,
                    0x01 => final(cpu).regs() == r
                        && *final(self) == (DosState { interim_console_flag: low(r.dx), ..st }),
                    0x02 => final(cpu).regs() == (Regs { dx: with_low(r.dx, st.interim_console_flag), ..r })
                        && *final(self) == st,
                    _ => final(cpu).regs() == r && *final(self) == st,
                }
            }),
    {
        let al = (cpu.ax() & 0xFF) as u8;
        if al == 0x00 {
            let segment = (self.dbcs_table_addr >> 4) as u16;
            let offset = (self.dbcs_table_addr & 0x0F) as u16;
            cpu.set_ds(segment);
            cpu.set_si(offset);
        } else if al == 0x01 {
            self.interim_console_flag = (cpu.dx() & 0xFF) as u8;
        } else if al == 0x02 {
            let dx = cpu.dx();
            cpu.set_dx((dx & 0xFF00) | self.interim_console_flag as u16);
        }
    }

    /// AH=25h: the interrupt vector AL becomes DS:DX.
    pub fn int21h_25h_set_interrupt_vector<C: CpuAccess, M: MemoryAccess>(&self, cpu: &C, memory: &mut M)
        ensures
            image(final(memory)) == poke_word(
                poke_word(image(old(memory)), (low(cpu.regs().ax) * 4) as u32, cpu.regs().dx),
                (low(cpu.regs().ax) * 4 + 2) as u32,
                cpu.regs().ds,
            ),
    {
        let ax = cpu.ax();
        let vector = (ax & 0xFF) as u32;
        assert(vector == low(ax)) by (bit_vector)
            requires
                vector == (ax & 0xFF) as u32;
        let ivt_addr = vector * 4;
        memory.write_word(ivt_addr, cpu.dx());
        memory.write_word(ivt_addr + 2, cpu.ds());
        assert(image(memory) =~= poke_word(
            poke_word(image(old(memory)), (low(cpu.regs().ax) * 4) as u32, cpu.regs().dx),
            (low(cpu.regs().ax) * 4 + 2) as u32,
            cpu.regs().ds,
        ));
    }

    /// AH=35h: the interrupt vector AL in ES:BX.
    pub fn int21h_35h_get_interrupt_vector<C: CpuAccess, M: MemoryAccess>(&self, cpu: &mut C, memory: &M)
        ensures
            final(cpu).regs() == (Regs {
                es: word_of(image(memory), (low(old(cpu).regs().ax) * 4 + 2) as u32),
                bx: word_of(image(memory), (low(old(cpu).regs().ax) * 4) as u32),
                ..old(cpu).regs()
            }),
    {
        let ax = cpu.ax();
        let vector = (ax & 0xFF) as u32;
        assert(vector == low(ax)) by (bit_vector)
            requires
                vector == (ax & 0xFF) as u32;
        let ivt_addr = vector * 4;
        let offset = memory.read_word(ivt_addr);
        let segment = memory.read_word(ivt_addr + 2);
        proof {
            crate::memory::lemma_read_word(memory, ivt_addr, offset);
            crate::memory::lemma_read_word(memory, (ivt_addr + 2) as u32, segment);
        }
        cpu.set_es(segment);
        cpu.set_bx(offset);
    }

    /// AH=69h: media info of drive BL (0 for the current one). An unknown
    /// drive answers AX=0Fh with carry set; AL=00h writes the info at DS:DX,
    /// AL=01h is accepted, both with carry clear; other subfunctions answer
    /// AX=01h with carry set.
    pub fn int21h_69h_get_set_media_info<C: CpuAccess, M: MemoryAccess>(&self, cpu: &mut C, memory: &mut M)
        requires
            old(cpu).frame_flags() < u32::MAX,
            named_drive(*self, low(old(cpu).regs().bx)) < 26 && low(old(cpu).regs().ax) == 0
                ==> old(cpu).linear(SegmentRegister::DS, old(cpu).regs().dx) + 25 <= u32::MAX,
        ensures
            ({
                let r = old(cpu).regs();
                let f = image(old(memory));
                let frame = old(cpu).frame_flags();
                let drive = named_drive(*self, low(r.bx));
                if drive >= 26 {
                    final(cpu).regs() == (Regs { ax: 0x000F, ..r })
                        && image(final(memory)) == with_carry(f, frame, true)
                } else if low(r.ax) == 0 {
                    final(cpu).regs() == r && image(final(memory)) == with_carry(
                        media_info_image(f, old(cpu).linear(SegmentRegister::DS, r.dx), drive as u8),
                        frame,
                        false,
                    )
                } else if low(r.ax) == 1 {
                    final(cpu).regs() == r && image(final(memory)) == with_carry(f, frame, false)
                } else {
                    final(cpu).regs() == (Regs { ax: 0x0001, ..r })
                        && image(final(memory)) == with_carry(f, frame, true)
                }
            }),
    {
        let al = (cpu.ax() & 0xFF) as u8;
        let bl = (cpu.bx() & 0xFF) as u8;
        let drive_index = if bl == 0 {
            self.current_drive
        } else {
            bl - 1
        };
        if drive_index >= 26 {
            cpu.set_ax(0x000F);
            set_iret_carry(cpu, memory, true);
            return;
        }
        if al == 0x00 {
            let buffer_addr = cpu.linear_address(SegmentRegister::DS, cpu.dx());
            proof {
                broadcast use vstd::string::group_string_axioms;
                reveal_strlit("NO NAME    ");
                reveal_strlit("FAT12   ");
                assert(vstd::string::is_ascii("NO NAME    "));
                assert(vstd::string::is_ascii("FAT12   "));
                assert(media_label().len() == 11);
                assert(media_fs_type().len() == 8);
            }
            let ghost f0 = image(memory);
            memory.write_word(buffer_addr, 0x0000);
            memory.write_word(buffer_addr + 2, 0x1234);
            memory.write_word(buffer_addr + 4, 0x5678 + drive_index as u16);
            memory.write_block(buffer_addr + 6, "NO NAME    ".as_bytes());
            memory.write_block(buffer_addr + 17, "FAT12   ".as_bytes());
            assert(image(memory) =~= media_info_image(f0, buffer_addr, drive_index));
            set_iret_carry(cpu, memory, false);
        } else if al == 0x01 {
            set_iret_carry(cpu, memory, false);
        } else {
            cpu.set_ax(0x0001);
            set_iret_carry(cpu, memory, true);
        }
    }

    /// AH=47h: the current directory of drive DL (0 for the current one),
    /// without drive and root, written as ASCIIZ at DS:SI with carry clear.
    /// A drive past Z: or whose CDS entry is not in use answers AX=0Fh with
    /// carry set.
    pub fn int21h_47h_get_current_directory<C: CpuAccess, M: MemoryAccess>(
        &self,
        cpu: &mut C,
        memory: &mut M,
        layout: CdsLayout,
    )
        requires
            layout_fits(layout),
            old(cpu).frame_flags() < u32::MAX,
            old(cpu).linear(SegmentRegister::DS, old(cpu).regs().si) + 68 <= u32::MAX,
        ensures
            ({
                let r = old(cpu).regs();
                let f = image(old(memory));
                let frame = old(cpu).frame_flags();
                let drive = named_drive(*self, low(r.dx));
                if drive >= 26 || cds_flags(f, layout, drive as u8) == 0 {
                    final(cpu).regs() == (Regs { ax: 0x000F, ..r })
                        && image(final(memory)) == with_carry(f, frame, true)
                } else {
                    let buf = old(cpu).linear(SegmentRegister::DS, r.si);
                    let text = directory_text(cds_path_of(f, layout, drive as u8));
                    final(cpu).regs() == r && image(final(memory)) == with_carry(
                        poke(poke_block(f, buf, text), (buf + text.len()) as u32, 0),
                        frame,
                        false,
                    )
                }
            }),
    {
        let dl = (cpu.dx() & 0xFF) as u8;
        let drive_index = if dl == 0 {
            self.current_drive
        } else {
            dl - 1
        };
        if drive_index >= 26 {
            cpu.set_ax(0x000F);
            set_iret_carry(cpu, memory, true);
            return;
        }
        assert(drive_index * layout.entry_size <= 25 * layout.entry_size) by (nonlinear_arith)
            requires
                drive_index <= 25,
        ;
        let flags_addr = layout.base + drive_index as u32 * layout.entry_size + layout.flags_offset;
        let flags = memory.read_word(flags_addr);
        proof {
            crate::memory::lemma_read_word(memory, flags_addr, flags);
        }
        if flags == 0 {
            cpu.set_ax(0x000F);
            set_iret_carry(cpu, memory, true);
            return;
        }
        let path = cds_path(memory, layout, drive_index);
        let buffer_addr = cpu.linear_address(SegmentRegister::DS, cpu.si());
        let skip: usize = if path.len() >= 3 && path[1] == 0x3A && path[2] == 0x5C {
            3
        } else if path.len() >= 2 && path[1] == 0x3A {
            2
        } else {
            0
        };
        let remaining = vstd::slice::slice_subrange(path.as_slice(), skip, path.len());
        assert(remaining@ =~= directory_text(path@));
        assert(path@.len() <= 67) by {
            crate::cds::lemma_asciiz_len(image(old(memory)), entry_addr(layout, drive_index) + layout.path_offset, 67);
        }
        let ghost f0 = image(memory);
        memory.write_block(buffer_addr, remaining);
        let ghost f1 = image(memory);
        assert(f1 =~= poke_block(f0, buffer_addr, remaining@));
        memory.write_byte(buffer_addr + remaining.len() as u32, 0x00);
        assert(image(memory) =~= poke(f1, (buffer_addr + remaining@.len()) as u32, 0));
        set_iret_carry(cpu, memory, false);
    }

    /// Points DS:BX at a drive's DPB, as its CDS entry holds the pointer
    /// at `dpb_offset`, with AL = 0; a drive past Z: or whose entry is not in
    /// use answers AL = FFh.
    pub fn get_dpb_for_drive<C: CpuAccess, M: MemoryAccess>(
        &self,
        cpu: &mut C,
        memory: &M,
        layout: CdsLayout,
        dpb_offset: u32,
        drive_index: u8,
    )
        requires
            layout_fits(layout),
            layout.base + 25 * layout.entry_size + dpb_offset + 4 <= u32::MAX,
        ensures
            ({
                let r = old(cpu).regs();
                let f = image(memory);
                if drive_index >= 26 || cds_flags(f, layout, drive_index) == 0 {
                    final(cpu).regs() == (Regs { ax: with_low(r.ax, 0xFF), ..r })
                } else {
                    let ptr = entry_addr(layout, drive_index) + dpb_offset;
                    final(cpu).regs() == (Regs {
                        ds: word_of(f, (ptr + 2) as u32),
                        bx: word_of(f, ptr as u32),
                        ax: (r.ax & 0xFF00) as u16,
                        ..r
                    })
                }
            }),
    {
        if drive_index >= 26 {
            let ax = cpu.ax();
            cpu.set_ax((ax & 0xFF00) | 0xFF);
            return;
        }
        assert(drive_index * layout.entry_size <= 25 * layout.entry_size) by (nonlinear_arith)
            requires
                drive_index <= 25,
        ;
        let cds_addr = layout.base + drive_index as u32 * layout.entry_size;
        let flags = memory.read_word(cds_addr + layout.flags_offset);
        proof {
            crate::memory::lemma_read_word(memory, (cds_addr + layout.flags_offset) as u32, flags);
        }
        if flags == 0 {
            let ax = cpu.ax();
            cpu.set_ax((ax & 0xFF00) | 0xFF);
            return;
        }
        let dpb_off = memory.read_word(cds_addr + dpb_offset);
        let dpb_seg = memory.read_word(cds_addr + dpb_offset + 2);
        proof {
            crate::memory::lemma_read_word(memory, (cds_addr + dpb_offset) as u32, dpb_off);
            crate::memory::lemma_read_word(memory, (cds_addr + dpb_offset + 2) as u32, dpb_seg);
        }
        cpu.set_ds(dpb_seg);
        cpu.set_bx(dpb_off);
        let ax = cpu.ax();
        cpu.set_ax(ax & 0xFF00);
    }

    /// AH=1Fh: the current drive's DPB in DS:BX.
    pub fn int21h_1fh_get_dpb_default<C: CpuAccess, M: MemoryAccess>(
        &self,
        cpu: &mut C,
        memory: &M,
        layout: CdsLayout,
        dpb_offset: u32,
    )
        requires
            layout_fits(layout),
            layout.base + 25 * layout.entry_size + dpb_offset + 4 <= u32::MAX,
        ensures
            ({
                let r = old(cpu).regs();
                let f = image(memory);
                let d = self.current_drive;
                if d >= 26 || cds_flags(f, layout, d) == 0 {
                    final(cpu).regs() == (Regs { ax: with_low(r.ax, 0xFF), ..r })
                } else {
                    let ptr = entry_addr(layout, d) + dpb_offset;
                    final(cpu).regs() == (Regs {
                        ds: word_of(f, (ptr + 2) as u32),
                        bx: word_of(f, ptr as u32),
                        ax: (r.ax & 0xFF00) as u16,
                        ..r
                    })
                }
            }),
    {
        self.get_dpb_for_drive(cpu, memory, layout, dpb_offset, self.current_drive);
    }

    /// AH=32h: the DPB of drive DL (0 for the current one) in DS:BX.
    pub fn int21h_32h_get_dpb<C: CpuAccess, M: MemoryAccess>(
        &self,
        cpu: &mut C,
        memory: &M,
        layout: CdsLayout,
        dpb_offset: u32,
    )
        requires
            layout_fits(layout),
            layout.base + 25 * layout.entry_size + dpb_offset + 4 <= u32::MAX,
        ensures
            ({
                let r = old(cpu).regs();
                let f = image(memory);
                let d = named_drive(*self, low(r.dx));
                if d >= 26 || cds_flags(f, layout, d as u8) == 0 {
                    final(cpu).regs() == (Regs { ax: with_low(r.ax, 0xFF), ..r })
                } else {
                    let ptr = entry_addr(layout, d as u8) + dpb_offset;
                    final(cpu).regs() == (Regs {
                        ds: word_of(f, (ptr + 2) as u32),
                        bx: word_of(f, ptr as u32),
                        ax: (r.ax & 0xFF00) as u16,
                        ..r
                    })
                }
            }),
    {
        let dl = (cpu.dx() & 0xFF) as u8;
        let drive_index = if dl == 0 {
            self.current_drive
        } else {
            dl - 1
        };
        self.get_dpb_for_drive(cpu, memory, layout, dpb_offset, drive_index);
    }

    /// AH=58h: the allocation strategy and the upper memory link. AL=00h
    /// gets the strategy in AX; AL=01h sets it from BX when it is one DOS
    /// knows (else AX=01h, carry set); AL=02h gets the link state in AL,
    /// keeping AH; AL=03h sets it from BX: a value over 1 answers AX=01h
    /// with carry set, and without upper memory (`umb_first` is `None`) the
    /// link is off and the call succeeds. With upper memory the chain must
    /// be linked or unlinked first: the call returns `Some(linked)`, and
    /// the caller does that and then calls `int21h_58h_link_done` with the
    /// result. Other subfunctions answer AX=01h with carry set.
    pub fn int21h_58h_allocation_strategy<C: CpuAccess, M: MemoryAccess>(
        &mut self,
        cpu: &mut C,
        memory: &mut M,
        umb_first: Option<u16>,
    ) -> (link: Option<bool>)
        requires
            old(cpu).frame_flags() < u32::MAX,
        ensures
            ({
                let (l, st, r, carry) = strategy_58h(*old(self), old(cpu).regs(), umb_first);
                &&& link == l
                &&& *final(self) == st
                &&& final(cpu).regs() == r
                &&& image(final(memory)) == match carry {
                    Some(c) => with_carry(image(old(memory)), old(cpu).frame_flags(), c),
                    None => image(old(memory)),
                }
            }),
            final(cpu).frame_flags() == old(cpu).frame_flags(),
    {
        let ax = cpu.ax();
        let al = (ax & 0xFF) as u8;
        if al == 0x00 {
            cpu.set_ax(self.allocation_strategy);
            set_iret_carry(cpu, memory, false);
            None
        } else if al == 0x01 {
            let strategy = cpu.bx();
            if strategy == 0x00 || strategy == 0x01 || strategy == 0x02 || strategy == 0x40 || strategy == 0x41
                || strategy == 0x42 || strategy == 0x80 || strategy == 0x81 || strategy == 0x82 {
                self.allocation_strategy = strategy;
                set_iret_carry(cpu, memory, false);
            } else {
                cpu.set_ax(0x0001);
                set_iret_carry(cpu, memory, true);
            }
            None
        } else if al == 0x02 {
            let linked: u16 = if self.umb_link { 1 } else { 0 };
            cpu.set_ax((ax & 0xFF00) | linked);
            set_iret_carry(cpu, memory, false);
            None
        } else if al == 0x03 {
            let link_state = cpu.bx();
            if link_state > 1 {
                cpu.set_ax(0x0001);
                set_iret_carry(cpu, memory, true);
                None
            } else if umb_first.is_none() {
                self.umb_link = false;
                set_iret_carry(cpu, memory, false);
                None
            } else {
                Some(link_state != 0)
            }
        } else {
            cpu.set_ax(0x0001);
            set_iret_carry(cpu, memory, true);
            None
        }
    }

    /// Ends AH=58h AL=03h once the upper memory chain was linked or
    /// unlinked: on success the link state is `linked` and the carry is
    /// clear; on failure AX holds the error code and the carry is set.
    pub fn int21h_58h_link_done<C: CpuAccess, M: MemoryAccess>(
        &mut self,
        cpu: &mut C,
        memory: &mut M,
        linked: bool,
        result: Result<(), u8>,
    )
        requires
            old(cpu).frame_flags() < u32::MAX,
        ensures
            ({
                let (st, r, carry) = link_done_58h(*old(self), old(cpu).regs(), linked, result);
                &&& *final(self) == st
                &&& final(cpu).regs() == r
                &&& image(final(memory)) == with_carry(image(old(memory)), old(cpu).frame_flags(), carry)
            }),
    {
        match result {
            Ok(()) => {
                self.umb_link = linked;
                set_iret_carry(cpu, memory, false);
            },
            Err(code) => {
                cpu.set_ax(code as u16);
                set_iret_carry(cpu, memory, true);
            },
        }
    }

    /// AH=DCh: no network is present, so connection 0 in AL, carry clear.
    pub fn int21h_dch_netware_connection_number<C: CpuAccess, M: MemoryAccess>(&self, cpu: &mut C, memory: &mut M)
        requires
            old(cpu).frame_flags() < u32::MAX,
        ensures
            final(cpu).regs() == (Regs { ax: (old(cpu).regs().ax & 0xFF00) as u16, ..old(cpu).regs() }),
            image(final(memory)) == with_carry(image(old(memory)), old(cpu).frame_flags(), false),
    {
        let ax = cpu.ax();
        cpu.set_ax(ax & 0xFF00);
        set_iret_carry(cpu, memory, false);
    }
}

/// The INT 21h function that AH (and, for AH=0Ch, AL) selects.
#[derive(Clone, Copy, Debug, PartialEq, Eq, Structural)]
pub enum Int21Call {
    Terminate,
    KeyboardInputWithEcho,
    DisplayCharacter,
    DirectConsoleIo,
    DirectCharInput,
    CharInputNoEcho,
    DisplayString,
    BufferedInput,
    CheckKeyboardStatus,
    /// AH=0Ch: flush the keyboard buffer, then run the input function in
    /// AL when it is 01h, 06h, 07h, 08h or 0Ah.
    FlushAndInvoke(Option<u8>),
    DiskReset,
    SelectDrive,
    GetCurrentDrive,
    SetDta,
    GetAllocInfo,
    GetDpbDefault,
    SetInterruptVector,
    ParseFilename,
    GetDate,
    SetDate,
    GetTime,
    SetTime,
    GetDta,
    GetVersion,
    GetDpb,
    Extended,
    GetIndos,
    GetInterruptVector,
    GetFreeDiskSpace,
    SwitchChar,
    GetCountryInfo,
    Mkdir,
    Chdir,
    CreateFile,
    OpenFile,
    CloseHandle,
    Read,
    Write,
    DeleteFile,
    Lseek,
    GetSetAttributes,
    Ioctl,
    DupHandle,
    GetCurrentDirectory,
    Allocate,
    Free,
    Resize,
    Tsr,
    Exec,
    TerminateWithCode,
    GetReturnCode,
    FindFirst,
    FindNext,
    SetPsp,
    GetPsp,
    GetSysvars,
    CreateDpbFromBpb,
    CreateChildPsp,
    Rename,
    GetSetDateTime,
    AllocationStrategy,
    ServerCall,
    /// AH=5Eh, 5Fh and 6Bh: no network; AX=01h with carry set.
    NetworkUnsupported,
    Truename,
    /// AH=61h: AL = 0.
    NetworkReserved,
    GetPspAddress,
    DbcsSupport,
    /// AH=64h: accepted, nothing done.
    Ignored,
    GetExtendedCountryInfo,
    SetHandleCount,
    CommitFile,
    MediaInfo,
    NetwareConnection,
    ShellStep,
    /// Any other AH: not implemented.
    Unimplemented,
}

/// The function AH=0Ch runs after flushing, when AL names an input
/// function.
pub open spec fn flush_then(al: u8) -> Option<u8> {
    if al == 0x01 || al == 0x06 || al == 0x07 || al == 0x08 || al == 0x0A {
        Some(al)
    } else {
        None
    }
}

/// The INT 21h routing table.
pub open spec fn route_of(ah: u8, al: u8) -> Int21Call {
    match ah {
        0x00 => Int21Call::Terminate,
        0x01 => Int21Call::KeyboardInputWithEcho,
        0x02 => Int21Call::DisplayCharacter,
        0x06 => Int21Call::DirectConsoleIo,
        0x07 => Int21Call::DirectCharInput,
        0x08 => Int21Call::CharInputNoEcho,
        0x09 => Int21Call::DisplayString,
        0x0A => Int21Call::BufferedInput,
        0x0B => Int21Call::CheckKeyboardStatus,
        0x0C => Int21Call::FlushAndInvoke(flush_then(al)),
        0x0D => Int21Call::DiskReset,
        0x0E => Int21Call::SelectDrive,
        0x19 => Int21Call::GetCurrentDrive,
        0x1A => Int21Call::SetDta,
        0x1C => Int21Call::GetAllocInfo,
        0x1F => Int21Call::GetDpbDefault,
        0x25 => Int21Call::SetInterruptVector,
        0x29 => Int21Call::ParseFilename,
        0x2A => Int21Call::GetDate,
        0x2B => Int21Call::SetDate,
        0x2C => Int21Call::GetTime,
        0x2D => Int21Call::SetTime,
        0x2F => Int21Call::GetDta,
        0x30 => Int21Call::GetVersion,
        0x31 => Int21Call::Tsr,
        0x32 => Int21Call::GetDpb,
        0x33 => Int21Call::Extended,
        0x34 => Int21Call::GetIndos,
        0x35 => Int21Call::GetInterruptVector,
        0x36 => Int21Call::GetFreeDiskSpace,
        0x37 => Int21Call::SwitchChar,
        0x38 => Int21Call::GetCountryInfo,
        0x39 => Int21Call::Mkdir,
        0x3B => Int21Call::Chdir,
        0x3C => Int21Call::CreateFile,
        0x3D => Int21Call::OpenFile,
        0x3E => Int21Call::CloseHandle,
        0x3F => Int21Call::Read,
        0x40 => Int21Call::Write,
        0x41 => Int21Call::DeleteFile,
        0x42 => Int21Call::Lseek,
        0x43 => Int21Call::GetSetAttributes,
        0x44 => Int21Call::Ioctl,
        0x45 => Int21Call::DupHandle,
        0x47 => Int21Call::GetCurrentDirectory,
        0x48 => Int21Call::Allocate,
        0x49 => Int21Call::Free,
        0x4A => Int21Call::Resize,
        0x4B => Int21Call::Exec,
        0x4C => Int21Call::TerminateWithCode,
        0x4D => Int21Call::GetReturnCode,
        0x4E => Int21Call::FindFirst,
        0x4F => Int21Call::FindNext,
        0x50 => Int21Call::SetPsp,
        0x51 => Int21Call::GetPsp,
        0x52 => Int21Call::GetSysvars,
        0x53 => Int21Call::CreateDpbFromBpb,
        0x55 => Int21Call::CreateChildPsp,
        0x56 => Int21Call::Rename,
        0x57 => Int21Call::GetSetDateTime,
        0x58 => Int21Call::AllocationStrategy,
        0x5D => Int21Call::ServerCall,
        0x5E | 0x5F | 0x6B => Int21Call::NetworkUnsupported,
        0x60 => Int21Call::Truename,
        0x61 => Int21Call::NetworkReserved,
        0x62 => Int21Call::GetPspAddress,
        0x63 => Int21Call::DbcsSupport,
        0x64 => Int21Call::Ignored,
        0x65 => Int21Call::GetExtendedCountryInfo,
        0x67 => Int21Call::SetHandleCount,
        0x68 | 0x6A => Int21Call::CommitFile,
        0x69 => Int21Call::MediaInfo,
        0xDC => Int21Call::NetwareConnection,
        0xFF => Int21Call::ShellStep,
        _ => Int21Call::Unimplemented,
    }
}

/// The function that AH and AL select.
pub fn int21h_route(ah: u8, al: u8) -> (r: Int21Call)
    ensures
        r == route_of(ah, al),
{
    match ah {
        0x00 => Int21Call::Terminate,
        0x01 => Int21Call::KeyboardInputWithEcho,
        0x02 => Int21Call::DisplayCharacter,
        0x06 => Int21Call::DirectConsoleIo,
        0x07 => Int21Call::DirectCharInput,
        0x08 => Int21Call::CharInputNoEcho,
        0x09 => Int21Call::DisplayString,
        0x0A => Int21Call::BufferedInput,
        0x0B => Int21Call::CheckKeyboardStatus,
        0x0C => Int21Call::FlushAndInvoke(
            if al == 0x01 || al == 0x06 || al == 0x07 || al == 0x08 || al == 0x0A {
                Some(al)
            } else {
                None
            },
        ),
        0x0D => Int21Call::DiskReset,
        0x0E => Int21Call::SelectDrive,
        0x19 => Int21Call::GetCurrentDrive,
        0x1A => Int21Call::SetDta,
        0x1C => Int21Call::GetAllocInfo,
        0x1F => Int21Call::GetDpbDefault,
        0x25 => Int21Call::SetInterruptVector,
        0x29 => Int21Call::ParseFilename,
        0x2A => Int21Call::GetDate,
        0x2B => Int21Call::SetDate,
        0x2C => Int21Call::GetTime,
        0x2D => Int21Call::SetTime,
        0x2F => Int21Call::GetDta,
        0x30 => Int21Call::GetVersion,
        0x31 => Int21Call::Tsr,
        0x32 => Int21Call::GetDpb,
        0x33 => Int21Call::Extended,
        0x34 => Int21Call::GetIndos,
        0x35 => Int21Call::GetInterruptVector,
        0x36 => Int21Call::GetFreeDiskSpace,
        0x37 => Int21Call::SwitchChar,
        0x38 => Int21Call::GetCountryInfo,
        0x39 => Int21Call::Mkdir,
        0x3B => Int21Call::Chdir,
        0x3C => Int21Call::CreateFile,
        0x3D => Int21Call::OpenFile,
        0x3E => Int21Call::CloseHandle,
        0x3F => Int21Call::Read,
        0x40 => Int21Call::Write,
        0x41 => Int21Call::DeleteFile,
        0x42 => Int21Call::Lseek,
        0x43 => Int21Call::GetSetAttributes,
        0x44 => Int21Call::Ioctl,
        0x45 => Int21Call::DupHandle,
        0x47 => Int21Call::GetCurrentDirectory,
        0x48 => Int21Call::Allocate,
        0x49 => Int21Call::Free,
        0x4A => Int21Call::Resize,
        0x4B => Int21Call::Exec,
        0x4C => Int21Call::TerminateWithCode,
        0x4D => Int21Call::GetReturnCode,
        0x4E => Int21Call::FindFirst,
        0x4F => Int21Call::FindNext,
        0x50 => Int21Call::SetPsp,
        0x51 => Int21Call::GetPsp,
        0x52 => Int21Call::GetSysvars,
        0x53 => Int21Call::CreateDpbFromBpb,
        0x55 => Int21Call::CreateChildPsp,
        0x56 => Int21Call::Rename,
        0x57 => Int21Call::GetSetDateTime,
        0x58 => Int21Call::AllocationStrategy,
        0x5D => Int21Call::ServerCall,
        0x5E | 0x5F | 0x6B => Int21Call::NetworkUnsupported,
        0x60 => Int21Call::Truename,
        0x61 => Int21Call::NetworkReserved,
        0x62 => Int21Call::GetPspAddress,
        0x63 => Int21Call::DbcsSupport,
        0x64 => Int21Call::Ignored,
        0x65 => Int21Call::GetExtendedCountryInfo,
        0x67 => Int21Call::SetHandleCount,
        0x68 | 0x6A => Int21Call::CommitFile,
        0x69 => Int21Call::MediaInfo,
        0xDC => Int21Call::NetwareConnection,
        0xFF => Int21Call::ShellStep,
        _ => Int21Call::Unimplemented,
    }
}

/// AH=5Eh, 5Fh and 6Bh: AX=01h with carry set.
pub fn int21h_network_unsupported<C: CpuAccess, M: MemoryAccess>(cpu: &mut C, memory: &mut M)
    requires
        old(cpu).frame_flags() < u32::MAX,
    ensures
        final(cpu).regs() == (Regs { ax: 1, ..old(cpu).regs() }),
        image(final(memory)) == with_carry(image(old(memory)), old(cpu).frame_flags(), true),
{
    cpu.set_ax(0x0001);
    set_iret_carry(cpu, memory, true);
}

/// AH=61h: AL = 0.
pub fn int21h_61h_reserved<C: CpuAccess>(cpu: &mut C)
    ensures
        final(cpu).regs() == (Regs { ax: (old(cpu).regs().ax & 0xFF00) as u16, ..old(cpu).regs() }),
{
    let ax = cpu.ax();
    cpu.set_ax(ax & 0xFF00);
}

/// One more, wrapping from 255 to 0.
pub open spec fn inc_byte(x: u8) -> u8 {
    if x == 255 { 0 } else { (x + 1) as u8 }
}

/// One less, wrapping from 0 to 255.
pub open spec fn dec_byte(x: u8) -> u8 {
    if x == 0 { 255 } else { (x - 1) as u8 }
}

impl DosState {
    /// Entering an INT 21h call counts up the InDOS byte (wrapping).
    pub fn enter_dos<M: MemoryAccess>(&self, memory: &mut M)
        ensures
            image(final(memory)) == poke(image(old(memory)), self.indos_addr, inc_byte(image(old(memory))(self.indos_addr))),
    {
        let indos = memory.read_byte(self.indos_addr);
        let next: u8 = if indos == 255 { 0 } else { indos + 1 };
        memory.write_byte(self.indos_addr, next);
        assert(image(memory) =~= poke(image(old(memory)), self.indos_addr, inc_byte(image(old(memory))(self.indos_addr))));
    }

    /// Leaving it counts the byte down again (wrapping).
    pub fn leave_dos<M: MemoryAccess>(&self, memory: &mut M)
        ensures
            image(final(memory)) == poke(image(old(memory)), self.indos_addr, dec_byte(image(old(memory))(self.indos_addr))),
    {
        let indos = memory.read_byte(self.indos_addr);
        let next: u8 = if indos == 0 { 255 } else { indos - 1 };
        memory.write_byte(self.indos_addr, next);
        assert(image(memory) =~= poke(image(old(memory)), self.indos_addr, dec_byte(image(old(memory))(self.indos_addr))));
    }
}

/// A call leaves the InDOS byte as it found it: entering and then leaving
/// gives the count back.
pub proof fn lemma_enter_leave_dos(f: Image, addr: u32)
    ensures
        ({
            let g = poke(f, addr, inc_byte(f(addr)));
            poke(g, addr, dec_byte(g(addr))) == f
        }),
{
    let g = poke(f, addr, inc_byte(f(addr)));
    assert(poke(g, addr, dec_byte(g(addr))) =~= f);
}

/// The high byte of a register.
pub open spec fn high(w: u16) -> u8 {
    (w >> 8u16) as u8
}

/// What the calls that work on the DOS state and the registers alone do:
/// the state and registers after the call, or `None` for a call that
/// needs more than that. `ds_dx` is the linear address of DS:DX.
pub open spec fn register_call(st: DosState, r: Regs, call: Int21Call, ds_dx: u32) -> Option<(DosState, Regs)> {
    let ok = (r.ax & 0xFF00) as u16;
    match call {
        Int21Call::GetCurrentDrive => Some((st, Regs { ax: with_low(r.ax, st.current_drive), ..r })),
        Int21Call::SetDta => Some((set_dta_1ah(st, r, ds_dx), r)),
        Int21Call::SetDate | Int21Call::SetTime | Int21Call::NetworkReserved => Some((st, Regs { ax: ok, ..r })),
        Int21Call::GetDta => Some((st, get_dta_2fh(st, r))),
        Int21Call::GetVersion => Some(
            (st, Regs { ax: ((st.version.1 as u16) << 8u16 | st.version.0 as u16) as u16, bx: 0, ..r }),
        ),
        Int21Call::Extended => Some(extended_33h(st, r)),
        Int21Call::GetIndos => Some(
            (st, Regs { es: (st.indos_addr >> 4u32) as u16, bx: (st.indos_addr & 0x0F) as u16, ..r }),
        ),
        Int21Call::SwitchChar => Some(switch_char_37h(st, r)),
        Int21Call::GetReturnCode => Some(
            (
                DosState { last_return_code: 0, last_termination_type: 0, ..st },
                Regs { ax: ((st.last_termination_type as u16) << 8u16 | st.last_return_code as u16) as u16, ..r },
            ),
        ),
        Int21Call::SetPsp => Some((DosState { current_psp: r.bx, ..st }, r)),
        Int21Call::GetPsp | Int21Call::GetPspAddress => Some((st, Regs { bx: st.current_psp, ..r })),
        Int21Call::DbcsSupport => Some(
            match low(r.ax) {
                0x00 => (st, Regs { ds: (st.dbcs_table_addr >> 4u32) as u16, si: (st.dbcs_table_addr & 0x0F) as u16, ..r }),
                0x01 => (DosState { interim_console_flag: low(r.dx), ..st }, r),
                0x02 => (st, Regs { dx: with_low(r.dx, st.interim_console_flag), ..r }),
                _ => (st, r),
            },
        ),
        Int21Call::Ignored => Some((st, r)),
        _ => None,
    }
}

impl DosState {
    /// INT 21h for the calls that work on the DOS state, the registers and
    /// the interrupt vector table alone: routes AH (and AL), runs the call
    /// when it is one of these, and returns the route. Any other call is
    /// left untouched for the caller to run, between `enter_dos` and
    /// `leave_dos` as this one is.
    pub fn int21h_dispatch<C: CpuAccess, M: MemoryAccess>(&mut self, cpu: &mut C, memory: &mut M) -> (r: Int21Call)
        ensures
            r == route_of(high(old(cpu).regs().ax), low(old(cpu).regs().ax)),
            match register_call(*old(self), old(cpu).regs(), r, old(cpu).linear(SegmentRegister::DS, old(cpu).regs().dx)) {
                Some((st, regs)) => *final(self) == st && final(cpu).regs() == regs
                    && image(final(memory)) == image(old(memory)),
                None => match r {
                    Int21Call::SetInterruptVector => {
                        let g = old(cpu).regs();
                        &&& *final(self) == *old(self)
                        &&& final(cpu).regs() == g
                        &&& image(final(memory)) == poke_word(
                            poke_word(image(old(memory)), (low(g.ax) * 4) as u32, g.dx),
                            (low(g.ax) * 4 + 2) as u32,
                            g.ds,
                        )
                    },
                    Int21Call::GetInterruptVector => {
                        let g = old(cpu).regs();
                        &&& *final(self) == *old(self)
                        &&& final(cpu).regs() == (Regs {
                            es: word_of(image(old(memory)), (low(g.ax) * 4 + 2) as u32),
                            bx: word_of(image(old(memory)), (low(g.ax) * 4) as u32),
                            ..g
                        })
                        &&& image(final(memory)) == image(old(memory))
                    },
                    _ => *final(self) == *old(self) && final(cpu).regs() == old(cpu).regs()
                        && image(final(memory)) == image(old(memory)),
                },
            },
    {
        let ax = cpu.ax();
        let ah = (ax >> 8) as u8;
        let al = (ax & 0xFF) as u8;
        let call = int21h_route(ah, al);
        match call {
            Int21Call::GetCurrentDrive => self.int21h_19h_get_current_drive(cpu),
            Int21Call::SetDta => self.int21h_1ah_set_dta(cpu),
            Int21Call::SetDate => self.int21h_2bh_set_date(cpu),
            Int21Call::SetTime => self.int21h_2dh_set_time(cpu),
            Int21Call::NetworkReserved => int21h_61h_reserved(cpu),
            Int21Call::GetDta => self.int21h_2fh_get_dta(cpu),
            Int21Call::GetVersion => self.int21h_30h_get_version(cpu),
            Int21Call::Extended => self.int21h_33h_extended(cpu),
            Int21Call::GetIndos => self.int21h_34h_get_indos(cpu),
            Int21Call::SwitchChar => self.int21h_37h_switch_char(cpu),
            Int21Call::GetReturnCode => self.int21h_4dh_get_return_code(cpu),
            Int21Call::SetPsp => self.int21h_50h_set_psp(cpu),
            Int21Call::GetPsp => self.int21h_51h_get_psp(cpu),
            Int21Call::GetPspAddress => self.int21h_62h_get_psp(cpu),
            Int21Call::DbcsSupport => self.int21h_63h_dbcs_support(cpu),
            Int21Call::SetInterruptVector => self.int21h_25h_set_interrupt_vector(cpu, memory),
            Int21Call::GetInterruptVector => self.int21h_35h_get_interrupt_vector(cpu, memory),
            _ => {},
        }
        call
    }
}

} // verus!
