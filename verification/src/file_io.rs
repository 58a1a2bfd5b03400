//! Helpers of the DOS file services: device names in paths, and the
//! fields they store in guest memory.

use vstd::prelude::*;
use crate::memory::{MemoryAccess, image, poke, word_of, Image};
use crate::text::{upper_byte, upper_bytes, ascii_upper, last_index_where, lemma_last_index_unique};
use crate::commands::dir::{display_name, fcb_to_display_name};

verus! {

/// A path separator: backslash or slash.
pub open spec fn is_path_separator(b: u8) -> bool {
    b == 0x5C || b == 0x2F
}

/// Index of the first `.` of `s`, or its length.
pub open spec fn first_dot(s: Seq<u8>) -> int
    decreases s.len(),
{
    if s.len() == 0 {
        0
    } else if s[0] == 0x2E {
        0
    } else {
        1 + first_dot(s.skip(1))
    }
}

/// The first dot lies within the sequence.
pub proof fn lemma_first_dot_bounds(s: Seq<u8>)
    ensures
        0 <= first_dot(s) <= s.len(),
    decreases s.len(),
{
    if s.len() > 0 && s[0] != 0x2E {
        lemma_first_dot_bounds(s.skip(1));
    }
}

/// The name part of a path that could name a device: after any drive
/// prefix and the last separator, before the first dot, without a
/// trailing colon.
pub open spec fn device_part(path: Seq<u8>) -> Seq<u8> {
    let b = device_tail(path);
    let c = b.take(first_dot(b));
    if c.len() > 0 && c.last() == 0x3A { c.drop_last() } else { c }
}

/// A name padded with spaces to 8 bytes.
pub open spec fn padded8(s: Seq<u8>) -> Seq<u8> {
    s + Seq::new((8 - s.len()) as nat, |i: int| 0x20u8)
}

/// Whether a path names the device `device_name` (8 bytes, space-padded):
/// its device part, 1 to 8 bytes, upper-cased and padded, is that name.
pub open spec fn names_device(path: Seq<u8>, device_name: Seq<u8>) -> bool {
    let c = device_part(path);
    1 <= c.len() <= 8 && upper_bytes(padded8(c)) == device_name
}

/// Finds the first dot of `s[start..]`, as an index into `s`.
fn find_dot(s: &[u8], start: usize) -> (r: usize)
    requires
        start <= s@.len(),
    ensures
        r == start + first_dot(s@.skip(start as int)),
        start <= r <= s@.len(),
{
    let mut i: usize = start;
    while i < s.len() && s[i] != 0x2E
        invariant
            start <= i <= s@.len(),
            first_dot(s@.skip(start as int)) == (i - start) + first_dot(s@.skip(i as int)),
        decreases s@.len() - i,
    {
        assert(s@.skip(i as int).skip(1) =~= s@.skip(i + 1));
        i = i + 1;
    }
    proof {
        if i < s@.len() {
            assert(s@.skip(i as int)[0] == s@[i as int]);
        } else {
            assert(s@.skip(i as int).len() == 0);
        }
    }
    i
}

/// The part of a path after any drive prefix and the last separator.
pub open spec fn device_tail(path: Seq<u8>) -> Seq<u8> {
    let a = if path.len() >= 2 && path[1] == 0x3A { path.skip(2) } else { path };
    a.skip(last_index_where(a, |b: u8| is_path_separator(b)) + 1)
}

/// Where the part of `path` after the drive prefix and the last separator starts.
fn tail_start(path: &[u8]) -> (k: usize)
    ensures
        k <= path@.len(),
        path@.skip(k as int) == device_tail(path@),
{
    let ghost p = path@;
    let start: usize = if path.len() >= 2 && path[1] == 0x3A {
        2
    } else {
        0
    };
    let ghost a = if p.len() >= 2 && p[1] == 0x3A { p.skip(2) } else { p };
    assert(a =~= p.skip(start as int));
    let mut k: usize = path.len();
    while k > start && !(path[k - 1] == 0x5C || path[k - 1] == 0x2F)
        invariant
            start <= k <= p.len(),
            p == path@,
            forall|j: int| k <= j < p.len() ==> !is_path_separator(#[trigger] p[j]),
        decreases k,
    {
        k = k - 1;
    }
    proof {
        let kk: int = if k > start { k - 1 - start } else { -1 };
        assert forall|j: int| kk < j < a.len() implies !is_path_separator(#[trigger] a[j]) by {
            assert(a[j] == p[start + j]);
        }
        if k > start {
            assert(a[kk] == p[k - 1]);
        }
        lemma_last_index_unique(a, |b: u8| is_path_separator(b), kk);
        assert(a.skip(kk + 1) =~= p.skip(k as int));
    }
    k
}

/// Where the device part of `path` ends, given where its tail starts.
fn device_part_end(path: &[u8], k: usize) -> (end: usize)
    requires
        k <= path@.len(),
        path@.skip(k as int) == device_tail(path@),
    ensures
        k <= end <= path@.len(),
        path@.subrange(k as int, end as int) == device_part(path@),
{
    let ghost p = path@;
    let dot = find_dot(path, k);
    let mut end = dot;
    if end > k && path[end - 1] == 0x3A {
        end = end - 1;
    }
    proof {
        let b = p.skip(k as int);
        lemma_first_dot_bounds(b);
        let d = b.take(first_dot(b));
        let c = p.subrange(k as int, end as int);
        assert(d =~= p.subrange(k as int, dot as int));
        if d.len() > 0 && d.last() == 0x3A {
            assert(d.drop_last() =~= c);
        } else {
            assert(d =~= c);
        }
    }
    end
}

/// Whether a name of 1 to 8 bytes, upper-cased and padded, is `device_name`.
fn padded_name_matches(c: &[u8], device_name: &[u8; 8]) -> (r: bool)
    requires
        1 <= c@.len() <= 8,
    ensures
        r == (upper_bytes(padded8(c@)) == device_name@),
{
    let len = c.len();
    let mut i: usize = 0;
    while i < 8
        invariant
            len == c@.len(),
            1 <= len <= 8,
            i <= 8,
            forall|j: int| 0 <= j < i ==> upper_bytes(padded8(c@))[j] == device_name@[j],
        decreases 8 - i,
    {
        let b: u8 = if i < len {
            c[i]
        } else {
            0x20
        };
        assert(padded8(c@).len() == 8);
        assert(padded8(c@)[i as int] == b);
        assert(upper_bytes(padded8(c@))[i as int] == upper_byte(b));
        if ascii_upper(b) != device_name[i] {
            assert(upper_bytes(padded8(c@)) != device_name@);
            return false;
        }
        i = i + 1;
    }
    assert(upper_bytes(padded8(c@)) =~= device_name@);
    true
}

/// Whether `path` names the device `device_name`.
pub fn path_is_named_device(path: &[u8], device_name: &[u8; 8]) -> (r: bool)
    ensures
        r == names_device(path@, device_name@),
{
    let k = tail_start(path);
    let end = device_part_end(path, k);
    let len = end - k;
    if len == 0 || len > 8 {
        return false;
    }
    let c = vstd::slice::slice_subrange(path, k, end);
    padded_name_matches(c, device_name)
}

/// The EMS driver's device name.
pub open spec fn ems_name() -> Seq<u8> {
    seq![0x45u8, 0x4D, 0x4D, 0x58, 0x58, 0x58, 0x58, 0x30]
}

/// The XMS driver's device name.
pub open spec fn xms_name() -> Seq<u8> {
    seq![0x58u8, 0x4D, 0x53, 0x58, 0x58, 0x58, 0x58, 0x30]
}

/// Whether `path` names the EMS driver's device.
pub fn path_is_ems_device(path: &[u8]) -> (r: bool)
    ensures
        r == names_device(path@, ems_name()),
{
    let name: [u8; 8] = [0x45, 0x4D, 0x4D, 0x58, 0x58, 0x58, 0x58, 0x30];
    assert(name@ =~= ems_name());
    path_is_named_device(path, &name)
}

/// Whether `path` names the XMS driver's device.
pub fn path_is_xms_device(path: &[u8]) -> (r: bool)
    ensures
        r == names_device(path@, xms_name()),
{
    let name: [u8; 8] = [0x58, 0x4D, 0x53, 0x58, 0x58, 0x58, 0x58, 0x30];
    assert(name@ =~= xms_name());
    path_is_named_device(path, &name)
}

/// The first `width` bytes of a name (all of it when shorter), padded
/// with spaces to `width`.
pub open spec fn name_field(name: Seq<u8>, width: nat) -> Seq<u8> {
    let n = if name.len() < 8 { name.len() } else { 8 };
    name.take(n as int) + Seq::new((width - n) as nat, |i: int| 0x20u8)
}

/// Copies up to 8 bytes of a name into a space-filled field.
fn fill_name<const N: usize>(field: &mut [u8; N], name: &[u8])
    requires
        N >= 8,
        old(field)@ == Seq::new(N as nat, |i: int| 0x20u8),
    ensures
        final(field)@ == name_field(name@, N as nat),
{
    let len = if name.len() < 8 {
        name.len()
    } else {
        8
    };
    let mut i: usize = 0;
    while i < len
        invariant
            len <= 8 <= N,
            len <= name@.len(),
            len == (if name@.len() < 8 { name@.len() } else { 8 }),
            field@.len() == N,
            i <= len,
            forall|j: int| 0 <= j < i ==> field@[j] == name@[j],
            forall|j: int| i <= j < N ==> field@[j] == 0x20,
        decreases len - i,
    {
        field[i] = name[i];
        i = i + 1;
    }
    assert(field@ =~= name_field(name@, N as nat));
}

/// Whether `path` names the CD-ROM driver's device, whose name is given
/// unpadded.
pub fn path_is_cdrom_device(path: &[u8], device_name: &[u8]) -> (r: bool)
    ensures
        r == names_device(path@, name_field(device_name@, 8)),
{
    let mut padded = [0x20u8; 8];
    assert(padded@ =~= Seq::new(8, |i: int| 0x20u8));
    fill_name(&mut padded, device_name);
    path_is_named_device(path, &padded)
}

/// The 11-byte SFT name of the CD-ROM device.
pub fn cdrom_sft_name(device_name: &[u8]) -> (r: [u8; 11])
    ensures
        r@ == name_field(device_name@, 11),
{
    let mut name = [0x20u8; 11];
    assert(name@ =~= Seq::new(11, |i: int| 0x20u8));
    fill_name(&mut name, device_name);
    name
}

/// The little-endian dword at `address`.
pub open spec fn dword_of(f: Image, address: u32) -> u32 {
    (word_of(f, address) as u32 | ((word_of(f, (address + 2) as u32) as u32) << 16u32)) as u32
}

/// Reads a little-endian dword.
pub fn read_dword<M: MemoryAccess>(memory: &M, address: u32) -> (r: u32)
    requires
        address <= u32::MAX - 3,
    ensures
        r == dword_of(image(memory), address),
{
    let lo = memory.read_word(address);
    let hi = memory.read_word(address + 2);
    proof {
        crate::memory::lemma_read_word(memory, address, lo);
        crate::memory::lemma_read_word(memory, (address + 2) as u32, hi);
    }
    lo as u32 | ((hi as u32) << 16)
}

/// Stores a little-endian dword.
pub fn write_dword<M: MemoryAccess>(memory: &mut M, address: u32, value: u32)
    requires
        address <= u32::MAX - 3,
    ensures
        forall|a: u32| #[trigger]
            final(memory).peek(a) == (if a == address {
                (value & 0xFF) as u8
            } else if a == address + 1 {
                ((value >> 8u32) & 0xFF) as u8
            } else if a == address + 2 {
                ((value >> 16u32) & 0xFF) as u8
            } else if a == address + 3 {
                (value >> 24u32) as u8
            } else {
                old(memory).peek(a)
            }),
{
    memory.write_word(address, value as u16);
    memory.write_word(address + 2, (value >> 16) as u16);
    proof {
        let lo = value as u16;
        let hi = (value >> 16u32) as u16;
        assert((lo & 0xFF) as u8 == (value & 0xFF) as u8) by (bit_vector)
            requires
                lo == value as u16,
        ;
        assert((lo >> 8u16) as u8 == ((value >> 8u32) & 0xFF) as u8) by (bit_vector)
            requires
                lo == value as u16,
        ;
        assert((hi & 0xFF) as u8 == ((value >> 16u32) & 0xFF) as u8) by (bit_vector)
            requires
                hi == (value >> 16u32) as u16,
        ;
        assert((hi >> 8u16) as u8 == (value >> 24u32) as u8) by (bit_vector)
            requires
                hi == (value >> 16u32) as u16,
        ;
    }
}

/// The character devices that a path can name besides the drivers.
#[derive(Clone, Copy, Debug, PartialEq, Eq, Structural)]
pub enum CharDevice {
    Con,
    Nul,
    Aux,
    Prn,
}

/// The device names, space-padded to eight bytes.
pub open spec fn con_name() -> Seq<u8> {
    seq![0x43u8, 0x4F, 0x4E, 0x20, 0x20, 0x20, 0x20, 0x20]
}

pub open spec fn nul_name() -> Seq<u8> {
    seq![0x4Eu8, 0x55, 0x4C, 0x20, 0x20, 0x20, 0x20, 0x20]
}

pub open spec fn aux_name() -> Seq<u8> {
    seq![0x41u8, 0x55, 0x58, 0x20, 0x20, 0x20, 0x20, 0x20]
}

pub open spec fn prn_name() -> Seq<u8> {
    seq![0x50u8, 0x52, 0x4E, 0x20, 0x20, 0x20, 0x20, 0x20]
}

/// The character device a path names, CON first.
pub open spec fn char_device_of(path: Seq<u8>) -> Option<CharDevice> {
    if names_device(path, con_name()) {
        Some(CharDevice::Con)
    } else if names_device(path, nul_name()) {
        Some(CharDevice::Nul)
    } else if names_device(path, aux_name()) {
        Some(CharDevice::Aux)
    } else if names_device(path, prn_name()) {
        Some(CharDevice::Prn)
    } else {
        None
    }
}

/// The character device a path names, if any.
pub fn path_character_device(path: &[u8]) -> (r: Option<CharDevice>)
    ensures
        r == char_device_of(path@),
{
    let con: [u8; 8] = [0x43, 0x4F, 0x4E, 0x20, 0x20, 0x20, 0x20, 0x20];
    let nul: [u8; 8] = [0x4E, 0x55, 0x4C, 0x20, 0x20, 0x20, 0x20, 0x20];
    let aux: [u8; 8] = [0x41, 0x55, 0x58, 0x20, 0x20, 0x20, 0x20, 0x20];
    let prn: [u8; 8] = [0x50, 0x52, 0x4E, 0x20, 0x20, 0x20, 0x20, 0x20];
    assert(con@ =~= con_name() && nul@ =~= nul_name() && aux@ =~= aux_name() && prn@ =~= prn_name());
    if path_is_named_device(path, &con) {
        Some(CharDevice::Con)
    } else if path_is_named_device(path, &nul) {
        Some(CharDevice::Nul)
    } else if path_is_named_device(path, &aux) {
        Some(CharDevice::Aux)
    } else if path_is_named_device(path, &prn) {
        Some(CharDevice::Prn)
    } else {
        None
    }
}

/// The kind of drive a path resolved to.
#[derive(Clone, Copy, Debug, PartialEq, Eq, Structural)]
pub enum OpenDrive {
    /// Drive Z:, the built-in read-only drive.
    Virtual,
    Fat,
    /// A CD-ROM (ISO 9660) drive.
    Iso,
}

/// What the file system answered about a path being opened (AH=3Dh): the
/// drive it resolved to, or the error of resolving it; the entry found
/// (whether it is a directory), none, or the error of the search; and
/// whether a handle can be had, or the error of allocating one.
#[derive(Clone, Copy, Debug)]
pub struct OpenLookup {
    /// EMS is enabled and the memory manager provides it.
    pub ems_available: bool,
    pub xms_enabled: bool,
    pub drive: Result<OpenDrive, u16>,
    pub entry: Result<Option<bool>, u16>,
    pub handle: Result<(), u16>,
}

/// What an open (AH=3Dh) opens.
#[derive(Clone, Copy, Debug, PartialEq, Eq, Structural)]
pub enum OpenTarget {
    /// The EMS driver (`EMMXXXX0`).
    Ems,
    /// The XMS driver (`XMSXXXX0`).
    Xms,
    /// The CD-ROM driver, by its device name.
    Cdrom,
    Device(CharDevice),
    /// A file of drive Z:.
    VirtualFile,
    /// A file of a FAT drive, opened with the access mode given.
    FatFile(u8),
    /// A file of a CD-ROM drive (read only).
    IsoFile,
}

/// The target with the handle allocation's error first.
pub open spec fn with_handle(l: OpenLookup, t: OpenTarget) -> Result<OpenTarget, u16> {
    match l.handle {
        Err(e) => Err(e),
        Ok(()) => Ok(t),
    }
}

/// What AH=3Dh does with `path` and the access mode in AL: the EMS
/// driver's name when EMS is there, the XMS driver's when XMS is enabled,
/// the CD-ROM driver's, and CON, NUL, AUX and PRN open as devices; any
/// other path is resolved: on drive Z: only reading is allowed (else error
/// 5) and an entry that is not found gives error 2; elsewhere an entry not
/// found gives 2 and a directory 5; a CD-ROM file then opens only for
/// reading (error 5). Errors of resolving, searching and allocating a
/// handle come through as they are, in that order.
pub open spec fn open_decision_of(path: Seq<u8>, al: u8, cdrom_device: Seq<u8>, l: OpenLookup) -> Result<
    OpenTarget,
    u16,
> {
    let mode = al & 0x03;
    if names_device(path, ems_name()) && l.ems_available {
        with_handle(l, OpenTarget::Ems)
    } else if l.xms_enabled && names_device(path, xms_name()) {
        with_handle(l, OpenTarget::Xms)
    } else if names_device(path, name_field(cdrom_device, 8)) {
        with_handle(l, OpenTarget::Cdrom)
    } else if char_device_of(path) is Some {
        with_handle(l, OpenTarget::Device(char_device_of(path)->0))
    } else {
        match l.drive {
            Err(e) => Err(e),
            Ok(OpenDrive::Virtual) => if mode != 0 {
                Err(5)
            } else {
                match l.entry {
                    Err(e) => Err(e),
                    Ok(None) => Err(2),
                    Ok(Some(_)) => with_handle(l, OpenTarget::VirtualFile),
                }
            },
            Ok(drive) => match l.entry {
                Err(e) => Err(e),
                Ok(None) => Err(2),
                Ok(Some(true)) => Err(5),
                Ok(Some(false)) => if drive == OpenDrive::Fat {
                    with_handle(l, OpenTarget::FatFile(mode))
                } else {
                    match l.handle {
                        Err(e) => Err(e),
                        Ok(()) => if mode != 0 {
                            Err(5)
                        } else {
                            Ok(OpenTarget::IsoFile)
                        },
                    }
                },
            },
        }
    }
}

/// What AH=3Dh opens is a file of a drive.
pub open spec fn is_file_target(t: OpenTarget) -> bool {
    t is VirtualFile || t is FatFile || t is IsoFile
}

/// The path names a driver or character device: EMS, XMS, the CD-ROM
/// driver, CON, NUL, AUX or PRN.
pub open spec fn names_a_device(path: Seq<u8>, cdrom_device: Seq<u8>) -> bool {
    ||| names_device(path, ems_name())
    ||| names_device(path, xms_name())
    ||| names_device(path, name_field(cdrom_device, 8))
    ||| char_device_of(path) is Some
}

/// An open yields a file only when the path resolved to a drive, the
/// search found an entry there, and a handle was had; never a directory on
/// a FAT or CD-ROM drive, and on drive Z: and CD-ROM drives only for
/// reading. A search that found nothing fails with error 2 on every drive
/// (on Z: a request to write is refused first, with 5), unless the path
/// names a device.
pub proof fn lemma_open_needs_an_entry(path: Seq<u8>, al: u8, cdrom_device: Seq<u8>, l: OpenLookup)
    ensures
        match open_decision_of(path, al, cdrom_device, l) {
            Ok(t) => if is_file_target(t) {
                &&& l.drive is Ok
                &&& l.entry matches Ok(Some(is_dir)) && (l.drive != Ok::<OpenDrive, u16>(OpenDrive::Virtual) ==> !is_dir)
                &&& l.handle is Ok
                &&& (t is VirtualFile <==> l.drive == Ok::<OpenDrive, u16>(OpenDrive::Virtual))
                &&& (t is VirtualFile || t is IsoFile) ==> al & 0x03 == 0
                &&& (t is FatFile ==> t->FatFile_0 == al & 0x03 && l.drive == Ok::<OpenDrive, u16>(OpenDrive::Fat))
            } else {
                names_a_device(path, cdrom_device)
            },
            Err(_) => true,
        },
        l.entry == Ok::<Option<bool>, u16>(None) && l.drive is Ok ==> {
            ||| open_decision_of(path, al, cdrom_device, l) == Err::<OpenTarget, u16>(2)
            ||| l.drive == Ok::<OpenDrive, u16>(OpenDrive::Virtual) && al & 0x03 != 0
                && open_decision_of(path, al, cdrom_device, l) == Err::<OpenTarget, u16>(5)
            ||| names_a_device(path, cdrom_device)
        },
{
}

/// Decides what AH=3Dh opens for `path`, AL, the CD-ROM driver's name and
/// what the file system answered.
pub fn open_decision(path: &[u8], al: u8, cdrom_device: &[u8], lookup: OpenLookup) -> (r: Result<OpenTarget, u16>)
    ensures
        r == open_decision_of(path@, al, cdrom_device@, lookup),
{
    let mode = al & 0x03;
    let handle = |t: OpenTarget| -> (r: Result<OpenTarget, u16>)
        ensures
            r == with_handle(lookup, t),
    {
        match lookup.handle {
            Err(e) => Err(e),
            Ok(()) => Ok(t),
        }
    };
    if path_is_ems_device(path) && lookup.ems_available {
        return handle(OpenTarget::Ems);
    }
    if lookup.xms_enabled && path_is_xms_device(path) {
        return handle(OpenTarget::Xms);
    }
    if path_is_cdrom_device(path, cdrom_device) {
        return handle(OpenTarget::Cdrom);
    }
    if let Some(device) = path_character_device(path) {
        return handle(OpenTarget::Device(device));
    }
    let drive = match lookup.drive {
        Err(e) => {
            return Err(e);
        },
        Ok(d) => d,
    };
    match drive {
        OpenDrive::Virtual => {
            if mode != 0 {
                return Err(5);
            }
            match lookup.entry {
                Err(e) => Err(e),
                Ok(None) => Err(2),
                Ok(Some(_)) => handle(OpenTarget::VirtualFile),
            }
        },
        _ => match lookup.entry {
            Err(e) => Err(e),
            Ok(None) => Err(2),
            Ok(Some(true)) => Err(5),
            Ok(Some(false)) => {
                if drive == OpenDrive::Fat {
                    handle(OpenTarget::FatFile(mode))
                } else {
                    match lookup.handle {
                        Err(e) => Err(e),
                        Ok(()) => if mode != 0 {
                            Err(5)
                        } else {
                            Ok(OpenTarget::IsoFile)
                        },
                    }
                }
            },
        },
    }
}

/// The device information word: a character device (bit 7), and one that
/// takes control strings (bit 14).
pub const DEVINFO_CHAR: u16 = 0x0080;
pub const DEVINFO_IOCTL: u16 = 0x4000;

/// What AH=44h does besides its error.
#[derive(Clone, Copy, Debug, PartialEq, Eq, Structural)]
pub enum IoctlReply {
    /// AX and DX become these; carry clear.
    Regs { ax: u16, dx: u16 },
    /// AL=01h: the handle's device information word becomes this; carry
    /// clear.
    SetDeviceWord(u16),
    /// AL=02h (read) or AL=03h (write): the CD-ROM control channel at DS:DX
    /// is read or written; when that succeeds AX = CX.
    ControlChannel { write: bool },
    /// An unsupported subfunction: nothing changes.
    Unsupported,
}

/// What AH=44h answers for AL, the registers AX, DX, the handle's device
/// information word (or the error of finding the handle) and whether the
/// handle is the CD-ROM driver, and the DA/UA byte of drive BL: AL=00h
/// gives the word in AX and DX; AL=01h replaces its low byte with DL;
/// AL=02h/03h reach the CD-ROM control channel of a character device that
/// takes control strings (else error 1); AL=06h/07h report ready (AL=FFh);
/// AL=08h reports a floppy (DA 90h or 70h) as removable (AL=0), any other
/// drive as fixed (AL=1).
pub open spec fn ioctl44_of(al: u8, ax: u16, dx: u16, device: Result<u16, u16>, is_cdrom: bool, da_ua: u8) -> Result<
    IoctlReply,
    u16,
> {
    let high = (ax & 0xFF00) as u16;
    if al == 0x00 || al == 0x01 || al == 0x02 || al == 0x03 {
        match device {
            Err(e) => Err(e),
            Ok(info) => if al == 0x00 {
                Ok(IoctlReply::Regs { ax: info, dx: info })
            } else if al == 0x01 {
                Ok(IoctlReply::SetDeviceWord(((info & 0xFF00) | (dx & 0x00FF)) as u16))
            } else if info & DEVINFO_CHAR == 0 || info & DEVINFO_IOCTL == 0 || !is_cdrom {
                Err(1)
            } else {
                Ok(IoctlReply::ControlChannel { write: al == 0x03 })
            },
        }
    } else if al == 0x06 || al == 0x07 {
        Ok(IoctlReply::Regs { ax: (high | 0xFF) as u16, dx })
    } else if al == 0x08 {
        Ok(IoctlReply::Regs {
            ax: (high | if da_ua & 0xF0 == 0x90 || da_ua & 0xF0 == 0x70 { 0u16 } else { 1u16 }) as u16,
            dx,
        })
    } else {
        Ok(IoctlReply::Unsupported)
    }
}

/// Decides what AH=44h does.
pub fn ioctl44_answer(al: u8, ax: u16, dx: u16, device: Result<u16, u16>, is_cdrom: bool, da_ua: u8) -> (r: Result<
    IoctlReply,
    u16,
>)
    ensures
        r == ioctl44_of(al, ax, dx, device, is_cdrom, da_ua),
{
    let high = ax & 0xFF00;
    if al == 0x00 || al == 0x01 || al == 0x02 || al == 0x03 {
        match device {
            Err(e) => Err(e),
            Ok(info) => if al == 0x00 {
                Ok(IoctlReply::Regs { ax: info, dx: info })
            } else if al == 0x01 {
                Ok(IoctlReply::SetDeviceWord((info & 0xFF00) | (dx & 0x00FF)))
            } else if info & DEVINFO_CHAR == 0 || info & DEVINFO_IOCTL == 0 || !is_cdrom {
                Err(1)
            } else {
                Ok(IoctlReply::ControlChannel { write: al == 0x03 })
            },
        }
    } else if al == 0x06 || al == 0x07 {
        Ok(IoctlReply::Regs { ax: high | 0xFF, dx })
    } else if al == 0x08 {
        let removable = da_ua & 0xF0 == 0x90 || da_ua & 0xF0 == 0x70;
        Ok(IoctlReply::Regs { ax: high | if removable { 0 } else { 1 }, dx })
    } else {
        Ok(IoctlReply::Unsupported)
    }
}

} // verus!
