//! MSCDEX state and CD-ROM device driver request handling.
//!
//! Requests and their transfer buffers live in guest memory; the drive is
//! reached through `CdromIo`, which the emulator implements.

use vstd::prelude::*;

use crate::memory::{image, poke, poke_word, word_of, Image, MemoryAccess};

verus! {

/// Default CD-ROM device name on PC-9821.
pub const DEFAULT_DEVICE_NAME: [u8; 8] = [0x43, 0x44, 0x5F, 0x31, 0x30, 0x31, 0x20, 0x20];
/// MSCDEX drive letter: Q: = drive index 16 (0-based).
pub const CDROM_DRIVE_INDEX: u8 = 16;
/// Segment of the CD-ROM device header mirror.
pub const CDROM_MIRROR_HEADER_SEGMENT: u16 = 0x0070;
/// Linear address of the far pointer to the pending device request.
pub const CDROM_REQUEST_PTR_ADDR: u32 = 0x0000_0500;

/// Status word: done flag.
pub const STATUS_DONE: u16 = 0x0100;
/// Status word: busy flag.
pub const STATUS_BUSY: u16 = 0x0200;
/// Status word: error flag.
pub const STATUS_ERROR: u16 = 0x8000;

/// What `status_to_result` makes of a status word.
pub open spec fn status_result(status: u16) -> Result<(), u16> {
    if status & STATUS_ERROR != 0 {
        let error = status & 0x00FF;
        Err(if error == 0 { 1u16 } else { error })
    } else {
        Ok(())
    }
}

/// A status word as a result: the error code, at least 1, of an error status.
pub fn status_to_result(status: u16) -> (r: Result<(), u16>)
    ensures
        r == status_result(status),
{
    if status & STATUS_ERROR != 0 {
        let error = status & 0x00FF;
        Err(if error == 0 {
            0x0001
        } else {
            error
        })
    } else {
        Ok(())
    }
}

/// Audio playback state of the drive.
#[derive(Clone, Copy, PartialEq, Eq, Structural)]
pub enum CdAudioState {
    Stopped,
    Playing,
    Paused,
}

/// Audio position and range of the drive.
#[derive(Clone, Copy)]
pub struct AudioStatus {
    pub state: CdAudioState,
    pub current_lba: u32,
    pub start_lba: u32,
    pub end_lba: u32,
}

/// Input channel and volume of each of the four audio outputs.
#[derive(Clone, Copy)]
pub struct AudioChannelInfo {
    pub input_channel: [u8; 4],
    pub volume: [u8; 4],
}

/// Start and control byte of one track.
#[derive(Clone, Copy)]
pub struct TrackInfo {
    pub start_lba: u32,
    pub control: u8,
}

/// A control request that the driver passes to the drive.
pub enum CdromCommand {
    Play { start_lba: u32, sector_count: u32 },
    Stop,
    Resume,
    SetChannels { input_channel: Seq<u8>, volume: Seq<u8> },
}

/// The CD-ROM drive, as the emulator provides it.
pub trait CdromIo {
    /// Audio position and range.
    spec fn audio(&self) -> AudioStatus;

    /// Audio channel routing.
    spec fn channels(&self) -> AudioChannelInfo;

    /// Size of the disc in sectors.
    spec fn sector_total(&self) -> u32;

    /// Number of tracks.
    spec fn tracks(&self) -> u8;

    /// Start of the lead-out.
    spec fn leadout(&self) -> u32;

    /// A track's information, when the track exists.
    spec fn track(&self, number: u8) -> Option<TrackInfo>;

    /// The bytes of a sector (raw 2352-byte frames or cooked 2048-byte
    /// data), when it can be read.
    spec fn sector(&self, lba: u32, raw: bool) -> Option<Seq<u8>>;

    /// The control requests received so far.
    spec fn commands(&self) -> Seq<CdromCommand>;

    fn audio_state(&self) -> (r: AudioStatus)
        ensures
            r == self.audio(),
    ;

    fn audio_channel_info(&self) -> (r: AudioChannelInfo)
        ensures
            r == self.channels(),
    ;

    fn total_sectors(&self) -> (r: u32)
        ensures
            r == self.sector_total(),
    ;

    fn track_count(&self) -> (r: u8)
        ensures
            r == self.tracks(),
    ;

    fn leadout_lba(&self) -> (r: u32)
        ensures
            r == self.leadout(),
    ;

    fn track_info(&self, number: u8) -> (r: Option<TrackInfo>)
        ensures
            r == self.track(number),
    ;

    fn read_sector_raw(&self, lba: u32, buf: &mut [u8]) -> (r: Option<usize>)
        requires
            old(buf)@.len() >= 2352,
        ensures
            final(buf)@.len() == old(buf)@.len(),
            match r {
                Some(n) => self.sector(lba, true) matches Some(data) && n == data.len() && n
                    <= final(buf)@.len() && final(buf)@.take(n as int) == data,
                None => self.sector(lba, true) is None,
            },
    ;

    fn read_sector_cooked(&self, lba: u32, buf: &mut [u8]) -> (r: Option<usize>)
        requires
            old(buf)@.len() >= 2048,
        ensures
            final(buf)@.len() == old(buf)@.len(),
            match r {
                Some(n) => self.sector(lba, false) matches Some(data) && n == data.len() && n
                    <= final(buf)@.len() && final(buf)@.take(n as int) == data,
                None => self.sector(lba, false) is None,
            },
    ;

    fn audio_play(&mut self, start_lba: u32, sector_count: u32)
        ensures
            final(self).commands() == old(self).commands().push(
                CdromCommand::Play { start_lba, sector_count },
            ),
    ;

    fn audio_stop(&mut self)
        ensures
            final(self).commands() == old(self).commands().push(CdromCommand::Stop),
    ;

    fn audio_resume(&mut self)
        ensures
            final(self).commands() == old(self).commands().push(CdromCommand::Resume),
    ;

    fn set_audio_channel_info(&mut self, info: &AudioChannelInfo)
        ensures
            final(self).commands() == old(self).commands().push(
                CdromCommand::SetChannels {
                    input_channel: info.input_channel@,
                    volume: info.volume@,
                },
            ),
    ;
}

/// A control request, as `MemoryDisc` records it.
#[derive(Clone, Copy)]
pub enum DiscRequest {
    Play { start_lba: u32, sector_count: u32 },
    Stop,
    Resume,
    SetChannels(AudioChannelInfo),
}

/// The control request that a recorded one stands for.
pub open spec fn request_command(r: DiscRequest) -> CdromCommand {
    match r {
        DiscRequest::Play { start_lba, sector_count } => CdromCommand::Play { start_lba, sector_count },
        DiscRequest::Stop => CdromCommand::Stop,
        DiscRequest::Resume => CdromCommand::Resume,
        DiscRequest::SetChannels(info) => CdromCommand::SetChannels {
            input_channel: info.input_channel@,
            volume: info.volume@,
        },
    }
}

/// A CD-ROM drive held in the host: a fixed disc, the audio state, and a
/// log of the control requests received.
pub struct MemoryDisc {
    pub audio: AudioStatus,
    pub channel_info: AudioChannelInfo,
    pub sector_count: u32,
    /// Track `n` is at index `n - 1`.
    pub track_table: Vec<TrackInfo>,
    pub leadout: u32,
    /// Raw 2352-byte frames by LBA.
    pub raw_sectors: Vec<Vec<u8>>,
    /// 2048-byte data sectors by LBA.
    pub data_sectors: Vec<Vec<u8>>,
    pub log: Vec<DiscRequest>,
}

/// The sector at `lba` of a sector table, when it exists and fits a frame
/// of `size` bytes.
pub open spec fn table_sector(table: Seq<Vec<u8>>, lba: u32, size: nat) -> Option<Seq<u8>> {
    if lba < table.len() && table[lba as int]@.len() <= size {
        Some(table[lba as int]@)
    } else {
        None
    }
}

/// Copies the sector at `lba` of a table into `buf`.
fn copy_sector(table: &Vec<Vec<u8>>, lba: u32, size: usize, buf: &mut [u8]) -> (r: Option<usize>)
    requires
        old(buf)@.len() >= size,
    ensures
        final(buf)@.len() == old(buf)@.len(),
        match r {
            Some(n) => table_sector(table@, lba, size as nat) matches Some(data) && n == data.len()
                && n <= final(buf)@.len() && final(buf)@.take(n as int) == data,
            None => table_sector(table@, lba, size as nat) is None,
        },
{
    let index = lba as usize;
    if index >= table.len() || table[index].len() > size {
        return None;
    }
    let data = &table[index];
    let n = data.len();
    let mut i: usize = 0;
    while i < n
        invariant
            n == data@.len(),
            n <= size <= buf@.len(),
            buf@.len() == old(buf)@.len(),
            i <= n,
            buf@.take(i as int) == data@.take(i as int),
        decreases n - i,
    {
        buf[i] = data[i];
        i = i + 1;
        assert(buf@.take(i as int) =~= data@.take(i as int));
    }
    assert(data@.take(n as int) =~= data@);
    Some(n)
}

impl CdromIo for MemoryDisc {
    open spec fn audio(&self) -> AudioStatus {
        self.audio
    }

    open spec fn channels(&self) -> AudioChannelInfo {
        self.channel_info
    }

    open spec fn sector_total(&self) -> u32 {
        self.sector_count
    }

    open spec fn tracks(&self) -> u8 {
        self.track_table@.len() as u8
    }

    open spec fn leadout(&self) -> u32 {
        self.leadout
    }

    open spec fn track(&self, number: u8) -> Option<TrackInfo> {
        if 1 <= number <= self.track_table@.len() {
            Some(self.track_table@[number - 1])
        } else {
            None
        }
    }

    open spec fn sector(&self, lba: u32, raw: bool) -> Option<Seq<u8>> {
        if raw {
            table_sector(self.raw_sectors@, lba, 2352)
        } else {
            table_sector(self.data_sectors@, lba, 2048)
        }
    }

    open spec fn commands(&self) -> Seq<CdromCommand> {
        self.log@.map_values(|r: DiscRequest| request_command(r))
    }

    fn audio_state(&self) -> (r: AudioStatus) {
        self.audio
    }

    fn audio_channel_info(&self) -> (r: AudioChannelInfo) {
        self.channel_info
    }

    fn total_sectors(&self) -> (r: u32) {
        self.sector_count
    }

    fn track_count(&self) -> (r: u8) {
        self.track_table.len() as u8
    }

    fn leadout_lba(&self) -> (r: u32) {
        self.leadout
    }

    fn track_info(&self, number: u8) -> (r: Option<TrackInfo>) {
        if number >= 1 && (number as usize) <= self.track_table.len() {
            Some(self.track_table[number as usize - 1])
        } else {
            None
        }
    }

    fn read_sector_raw(&self, lba: u32, buf: &mut [u8]) -> (r: Option<usize>) {
        copy_sector(&self.raw_sectors, lba, 2352, buf)
    }

    fn read_sector_cooked(&self, lba: u32, buf: &mut [u8]) -> (r: Option<usize>) {
        copy_sector(&self.data_sectors, lba, 2048, buf)
    }

    fn audio_play(&mut self, start_lba: u32, sector_count: u32) {
        self.audio.state = CdAudioState::Playing;
        self.audio.start_lba = start_lba;
        self.audio.current_lba = start_lba;
        self.log.push(DiscRequest::Play { start_lba, sector_count });
        assert(self.commands() =~= old(self).commands().push(
            CdromCommand::Play { start_lba, sector_count },
        ));
    }

    fn audio_stop(&mut self) {
        self.audio.state = CdAudioState::Stopped;
        self.log.push(DiscRequest::Stop);
        assert(self.commands() =~= old(self).commands().push(CdromCommand::Stop));
    }

    fn audio_resume(&mut self) {
        self.audio.state = CdAudioState::Playing;
        self.log.push(DiscRequest::Resume);
        assert(self.commands() =~= old(self).commands().push(CdromCommand::Resume));
    }

    fn set_audio_channel_info(&mut self, info: &AudioChannelInfo) {
        self.channel_info = *info;
        self.log.push(DiscRequest::SetChannels(*info));
        assert(self.commands() =~= old(self).commands().push(
            CdromCommand::SetChannels { input_channel: info.input_channel@, volume: info.volume@ },
        ));
    }
}

/// MSCDEX driver state.
pub struct MscdexState {
    /// Device driver name (8 bytes, space-padded).
    pub device_name: Vec<u8>,
    /// 0-based drive letter index (16 = Q:).
    pub drive_letter: u8,
    /// Device open reference count.
    pub open_count: u16,
}

impl MscdexState {
    pub fn new() -> (r: Self)
        ensures
            r.device_name@ == DEFAULT_DEVICE_NAME@,
            r.drive_letter == CDROM_DRIVE_INDEX,
            r.open_count == 0,
    {
        let mut name: Vec<u8> = Vec::new();
        let mut i: usize = 0;
        while i < 8
            invariant
                i <= 8,
                name@ == DEFAULT_DEVICE_NAME@.take(i as int),
            decreases 8 - i,
        {
            name.push(DEFAULT_DEVICE_NAME[i]);
            i += 1;
            assert(name@ =~= DEFAULT_DEVICE_NAME@.take(i as int));
        }
        assert(DEFAULT_DEVICE_NAME@.take(8) =~= DEFAULT_DEVICE_NAME@);
        MscdexState { device_name: name, drive_letter: CDROM_DRIVE_INDEX, open_count: 0 }
    }
}

/// Red Book (minute, second, frame) of an LBA: the 150-frame lead-in is
/// added; the minute is truncated to a byte.
pub open spec fn redbook(lba: u32) -> (u8, u8, u8) {
    let adjusted = lba + 150;
    ((adjusted / 4500) as u8, ((adjusted / 75) % 60) as u8, (adjusted % 75) as u8)
}

/// The LBA of a Red Book address: the 150-frame lead-in is taken off,
/// stopping at 0.
pub open spec fn lba_of_redbook(minute: u8, second: u8, frame: u8) -> u32 {
    let raw = minute * 4500 + second * 75 + frame;
    if raw >= 150 {
        (raw - 150) as u32
    } else {
        0
    }
}

/// Converts an LBA to Red Book MSF address bytes.
pub fn lba_to_redbook(lba: u32) -> (r: (u8, u8, u8))
    requires
        lba <= u32::MAX - 150,
    ensures
        r == redbook(lba),
{
    let adjusted = lba + 150;
    let frame = (adjusted % 75) as u8;
    let second = ((adjusted / 75) % 60) as u8;
    let minute = (adjusted / 4500) as u8;
    (minute, second, frame)
}

/// Converts Red Book MSF address bytes to LBA.
pub fn redbook_to_lba(minute: u8, second: u8, frame: u8) -> (r: u32)
    ensures
        r == lba_of_redbook(minute, second, frame),
{
    let raw = (minute as u32) * 4500 + (second as u32) * 75 + (frame as u32);
    raw.saturating_sub(150)
}

/// A Red Book address taken from an LBA gives the LBA back, for every LBA
/// whose minute fits a byte.
pub proof fn lemma_redbook_round_trip(lba: u32)
    requires
        lba + 150 < 256 * 4500,
    ensures
        lba_of_redbook(redbook(lba).0, redbook(lba).1, redbook(lba).2) == lba,
{
    let a = lba + 150;
    assert(a == (a / 4500) * 4500 + ((a / 75) % 60) * 75 + a % 75) by (nonlinear_arith)
        requires
            a >= 0,
    ;
}

/// An address field read from the transfer buffer: a 32-bit LBA (HSG, mode
/// 0) or frame, second, minute (Red Book).
pub open spec fn address_at(f: Image, address: u32, mode: u8) -> u32 {
    if mode == 0 {
        (word_of(f, address) as u32 | ((word_of(f, (address + 2) as u32) as u32) << 16u32)) as u32
    } else {
        lba_of_redbook(f((address + 2) as u32), f((address + 1) as u32), f(address))
    }
}

/// The image after an address field is written.
pub open spec fn with_address(f: Image, address: u32, lba: u32, mode: u8) -> Image {
    if mode == 0 {
        poke_word(poke_word(f, address, lba as u16), (address + 2) as u32, (lba >> 16u32) as u16)
    } else {
        let (m, s, fr) = redbook(lba);
        poke(
            poke(poke(poke(f, address, fr), (address + 1) as u32, s), (address + 2) as u32, m),
            (address + 3) as u32,
            0,
        )
    }
}

/// Reads an address field from the transfer buffer.
pub fn read_address<M: MemoryAccess>(memory: &M, address: u32, mode: u8) -> (r: u32)
    requires
        address <= u32::MAX - 3,
    ensures
        r == address_at(image(memory), address, mode),
{
    if mode == 0 {
        let lo = memory.read_word(address);
        let hi = memory.read_word(address + 2);
        lo as u32 | ((hi as u32) << 16)
    } else {
        let frame = memory.read_byte(address);
        let second = memory.read_byte(address + 1);
        let minute = memory.read_byte(address + 2);
        redbook_to_lba(minute, second, frame)
    }
}

/// Writes an address field to the transfer buffer.
pub fn write_address<M: MemoryAccess>(memory: &mut M, address: u32, lba: u32, mode: u8)
    requires
        address <= u32::MAX - 3,
        mode != 0 ==> lba <= u32::MAX - 150,
    ensures
        image(final(memory)) == with_address(image(old(memory)), address, lba, mode),
{
    if mode == 0 {
        let ghost f0 = image(memory);
        memory.write_word(address, lba as u16);
        let ghost f1 = image(memory);
        assert(f1 =~= poke_word(f0, address, lba as u16));
        memory.write_word(address + 2, (lba >> 16) as u16);
        assert(image(memory) =~= poke_word(f1, (address + 2) as u32, (lba >> 16u32) as u16));
    } else {
        let (minute, second, frame) = lba_to_redbook(lba);
        memory.write_byte(address, frame);
        memory.write_byte(address + 1, second);
        memory.write_byte(address + 2, minute);
        memory.write_byte(address + 3, 0);
        assert(image(memory) =~= with_address(image(old(memory)), address, lba, mode));
    }
}

/// Reading an address field gives back the LBA written to it: in HSG mode
/// for every LBA, in Red Book mode for every LBA whose minute fits a byte.
pub proof fn lemma_address_write_then_read(f: Image, address: u32, lba: u32, mode: u8)
    requires
        address <= u32::MAX - 3,
        mode == 0 || lba + 150 < 256 * 4500,
    ensures
        address_at(with_address(f, address, lba, mode), address, mode) == lba,
{
    let g = with_address(f, address, lba, mode);
    if mode == 0 {
        let lo = lba as u16;
        let hi = (lba >> 16u32) as u16;
        assert(g(address) == (lo & 0xFF) as u8);
        assert(g((address + 1) as u32) == (lo >> 8u16) as u8);
        assert(g((address + 2) as u32) == (hi & 0xFF) as u8);
        assert(g((address + 3) as u32) == (hi >> 8u16) as u8);
        let w0 = word_of(g, address);
        let w1 = word_of(g, (address + 2) as u32);
        assert(w0 == lo) by (bit_vector)
            requires
                w0 == (((lo & 0xFF) as u8) as u16 | ((((lo >> 8u16) as u8) as u16) << 8u16)) as u16;
        assert(w1 == hi) by (bit_vector)
            requires
                w1 == (((hi & 0xFF) as u8) as u16 | ((((hi >> 8u16) as u8) as u16) << 8u16)) as u16;
        assert((lo as u32 | ((hi as u32) << 16u32)) as u32 == lba) by (bit_vector)
            requires
                lo == lba as u16,
                hi == (lba >> 16u32) as u16;
    } else {
        lemma_redbook_round_trip(lba);
    }
}

/// The image after a Red Book address is written as frame, second,
/// minute, 0 starting at `address`.
pub open spec fn with_msf(f: Image, address: u32, lba: u32) -> Image {
    with_address(f, address, lba, 1)
}

/// The image after a Red Book address is written as minute, second,
/// frame, 0 (the Q-channel order).
pub open spec fn with_msf_q(f: Image, address: u32, lba: u32) -> Image {
    let (m, s, fr) = redbook(lba);
    poke(
        poke(poke(poke(f, address, m), (address + 1) as u32, s), (address + 2) as u32, fr),
        (address + 3) as u32,
        0,
    )
}

/// The start of the track after track `t` (the lead-out after the last).
pub open spec fn next_track_start<C: CdromIo>(cd: &C, t: int, count: int) -> u32 {
    if t < count {
        match cd.track((t + 1) as u8) {
            Some(i) => i.start_lba,
            None => cd.leadout(),
        }
    } else {
        cd.leadout()
    }
}

/// The track, from `t` on, that holds `lba`, and the offset into it;
/// `(0, 0)` when none does.
pub open spec fn track_of<C: CdromIo>(cd: &C, t: int, count: int, lba: u32) -> (u8, u32)
    decreases count + 1 - t,
{
    if t > count || t < 1 {
        (0, 0)
    } else {
        match cd.track(t as u8) {
            Some(info) => if lba >= info.start_lba && lba < next_track_start(cd, t, count) {
                (t as u8, (lba - info.start_lba) as u32)
            } else {
                track_of(cd, t + 1, count, lba)
            },
            None => track_of(cd, t + 1, count, lba),
        }
    }
}

/// The status an IOCTL Input request answers with.
pub open spec fn ioctl_input_status(code: u8) -> u16 {
    if code == 0 || code == 1 || code == 4 || code == 6 || code == 7 || code == 8 || code == 9
        || code == 10 || code == 11 || code == 12 || code == 15 {
        STATUS_DONE
    } else {
        STATUS_DONE | STATUS_ERROR | 0x03
    }
}

/// The image after the four audio channels are written.
pub open spec fn with_channels(f: Image, t: u32, info: AudioChannelInfo, n: int) -> Image
    decreases n,
{
    if n <= 0 {
        f
    } else {
        let g = with_channels(f, t, info, n - 1);
        let i = n - 1;
        poke(
            poke(g, (t + 1 + i * 2) as u32, info.input_channel@[i]),
            (t + 2 + i * 2) as u32,
            info.volume@[i],
        )
    }
}

/// The image after an IOCTL Input request with the control block at `t`.
pub open spec fn ioctl_input_image<C: CdromIo>(f: Image, cd: &C, t: u32) -> Image {
    let code = f(t);
    let t1 = (t + 1) as u32;
    let t2 = (t + 2) as u32;
    let t3 = (t + 3) as u32;
    if code == 0 {
        poke_word(poke_word(f, t1, 0), t3, CDROM_MIRROR_HEADER_SEGMENT)
    } else if code == 1 {
        with_address(f, t2, cd.audio().current_lba, f(t1))
    } else if code == 4 {
        with_channels(f, t, cd.channels(), 4)
    } else if code == 6 {
        poke_word(poke_word(f, t1, 0x0396), t3, 0)
    } else if code == 7 {
        poke_word(f, t2, if f(t1) == 0 { 2048u16 } else { 2352u16 })
    } else if code == 8 {
        poke_word(poke_word(f, t1, cd.sector_total() as u16), t3, (cd.sector_total() >> 16u32) as u16)
    } else if code == 9 {
        poke(f, t1, 1)
    } else if code == 10 {
        let count = cd.tracks();
        with_msf(poke(poke(f, t1, if count > 0 { 1u8 } else { 0u8 }), t2, count), t3, cd.leadout())
    } else if code == 11 {
        match cd.track(f(t1)) {
            Some(info) => poke(with_msf(f, t2, info.start_lba), (t + 6) as u32, info.control),
            None => poke(poke(poke(poke(poke(f, t2, 0), t3, 0), (t + 4) as u32, 0), (t + 5) as u32, 0), (t + 6) as u32, 0),
        }
    } else if code == 12 {
        let current = cd.audio().current_lba;
        let (track, relative) = track_of(cd, 1, cd.tracks() as int, current);
        let g = poke(poke(poke(f, t1, f(t1)), t2, track), t3, 1);
        with_msf_q(with_msf_q(g, (t + 4) as u32, relative), (t + 8) as u32, current)
    } else if code == 15 {
        let st = cd.audio();
        let g = poke_word(f, t1, if st.state == CdAudioState::Paused { 1u16 } else { 0u16 });
        with_address(with_address(g, t3, st.start_lba, 0), (t + 7) as u32, st.end_lba, 0)
    } else {
        f
    }
}

/// How many bytes past its first an IOCTL Input control block of this
/// code is read or written.
pub open spec fn input_reach(code: u8) -> int {
    if code == 0 || code == 6 || code == 8 {
        4
    } else if code == 1 {
        5
    } else if code == 4 {
        8
    } else if code == 7 {
        3
    } else if code == 9 {
        1
    } else if code == 10 || code == 11 {
        6
    } else if code == 12 {
        11
    } else if code == 15 {
        10
    } else {
        0
    }
}

/// An IOCTL Input request does not overflow.
pub open spec fn ioctl_input_ok<C: CdromIo>(f: Image, cd: &C, t: u32) -> bool {
    let code = f(t);
    &&& t + input_reach(code) <= u32::MAX
    &&& code == 1 && f((t + 1) as u32) != 0 ==> cd.audio().current_lba <= u32::MAX - 150
    &&& code == 10 ==> cd.leadout() <= u32::MAX - 150
    &&& code == 11 ==> (cd.track(f((t + 1) as u32)) matches Some(info) ==> info.start_lba
        <= u32::MAX - 150)
    &&& code == 12 ==> cd.audio().current_lba <= u32::MAX - 150
}

proof fn lemma_track_of_bound<C: CdromIo>(cd: &C, t: int, count: int, lba: u32)
    ensures
        track_of(cd, t, count, lba).1 <= lba,
    decreases count + 1 - t,
{
    if 1 <= t <= count {
        lemma_track_of_bound(cd, t + 1, count, lba);
    }
}

/// Finds the track that holds `lba` and the offset into it.
fn find_track<C: CdromIo>(cdrom: &C, lba: u32) -> (r: (u8, u32))
    ensures
        r == track_of(cdrom, 1, cdrom.tracks() as int, lba),
{
    let count = cdrom.track_count();
    let mut t: u16 = 1;
    while t <= count as u16
        invariant
            1 <= t <= count + 1,
            count == cdrom.tracks(),
            track_of(cdrom, 1, count as int, lba) == track_of(cdrom, t as int, count as int, lba),
        decreases count + 1 - t,
    {
        if let Some(info) = cdrom.track_info(t as u8) {
            let next_start = if t < count as u16 {
                match cdrom.track_info((t + 1) as u8) {
                    Some(i) => i.start_lba,
                    None => cdrom.leadout_lba(),
                }
            } else {
                cdrom.leadout_lba()
            };
            if lba >= info.start_lba && lba < next_start {
                return (t as u8, lba - info.start_lba);
            }
        }
        t += 1;
    }
    (0, 0)
}

/// Writes a Red Book address in minute, second, frame, 0 order.
fn write_msf_q<M: MemoryAccess>(memory: &mut M, address: u32, lba: u32)
    requires
        address <= u32::MAX - 3,
        lba <= u32::MAX - 150,
    ensures
        image(final(memory)) == with_msf_q(image(old(memory)), address, lba),
{
    let (m, s, f) = lba_to_redbook(lba);
    memory.write_byte(address, m);
    memory.write_byte(address + 1, s);
    memory.write_byte(address + 2, f);
    memory.write_byte(address + 3, 0);
    assert(image(memory) =~= with_msf_q(image(old(memory)), address, lba));
}

fn write_byte_logged<M: MemoryAccess>(memory: &mut M, address: u32, value: u8)
    ensures
        image(final(memory)) == poke(image(old(memory)), address, value),
{
    memory.write_byte(address, value);
    assert(image(memory) =~= poke(image(old(memory)), address, value));
}

fn write_word_logged<M: MemoryAccess>(memory: &mut M, address: u32, value: u16)
    requires
        address < u32::MAX,
    ensures
        image(final(memory)) == poke_word(image(old(memory)), address, value),
{
    memory.write_word(address, value);
    assert(image(memory) =~= poke_word(image(old(memory)), address, value));
}

/// IOCTL Input (command 3): answers the control block at `transfer_addr`.
pub fn ioctl_input<M: MemoryAccess, C: CdromIo>(memory: &mut M, cdrom: &C, transfer_addr: u32) -> (r: u16)
    requires
        ioctl_input_ok(image(old(memory)), cdrom, transfer_addr),
    ensures
        r == ioctl_input_status(image(old(memory))(transfer_addr)),
        image(final(memory)) == ioctl_input_image(image(old(memory)), cdrom, transfer_addr),
{
    let t = transfer_addr;
    let code = memory.read_byte(t);
    match code {
        0 => {
            write_word_logged(memory, t + 1, 0);
            write_word_logged(memory, t + 3, CDROM_MIRROR_HEADER_SEGMENT);
            STATUS_DONE
        },
        1 => {
            let mode = memory.read_byte(t + 1);
            let status = cdrom.audio_state();
            write_address(memory, t + 2, status.current_lba, mode);
            STATUS_DONE
        },
        4 => {
            let info = cdrom.audio_channel_info();
            let mut i: u32 = 0;
            while i < 4
                invariant
                    i <= 4,
                    t <= u32::MAX - 8,
                    info == cdrom.channels(),
                    image(memory) == with_channels(image(old(memory)), t, info, i as int),
                decreases 4 - i,
            {
                write_byte_logged(memory, t + 1 + i * 2, info.input_channel[i as usize]);
                write_byte_logged(memory, t + 2 + i * 2, info.volume[i as usize]);
                i += 1;
            }
            STATUS_DONE
        },
        6 => {
            let flags: u32 = 0x02 | 0x04 | 0x10 | 0x80 | 0x100 | 0x200;
            assert(flags == 0x0396) by (bit_vector)
                requires
                    flags == 0x02u32 | 0x04u32 | 0x10u32 | 0x80u32 | 0x100u32 | 0x200u32,
            ;
            write_word_logged(memory, t + 1, flags as u16);
            write_word_logged(memory, t + 3, (flags >> 16) as u16);
            assert((flags >> 16u32) as u16 == 0) by (bit_vector)
                requires
                    flags == 0x0396u32,
            ;
            STATUS_DONE
        },
        7 => {
            let mode = memory.read_byte(t + 1);
            let size: u16 = if mode == 0 {
                2048
            } else {
                2352
            };
            write_word_logged(memory, t + 2, size);
            STATUS_DONE
        },
        8 => {
            let total = cdrom.total_sectors();
            write_word_logged(memory, t + 1, total as u16);
            write_word_logged(memory, t + 3, (total >> 16) as u16);
            STATUS_DONE
        },
        9 => {
            write_byte_logged(memory, t + 1, 1);
            STATUS_DONE
        },
        10 => {
            let count = cdrom.track_count();
            let first = if count > 0 {
                1
            } else {
                0
            };
            write_byte_logged(memory, t + 1, first);
            write_byte_logged(memory, t + 2, count);
            let leadout = cdrom.leadout_lba();
            write_address(memory, t + 3, leadout, 1);
            STATUS_DONE
        },
        11 => {
            let track_number = memory.read_byte(t + 1);
            if let Some(info) = cdrom.track_info(track_number) {
                write_address(memory, t + 2, info.start_lba, 1);
                write_byte_logged(memory, t + 6, info.control);
            } else {
                write_byte_logged(memory, t + 2, 0);
                write_byte_logged(memory, t + 3, 0);
                write_byte_logged(memory, t + 4, 0);
                write_byte_logged(memory, t + 5, 0);
                write_byte_logged(memory, t + 6, 0);
            }
            STATUS_DONE
        },
        12 => {
            let status = cdrom.audio_state();
            let control = memory.read_byte(t + 1);
            let (track_number, track_relative_lba) = find_track(cdrom, status.current_lba);
            proof {
                lemma_track_of_bound(cdrom, 1, cdrom.tracks() as int, status.current_lba);
            }
            write_byte_logged(memory, t + 1, control);
            write_byte_logged(memory, t + 2, track_number);
            write_byte_logged(memory, t + 3, 1);
            write_msf_q(memory, t + 4, track_relative_lba);
            write_msf_q(memory, t + 8, status.current_lba);
            STATUS_DONE
        },
        15 => {
            let status = cdrom.audio_state();
            let paused: u16 = match status.state {
                CdAudioState::Paused => 0x0001,
                _ => 0x0000,
            };
            write_word_logged(memory, t + 1, paused);
            write_address(memory, t + 3, status.start_lba, 0);
            write_address(memory, t + 7, status.end_lba, 0);
            STATUS_DONE
        },
        _ => STATUS_DONE | STATUS_ERROR | 0x03,
    }
}

/// The request that an IOCTL Output control block makes of the drive, if any.
pub open spec fn ioctl_output_command(f: Image, t: u32) -> Option<CdromCommand> {
    let code = f(t);
    if code == 2 {
        Some(CdromCommand::Stop)
    } else if code == 3 {
        Some(
            CdromCommand::SetChannels {
                input_channel: Seq::new(4, |i: int| f((t + 1 + i * 2) as u32)),
                volume: Seq::new(4, |i: int| f((t + 2 + i * 2) as u32)),
            },
        )
    } else {
        None
    }
}

/// The status an IOCTL Output request answers with.
pub open spec fn ioctl_output_status(code: u8) -> u16 {
    if code == 0 || code == 1 || code == 2 || code == 3 || code == 5 {
        STATUS_DONE
    } else {
        STATUS_DONE | STATUS_ERROR | 0x03
    }
}

/// The drive's request log after one more optional request.
pub open spec fn logged(log: Seq<CdromCommand>, command: Option<CdromCommand>) -> Seq<CdromCommand> {
    match command {
        Some(c) => log.push(c),
        None => log,
    }
}

/// IOCTL Output (command 12): eject, lock and close are accepted and do
/// nothing; reset stops audio; channel control sets the audio routing.
pub fn ioctl_output<M: MemoryAccess, C: CdromIo>(memory: &M, cdrom: &mut C, transfer_addr: u32) -> (r: u16)
    requires
        image(memory)(transfer_addr) == 3 ==> transfer_addr <= u32::MAX - 8,
    ensures
        r == ioctl_output_status(image(memory)(transfer_addr)),
        final(cdrom).commands() == logged(
            old(cdrom).commands(),
            ioctl_output_command(image(memory), transfer_addr),
        ),
{
    let t = transfer_addr;
    let code = memory.read_byte(t);
    match code {
        0 => STATUS_DONE,
        1 => STATUS_DONE,
        2 => {
            cdrom.audio_stop();
            STATUS_DONE
        },
        3 => {
            let mut info = AudioChannelInfo { input_channel: [0;4], volume: [0;4] };
            let mut i: u32 = 0;
            while i < 4
                invariant
                    i <= 4,
                    t <= u32::MAX - 8,
                    forall|j: int| 0 <= j < i ==> info.input_channel@[j] == image(memory)((t + 1 + j * 2) as u32),
                    forall|j: int| 0 <= j < i ==> info.volume@[j] == image(memory)((t + 2 + j * 2) as u32),
                decreases 4 - i,
            {
                info.input_channel[i as usize] = memory.read_byte(t + 1 + i * 2);
                info.volume[i as usize] = memory.read_byte(t + 2 + i * 2);
                i += 1;
            }
            assert(info.input_channel@ =~= Seq::new(4, |i: int| image(memory)((t + 1 + i * 2) as u32)));
            assert(info.volume@ =~= Seq::new(4, |i: int| image(memory)((t + 2 + i * 2) as u32)));
            cdrom.set_audio_channel_info(&info);
            STATUS_DONE
        },
        5 => STATUS_DONE,
        _ => STATUS_DONE | STATUS_ERROR | 0x03,
    }
}

/// The Read Long request at `r`: addressing mode, transfer address,
/// sector count and first sector.
pub open spec fn read_long_args(f: Image, r: u32) -> (u8, u32, u32, u32) {
    (
        f((r + 13) as u32),
        (word_of(f, (r + 14) as u32) as u32 | ((word_of(f, (r + 16) as u32) as u32) << 16u32)) as u32,
        word_of(f, (r + 18) as u32) as u32,
        (word_of(f, (r + 20) as u32) as u32 | ((word_of(f, (r + 22) as u32) as u32) << 16u32)) as u32,
    )
}

/// The image after the sectors `0..i` of a Read Long are copied, and
/// whether one of them could not be read.
pub open spec fn read_long_copy<C: CdromIo>(
    f: Image,
    cd: &C,
    transfer: u32,
    start: u32,
    raw: bool,
    i: int,
) -> (Image, bool)
    decreases i,
{
    if i <= 0 {
        (f, false)
    } else {
        let (g, failed) = read_long_copy(f, cd, transfer, start, raw, i - 1);
        if failed {
            (g, true)
        } else {
            match cd.sector((start + i - 1) as u32, raw) {
                Some(data) => (
                    |a: u32|
                        {
                            let off = transfer + (i - 1) * (if raw { 2352int } else { 2048int });
                            if off <= a < off + data.len() {
                                data[a - off]
                            } else {
                                g(a)
                            }
                        },
                    false,
                ),
                None => (g, true),
            }
        }
    }
}

proof fn lemma_copy_failed_stays<C: CdromIo>(
    f: Image,
    cd: &C,
    transfer: u32,
    start: u32,
    raw: bool,
    i: int,
    j: int,
)
    requires
        0 <= i <= j,
        read_long_copy(f, cd, transfer, start, raw, i).1,
    ensures
        read_long_copy(f, cd, transfer, start, raw, j) == read_long_copy(f, cd, transfer, start, raw, i),
    decreases j - i,
{
    if j > i {
        lemma_copy_failed_stays(f, cd, transfer, start, raw, i, j - 1);
    }
}

/// A Read Long stays within 32-bit addresses and LBAs.
pub open spec fn read_long_ok<C: CdromIo>(f: Image, cd: &C, r: u32) -> bool {
    let (mode, transfer, count, start) = read_long_args(f, r);
    let size: int = if mode != 0 { 2352 } else { 2048 };
    &&& r <= u32::MAX - 24
    &&& start + count <= u32::MAX
    &&& transfer + count * size <= u32::MAX
}

/// Command 128: Read Long. Copies the sectors into the transfer buffer and
/// stops at the first sector that cannot be read.
pub fn read_long<M: MemoryAccess, C: CdromIo>(memory: &mut M, cdrom: &C, request_addr: u32) -> (r: u16)
    requires
        read_long_ok(image(old(memory)), cdrom, request_addr),
    ensures
        ({
            let (mode, transfer, count, start) = read_long_args(image(old(memory)), request_addr);
            let (g, failed) = read_long_copy(image(old(memory)), cdrom, transfer, start, mode != 0, count as int);
            &&& image(final(memory)) == g
            &&& r == if failed { STATUS_DONE | STATUS_ERROR | 0x0F } else { STATUS_DONE }
        }),
{
    let ghost f = image(memory);
    let mode = memory.read_byte(request_addr + 13);
    let transfer_addr = memory.read_word(request_addr + 14) as u32 | ((memory.read_word(request_addr + 16) as u32) << 16);
    let sector_count = memory.read_word(request_addr + 18) as u32;
    let start_lba = memory.read_word(request_addr + 20) as u32 | ((memory.read_word(request_addr + 22) as u32) << 16);
    let raw = mode != 0;
    let sector_size: u32 = if raw {
        2352
    } else {
        2048
    };
    let mut buf: Vec<u8> = vec![0u8; sector_size as usize];
    let mut i: u32 = 0;
    while i < sector_count
        invariant
            i <= sector_count,
            f == image(old(memory)),
            (mode, transfer_addr, sector_count, start_lba) == read_long_args(f, request_addr),
            raw == (mode != 0),
            buf@.len() == sector_size,
            sector_size == (if raw { 2352int } else { 2048int }),
            start_lba + sector_count <= u32::MAX,
            transfer_addr + sector_count * sector_size <= u32::MAX,
            read_long_copy(f, cdrom, transfer_addr, start_lba, raw, i as int) == (image(memory), false),
        decreases sector_count - i,
    {
        let lba = start_lba + i;
        let result = if raw {
            cdrom.read_sector_raw(lba, buf.as_mut_slice())
        } else {
            cdrom.read_sector_cooked(lba, buf.as_mut_slice())
        };
        match result {
            Some(n) => {
                proof {
                    assert(i * sector_size + sector_size <= sector_count * sector_size) by (nonlinear_arith)
                        requires
                            i < sector_count,
                            sector_size > 0,
                    ;
                }
                let offset = transfer_addr + i * sector_size;
                let ghost before = image(memory);
                memory.write_block(offset, &buf.as_slice()[0..n]);
                assert(image(memory) =~= read_long_copy(f, cdrom, transfer_addr, start_lba, raw, i + 1).0);
            },
            None => {
                proof {
                    assert(cdrom.sector(lba, raw) is None);
                    assert((start_lba + (i + 1) - 1) as u32 == lba);
                    assert(read_long_copy(f, cdrom, transfer_addr, start_lba, raw, i + 1) == (image(memory), true));
                    lemma_copy_failed_stays(f, cdrom, transfer_addr, start_lba, raw, i + 1, sector_count as int);
                }
                return STATUS_DONE | STATUS_ERROR | 0x0F;
            },
        }
        i += 1;
    }
    STATUS_DONE
}

/// The request that a Play Audio request at `r` makes.
pub open spec fn play_command(f: Image, r: u32) -> CdromCommand {
    let mode = f((r + 13) as u32);
    CdromCommand::Play {
        start_lba: address_at(f, (r + 14) as u32, mode),
        sector_count: (word_of(f, (r + 18) as u32) as u32 | ((word_of(f, (r + 20) as u32) as u32) << 16u32)) as u32,
    }
}

/// Command 132: Play Audio.
pub fn play_audio<M: MemoryAccess, C: CdromIo>(memory: &M, cdrom: &mut C, request_addr: u32) -> (r: u16)
    requires
        request_addr <= u32::MAX - 24,
    ensures
        r == STATUS_DONE,
        final(cdrom).commands() == old(cdrom).commands().push(play_command(image(memory), request_addr)),
{
    let mode = memory.read_byte(request_addr + 13);
    let start_lba = read_address(memory, request_addr + 14, mode);
    let sector_count = memory.read_word(request_addr + 18) as u32 | ((memory.read_word(request_addr + 20) as u32) << 16);
    cdrom.audio_play(start_lba, sector_count);
    STATUS_DONE
}

/// Command 133: Stop Audio.
pub fn stop_audio<C: CdromIo>(cdrom: &mut C) -> (r: u16)
    ensures
        r == STATUS_DONE,
        final(cdrom).commands() == old(cdrom).commands().push(CdromCommand::Stop),
{
    cdrom.audio_stop();
    STATUS_DONE
}

/// The transfer address of the device request at `r`: segment at +16,
/// offset at +14.
pub open spec fn request_transfer(f: Image, r: u32) -> u32 {
    (((word_of(f, (r + 16) as u32) as u32) << 4u32) + word_of(f, (r + 14) as u32) as u32) as u32
}

/// A device request does not overflow.
pub open spec fn device_request_ok<C: CdromIo>(f: Image, cd: &C, r: u32) -> bool {
    let command = f((r + 2) as u32);
    let t = request_transfer(f, r);
    &&& r <= u32::MAX - 24
    &&& command == 3 ==> ioctl_input_ok(f, cd, t)
    &&& command == 128 ==> read_long_ok(f, cd, r)
}

/// The request a device command makes of the drive, if any.
pub open spec fn device_command(f: Image, r: u32) -> Option<CdromCommand> {
    let command = f((r + 2) as u32);
    if command == 12 {
        ioctl_output_command(f, request_transfer(f, r))
    } else if command == 132 {
        Some(play_command(f, r))
    } else if command == 133 {
        Some(CdromCommand::Stop)
    } else if command == 136 {
        Some(CdromCommand::Resume)
    } else {
        None
    }
}

/// The image after a device command, before its status is written back.
pub open spec fn device_image<C: CdromIo>(f: Image, cd: &C, r: u32) -> Image {
    let command = f((r + 2) as u32);
    if command == 3 {
        ioctl_input_image(f, cd, request_transfer(f, r))
    } else if command == 128 {
        let (mode, transfer, count, start) = read_long_args(f, r);
        read_long_copy(f, cd, transfer, start, mode != 0, count as int).0
    } else {
        f
    }
}

/// The status of a device command, before the busy flag.
pub open spec fn device_status<C: CdromIo>(f: Image, cd: &C, r: u32) -> u16 {
    let command = f((r + 2) as u32);
    let t = request_transfer(f, r);
    if command == 3 {
        ioctl_input_status(f(t))
    } else if command == 12 {
        ioctl_output_status(f(t))
    } else if command == 128 {
        let (mode, transfer, count, start) = read_long_args(f, r);
        if read_long_copy(f, cd, transfer, start, mode != 0, count as int).1 {
            STATUS_DONE | STATUS_ERROR | 0x0F
        } else {
            STATUS_DONE
        }
    } else if command == 0 || command == 7 || command == 13 || command == 14 || command == 130
        || command == 131 || command == 132 || command == 133 || command == 136 {
        STATUS_DONE
    } else {
        STATUS_DONE | STATUS_ERROR | 0x03
    }
}

/// The open count after a device command: open (13) counts up, close (14)
/// counts down, both saturating.
pub open spec fn device_open_count(command: u8, count: u16) -> u16 {
    if command == 13 {
        if count < u16::MAX { (count + 1) as u16 } else { count }
    } else if command == 14 {
        if count > 0 { (count - 1) as u16 } else { 0 }
    } else {
        count
    }
}

impl MscdexState {
    /// Handles the device driver request at `request_addr` and writes its
    /// status word back at +3, with the busy flag while audio plays.
    pub fn handle_device_request<M: MemoryAccess, C: CdromIo>(
        &mut self,
        memory: &mut M,
        cdrom: &mut C,
        request_addr: u32,
    )
        requires
            device_request_ok(image(old(memory)), old(cdrom), request_addr),
        ensures
            ({
                let f = image(old(memory));
                let st = device_status(f, old(cdrom), request_addr);
                let status = if final(cdrom).audio().state == CdAudioState::Playing {
                    st | STATUS_BUSY
                } else {
                    st
                };
                &&& image(final(memory)) == poke_word(
                    device_image(f, old(cdrom), request_addr),
                    (request_addr + 3) as u32,
                    status,
                )
                &&& final(cdrom).commands() == logged(old(cdrom).commands(), device_command(f, request_addr))
                &&& final(self).open_count == device_open_count(f((request_addr + 2) as u32), old(self).open_count)
                &&& final(self).device_name == old(self).device_name
                &&& final(self).drive_letter == old(self).drive_letter
            }),
    {
        let ghost f = image(memory);
        let command = memory.read_byte(request_addr + 2);
        let transfer_offset = memory.read_word(request_addr + 14) as u32;
        let transfer_segment = memory.read_word(request_addr + 16) as u32;
        assert(transfer_segment << 4u32 <= 0xFFFF0u32) by (bit_vector)
            requires
                transfer_segment <= 0xFFFFu32,
        ;
        let transfer_addr = (transfer_segment << 4) + transfer_offset;
        let mut status = match command {
            0 => STATUS_DONE,
            3 => ioctl_input(memory, cdrom, transfer_addr),
            7 => STATUS_DONE,
            12 => ioctl_output(memory, cdrom, transfer_addr),
            13 => {
                self.open_count = self.open_count.saturating_add(1);
                STATUS_DONE
            },
            14 => {
                self.open_count = self.open_count.saturating_sub(1);
                STATUS_DONE
            },
            128 => read_long(memory, cdrom, request_addr),
            130 => STATUS_DONE,
            131 => STATUS_DONE,
            132 => play_audio(memory, cdrom, request_addr),
            133 => stop_audio(cdrom),
            136 => {
                cdrom.audio_resume();
                STATUS_DONE
            },
            _ => STATUS_DONE | STATUS_ERROR | 0x03,
        };
        if cdrom.audio_state().state == CdAudioState::Playing {
            status |= STATUS_BUSY;
        }
        write_word_logged(memory, request_addr + 3, status);
    }

    /// Handles the request that the far pointer at `CDROM_REQUEST_PTR_ADDR`
    /// points to.
    pub fn cdrom_device_request<M: MemoryAccess, C: CdromIo>(&mut self, memory: &mut M, cdrom: &mut C)
        requires
            device_request_ok(image(old(memory)), old(cdrom), request_pointer(image(old(memory)))),
        ensures
            ({
                let f = image(old(memory));
                let r = request_pointer(f);
                let st = device_status(f, old(cdrom), r);
                let status = if final(cdrom).audio().state == CdAudioState::Playing {
                    st | STATUS_BUSY
                } else {
                    st
                };
                &&& image(final(memory)) == poke_word(device_image(f, old(cdrom), r), (r + 3) as u32, status)
                &&& final(cdrom).commands() == logged(old(cdrom).commands(), device_command(f, r))
                &&& final(self).open_count == device_open_count(f((r + 2) as u32), old(self).open_count)
            }),
    {
        let request_offset = memory.read_word(CDROM_REQUEST_PTR_ADDR) as u32;
        let request_segment = memory.read_word(CDROM_REQUEST_PTR_ADDR + 2) as u32;
        assert(request_segment << 4u32 <= 0xFFFF0u32) by (bit_vector)
            requires
                request_segment <= 0xFFFFu32,
        ;
        let request_addr = (request_segment << 4) + request_offset;
        self.handle_device_request(memory, cdrom, request_addr);
    }
}

/// The linear address of the pending device request.
pub open spec fn request_pointer(f: Image) -> u32 {
    (((word_of(f, (CDROM_REQUEST_PTR_ADDR + 2) as u32) as u32) << 4u32) + word_of(f, CDROM_REQUEST_PTR_ADDR) as u32) as u32
}

/// Reads the CD-ROM control channel (IOCTL Input) as a result.
pub fn read_cdrom_control_channel<M: MemoryAccess, C: CdromIo>(memory: &mut M, cdrom: &C, transfer_addr: u32) -> (r: Result<(), u16>)
    requires
        ioctl_input_ok(image(old(memory)), cdrom, transfer_addr),
    ensures
        r == status_result(ioctl_input_status(image(old(memory))(transfer_addr))),
        image(final(memory)) == ioctl_input_image(image(old(memory)), cdrom, transfer_addr),
{
    status_to_result(ioctl_input(memory, cdrom, transfer_addr))
}

/// Writes the CD-ROM control channel (IOCTL Output) as a result.
pub fn write_cdrom_control_channel<M: MemoryAccess, C: CdromIo>(memory: &M, cdrom: &mut C, transfer_addr: u32) -> (r: Result<(), u16>)
    requires
        image(memory)(transfer_addr) == 3 ==> transfer_addr <= u32::MAX - 8,
    ensures
        r == status_result(ioctl_output_status(image(memory)(transfer_addr))),
        final(cdrom).commands() == logged(old(cdrom).commands(), ioctl_output_command(image(memory), transfer_addr)),
{
    status_to_result(ioctl_output(memory, cdrom, transfer_addr))
}

} // verus!
