//! DISKCOPY: copies a floppy disk track by track.
//!
//! The command alternates disk transfers and key waits with decisions. A
//! `DiskcopyJob` holds its state; `request` tells what outside work the
//! current phase needs, and `advance` takes the answer and decides the
//! next phase, the text to show and what else the caller is to do.

use vstd::prelude::*;
use vstd::string::StringSliceAdditionalSpecFns;
use crate::text::{push_bytes, upper_byte, ascii_upper, trim_ascii, trim_ascii_spec, contains_byte};
use crate::commands::{parse_words, plain_words, switch_letters, words_view};
use crate::filesystem::{split_path, split_path_spec, lemma_drive_bound};
use crate::memory::{MemoryAccess, image, Image};

verus! {

/// Where a copy stands.
#[derive(Clone, Copy, Debug, PartialEq, Eq, Structural)]
pub enum DiskcopyPhase {
    PromptInsertSource,
    ReadTracks,
    PromptInsertDest,
    WriteTracks,
    VerifyTracks,
    Summary,
    PromptAnother,
    /// The command ended with this exit code.
    Done(u8),
}

/// The state of a copy: the two drives (index and DA/UA), the geometry,
/// the track being transferred, and the tracks read so far.
pub struct DiskcopyJob {
    pub src_drive_index: u8,
    pub src_da_ua: u8,
    pub dst_drive_index: u8,
    pub dst_da_ua: u8,
    pub sectors_per_track: u8,
    pub sector_size: u16,
    pub total_tracks: u32,
    pub current_track: u32,
    pub same_drive: bool,
    pub verify: bool,
    pub disk_buffer: Vec<u8>,
    pub phase: DiskcopyPhase,
}

/// The outside work that the current phase needs.
#[derive(Debug, PartialEq, Eq)]
pub enum DiskcopyRequest {
    /// Whether a key is waiting, and which.
    Key,
    /// Read `count` sectors from `lba` on the drive `da_ua`.
    Read { da_ua: u8, lba: u32, count: u32 },
    /// Write the buffer's bytes `start..start + len` to `lba` on `da_ua`.
    Write { da_ua: u8, lba: u32, start: usize, len: usize },
    /// Nothing: the phase decides on its own.
    Proceed,
    /// Nothing more: the command has ended.
    Finished(u8),
}

/// The answer to a request.
#[derive(Debug)]
pub enum DiskcopyReply {
    /// No key is waiting.
    NoKey,
    /// This key was waiting.
    Key(u8),
    /// What the read gave, or `None` when it failed.
    Data(Option<Vec<u8>>),
    /// Whether the write succeeded.
    Written(bool),
    /// The answer to `Proceed`.
    Proceed,
}

/// What one step asks of the caller besides the new state.
pub struct DiskcopyStep {
    /// Text to show.
    pub output: Vec<u8>,
    /// Take the waiting key from the keyboard buffer.
    pub take_key: bool,
    /// Forget what is cached of this drive's volume.
    pub invalidate_drive: Option<u8>,
}

/// `"Insert SOURCE diskette in drive X:"` and the key prompt.
pub open spec fn source_prompt(drive: u8) -> Seq<u8> {
    "Insert SOURCE diskette in drive ".spec_bytes() + seq![(0x41 + drive) as u8]
        + ":\r\nPress any key to continue . . .".spec_bytes()
}

/// `"Insert DESTINATION diskette in drive X:"` and the key prompt, after a
/// line break.
pub open spec fn dest_prompt(drive: u8) -> Seq<u8> {
    "\r\nInsert DESTINATION diskette in drive ".spec_bytes() + seq![(0x41 + drive) as u8]
        + ":\r\nPress any key to continue . . .".spec_bytes()
}

pub open spec fn reading_text() -> Seq<u8> {
    "\r\nReading from source disk . . .\r\n".spec_bytes()
}

pub open spec fn writing_text() -> Seq<u8> {
    "\r\nWriting to destination disk . . .\r\n".spec_bytes()
}

pub open spec fn verifying_text() -> Seq<u8> {
    "\r\nVerifying . . .\r\n".spec_bytes()
}

pub open spec fn complete_text() -> Seq<u8> {
    "\r\nCopy complete.\r\n\r\nCopy another diskette (Y/N)?".spec_bytes()
}

pub open spec fn crlf() -> Seq<u8> {
    "\r\n".spec_bytes()
}

/// A job's values as the contracts see them.
pub struct JobView {
    pub src_drive_index: u8,
    pub src_da_ua: u8,
    pub dst_drive_index: u8,
    pub dst_da_ua: u8,
    pub sectors_per_track: u8,
    pub sector_size: u16,
    pub total_tracks: u32,
    pub current_track: u32,
    pub same_drive: bool,
    pub verify: bool,
    pub buffer: Seq<u8>,
    pub phase: DiskcopyPhase,
}

impl View for DiskcopyJob {
    type V = JobView;

    open spec fn view(&self) -> JobView {
        JobView {
            src_drive_index: self.src_drive_index,
            src_da_ua: self.src_da_ua,
            dst_drive_index: self.dst_drive_index,
            dst_da_ua: self.dst_da_ua,
            sectors_per_track: self.sectors_per_track,
            sector_size: self.sector_size,
            total_tracks: self.total_tracks,
            current_track: self.current_track,
            same_drive: self.same_drive,
            verify: self.verify,
            buffer: self.disk_buffer@,
            phase: self.phase,
        }
    }
}

/// The bytes of one track.
pub open spec fn track_size(v: JobView) -> int {
    v.sectors_per_track * v.sector_size
}

/// The first sector of the current track.
pub open spec fn track_lba(v: JobView) -> int {
    v.current_track * v.sectors_per_track
}

/// A job whose values its steps can work with: drive letters exist, and
/// every track's first sector and the whole disk's bytes can be counted.
pub open spec fn job_wf(v: JobView) -> bool {
    &&& v.src_drive_index < 26
    &&& v.dst_drive_index < 26
    &&& v.total_tracks * v.sectors_per_track <= u32::MAX
    &&& v.total_tracks * v.sectors_per_track * v.sector_size <= usize::MAX
}

/// The request of a phase.
pub open spec fn request_of(v: JobView) -> DiskcopyRequest {
    match v.phase {
        DiskcopyPhase::PromptInsertSource | DiskcopyPhase::PromptInsertDest
        | DiskcopyPhase::PromptAnother => DiskcopyRequest::Key,
        DiskcopyPhase::ReadTracks => if v.current_track < v.total_tracks {
            DiskcopyRequest::Read {
                da_ua: v.src_da_ua,
                lba: track_lba(v) as u32,
                count: v.sectors_per_track as u32,
            }
        } else {
            DiskcopyRequest::Proceed
        },
        DiskcopyPhase::WriteTracks => if v.current_track < v.total_tracks {
            DiskcopyRequest::Write {
                da_ua: v.dst_da_ua,
                lba: track_lba(v) as u32,
                start: (v.current_track * track_size(v)) as usize,
                len: track_size(v) as usize,
            }
        } else {
            DiskcopyRequest::Proceed
        },
        DiskcopyPhase::VerifyTracks => if v.current_track < v.total_tracks {
            DiskcopyRequest::Read {
                da_ua: v.dst_da_ua,
                lba: track_lba(v) as u32,
                count: v.sectors_per_track as u32,
            }
        } else {
            DiskcopyRequest::Proceed
        },
        DiskcopyPhase::Summary => DiskcopyRequest::Proceed,
        DiskcopyPhase::Done(code) => DiskcopyRequest::Finished(code),
    }
}

/// A reply as the contracts see it.
pub enum ReplyView {
    NoKey,
    Key(u8),
    Data(Option<Seq<u8>>),
    Written(bool),
    Proceed,
}

pub open spec fn reply_view(r: DiskcopyReply) -> ReplyView {
    match r {
        DiskcopyReply::NoKey => ReplyView::NoKey,
        DiskcopyReply::Key(k) => ReplyView::Key(k),
        DiskcopyReply::Data(d) => ReplyView::Data(
            match d {
                Some(b) => Some(b@),
                None => None,
            },
        ),
        DiskcopyReply::Written(ok) => ReplyView::Written(ok),
        DiskcopyReply::Proceed => ReplyView::Proceed,
    }
}

/// The reply answers the request: a key answer for `Key`, data for
/// `Read`, a write result for `Write`, `Proceed` otherwise; and the track
/// to write or to compare is in the buffer, and a track read back for
/// comparison is complete.
pub open spec fn reply_fits(v: JobView, r: ReplyView) -> bool {
    match request_of(v) {
        DiskcopyRequest::Key => r is NoKey || r is Key,
        DiskcopyRequest::Read { .. } => {
            &&& r is Data
            &&& v.phase == DiskcopyPhase::VerifyTracks ==> {
                &&& v.current_track * track_size(v) + track_size(v) <= v.buffer.len()
                &&& r matches ReplyView::Data(Some(d)) ==> d.len() >= track_size(v)
            }
        },
        DiskcopyRequest::Write { start, len, .. } => r is Written && start + len
            <= v.buffer.len(),
        _ => r is Proceed,
    }
}

/// The phase that starts (or restarts) a copy, and the text shown: the
/// source prompt when one drive does both parts, else the reading notice.
pub open spec fn begin(v: JobView) -> (DiskcopyPhase, Seq<u8>) {
    if v.same_drive {
        (DiskcopyPhase::PromptInsertSource, source_prompt(v.src_drive_index))
    } else {
        (DiskcopyPhase::ReadTracks, reading_text())
    }
}

/// The job after a step, the text shown, whether a key is taken, and the
/// drive whose cached volume is dropped.
pub open spec fn next_of(v: JobView, r: ReplyView) -> (JobView, Seq<u8>, bool, Option<u8>) {
    let done = |c: u8| JobView { phase: DiskcopyPhase::Done(c), ..v };
    let next_track = JobView { current_track: (v.current_track + 1) as u32, ..v };
    match v.phase {
        DiskcopyPhase::PromptInsertSource => match r {
            ReplyView::Key(_) => (
                JobView { phase: DiskcopyPhase::ReadTracks, ..v },
                crlf() + reading_text(),
                true,
                None,
            ),
            _ => (v, Seq::empty(), false, None),
        },
        DiskcopyPhase::ReadTracks => if v.current_track >= v.total_tracks {
            if v.same_drive {
                (
                    JobView { current_track: 0, phase: DiskcopyPhase::PromptInsertDest, ..v },
                    dest_prompt(v.dst_drive_index),
                    false,
                    None,
                )
            } else {
                (
                    JobView { current_track: 0, phase: DiskcopyPhase::WriteTracks, ..v },
                    writing_text(),
                    false,
                    None,
                )
            }
        } else {
            match r {
                ReplyView::Data(Some(d)) => (
                    JobView { buffer: v.buffer + d, ..next_track },
                    Seq::empty(),
                    false,
                    None,
                ),
                _ => (done(1), "Read error on source disk\r\n".spec_bytes(), false, None),
            }
        },
        DiskcopyPhase::PromptInsertDest => match r {
            ReplyView::Key(_) => (
                JobView { phase: DiskcopyPhase::WriteTracks, ..v },
                crlf() + writing_text(),
                true,
                None,
            ),
            _ => (v, Seq::empty(), false, None),
        },
        DiskcopyPhase::WriteTracks => if v.current_track >= v.total_tracks {
            if v.verify {
                (
                    JobView { current_track: 0, phase: DiskcopyPhase::VerifyTracks, ..v },
                    verifying_text(),
                    false,
                    None,
                )
            } else {
                (JobView { phase: DiskcopyPhase::Summary, ..v }, Seq::empty(), false, None)
            }
        } else {
            match r {
                ReplyView::Written(true) => (next_track, Seq::empty(), false, None),
                _ => (done(1), "Write error on destination disk\r\n".spec_bytes(), false, None),
            }
        },
        DiskcopyPhase::VerifyTracks => if v.current_track >= v.total_tracks {
            (JobView { phase: DiskcopyPhase::Summary, ..v }, Seq::empty(), false, None)
        } else {
            let start = v.current_track * track_size(v);
            match r {
                ReplyView::Data(Some(d)) => if d.take(track_size(v)) == v.buffer.subrange(
                    start,
                    start + track_size(v),
                ) {
                    (next_track, Seq::empty(), false, None)
                } else {
                    (done(1), "Verify error\r\n".spec_bytes(), false, None)
                },
                _ => (done(1), "Verify error\r\n".spec_bytes(), false, None),
            }
        },
        DiskcopyPhase::Summary => (
            JobView { phase: DiskcopyPhase::PromptAnother, ..v },
            complete_text(),
            false,
            Some(v.dst_drive_index),
        ),
        DiskcopyPhase::PromptAnother => match r {
            ReplyView::Key(k) => if upper_byte(k) == 0x59 {
                let fresh = JobView { current_track: 0, buffer: Seq::empty(), ..v };
                let (phase, text) = begin(fresh);
                (JobView { phase, ..fresh }, crlf() + if v.same_drive {
                    crlf() + text
                } else {
                    text
                }, true, None)
            } else {
                (done(0), crlf(), true, None)
            },
            _ => (v, Seq::empty(), false, None),
        },
        DiskcopyPhase::Done(_) => (v, Seq::empty(), false, None),
    }
}

/// Appends a drive prompt: `lead`, the drive letter, and the key prompt.
fn push_drive_prompt(out: &mut Vec<u8>, lead: &str, drive: u8)
    requires
        drive < 26,
    ensures
        final(out)@ == old(out)@ + lead.spec_bytes() + seq![(0x41 + drive) as u8]
            + ":\r\nPress any key to continue . . .".spec_bytes(),
{
    push_bytes(out, lead.as_bytes());
    out.push(0x41 + drive);
    push_bytes(out, ":\r\nPress any key to continue . . .".as_bytes());
}

impl DiskcopyJob {
    /// Starts the copy; gives the text to show.
    pub fn start(&mut self) -> (out: Vec<u8>)
        requires
            job_wf(old(self)@),
        ensures
            final(self)@ == (JobView { phase: begin(old(self)@).0, ..old(self)@ }),
            out@ == begin(old(self)@).1,
    {
        let mut out: Vec<u8> = Vec::new();
        if self.same_drive {
            push_drive_prompt(&mut out, "Insert SOURCE diskette in drive ", self.src_drive_index);
            self.phase = DiskcopyPhase::PromptInsertSource;
        } else {
            push_bytes(&mut out, "\r\nReading from source disk . . .\r\n".as_bytes());
            self.phase = DiskcopyPhase::ReadTracks;
        }
        out
    }

    /// The outside work the current phase needs.
    pub fn request(&self) -> (r: DiskcopyRequest)
        requires
            job_wf(self@),
        ensures
            r == request_of(self@),
    {
        let ghost v = self@;
        let more = self.current_track < self.total_tracks;
        proof {
            if more {
                assert(v.current_track * v.sectors_per_track <= v.total_tracks
                    * v.sectors_per_track) by (nonlinear_arith)
                    requires
                        v.current_track < v.total_tracks,
                ;
                assert((v.current_track + 1) * v.sectors_per_track * v.sector_size
                    <= v.total_tracks * v.sectors_per_track * v.sector_size) by (nonlinear_arith)
                    requires
                        v.current_track < v.total_tracks,
                ;
                assert((v.current_track + 1) * v.sectors_per_track * v.sector_size == v.current_track
                    * track_size(v) + track_size(v)) by (nonlinear_arith);
                assert(v.current_track * track_size(v) >= 0) by (nonlinear_arith);
                assert(track_size(v) >= 0) by (nonlinear_arith);
            }
        }
        match self.phase {
            DiskcopyPhase::PromptInsertSource | DiskcopyPhase::PromptInsertDest
            | DiskcopyPhase::PromptAnother => DiskcopyRequest::Key,
            DiskcopyPhase::ReadTracks => if more {
                DiskcopyRequest::Read {
                    da_ua: self.src_da_ua,
                    lba: self.current_track * self.sectors_per_track as u32,
                    count: self.sectors_per_track as u32,
                }
            } else {
                DiskcopyRequest::Proceed
            },
            DiskcopyPhase::WriteTracks => if more {
                let size = self.sectors_per_track as usize * self.sector_size as usize;
                DiskcopyRequest::Write {
                    da_ua: self.dst_da_ua,
                    lba: self.current_track * self.sectors_per_track as u32,
                    start: self.current_track as usize * size,
                    len: size,
                }
            } else {
                DiskcopyRequest::Proceed
            },
            DiskcopyPhase::VerifyTracks => if more {
                DiskcopyRequest::Read {
                    da_ua: self.dst_da_ua,
                    lba: self.current_track * self.sectors_per_track as u32,
                    count: self.sectors_per_track as u32,
                }
            } else {
                DiskcopyRequest::Proceed
            },
            DiskcopyPhase::Summary => DiskcopyRequest::Proceed,
            DiskcopyPhase::Done(code) => DiskcopyRequest::Finished(code),
        }
    }

    /// Takes the answer to the current request and moves the copy on.
    pub fn advance(&mut self, reply: DiskcopyReply) -> (r: DiskcopyStep)
        requires
            job_wf(old(self)@),
            reply_fits(old(self)@, reply_view(reply)),
        ensures
            next_of(old(self)@, reply_view(reply)) == (
                final(self)@,
                r.output@,
                r.take_key,
                r.invalidate_drive,
            ),
            job_wf(final(self)@),
    {
        let ghost v = self@;
        let mut out: Vec<u8> = Vec::new();
        let more = self.current_track < self.total_tracks;
        proof {
            if more {
                assert((v.current_track + 1) * v.sectors_per_track * v.sector_size
                    <= v.total_tracks * v.sectors_per_track * v.sector_size) by (nonlinear_arith)
                    requires
                        v.current_track < v.total_tracks,
                ;
                assert((v.current_track + 1) * v.sectors_per_track * v.sector_size == v.current_track
                    * track_size(v) + track_size(v)) by (nonlinear_arith);
                assert(v.current_track * track_size(v) >= 0) by (nonlinear_arith);
                assert(track_size(v) >= 0) by (nonlinear_arith);
            }
        }
        match self.phase {
            DiskcopyPhase::PromptInsertSource => match reply {
                DiskcopyReply::Key(_) => {
                    push_bytes(&mut out, "\r\n".as_bytes());
                    push_bytes(&mut out, "\r\nReading from source disk . . .\r\n".as_bytes());
                    self.phase = DiskcopyPhase::ReadTracks;
                    DiskcopyStep { output: out, take_key: true, invalidate_drive: None }
                },
                _ => DiskcopyStep { output: out, take_key: false, invalidate_drive: None },
            },
            DiskcopyPhase::ReadTracks => {
                if !more {
                    self.current_track = 0;
                    if self.same_drive {
                        push_drive_prompt(&mut out, "\r\nInsert DESTINATION diskette in drive ", self.dst_drive_index);
                        self.phase = DiskcopyPhase::PromptInsertDest;
                    } else {
                        push_bytes(&mut out, "\r\nWriting to destination disk . . .\r\n".as_bytes());
                        self.phase = DiskcopyPhase::WriteTracks;
                    }
                    DiskcopyStep { output: out, take_key: false, invalidate_drive: None }
                } else {
                    match reply {
                        DiskcopyReply::Data(Some(data)) => {
                            push_bytes(&mut self.disk_buffer, data.as_slice());
                            self.current_track = self.current_track + 1;
                            DiskcopyStep { output: out, take_key: false, invalidate_drive: None }
                        },
                        _ => {
                            push_bytes(&mut out, "Read error on source disk\r\n".as_bytes());
                            self.phase = DiskcopyPhase::Done(1);
                            DiskcopyStep { output: out, take_key: false, invalidate_drive: None }
                        },
                    }
                }
            },
            DiskcopyPhase::PromptInsertDest => match reply {
                DiskcopyReply::Key(_) => {
                    push_bytes(&mut out, "\r\n".as_bytes());
                    push_bytes(&mut out, "\r\nWriting to destination disk . . .\r\n".as_bytes());
                    self.phase = DiskcopyPhase::WriteTracks;
                    DiskcopyStep { output: out, take_key: true, invalidate_drive: None }
                },
                _ => DiskcopyStep { output: out, take_key: false, invalidate_drive: None },
            },
            DiskcopyPhase::WriteTracks => {
                if !more {
                    if self.verify {
                        self.current_track = 0;
                        push_bytes(&mut out, "\r\nVerifying . . .\r\n".as_bytes());
                        self.phase = DiskcopyPhase::VerifyTracks;
                    } else {
                        self.phase = DiskcopyPhase::Summary;
                    }
                    DiskcopyStep { output: out, take_key: false, invalidate_drive: None }
                } else {
                    match reply {
                        DiskcopyReply::Written(true) => {
                            self.current_track = self.current_track + 1;
                            DiskcopyStep { output: out, take_key: false, invalidate_drive: None }
                        },
                        _ => {
                            push_bytes(&mut out, "Write error on destination disk\r\n".as_bytes());
                            self.phase = DiskcopyPhase::Done(1);
                            DiskcopyStep { output: out, take_key: false, invalidate_drive: None }
                        },
                    }
                }
            },
            DiskcopyPhase::VerifyTracks => {
                if !more {
                    self.phase = DiskcopyPhase::Summary;
                    DiskcopyStep { output: out, take_key: false, invalidate_drive: None }
                } else {
                    let size = self.sectors_per_track as usize * self.sector_size as usize;
                    let start = self.current_track as usize * size;
                    let matched = match reply {
                        DiskcopyReply::Data(Some(readback)) => same_bytes(
                            readback.as_slice(),
                            self.disk_buffer.as_slice(),
                            start,
                            size,
                        ),
                        _ => false,
                    };
                    if matched {
                        self.current_track = self.current_track + 1;
                    } else {
                        push_bytes(&mut out, "Verify error\r\n".as_bytes());
                        self.phase = DiskcopyPhase::Done(1);
                    }
                    DiskcopyStep { output: out, take_key: false, invalidate_drive: None }
                }
            },
            DiskcopyPhase::Summary => {
                push_bytes(&mut out, "\r\nCopy complete.\r\n\r\nCopy another diskette (Y/N)?".as_bytes());
                self.phase = DiskcopyPhase::PromptAnother;
                DiskcopyStep { output: out, take_key: false, invalidate_drive: Some(self.dst_drive_index) }
            },
            DiskcopyPhase::PromptAnother => match reply {
                DiskcopyReply::Key(key) => {
                    push_bytes(&mut out, "\r\n".as_bytes());
                    if ascii_upper(key) == 0x59 {
                        self.current_track = 0;
                        self.disk_buffer = Vec::new();
                        if self.same_drive {
                            push_bytes(&mut out, "\r\n".as_bytes());
                            push_drive_prompt(&mut out, "Insert SOURCE diskette in drive ", self.src_drive_index);
                            self.phase = DiskcopyPhase::PromptInsertSource;
                        } else {
                            push_bytes(&mut out, "\r\nReading from source disk . . .\r\n".as_bytes());
                            self.phase = DiskcopyPhase::ReadTracks;
                        }
                    } else {
                        self.phase = DiskcopyPhase::Done(0);
                    }
                    DiskcopyStep { output: out, take_key: true, invalidate_drive: None }
                },
                _ => DiskcopyStep { output: out, take_key: false, invalidate_drive: None },
            },
            DiskcopyPhase::Done(_) => DiskcopyStep { output: out, take_key: false, invalidate_drive: None },
        }
    }
}

/// Whether the first `len` bytes of `a` are `b`'s bytes `start..start + len`.
fn same_bytes(a: &[u8], b: &[u8], start: usize, len: usize) -> (r: bool)
    requires
        len <= a@.len(),
        start + len <= b.len(),
    ensures
        r == (a@.take(len as int) == b@.subrange(start as int, start + len)),
{
    let mut i: usize = 0;
    while i < len
        invariant
            len <= a@.len(),
            start + len <= b.len(),
            i <= len,
            forall|j: int| 0 <= j < i ==> a@[j] == b@[start + j],
        decreases len - i,
    {
        if a[i] != b[start + i] {
            assert(a@.take(len as int)[i as int] != b@.subrange(start as int, start + len)[i as int]);
            return false;
        }
        i = i + 1;
    }
    assert(a@.take(len as int) =~= b@.subrange(start as int, start + len));
    true
}

/// The drives a DISKCOPY command line names, with their DA/UA codes, and
/// whether `/V` asks for a verification.
#[derive(Debug, Clone, Copy, PartialEq, Eq)]
pub struct DiskcopyDrives {
    pub src_drive_index: u8,
    pub src_da_ua: u8,
    pub dst_drive_index: u8,
    pub dst_da_ua: u8,
    pub verify: bool,
}

/// A DA/UA code of a floppy drive DISKCOPY can copy: 1 MB (90h) or
/// 640 KB (70h) type.
pub open spec fn is_copyable_floppy(da_ua: u8) -> bool {
    da_ua != 0 && ((da_ua & 0xF0) == 0x90 || (da_ua & 0xF0) == 0x70)
}

pub open spec fn invalid_drive_text() -> Seq<char> {
    "Invalid drive specification\r\n"@
}

/// The drive a word names and its DA/UA code from the table at `table`
/// in memory `f`, or the message that refuses it.
pub open spec fn drive_of(f: Image, table: u32, word: Seq<u8>) -> Result<(u8, u8), Seq<char>> {
    match split_path_spec(word).0 {
        None => Err(invalid_drive_text()),
        Some(d) => {
            let da_ua = f((table + d) as u32);
            if is_copyable_floppy(da_ua) {
                Ok((d, da_ua))
            } else {
                Err(invalid_drive_text())
            }
        },
    }
}

/// What a DISKCOPY command line names: the source drive (first word that
/// is not a switch), the destination (the second, or the source again),
/// their DA/UA codes, and `/V`; or the message that refuses it.
pub open spec fn diskcopy_request(f: Image, table: u32, args: Seq<u8>) -> Result<
    (u8, u8, u8, u8, bool),
    Seq<char>,
> {
    let t = trim_ascii_spec(args);
    let words = plain_words(t);
    let verify = switch_letters(t).contains(0x56u8);
    if t.len() == 0 || words.len() == 0 {
        Err("Required parameter missing\r\n"@)
    } else {
        match drive_of(f, table, words[0]) {
            Err(m) => Err(m),
            Ok((s, sd)) => if words.len() >= 2 {
                match drive_of(f, table, words[1]) {
                    Err(m) => Err(m),
                    Ok((d, dd)) => Ok((s, sd, d, dd, verify)),
                }
            } else {
                Ok((s, sd, s, sd, verify))
            },
        }
    }
}

/// The drive a word names and its DA/UA code.
fn resolve_drive<M: MemoryAccess>(memory: &M, table: u32, word: &[u8]) -> (r: Result<(u8, u8), &'static str>)
    requires
        table + 255 <= u32::MAX,
    ensures
        match r {
            Ok(v) => drive_of(image(memory), table, word@) == Ok::<(u8, u8), Seq<char>>(v),
            Err(m) => drive_of(image(memory), table, word@) == Err::<(u8, u8), Seq<char>>(m@),
        },
{
    let (drive, _, _) = split_path(word);
    match drive {
        None => Err("Invalid drive specification\r\n"),
        Some(d) => {
            let da_ua = memory.read_byte(table + d as u32);
            if da_ua != 0 && ((da_ua & 0xF0) == 0x90 || (da_ua & 0xF0) == 0x70) {
                Ok((d, da_ua))
            } else {
                Err("Invalid drive specification\r\n")
            }
        },
    }
}

/// Reads a DISKCOPY command line and looks its drives up in the DA/UA
/// table at `table`.
pub fn diskcopy_drives<M: MemoryAccess>(memory: &M, table: u32, args: &[u8]) -> (r: Result<DiskcopyDrives, &'static str>)
    requires
        table + 255 <= u32::MAX,
    ensures
        match r {
            Ok(d) => diskcopy_request(image(memory), table, args@) == Ok::<(u8, u8, u8, u8, bool), Seq<char>>(
                (d.src_drive_index, d.src_da_ua, d.dst_drive_index, d.dst_da_ua, d.verify),
            ),
            Err(m) => diskcopy_request(image(memory), table, args@) == Err::<(u8, u8, u8, u8, bool), Seq<char>>(m@),
        },
{
    let args = trim_ascii(args);
    if args.len() == 0 {
        return Err("Required parameter missing\r\n");
    }
    let (words, letters) = parse_words(args);
    if words.len() == 0 {
        return Err("Required parameter missing\r\n");
    }
    let verify = contains_byte(letters.as_slice(), 0x56);
    let (src, src_da_ua) = match resolve_drive(memory, table, words[0].as_slice()) {
        Ok(v) => v,
        Err(m) => return Err(m),
    };
    if words.len() >= 2 {
        let (dst, dst_da_ua) = match resolve_drive(memory, table, words[1].as_slice()) {
            Ok(v) => v,
            Err(m) => return Err(m),
        };
        Ok(DiskcopyDrives { src_drive_index: src, src_da_ua, dst_drive_index: dst, dst_da_ua, verify })
    } else {
        Ok(DiskcopyDrives { src_drive_index: src, src_da_ua, dst_drive_index: src, dst_da_ua: src_da_ua, verify })
    }
}

/// The disk shape a drive reports: cylinders, heads, sectors per track.
pub type Geometry = (u16, u8, u8);

/// The job that copies between `drives`, from the source's geometry and
/// sector size (and, for two drives, the destination's, which must be the
/// same); or the message that refuses it.
pub open spec fn job_of(
    drives: DiskcopyDrives,
    src_geometry: Option<Geometry>,
    src_sector_size: Option<u16>,
    dst_geometry: Option<Geometry>,
    dst_sector_size: Option<u16>,
) -> Result<JobView, Seq<char>> {
    let same = drives.src_drive_index == drives.dst_drive_index;
    if src_geometry is None || src_sector_size is None {
        Err(invalid_drive_text())
    } else if !same && (dst_geometry is None || dst_sector_size is None) {
        Err(invalid_drive_text())
    } else if !same && (dst_geometry != src_geometry || dst_sector_size != src_sector_size) {
        Err("Drive types or diskette types not compatible\r\n"@)
    } else {
        let (cylinders, heads, spt) = src_geometry.unwrap();
        Ok(
            JobView {
                src_drive_index: drives.src_drive_index,
                src_da_ua: drives.src_da_ua,
                dst_drive_index: drives.dst_drive_index,
                dst_da_ua: drives.dst_da_ua,
                sectors_per_track: spt,
                sector_size: src_sector_size.unwrap(),
                total_tracks: (cylinders * heads) as u32,
                current_track: 0,
                same_drive: same,
                verify: drives.verify,
                buffer: Seq::empty(),
                phase: DiskcopyPhase::ReadTracks,
            },
        )
    }
}

/// Sets a copy up between `drives` from what the drives report of their
/// disks. The job starts with `start`.
pub fn diskcopy_job(
    drives: DiskcopyDrives,
    src_geometry: Option<Geometry>,
    src_sector_size: Option<u16>,
    dst_geometry: Option<Geometry>,
    dst_sector_size: Option<u16>,
) -> (r: Result<DiskcopyJob, &'static str>)
    requires
        drives.src_drive_index < 26,
        drives.dst_drive_index < 26,
        src_geometry is Some && src_sector_size is Some ==> src_geometry.unwrap().0
            * src_geometry.unwrap().1 * src_geometry.unwrap().2 * src_sector_size.unwrap()
            <= usize::MAX,
    ensures
        match r {
            Ok(job) => job_of(drives, src_geometry, src_sector_size, dst_geometry, dst_sector_size)
                == Ok::<JobView, Seq<char>>(job@) && job_wf(job@),
            Err(m) => job_of(drives, src_geometry, src_sector_size, dst_geometry, dst_sector_size)
                == Err::<JobView, Seq<char>>(m@),
        },
{
    let same = drives.src_drive_index == drives.dst_drive_index;
    let (cylinders, heads, spt) = match src_geometry {
        Some(g) => g,
        None => return Err("Invalid drive specification\r\n"),
    };
    let sector_size = match src_sector_size {
        Some(z) => z,
        None => return Err("Invalid drive specification\r\n"),
    };
    if !same {
        let dst = match dst_geometry {
            Some(g) => g,
            None => return Err("Invalid drive specification\r\n"),
        };
        let dst_size = match dst_sector_size {
            Some(z) => z,
            None => return Err("Invalid drive specification\r\n"),
        };
        if dst.0 != cylinders || dst.1 != heads || dst.2 != spt || dst_size != sector_size {
            return Err("Drive types or diskette types not compatible\r\n");
        }
    }
    assert(cylinders * heads <= 65535 * 255) by (nonlinear_arith)
        requires
            cylinders <= 65535,
            heads <= 255,
    ;
    assert(cylinders * heads * spt <= 65535 * 255 * 255) by (nonlinear_arith)
        requires
            cylinders * heads <= 65535 * 255,
            spt <= 255,
    ;
    let total_tracks = cylinders as u32 * heads as u32;
    Ok(DiskcopyJob {
        src_drive_index: drives.src_drive_index,
        src_da_ua: drives.src_da_ua,
        dst_drive_index: drives.dst_drive_index,
        dst_da_ua: drives.dst_da_ua,
        sectors_per_track: spt,
        sector_size,
        total_tracks,
        current_track: 0,
        same_drive: same,
        verify: drives.verify,
        disk_buffer: Vec::new(),
        phase: DiskcopyPhase::ReadTracks,
    })
}

/// The tracks read, end to end.
pub open spec fn joined(reads: Seq<Seq<u8>>) -> Seq<u8>
    decreases reads.len(),
{
    if reads.len() == 0 {
        Seq::empty()
    } else {
        joined(reads.drop_last()) + reads.last()
    }
}

/// The copy after the reads `reads` were answered in turn.
pub open spec fn after_reads(v: JobView, reads: Seq<Seq<u8>>) -> JobView
    decreases reads.len(),
{
    if reads.len() == 0 {
        v
    } else {
        next_of(after_reads(v, reads.drop_last()), ReplyView::Data(Some(reads.last()))).0
    }
}

/// The copy after `n` writes succeeded in turn.
pub open spec fn after_writes(v: JobView, n: nat) -> JobView
    decreases n,
{
    if n == 0 {
        v
    } else {
        next_of(after_writes(v, (n - 1) as nat), ReplyView::Written(true)).0
    }
}

/// Reading track after track appends each track to the buffer.
proof fn lemma_after_reads(v: JobView, reads: Seq<Seq<u8>>)
    requires
        v.phase == DiskcopyPhase::ReadTracks,
        v.current_track + reads.len() <= v.total_tracks,
    ensures
        after_reads(v, reads) == (JobView {
            buffer: v.buffer + joined(reads),
            current_track: (v.current_track + reads.len()) as u32,
            ..v
        }),
    decreases reads.len(),
{
    if reads.len() > 0 {
        lemma_after_reads(v, reads.drop_last());
        let before = after_reads(v, reads.drop_last());
        assert(before.buffer + reads.last() =~= v.buffer + joined(reads));
    } else {
        assert(v.buffer + joined(reads) =~= v.buffer);
    }
}

/// Writing track after track moves along the tracks and leaves the buffer.
proof fn lemma_after_writes(v: JobView, n: nat)
    requires
        v.phase == DiskcopyPhase::WriteTracks,
        v.current_track + n <= v.total_tracks,
    ensures
        after_writes(v, n) == (JobView { current_track: (v.current_track + n) as u32, ..v }),
    decreases n,
{
    if n > 0 {
        lemma_after_writes(v, (n - 1) as nat);
    }
}

/// In tracks of equal size, track `t` of the joined tracks is the `t`-th.
proof fn lemma_joined_track(reads: Seq<Seq<u8>>, size: int, t: int)
    requires
        size >= 0,
        forall|i: int| 0 <= i < reads.len() ==> (#[trigger] reads[i]).len() == size,
        0 <= t < reads.len(),
    ensures
        joined(reads).len() == reads.len() * size,
        joined(reads).subrange(t * size, t * size + size) == reads[t],
    decreases reads.len(),
{
    let n = reads.len();
    let init = reads.drop_last();
    assert forall|i: int| 0 <= i < init.len() implies (#[trigger] init[i]).len() == size by {
        assert(init[i] == reads[i]);
    }
    if t < n - 1 {
        lemma_joined_track(init, size, t);
    } else if n > 1 {
        lemma_joined_track(init, size, 0);
    }
    if n == 1 {
        assert(joined(init) =~= Seq::<u8>::empty());
    }
    assert(joined(reads) == joined(init) + reads.last());
    assert(joined(init).len() == (n - 1) * size);
    assert((n - 1) * size + size == n * size) by (nonlinear_arith);
    if t < n - 1 {
        assert(t * size + size <= (n - 1) * size) by (nonlinear_arith)
            requires
                t < n - 1,
                size >= 0,
        ;
        assert(t * size >= 0) by (nonlinear_arith)
            requires
                t >= 0,
                size >= 0,
        ;
        assert(joined(reads).subrange(t * size, t * size + size) =~= joined(init).subrange(
            t * size,
            t * size + size,
        ));
    } else {
        assert(t * size == (n - 1) * size);
        assert(joined(reads).subrange(t * size, t * size + size) =~= reads.last());
    }
}

/// DISKCOPY writes to each track of the destination what it read from the
/// same track of the source: starting with an empty buffer at track 0 and
/// with every read giving a track's bytes, the `t`-th read asks for the
/// source's sectors from `t` times the sectors per track on, and once the
/// write phase is reached (after the key that the destination prompt waits
/// for, when one drive does both) and `t` tracks are written, the write
/// asked for goes to the same sectors of the destination with the bytes of
/// the `t`-th read.
pub proof fn lemma_diskcopy_writes_what_it_read(v: JobView, reads: Seq<Seq<u8>>, key: u8, t: int)
    requires
        job_wf(v),
        v.phase == DiskcopyPhase::ReadTracks,
        v.current_track == 0,
        v.buffer.len() == 0,
        reads.len() == v.total_tracks,
        forall|i: int| 0 <= i < reads.len() ==> (#[trigger] reads[i]).len() == track_size(v),
        0 <= t < v.total_tracks,
    ensures
        request_of(after_reads(v, reads.take(t))) == (DiskcopyRequest::Read {
            da_ua: v.src_da_ua,
            lba: (t * v.sectors_per_track) as u32,
            count: v.sectors_per_track as u32,
        }),
        ({
            let read = after_reads(v, reads);
            let turned = next_of(read, ReplyView::Proceed).0;
            let writing = if v.same_drive {
                next_of(turned, ReplyView::Key(key)).0
            } else {
                turned
            };
            let w = after_writes(writing, t as nat);
            &&& request_of(w) == (DiskcopyRequest::Write {
                da_ua: v.dst_da_ua,
                lba: (t * v.sectors_per_track) as u32,
                start: (t * track_size(v)) as usize,
                len: track_size(v) as usize,
            })
            &&& w.buffer.subrange(t * track_size(v), t * track_size(v) + track_size(v)) == reads[t]
        }),
{
    let ts = track_size(v);
    assert(ts >= 0) by (nonlinear_arith)
        requires
            ts == v.sectors_per_track * v.sector_size,
    ;
    lemma_after_reads(v, reads.take(t));
    lemma_after_reads(v, reads);
    let read = after_reads(v, reads);
    assert(read.current_track == v.total_tracks);
    let turned = next_of(read, ReplyView::Proceed).0;
    let writing = if v.same_drive {
        next_of(turned, ReplyView::Key(key)).0
    } else {
        turned
    };
    assert(writing == (JobView { phase: DiskcopyPhase::WriteTracks, current_track: 0, ..read }));
    lemma_after_writes(writing, t as nat);
    let w = after_writes(writing, t as nat);
    lemma_joined_track(reads, ts, t);
    assert(v.buffer + joined(reads) =~= joined(reads));
    assert(w.buffer == joined(reads));
    assert(t * v.sectors_per_track <= v.total_tracks * v.sectors_per_track) by (nonlinear_arith)
        requires
            t < v.total_tracks,
    ;
    assert(w.current_track * ts == t * ts);
}

} // verus!
