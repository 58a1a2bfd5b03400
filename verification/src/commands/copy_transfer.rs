//! COPY: one file's copy once the command line has been resolved: the
//! overwrite question, the chunks read from the source and written to the
//! destination, the read-back check of each written cluster, the sources
//! joined by `A+B C`, and the count of files copied.
//!
//! The disk and host file work is outside: `request` names what the
//! current phase needs, and `advance` takes the answer and decides the next
//! phase and the text to show.

use vstd::prelude::*;
use vstd::string::StringSliceAdditionalSpecFns;
use crate::text::{push_bytes, upper_byte, decimal_digits, push_decimal_digits, space_bytes, push_space_bytes};
use crate::commands::dir::pad_left_bytes;

verus! {

/// The chunk read for a host destination, which has no cluster size.
pub const HOST_CHUNK_BYTES: u32 = 4096;

/// Where one file's copy stands.
#[derive(Clone, Copy, Debug, PartialEq, Eq, Structural)]
pub enum TransferPhase {
    /// Ask whether the destination exists.
    Begin,
    /// Wait for the answer to "Overwrite (Yes/No/All)?".
    ConfirmOverwrite,
    /// Open the source and create the destination.
    Open,
    ReadChunk,
    WriteChunk,
    /// Read back the cluster just written.
    VerifyChunk(u16),
    FinishFile,
    /// Find the next source to append.
    ConcatNextSource,
    ConcatRead,
    ConcatWrite,
    /// This file is done (or skipped): the next work item comes.
    NextItem,
    /// The command ended with this exit code.
    Done(u8),
}

/// One file's copy: its name as shown, whether the destination is on a DOS
/// drive (and its cluster size), the switches in force, the files copied so
/// far, the sources still to append, and the chunk in hand.
pub struct CopyTransfer {
    pub phase: TransferPhase,
    pub display_name: Vec<u8>,
    pub dst_is_dos: bool,
    pub dst_cluster_size: Option<u32>,
    pub verify: bool,
    pub overwrite_all: bool,
    pub files_copied: u32,
    pub concat_remaining: u32,
    pub data: Vec<u8>,
}

/// The outside work that the current phase needs.
#[derive(Debug, PartialEq, Eq)]
pub enum TransferRequest {
    /// Whether the destination file exists.
    DestinationExists,
    /// Whether a key is waiting, and which.
    Key,
    /// Open the source and create the destination; say whether the source
    /// is empty.
    Open,
    /// Read up to `chunk` bytes of the source.
    Read { chunk: u32 },
    /// Write the chunk in hand to the destination.
    Write,
    /// Read back this cluster of the destination.
    ReadCluster(u16),
    /// Close the destination.
    Finish,
    /// Find the next source to append.
    FindConcatSource,
    /// Nothing: the phase decides on its own.
    Proceed,
    /// Go on with the next work item.
    NextItem,
    /// Nothing more: the command has ended.
    Finished(u8),
}

/// The answer to a request.
#[derive(Debug)]
pub enum TransferReply {
    /// Whether the destination exists, or the message of why that could
    /// not be found out.
    Exists(Result<bool, Vec<u8>>),
    NoKey,
    Key(u8),
    /// Whether the source is empty, or the message of why the files could
    /// not be opened.
    Opened(Result<bool, Vec<u8>>),
    /// A chunk, `None` at the end of the source, or a read error.
    Data(Result<Option<Vec<u8>>, ()>),
    /// The cluster written, or the DOS error code.
    Written(Result<u16, u16>),
    /// The cluster read back; `None` when the drive has no volume.
    Cluster(Option<Result<Vec<u8>, ()>>),
    /// Whether the destination was closed.
    Closed(bool),
    /// The next source's name and size, or `None` when it is not found.
    Source(Option<(Vec<u8>, u32)>),
    Proceed,
}

/// A copy's values as the contracts see them.
pub struct TransferView {
    pub phase: TransferPhase,
    pub display_name: Seq<u8>,
    pub dst_is_dos: bool,
    pub dst_cluster_size: Option<u32>,
    pub verify: bool,
    pub overwrite_all: bool,
    pub files_copied: u32,
    pub concat_remaining: u32,
    pub data: Seq<u8>,
}

impl View for CopyTransfer {
    type V = TransferView;

    open spec fn view(&self) -> TransferView {
        TransferView {
            phase: self.phase,
            display_name: self.display_name@,
            dst_is_dos: self.dst_is_dos,
            dst_cluster_size: self.dst_cluster_size,
            verify: self.verify,
            overwrite_all: self.overwrite_all,
            files_copied: self.files_copied,
            concat_remaining: self.concat_remaining,
            data: self.data@,
        }
    }
}

/// A reply as the contracts see it.
pub enum ReplyView {
    Exists(Result<bool, Seq<u8>>),
    NoKey,
    Key(u8),
    Opened(Result<bool, Seq<u8>>),
    Data(Result<Option<Seq<u8>>, ()>),
    Written(Result<u16, u16>),
    Cluster(Option<Result<Seq<u8>, ()>>),
    Closed(bool),
    Source(Option<(Seq<u8>, u32)>),
    Proceed,
}

pub open spec fn reply_view(r: TransferReply) -> ReplyView {
    match r {
        TransferReply::Exists(e) => ReplyView::Exists(
            match e {
                Ok(b) => Ok(b),
                Err(m) => Err(m@),
            },
        ),
        TransferReply::NoKey => ReplyView::NoKey,
        TransferReply::Key(k) => ReplyView::Key(k),
        TransferReply::Opened(o) => ReplyView::Opened(
            match o {
                Ok(b) => Ok(b),
                Err(m) => Err(m@),
            },
        ),
        TransferReply::Data(d) => ReplyView::Data(
            match d {
                Ok(Some(b)) => Ok(Some(b@)),
                Ok(None) => Ok(None),
                Err(e) => Err(e),
            },
        ),
        TransferReply::Written(w) => ReplyView::Written(w),
        TransferReply::Cluster(c) => ReplyView::Cluster(
            match c {
                Some(Ok(b)) => Some(Ok(b@)),
                Some(Err(e)) => Some(Err(e)),
                None => None,
            },
        ),
        TransferReply::Closed(ok) => ReplyView::Closed(ok),
        TransferReply::Source(s) => ReplyView::Source(
            match s {
                Some((name, size)) => Some((name@, size)),
                None => None,
            },
        ),
        TransferReply::Proceed => ReplyView::Proceed,
    }
}

/// The chunk size read: the destination's cluster, else 4 KB.
pub open spec fn chunk_of(v: TransferView) -> u32 {
    match v.dst_cluster_size {
        Some(c) => c,
        None => HOST_CHUNK_BYTES,
    }
}

/// A copy whose steps can work: joined sources go to a DOS destination.
pub open spec fn transfer_wf(v: TransferView) -> bool {
    (v.phase == TransferPhase::ConcatNextSource || v.phase == TransferPhase::ConcatRead
        || v.phase == TransferPhase::ConcatWrite) ==> v.dst_is_dos
}

/// The request of a phase.
pub open spec fn request_of(v: TransferView) -> TransferRequest {
    match v.phase {
        TransferPhase::Begin => TransferRequest::DestinationExists,
        TransferPhase::ConfirmOverwrite => TransferRequest::Key,
        TransferPhase::Open => TransferRequest::Open,
        TransferPhase::ReadChunk | TransferPhase::ConcatRead => TransferRequest::Read { chunk: chunk_of(v) },
        TransferPhase::WriteChunk | TransferPhase::ConcatWrite => TransferRequest::Write,
        TransferPhase::VerifyChunk(c) => if v.dst_is_dos {
            TransferRequest::ReadCluster(c)
        } else {
            TransferRequest::Proceed
        },
        TransferPhase::FinishFile => TransferRequest::Finish,
        TransferPhase::ConcatNextSource => if v.concat_remaining > 0 {
            TransferRequest::FindConcatSource
        } else {
            TransferRequest::Proceed
        },
        TransferPhase::NextItem => TransferRequest::NextItem,
        TransferPhase::Done(code) => TransferRequest::Finished(code),
    }
}

/// The reply answers the request, and a cluster read back for comparison
/// holds at least the chunk written.
pub open spec fn reply_fits(v: TransferView, r: ReplyView) -> bool {
    match request_of(v) {
        TransferRequest::DestinationExists => r is Exists,
        TransferRequest::Key => r is NoKey || r is Key,
        TransferRequest::Open => r is Opened,
        TransferRequest::Read { .. } => r is Data,
        TransferRequest::Write => r is Written,
        TransferRequest::ReadCluster(_) => {
            &&& r is Cluster
            &&& r matches ReplyView::Cluster(Some(Ok(d))) ==> d.len() >= v.data.len()
        },
        TransferRequest::Finish => r is Closed,
        TransferRequest::FindConcatSource => r is Source,
        TransferRequest::Proceed => r is Proceed,
        _ => true,
    }
}

pub open spec fn crlf() -> Seq<u8> {
    "\r\n".spec_bytes()
}

pub open spec fn overwrite_prompt() -> Seq<u8> {
    "Overwrite (Yes/No/All)?".spec_bytes()
}

/// The copy with a new phase.
pub open spec fn to(v: TransferView, phase: TransferPhase) -> TransferView {
    TransferView { phase, ..v }
}

/// A failed write: the disk is full (error 1Fh on a DOS drive), or any
/// other failure.
pub open spec fn write_failure(v: TransferView, code: u16) -> (TransferView, Seq<u8>) {
    if v.dst_is_dos && code == 0x001F {
        (to(v, TransferPhase::Done(1)), "Insufficient disk space\r\n".spec_bytes())
    } else {
        (to(v, TransferPhase::Done(1)), "Write error\r\n".spec_bytes())
    }
}

/// The copy after a step, and the text shown.
pub open spec fn next_of(v: TransferView, r: ReplyView) -> (TransferView, Seq<u8>) {
    let start = v.display_name + crlf();
    match v.phase {
        TransferPhase::Begin => match r {
            ReplyView::Exists(Err(msg)) => (to(v, TransferPhase::Done(1)), msg),
            ReplyView::Exists(Ok(exists)) => if exists && !v.overwrite_all {
                (to(v, TransferPhase::ConfirmOverwrite), overwrite_prompt())
            } else {
                (to(v, TransferPhase::Open), start)
            },
            _ => (v, Seq::empty()),
        },
        TransferPhase::ConfirmOverwrite => match r {
            ReplyView::Key(k) => if upper_byte(k) == 0x59 {
                (to(v, TransferPhase::Open), crlf() + start)
            } else if upper_byte(k) == 0x41 {
                (TransferView { phase: TransferPhase::Open, overwrite_all: true, ..v }, crlf() + start)
            } else {
                (to(v, TransferPhase::NextItem), crlf())
            },
            _ => (v, Seq::empty()),
        },
        TransferPhase::Open => match r {
            ReplyView::Opened(Err(msg)) => (to(v, TransferPhase::Done(1)), msg),
            ReplyView::Opened(Ok(empty)) => if empty {
                (to(v, TransferPhase::FinishFile), Seq::empty())
            } else {
                (to(v, TransferPhase::ReadChunk), Seq::empty())
            },
            _ => (v, Seq::empty()),
        },
        TransferPhase::ReadChunk => match r {
            ReplyView::Data(Ok(Some(d))) => if d.len() == 0 {
                (to(v, TransferPhase::FinishFile), Seq::empty())
            } else {
                (TransferView { phase: TransferPhase::WriteChunk, data: d, ..v }, Seq::empty())
            },
            ReplyView::Data(Ok(None)) => (to(v, TransferPhase::FinishFile), Seq::empty()),
            ReplyView::Data(Err(_)) => (to(v, TransferPhase::Done(1)), "Read error\r\n".spec_bytes()),
            _ => (v, Seq::empty()),
        },
        TransferPhase::WriteChunk => match r {
            ReplyView::Written(Ok(cluster)) => if v.dst_is_dos && v.verify {
                (to(v, TransferPhase::VerifyChunk(cluster)), Seq::empty())
            } else {
                (to(v, TransferPhase::ReadChunk), Seq::empty())
            },
            ReplyView::Written(Err(code)) => write_failure(v, code),
            _ => (v, Seq::empty()),
        },
        TransferPhase::VerifyChunk(_) => if !v.dst_is_dos {
            (to(v, TransferPhase::ReadChunk), Seq::empty())
        } else {
            match r {
                ReplyView::Cluster(None) => (to(v, TransferPhase::Done(1)), Seq::empty()),
                ReplyView::Cluster(Some(Ok(back))) => if back.take(v.data.len() as int) == v.data {
                    (to(v, TransferPhase::ReadChunk), Seq::empty())
                } else {
                    (to(v, TransferPhase::Done(1)), "Verify error\r\n".spec_bytes())
                },
                ReplyView::Cluster(Some(Err(_))) => (to(v, TransferPhase::Done(1)), "Verify error\r\n".spec_bytes()),
                _ => (v, Seq::empty()),
            }
        },
        TransferPhase::FinishFile => match r {
            ReplyView::Closed(true) => (
                TransferView { phase: TransferPhase::NextItem, files_copied: (v.files_copied + 1) as u32, ..v },
                Seq::empty(),
            ),
            ReplyView::Closed(false) => if v.dst_is_dos {
                (to(v, TransferPhase::Done(1)), "Unable to create destination\r\n".spec_bytes())
            } else {
                (to(v, TransferPhase::Done(1)), "Write error\r\n".spec_bytes())
            },
            _ => (v, Seq::empty()),
        },
        TransferPhase::ConcatNextSource => if v.concat_remaining == 0 {
            (to(v, TransferPhase::FinishFile), Seq::empty())
        } else {
            let fewer = TransferView { concat_remaining: (v.concat_remaining - 1) as u32, ..v };
            match r {
                ReplyView::Source(None) => (fewer, Seq::empty()),
                ReplyView::Source(Some((name, size))) => if size == 0 {
                    (fewer, name + crlf())
                } else {
                    (to(fewer, TransferPhase::ConcatRead), name + crlf())
                },
                _ => (v, Seq::empty()),
            }
        },
        TransferPhase::ConcatRead => match r {
            ReplyView::Data(Ok(Some(d))) => if d.len() == 0 {
                (to(v, TransferPhase::ConcatNextSource), Seq::empty())
            } else {
                (TransferView { phase: TransferPhase::ConcatWrite, data: d, ..v }, Seq::empty())
            },
            ReplyView::Data(Ok(None)) => (to(v, TransferPhase::ConcatNextSource), Seq::empty()),
            ReplyView::Data(Err(_)) => (to(v, TransferPhase::Done(1)), "Read error\r\n".spec_bytes()),
            _ => (v, Seq::empty()),
        },
        TransferPhase::ConcatWrite => match r {
            ReplyView::Written(Ok(_)) => (to(v, TransferPhase::ConcatRead), Seq::empty()),
            ReplyView::Written(Err(code)) => write_failure(v, code),
            _ => (v, Seq::empty()),
        },
        TransferPhase::NextItem | TransferPhase::Done(_) => (v, Seq::empty()),
    }
}

/// Compares the first `data.len()` bytes read back with the data written.
fn same_prefix(back: &[u8], data: &[u8]) -> (r: bool)
    requires
        back@.len() >= data@.len(),
    ensures
        r == (back@.take(data@.len() as int) == data@),
{
    let mut i: usize = 0;
    while i < data.len()
        invariant
            i <= data@.len(),
            back@.len() >= data@.len(),
            forall|j: int| 0 <= j < i ==> back@[j] == data@[j],
        decreases data.len() - i,
    {
        if back[i] != data[i] {
            assert(back@.take(data@.len() as int)[i as int] != data@[i as int]);
            return false;
        }
        i = i + 1;
    }
    assert(back@.take(data@.len() as int) =~= data@);
    true
}

impl CopyTransfer {
    /// The outside work the current phase needs.
    pub fn request(&self) -> (r: TransferRequest)
        ensures
            r == request_of(self@),
    {
        let chunk = match self.dst_cluster_size {
            Some(c) => c,
            None => HOST_CHUNK_BYTES,
        };
        match self.phase {
            TransferPhase::Begin => TransferRequest::DestinationExists,
            TransferPhase::ConfirmOverwrite => TransferRequest::Key,
            TransferPhase::Open => TransferRequest::Open,
            TransferPhase::ReadChunk | TransferPhase::ConcatRead => TransferRequest::Read { chunk },
            TransferPhase::WriteChunk | TransferPhase::ConcatWrite => TransferRequest::Write,
            TransferPhase::VerifyChunk(c) => if self.dst_is_dos {
                TransferRequest::ReadCluster(c)
            } else {
                TransferRequest::Proceed
            },
            TransferPhase::FinishFile => TransferRequest::Finish,
            TransferPhase::ConcatNextSource => if self.concat_remaining > 0 {
                TransferRequest::FindConcatSource
            } else {
                TransferRequest::Proceed
            },
            TransferPhase::NextItem => TransferRequest::NextItem,
            TransferPhase::Done(code) => TransferRequest::Finished(code),
        }
    }

    /// Sets the failed-write outcome.
    fn fail_write(&mut self, code: u16, out: &mut Vec<u8>)
        ensures
            (final(self)@, final(out)@) == ({
                let (w, text) = write_failure(old(self)@, code);
                (w, old(out)@ + text)
            }),
    {
        self.phase = TransferPhase::Done(1);
        if self.dst_is_dos && code == 0x001F {
            push_bytes(out, "Insufficient disk space\r\n".as_bytes());
        } else {
            push_bytes(out, "Write error\r\n".as_bytes());
        }
    }

    /// Takes the answer to the current request and moves the copy on;
    /// gives the text to show.
    pub fn advance(&mut self, reply: TransferReply) -> (out: Vec<u8>)
        requires
            transfer_wf(old(self)@),
            reply_fits(old(self)@, reply_view(reply)),
            old(self)@.phase == TransferPhase::FinishFile ==> old(self)@.files_copied < u32::MAX,
        ensures
            next_of(old(self)@, reply_view(reply)) == (final(self)@, out@),
            transfer_wf(final(self)@),
    {
        let mut out: Vec<u8> = Vec::new();
        match self.phase {
            TransferPhase::Begin => match reply {
                TransferReply::Exists(Err(msg)) => {
                    self.phase = TransferPhase::Done(1);
                    push_bytes(&mut out, msg.as_slice());
                },
                TransferReply::Exists(Ok(exists)) => {
                    if exists && !self.overwrite_all {
                        push_bytes(&mut out, "Overwrite (Yes/No/All)?".as_bytes());
                        self.phase = TransferPhase::ConfirmOverwrite;
                    } else {
                        push_bytes(&mut out, self.display_name.as_slice());
                        push_bytes(&mut out, "\r\n".as_bytes());
                        self.phase = TransferPhase::Open;
                    }
                },
                _ => {},
            },
            TransferPhase::ConfirmOverwrite => match reply {
                TransferReply::Key(k) => {
                    push_bytes(&mut out, "\r\n".as_bytes());
                    let key = if 0x61 <= k && k <= 0x7A {
                        k - 0x20
                    } else {
                        k
                    };
                    if key == 0x59 || key == 0x41 {
                        if key == 0x41 {
                            self.overwrite_all = true;
                        }
                        push_bytes(&mut out, self.display_name.as_slice());
                        push_bytes(&mut out, "\r\n".as_bytes());
                        self.phase = TransferPhase::Open;
                    } else {
                        self.phase = TransferPhase::NextItem;
                    }
                },
                _ => {},
            },
            TransferPhase::Open => match reply {
                TransferReply::Opened(Err(msg)) => {
                    self.phase = TransferPhase::Done(1);
                    push_bytes(&mut out, msg.as_slice());
                },
                TransferReply::Opened(Ok(empty)) => {
                    self.phase = if empty {
                        TransferPhase::FinishFile
                    } else {
                        TransferPhase::ReadChunk
                    };
                },
                _ => {},
            },
            TransferPhase::ReadChunk => match reply {
                TransferReply::Data(Ok(Some(d))) => {
                    if d.len() == 0 {
                        self.phase = TransferPhase::FinishFile;
                    } else {
                        self.data = d;
                        self.phase = TransferPhase::WriteChunk;
                    }
                },
                TransferReply::Data(Ok(None)) => {
                    self.phase = TransferPhase::FinishFile;
                },
                TransferReply::Data(Err(_)) => {
                    self.phase = TransferPhase::Done(1);
                    push_bytes(&mut out, "Read error\r\n".as_bytes());
                },
                _ => {},
            },
            TransferPhase::WriteChunk => match reply {
                TransferReply::Written(Ok(cluster)) => {
                    self.phase = if self.dst_is_dos && self.verify {
                        TransferPhase::VerifyChunk(cluster)
                    } else {
                        TransferPhase::ReadChunk
                    };
                },
                TransferReply::Written(Err(code)) => {
                    self.fail_write(code, &mut out);
                },
                _ => {},
            },
            TransferPhase::VerifyChunk(_) => {
                if !self.dst_is_dos {
                    self.phase = TransferPhase::ReadChunk;
                } else {
                    match reply {
                        TransferReply::Cluster(None) => {
                            self.phase = TransferPhase::Done(1);
                        },
                        TransferReply::Cluster(Some(Ok(back))) => {
                            if same_prefix(back.as_slice(), self.data.as_slice()) {
                                self.phase = TransferPhase::ReadChunk;
                            } else {
                                self.phase = TransferPhase::Done(1);
                                push_bytes(&mut out, "Verify error\r\n".as_bytes());
                            }
                        },
                        TransferReply::Cluster(Some(Err(_))) => {
                            self.phase = TransferPhase::Done(1);
                            push_bytes(&mut out, "Verify error\r\n".as_bytes());
                        },
                        _ => {},
                    }
                }
            },
            TransferPhase::FinishFile => match reply {
                TransferReply::Closed(true) => {
                    self.files_copied = self.files_copied + 1;
                    self.phase = TransferPhase::NextItem;
                },
                TransferReply::Closed(false) => {
                    self.phase = TransferPhase::Done(1);
                    if self.dst_is_dos {
                        push_bytes(&mut out, "Unable to create destination\r\n".as_bytes());
                    } else {
                        push_bytes(&mut out, "Write error\r\n".as_bytes());
                    }
                },
                _ => {},
            },
            TransferPhase::ConcatNextSource => {
                if self.concat_remaining == 0 {
                    self.phase = TransferPhase::FinishFile;
                } else {
                    match reply {
                        TransferReply::Source(None) => {
                            self.concat_remaining = self.concat_remaining - 1;
                        },
                        TransferReply::Source(Some((name, size))) => {
                            self.concat_remaining = self.concat_remaining - 1;
                            push_bytes(&mut out, name.as_slice());
                            push_bytes(&mut out, "\r\n".as_bytes());
                            if size != 0 {
                                self.phase = TransferPhase::ConcatRead;
                            }
                        },
                        _ => {},
                    }
                }
            },
            TransferPhase::ConcatRead => match reply {
                TransferReply::Data(Ok(Some(d))) => {
                    if d.len() == 0 {
                        self.phase = TransferPhase::ConcatNextSource;
                    } else {
                        self.data = d;
                        self.phase = TransferPhase::ConcatWrite;
                    }
                },
                TransferReply::Data(Ok(None)) => {
                    self.phase = TransferPhase::ConcatNextSource;
                },
                TransferReply::Data(Err(_)) => {
                    self.phase = TransferPhase::Done(1);
                    push_bytes(&mut out, "Read error\r\n".as_bytes());
                },
                _ => {},
            },
            TransferPhase::ConcatWrite => match reply {
                TransferReply::Written(Ok(_)) => {
                    self.phase = TransferPhase::ConcatRead;
                },
                TransferReply::Written(Err(code)) => {
                    self.fail_write(code, &mut out);
                },
                _ => {},
            },
            TransferPhase::NextItem | TransferPhase::Done(_) => {},
        }
        assert(out@ == next_of(old(self)@, reply_view(reply)).1);
        out
    }
}

/// The copy after each of `chunks` was read and written in turn.
pub open spec fn after_chunks(v: TransferView, chunks: Seq<Seq<u8>>) -> TransferView
    decreases chunks.len(),
{
    if chunks.len() == 0 {
        v
    } else {
        let before = after_chunks(v, chunks.drop_last());
        let read = next_of(before, ReplyView::Data(Ok(Some(chunks.last())))).0;
        next_of(read, ReplyView::Written(Ok(0))).0
    }
}

/// COPY writes what it reads, chunk by chunk, and counts the file once it
/// is closed: from the read phase of a copy that does not read clusters
/// back, with chunks that are not empty each answered by a successful
/// write, the `i`-th write asked for carries the `i`-th chunk read; after
/// the last one the copy reads again, and when the source then ends and
/// the destination is closed, the next work item comes with one more file
/// copied.
pub proof fn lemma_copy_writes_what_it_reads(v: TransferView, chunks: Seq<Seq<u8>>, i: int)
    requires
        v.phase == TransferPhase::ReadChunk,
        !(v.dst_is_dos && v.verify),
        forall|k: int| 0 <= k < chunks.len() ==> (#[trigger] chunks[k]).len() > 0,
        0 <= i < chunks.len(),
    ensures
        ({
            let w = next_of(after_chunks(v, chunks.take(i)), ReplyView::Data(Ok(Some(chunks[i])))).0;
            &&& request_of(w) == TransferRequest::Write
            &&& w.data == chunks[i]
        }),
        after_chunks(v, chunks) == (TransferView { data: chunks.last(), ..v }),
        ({
            let ended = next_of(after_chunks(v, chunks), ReplyView::Data(Ok(None))).0;
            &&& request_of(ended) == TransferRequest::Finish
            &&& next_of(ended, ReplyView::Closed(true)).0 == (TransferView {
                phase: TransferPhase::NextItem,
                files_copied: (v.files_copied + 1) as u32,
                data: chunks.last(),
                ..v
            })
        }),
{
    lemma_after_chunks(v, chunks.take(i));
    lemma_after_chunks(v, chunks);
}

/// Each chunk read and written leaves the copy reading again, holding the
/// last chunk.
proof fn lemma_after_chunks(v: TransferView, chunks: Seq<Seq<u8>>)
    requires
        v.phase == TransferPhase::ReadChunk,
        !(v.dst_is_dos && v.verify),
        forall|k: int| 0 <= k < chunks.len() ==> (#[trigger] chunks[k]).len() > 0,
    ensures
        after_chunks(v, chunks) == (if chunks.len() == 0 {
            v
        } else {
            TransferView { data: chunks.last(), ..v }
        }),
    decreases chunks.len(),
{
    if chunks.len() > 0 {
        let init = chunks.drop_last();
        assert forall|k: int| 0 <= k < init.len() implies (#[trigger] init[k]).len() > 0 by {
            assert(init[k] == chunks[k]);
        }
        lemma_after_chunks(v, init);
        assert(chunks.last() == chunks[chunks.len() - 1]);
    }
}

/// The count line after a copy: the number right-aligned in four columns.
pub open spec fn copied_text(count: u32) -> Seq<u8> {
    "     ".spec_bytes() + pad_left_bytes(decimal_digits(count as nat), 4) + " file(s) copied\r\n".spec_bytes()
}

/// What COPY shows when its work items run out, and its exit code: "File
/// not found" when nothing was copied, else the count line.
pub fn copy_finish(files_copied: u32) -> (r: (Vec<u8>, u8))
    ensures
        r.0@ == (if files_copied == 0 {
            "File not found\r\n".spec_bytes()
        } else {
            copied_text(files_copied)
        }),
        r.1 == (if files_copied == 0 {
            1u8
        } else {
            0u8
        }),
{
    let mut out: Vec<u8> = Vec::new();
    if files_copied == 0 {
        push_bytes(&mut out, "File not found\r\n".as_bytes());
        return (out, 1);
    }
    push_bytes(&mut out, "     ".as_bytes());
    let mut digits: Vec<u8> = Vec::new();
    push_decimal_digits(&mut digits, files_copied as u64);
    if digits.len() < 4 {
        push_space_bytes(&mut out, 4 - digits.len());
    }
    push_bytes(&mut out, digits.as_slice());
    assert(out@ =~= "     ".spec_bytes() + pad_left_bytes(decimal_digits(files_copied as nat), 4));
    push_bytes(&mut out, " file(s) copied\r\n".as_bytes());
    (out, 0)
}

} // verus!
