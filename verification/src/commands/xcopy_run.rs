//! XCOPY's run once its command line has been resolved: each matching
//! file of the source directory (asked about first with `/P`) is copied
//! chunk by chunk, and with `/S` or `/E` the subdirectories are made on the
//! destination and visited in turn, last found first.
//!
//! Directories are named by the keys the caller gives them. The disk work
//! is outside: `request` names what the current phase needs, and `advance`
//! takes the answer and decides the next phase and the text to show.

use vstd::prelude::*;
use vstd::string::StringSliceAdditionalSpecFns;
use crate::text::{push_bytes, decimal_digits, push_decimal_digits};
use crate::commands::dir::{ReadDirEntry, ATTR_DIRECTORY, has_attr, display_name, fcb_to_display_name, entry_is_directory};
use crate::commands::xcopy::is_dot_directory;

verus! {

/// Where the run stands.
#[derive(Clone, Copy, Debug, PartialEq, Eq, Structural)]
pub enum XcopyPhase {
    /// Find the next entry of the source directory.
    FindNext,
    /// Wait for the answer to "(Y/N)?" about the entry at hand.
    PromptFile,
    ReadChunk,
    WriteChunk,
    FinishFile,
    /// List the entries of the source directory, to find its
    /// subdirectories.
    ListSubdirs,
    /// Make the destination of the subdirectory with this index.
    MakeSubdir(usize),
    /// Ask whether the subdirectory with this index holds anything; its
    /// destination cluster is given.
    CheckSubdir(usize, u16),
    /// Show the count of files copied.
    Summary,
    /// The command ended with this exit code.
    Done(u8),
}

/// The run: where it is in the source and destination trees, the switches,
/// the files copied, the directories still to visit, the entry and the
/// chunk at hand, and the subdirectories found by the last scan.
pub struct XcopyRun {
    pub phase: XcopyPhase,
    pub src_directory: u32,
    pub search_index: u16,
    pub dst_dir_cluster: u16,
    pub files_copied: u32,
    pub recursive: bool,
    pub copy_empty_dirs: bool,
    pub prompt_each: bool,
    pub dir_stack: Vec<(u32, u16)>,
    pub entry: ReadDirEntry,
    pub data: Vec<u8>,
    pub subdirs: Vec<(ReadDirEntry, u32)>,
}

/// The outside work that the current phase needs.
#[derive(Debug, PartialEq, Eq)]
pub enum XcopyRequest {
    /// Find the next entry of `directory` that matches the source pattern,
    /// from `search_index` on.
    FindEntry { directory: u32, search_index: u16 },
    /// Whether a key is waiting, and which.
    Key,
    /// Read the next chunk of the entry at hand (a destination cluster's
    /// worth).
    Read,
    /// Write the chunk in hand.
    Write,
    /// Close the destination file.
    Finish,
    /// List every entry of `directory`, hidden and system ones included.
    ListEntries { directory: u32 },
    /// Make (or find) the directory `name` in the destination directory
    /// `parent`.
    MakeDirectory { parent: u16, name: [u8; 11] },
    /// Whether `directory` holds any entry.
    HasEntries { directory: u32 },
    /// Nothing: the phase decides on its own.
    Proceed,
    /// Nothing more: the command has ended.
    Finished(u8),
}

/// What a chunk read gave.
#[derive(Debug)]
pub enum ChunkRead {
    /// A drive has no volume.
    NoVolume,
    /// The file is read to its end.
    End,
    Bytes(Vec<u8>),
    Failed,
}

/// The answer to a request.
#[derive(Debug)]
pub enum XcopyReply {
    /// The entry found and the search index after it, `None` when no more
    /// match, or a failed search.
    Found(Result<Option<(ReadDirEntry, u16)>, ()>),
    NoKey,
    Key(u8),
    Chunk(ChunkRead),
    /// Whether the write succeeded, or the DOS error code.
    Written(Result<(), u16>),
    /// Whether the destination file was closed.
    Closed(bool),
    /// The entries of a directory, each with the directory it names when
    /// it is one that can be entered.
    Entries(Vec<(ReadDirEntry, Option<u32>)>),
    /// The destination directory's cluster, or `None` when it could not be
    /// made.
    Made(Option<u16>),
    /// Whether the directory holds anything; `None` when that could not be
    /// found out.
    HasEntries(Option<bool>),
    Proceed,
}

/// A run's values as the contracts see it.
pub struct RunView {
    pub phase: XcopyPhase,
    pub src_directory: u32,
    pub search_index: u16,
    pub dst_dir_cluster: u16,
    pub files_copied: u32,
    pub recursive: bool,
    pub copy_empty_dirs: bool,
    pub prompt_each: bool,
    pub dir_stack: Seq<(u32, u16)>,
    pub entry: ReadDirEntry,
    pub data: Seq<u8>,
    pub subdirs: Seq<(ReadDirEntry, u32)>,
}

impl View for XcopyRun {
    type V = RunView;

    open spec fn view(&self) -> RunView {
        RunView {
            phase: self.phase,
            src_directory: self.src_directory,
            search_index: self.search_index,
            dst_dir_cluster: self.dst_dir_cluster,
            files_copied: self.files_copied,
            recursive: self.recursive,
            copy_empty_dirs: self.copy_empty_dirs,
            prompt_each: self.prompt_each,
            dir_stack: self.dir_stack@,
            entry: self.entry,
            data: self.data@,
            subdirs: self.subdirs@,
        }
    }
}

/// A reply as the contracts see it.
pub enum ReplyView {
    Found(Result<Option<(ReadDirEntry, u16)>, ()>),
    NoKey,
    Key(u8),
    NoVolume,
    End,
    Bytes(Seq<u8>),
    Failed,
    Written(Result<(), u16>),
    Closed(bool),
    Entries(Seq<(ReadDirEntry, Option<u32>)>),
    Made(Option<u16>),
    HasEntries(Option<bool>),
    Proceed,
}

pub open spec fn reply_view(r: XcopyReply) -> ReplyView {
    match r {
        XcopyReply::Found(f) => ReplyView::Found(f),
        XcopyReply::NoKey => ReplyView::NoKey,
        XcopyReply::Key(k) => ReplyView::Key(k),
        XcopyReply::Chunk(c) => match c {
            ChunkRead::NoVolume => ReplyView::NoVolume,
            ChunkRead::End => ReplyView::End,
            ChunkRead::Bytes(b) => ReplyView::Bytes(b@),
            ChunkRead::Failed => ReplyView::Failed,
        },
        XcopyReply::Written(w) => ReplyView::Written(w),
        XcopyReply::Closed(ok) => ReplyView::Closed(ok),
        XcopyReply::Entries(e) => ReplyView::Entries(e@),
        XcopyReply::Made(m) => ReplyView::Made(m),
        XcopyReply::HasEntries(h) => ReplyView::HasEntries(h),
        XcopyReply::Proceed => ReplyView::Proceed,
    }
}

/// A run whose steps can work: a subdirectory index names a subdirectory
/// found (or, when making, the end of the list).
pub open spec fn run_wf(v: RunView) -> bool {
    &&& v.phase matches XcopyPhase::MakeSubdir(i) ==> i <= v.subdirs.len()
    &&& v.phase matches XcopyPhase::CheckSubdir(i, _) ==> i < v.subdirs.len()
}

/// The request of a phase.
pub open spec fn request_of(v: RunView) -> XcopyRequest {
    match v.phase {
        XcopyPhase::FindNext => XcopyRequest::FindEntry { directory: v.src_directory, search_index: v.search_index },
        XcopyPhase::PromptFile => XcopyRequest::Key,
        XcopyPhase::ReadChunk => XcopyRequest::Read,
        XcopyPhase::WriteChunk => XcopyRequest::Write,
        XcopyPhase::FinishFile => XcopyRequest::Finish,
        XcopyPhase::ListSubdirs => XcopyRequest::ListEntries { directory: v.src_directory },
        XcopyPhase::MakeSubdir(i) => if i < v.subdirs.len() {
            XcopyRequest::MakeDirectory { parent: v.dst_dir_cluster, name: v.subdirs[i as int].0.name }
        } else {
            XcopyRequest::Proceed
        },
        XcopyPhase::CheckSubdir(i, _) => XcopyRequest::HasEntries { directory: v.subdirs[i as int].1 },
        XcopyPhase::Summary => XcopyRequest::Proceed,
        XcopyPhase::Done(code) => XcopyRequest::Finished(code),
    }
}

/// The reply answers the request.
pub open spec fn reply_fits(v: RunView, r: ReplyView) -> bool {
    match request_of(v) {
        XcopyRequest::FindEntry { .. } => r is Found,
        XcopyRequest::Key => r is NoKey || r is Key,
        XcopyRequest::Read => r is NoVolume || r is End || r is Bytes || r is Failed,
        XcopyRequest::Write => r is Written,
        XcopyRequest::Finish => r is Closed,
        XcopyRequest::ListEntries { .. } => r is Entries,
        XcopyRequest::MakeDirectory { .. } => r is Made,
        XcopyRequest::HasEntries { .. } => r is HasEntries,
        XcopyRequest::Proceed => r is Proceed,
        XcopyRequest::Finished(_) => true,
    }
}

/// The entries of a scan that the run descends into: subdirectories other
/// than `.` and `..` that can be entered, with the directories they name.
pub open spec fn descended(found: Seq<(ReadDirEntry, Option<u32>)>) -> Seq<(ReadDirEntry, u32)>
    decreases found.len(),
{
    if found.len() == 0 {
        Seq::empty()
    } else {
        let rest = descended(found.drop_last());
        let (e, d) = found.last();
        let dot = display_name(e.name@).len() == 0 || display_name(e.name@) == seq![0x2Eu8]
            || display_name(e.name@) == seq![0x2Eu8, 0x2Eu8];
        if has_attr(e.attribute, ATTR_DIRECTORY) && !dot && d is Some {
            rest.push((e, d->0))
        } else {
            rest
        }
    }
}

/// The next directory to visit after a scan: the last one on the stack,
/// or the count line when none is left.
pub open spec fn after_scan(v: RunView) -> (RunView, Seq<u8>) {
    if v.dir_stack.len() > 0 {
        let (d, c) = v.dir_stack.last();
        (
            RunView {
                phase: XcopyPhase::FindNext,
                src_directory: d,
                dst_dir_cluster: c,
                search_index: 0,
                dir_stack: v.dir_stack.drop_last(),
                ..v
            },
            Seq::empty(),
        )
    } else {
        (RunView { phase: XcopyPhase::Summary, ..v }, Seq::empty())
    }
}

/// Starting the copy of an entry: straight to closing an empty file, else
/// to its first chunk.
pub open spec fn start_copy(v: RunView, e: ReadDirEntry) -> RunView {
    RunView {
        phase: if e.file_size == 0 {
            XcopyPhase::FinishFile
        } else {
            XcopyPhase::ReadChunk
        },
        entry: e,
        ..v
    }
}

/// The count line.
pub open spec fn summary_text(count: u32) -> Seq<u8> {
    decimal_digits(count as nat) + " File(s) copied\r\n".spec_bytes()
}

/// The run after a step, and the text shown.
pub open spec fn next_of(v: RunView, r: ReplyView) -> (RunView, Seq<u8>) {
    let crlf = "\r\n".spec_bytes();
    match v.phase {
        XcopyPhase::FindNext => match r {
            ReplyView::Found(Ok(Some((e, next)))) => {
                let w = RunView { search_index: next, ..v };
                if has_attr(e.attribute, ATTR_DIRECTORY) {
                    (w, Seq::empty())
                } else if v.prompt_each {
                    (
                        RunView { phase: XcopyPhase::PromptFile, entry: e, ..w },
                        display_name(e.name@) + " (Y/N)?".spec_bytes(),
                    )
                } else {
                    (start_copy(w, e), display_name(e.name@) + crlf)
                }
            },
            ReplyView::Found(Ok(None)) => if v.recursive {
                (RunView { phase: XcopyPhase::ListSubdirs, ..v }, Seq::empty())
            } else {
                (RunView { phase: XcopyPhase::Summary, ..v }, Seq::empty())
            },
            ReplyView::Found(Err(_)) => (
                RunView { phase: XcopyPhase::Done(1), ..v },
                "File not found\r\n".spec_bytes(),
            ),
            _ => (v, Seq::empty()),
        },
        XcopyPhase::PromptFile => match r {
            ReplyView::Key(k) => if k == 0x59 || k == 0x79 {
                (start_copy(v, v.entry), crlf)
            } else {
                (RunView { phase: XcopyPhase::FindNext, ..v }, crlf)
            },
            _ => (v, Seq::empty()),
        },
        XcopyPhase::ReadChunk => match r {
            ReplyView::NoVolume => (RunView { phase: XcopyPhase::Done(1), ..v }, Seq::empty()),
            ReplyView::End => (RunView { phase: XcopyPhase::FinishFile, ..v }, Seq::empty()),
            ReplyView::Failed => (RunView { phase: XcopyPhase::Done(1), ..v }, "Read error\r\n".spec_bytes()),
            ReplyView::Bytes(d) => if d.len() == 0 {
                (RunView { phase: XcopyPhase::FinishFile, ..v }, Seq::empty())
            } else {
                (RunView { phase: XcopyPhase::WriteChunk, data: d, ..v }, Seq::empty())
            },
            _ => (v, Seq::empty()),
        },
        XcopyPhase::WriteChunk => match r {
            ReplyView::Written(Ok(())) => (RunView { phase: XcopyPhase::ReadChunk, ..v }, Seq::empty()),
            ReplyView::Written(Err(code)) => (
                RunView { phase: XcopyPhase::Done(1), ..v },
                if code == 0x001F {
                    "Insufficient disk space\r\n".spec_bytes()
                } else {
                    "Write error\r\n".spec_bytes()
                },
            ),
            _ => (v, Seq::empty()),
        },
        XcopyPhase::FinishFile => match r {
            ReplyView::Closed(true) => (
                RunView { phase: XcopyPhase::FindNext, files_copied: (v.files_copied + 1) as u32, ..v },
                Seq::empty(),
            ),
            ReplyView::Closed(false) => (
                RunView { phase: XcopyPhase::Done(1), ..v },
                "Unable to create destination\r\n".spec_bytes(),
            ),
            _ => (v, Seq::empty()),
        },
        XcopyPhase::ListSubdirs => match r {
            ReplyView::Entries(found) => (
                RunView { phase: XcopyPhase::MakeSubdir(0), subdirs: descended(found), ..v },
                Seq::empty(),
            ),
            _ => (v, Seq::empty()),
        },
        XcopyPhase::MakeSubdir(i) => if i >= v.subdirs.len() {
            after_scan(v)
        } else {
            match r {
                ReplyView::Made(None) => (RunView { phase: XcopyPhase::MakeSubdir((i + 1) as usize), ..v }, Seq::empty()),
                ReplyView::Made(Some(c)) => if v.copy_empty_dirs {
                    (
                        RunView {
                            phase: XcopyPhase::MakeSubdir((i + 1) as usize),
                            dir_stack: v.dir_stack.push((v.subdirs[i as int].1, c)),
                            ..v
                        },
                        Seq::empty(),
                    )
                } else {
                    (RunView { phase: XcopyPhase::CheckSubdir(i, c), ..v }, Seq::empty())
                },
                _ => (v, Seq::empty()),
            }
        },
        XcopyPhase::CheckSubdir(i, c) => match r {
            ReplyView::HasEntries(Some(true)) => (
                RunView {
                    phase: XcopyPhase::MakeSubdir((i + 1) as usize),
                    dir_stack: v.dir_stack.push((v.subdirs[i as int].1, c)),
                    ..v
                },
                Seq::empty(),
            ),
            ReplyView::HasEntries(_) => (RunView { phase: XcopyPhase::MakeSubdir((i + 1) as usize), ..v }, Seq::empty()),
            _ => (v, Seq::empty()),
        },
        XcopyPhase::Summary => (RunView { phase: XcopyPhase::Done(0), ..v }, summary_text(v.files_copied)),
        XcopyPhase::Done(_) => (v, Seq::empty()),
    }
}

/// Keeps the subdirectories that a scan descends into.
fn descend(found: &Vec<(ReadDirEntry, Option<u32>)>) -> (r: Vec<(ReadDirEntry, u32)>)
    ensures
        r@ == descended(found@),
{
    let mut kept: Vec<(ReadDirEntry, u32)> = Vec::new();
    let mut i: usize = 0;
    while i < found.len()
        invariant
            i <= found@.len(),
            kept@ == descended(found@.take(i as int)),
        decreases found.len() - i,
    {
        let (e, d) = found[i];
        assert(found@.take(i + 1).drop_last() =~= found@.take(i as int));
        if entry_is_directory(&e) && !is_dot_directory(&e) {
            match d {
                Some(dir) => kept.push((e, dir)),
                None => {},
            }
        }
        i = i + 1;
    }
    assert(found@.take(found@.len() as int) =~= found@);
    kept
}

impl XcopyRun {
    /// The outside work the current phase needs.
    pub fn request(&self) -> (r: XcopyRequest)
        requires
            run_wf(self@),
        ensures
            r == request_of(self@),
    {
        match self.phase {
            XcopyPhase::FindNext => XcopyRequest::FindEntry { directory: self.src_directory, search_index: self.search_index },
            XcopyPhase::PromptFile => XcopyRequest::Key,
            XcopyPhase::ReadChunk => XcopyRequest::Read,
            XcopyPhase::WriteChunk => XcopyRequest::Write,
            XcopyPhase::FinishFile => XcopyRequest::Finish,
            XcopyPhase::ListSubdirs => XcopyRequest::ListEntries { directory: self.src_directory },
            XcopyPhase::MakeSubdir(i) => if i < self.subdirs.len() {
                XcopyRequest::MakeDirectory { parent: self.dst_dir_cluster, name: self.subdirs[i].0.name }
            } else {
                XcopyRequest::Proceed
            },
            XcopyPhase::CheckSubdir(i, _) => XcopyRequest::HasEntries { directory: self.subdirs[i].1 },
            XcopyPhase::Summary => XcopyRequest::Proceed,
            XcopyPhase::Done(code) => XcopyRequest::Finished(code),
        }
    }

    /// Visits the next directory on the stack, or goes to the count line.
    fn pop_directory(&mut self)
        ensures
            (final(self)@, Seq::<u8>::empty()) == after_scan(old(self)@),
    {
        match self.dir_stack.pop() {
            Some((d, c)) => {
                self.src_directory = d;
                self.dst_dir_cluster = c;
                self.search_index = 0;
                self.phase = XcopyPhase::FindNext;
            },
            None => {
                self.phase = XcopyPhase::Summary;
            },
        }
    }

    /// Takes the answer to the current request and moves the run on;
    /// gives the text to show.
    pub fn advance(&mut self, reply: XcopyReply) -> (out: Vec<u8>)
        requires
            run_wf(old(self)@),
            reply_fits(old(self)@, reply_view(reply)),
            old(self)@.phase == XcopyPhase::FinishFile ==> old(self)@.files_copied < u32::MAX,
        ensures
            next_of(old(self)@, reply_view(reply)) == (final(self)@, out@),
            run_wf(final(self)@),
    {
        let mut out: Vec<u8> = Vec::new();
        match self.phase {
            XcopyPhase::FindNext => match reply {
                XcopyReply::Found(Ok(Some((e, next)))) => {
                    self.search_index = next;
                    if !entry_is_directory(&e) {
                        let name = fcb_to_display_name(&e.name);
                        push_bytes(&mut out, name.as_slice());
                        if self.prompt_each {
                            push_bytes(&mut out, " (Y/N)?".as_bytes());
                            self.entry = e;
                            self.phase = XcopyPhase::PromptFile;
                        } else {
                            push_bytes(&mut out, "\r\n".as_bytes());
                            self.entry = e;
                            self.phase = if e.file_size == 0 {
                                XcopyPhase::FinishFile
                            } else {
                                XcopyPhase::ReadChunk
                            };
                        }
                    }
                },
                XcopyReply::Found(Ok(None)) => {
                    self.phase = if self.recursive {
                        XcopyPhase::ListSubdirs
                    } else {
                        XcopyPhase::Summary
                    };
                },
                XcopyReply::Found(Err(_)) => {
                    push_bytes(&mut out, "File not found\r\n".as_bytes());
                    self.phase = XcopyPhase::Done(1);
                },
                _ => {},
            },
            XcopyPhase::PromptFile => match reply {
                XcopyReply::Key(k) => {
                    push_bytes(&mut out, "\r\n".as_bytes());
                    if k == 0x59 || k == 0x79 {
                        self.phase = if self.entry.file_size == 0 {
                            XcopyPhase::FinishFile
                        } else {
                            XcopyPhase::ReadChunk
                        };
                    } else {
                        self.phase = XcopyPhase::FindNext;
                    }
                },
                _ => {},
            },
            XcopyPhase::ReadChunk => match reply {
                XcopyReply::Chunk(ChunkRead::NoVolume) => {
                    self.phase = XcopyPhase::Done(1);
                },
                XcopyReply::Chunk(ChunkRead::End) => {
                    self.phase = XcopyPhase::FinishFile;
                },
                XcopyReply::Chunk(ChunkRead::Failed) => {
                    push_bytes(&mut out, "Read error\r\n".as_bytes());
                    self.phase = XcopyPhase::Done(1);
                },
                XcopyReply::Chunk(ChunkRead::Bytes(d)) => {
                    if d.len() == 0 {
                        self.phase = XcopyPhase::FinishFile;
                    } else {
                        self.data = d;
                        self.phase = XcopyPhase::WriteChunk;
                    }
                },
                _ => {},
            },
            XcopyPhase::WriteChunk => match reply {
                XcopyReply::Written(Ok(())) => {
                    self.phase = XcopyPhase::ReadChunk;
                },
                XcopyReply::Written(Err(code)) => {
                    if code == 0x001F {
                        push_bytes(&mut out, "Insufficient disk space\r\n".as_bytes());
                    } else {
                        push_bytes(&mut out, "Write error\r\n".as_bytes());
                    }
                    self.phase = XcopyPhase::Done(1);
                },
                _ => {},
            },
            XcopyPhase::FinishFile => match reply {
                XcopyReply::Closed(true) => {
                    self.files_copied = self.files_copied + 1;
                    self.phase = XcopyPhase::FindNext;
                },
                XcopyReply::Closed(false) => {
                    push_bytes(&mut out, "Unable to create destination\r\n".as_bytes());
                    self.phase = XcopyPhase::Done(1);
                },
                _ => {},
            },
            XcopyPhase::ListSubdirs => match reply {
                XcopyReply::Entries(found) => {
                    self.subdirs = descend(&found);
                    self.phase = XcopyPhase::MakeSubdir(0);
                },
                _ => {},
            },
            XcopyPhase::MakeSubdir(i) => {
                if i >= self.subdirs.len() {
                    self.pop_directory();
                } else {
                    match reply {
                        XcopyReply::Made(None) => {
                            self.phase = XcopyPhase::MakeSubdir(i + 1);
                        },
                        XcopyReply::Made(Some(c)) => {
                            if self.copy_empty_dirs {
                                let dir = self.subdirs[i].1;
                                self.dir_stack.push((dir, c));
                                self.phase = XcopyPhase::MakeSubdir(i + 1);
                            } else {
                                self.phase = XcopyPhase::CheckSubdir(i, c);
                            }
                        },
                        _ => {},
                    }
                }
            },
            XcopyPhase::CheckSubdir(i, c) => match reply {
                XcopyReply::HasEntries(h) => {
                    assert(i < self.subdirs.len());
                    if h == Some(true) {
                        let dir = self.subdirs[i].1;
                        self.dir_stack.push((dir, c));
                    }
                    self.phase = XcopyPhase::MakeSubdir(i + 1);
                },
                _ => {},
            },
            XcopyPhase::Summary => {
                push_decimal_digits(&mut out, self.files_copied as u64);
                push_bytes(&mut out, " File(s) copied\r\n".as_bytes());
                self.phase = XcopyPhase::Done(0);
            },
            XcopyPhase::Done(_) => {},
        }
        out
    }
}

} // verus!
