//! B3SUM's steps: for each argument, the matching files one at a time,
//! each read chunk by chunk into a hasher and then printed as a digest
//! line.
//!
//! `B3sumRun::request` tells what outside work the current phase needs,
//! and `B3sumRun::advance` takes the answer and decides what follows.

use vstd::prelude::*;
use vstd::string::StringSliceAdditionalSpecFns;
use crate::text::push_bytes;
use crate::dos::{normalized, normalize_path};
use crate::commands::{split_words, words_of, words_view};
use crate::commands::dir::{display_name, fcb_to_display_name};
use crate::commands::b3sum::{
    DigestState, FileHashState, blake3_digest, digest_line, print_digest, wildcard_prefix,
    wildcard_display_prefix,
};

verus! {

/// The words of a B3SUM command line, each a file or a wildcard; refused
/// when there is none.
pub fn b3sum_words(args: &[u8]) -> (r: Result<Vec<Vec<u8>>, &'static str>)
    ensures
        match r {
            Ok(words) => words_view(words@) == words_of(args@) && words@.len() > 0,
            Err(m) => words_of(args@).len() == 0 && m@ == "Required parameter missing\r\n"@,
        },
{
    let words = split_words(args);
    if words.len() == 0 {
        return Err("Required parameter missing\r\n");
    }
    Ok(words)
}

/// One argument: the normalized path printed for a single file, what a
/// wildcard's matches are printed after, whether it holds a wildcard, and
/// the drive it names.
pub struct B3sumArgument {
    pub display_path: Vec<u8>,
    pub wildcard_prefix: Vec<u8>,
    pub has_wildcard: bool,
    pub drive_index: u8,
}

/// An argument as the contracts see it.
pub struct ArgumentView {
    pub display_path: Seq<u8>,
    pub wildcard_prefix: Seq<u8>,
    pub has_wildcard: bool,
    pub drive_index: u8,
}

pub open spec fn argument_view(a: B3sumArgument) -> ArgumentView {
    ArgumentView {
        display_path: a.display_path@,
        wildcard_prefix: a.wildcard_prefix@,
        has_wildcard: a.has_wildcard,
        drive_index: a.drive_index,
    }
}

/// The argument a word gives, on the drive it resolves to.
pub fn b3sum_argument(word: &[u8], drive_index: u8) -> (r: B3sumArgument)
    ensures
        r.display_path@ == normalized(word@),
        r.wildcard_prefix@ == wildcard_prefix(normalized(word@)),
        r.has_wildcard == (normalized(word@).contains(0x2Au8) || normalized(word@).contains(0x3Fu8)),
        r.drive_index == drive_index,
{
    let path = normalize_path(word);
    let prefix = wildcard_display_prefix(path.as_slice());
    let has_wildcard = crate::text::contains_byte(path.as_slice(), 0x2A) || crate::text::contains_byte(
        path.as_slice(),
        0x3F,
    );
    B3sumArgument { display_path: path, wildcard_prefix: prefix, has_wildcard, drive_index }
}

/// Where the command stands.
#[derive(Clone, Copy, Debug, PartialEq, Eq, Structural)]
pub enum B3sumPhase {
    /// Looking for the next file of the current argument.
    FindNext,
    /// Reading a file into the hasher.
    Hashing,
    /// The command ended with this exit code.
    Done(u8),
}

/// The state of the command: the arguments, the one being worked on, where
/// its search goes on, whether it matched a file yet, the file being
/// hashed, and the phase.
pub struct B3sumRun {
    pub arguments: Vec<B3sumArgument>,
    pub current: usize,
    pub search_index: u16,
    pub matched_any: bool,
    pub file: Option<FileHashState>,
    pub phase: B3sumPhase,
}

/// The outside work the current phase needs.
#[derive(Debug, PartialEq, Eq)]
pub enum B3sumRequest {
    /// The next file that argument `argument` matches, from this search
    /// index on.
    FindFrom { argument: usize, search_index: u16 },
    /// The next chunk of the file being hashed (empty at its end).
    ReadChunk,
    /// Nothing: the phase decides on its own.
    Proceed,
    /// Nothing more: the command has ended.
    Finished(u8),
}

/// Why a chunk could not be read.
#[derive(Clone, Copy, Debug, PartialEq, Eq, Structural)]
pub enum ChunkError {
    /// The drive's volume is gone.
    InvalidDrive,
    /// The read failed.
    ReadError,
}

/// The answer to a request.
#[derive(Debug)]
pub enum B3sumReply {
    /// A matching file: its name, its size, whether its data can be read
    /// (a FAT file must start at cluster 2 or above), and the search index
    /// after it.
    Found { name: [u8; 11], file_size: u32, readable: bool, next_index: u16 },
    /// No more matching files.
    NoMore,
    /// The search failed.
    SearchFailed,
    /// A chunk of the file.
    Chunk(Vec<u8>),
    /// No chunk.
    ChunkFailed(ChunkError),
    /// The answer to `Proceed`.
    Proceed,
}

/// The run as the contracts see it; the file is its hasher's input and
/// its path.
pub struct RunView {
    pub arguments: Seq<ArgumentView>,
    pub current: nat,
    pub search_index: u16,
    pub matched_any: bool,
    pub file: Option<(Seq<u8>, Seq<u8>)>,
    pub phase: B3sumPhase,
}

impl View for B3sumRun {
    type V = RunView;

    open spec fn view(&self) -> RunView {
        RunView {
            arguments: self.arguments@.map_values(|a: B3sumArgument| argument_view(a)),
            current: self.current as nat,
            search_index: self.search_index,
            matched_any: self.matched_any,
            file: match self.file {
                Some(f) => Some((f.hash.input(), f.display_path@)),
                None => None,
            },
            phase: self.phase,
        }
    }
}

/// The request of a phase: the search, unless the arguments are done or
/// the current one is on the protected drive Z:.
pub open spec fn b3sum_request_of(v: RunView) -> B3sumRequest {
    match v.phase {
        B3sumPhase::FindNext => if v.current >= v.arguments.len() || v.arguments[v.current as int].drive_index
            == 25 {
            B3sumRequest::Proceed
        } else {
            B3sumRequest::FindFrom { argument: v.current as usize, search_index: v.search_index }
        },
        B3sumPhase::Hashing => B3sumRequest::ReadChunk,
        B3sumPhase::Done(c) => B3sumRequest::Finished(c),
    }
}

/// A reply as the contracts see it.
pub enum ReplyView {
    Found([u8; 11], u32, bool, u16),
    NoMore,
    SearchFailed,
    Chunk(Seq<u8>),
    ChunkFailed(ChunkError),
    Proceed,
}

pub open spec fn reply_view(r: B3sumReply) -> ReplyView {
    match r {
        B3sumReply::Found { name, file_size, readable, next_index } => ReplyView::Found(
            name,
            file_size,
            readable,
            next_index,
        ),
        B3sumReply::NoMore => ReplyView::NoMore,
        B3sumReply::SearchFailed => ReplyView::SearchFailed,
        B3sumReply::Chunk(d) => ReplyView::Chunk(d@),
        B3sumReply::ChunkFailed(e) => ReplyView::ChunkFailed(e),
        B3sumReply::Proceed => ReplyView::Proceed,
    }
}

/// The reply answers the request, and a file is open while hashing.
pub open spec fn b3sum_reply_fits(v: RunView, r: ReplyView) -> bool {
    &&& v.phase == B3sumPhase::Hashing ==> v.file is Some && v.current < v.arguments.len()
    &&& match b3sum_request_of(v) {
        B3sumRequest::FindFrom { .. } => r is Found || r is NoMore || r is SearchFailed,
        B3sumRequest::ReadChunk => r is Chunk || r is ChunkFailed,
        _ => r is Proceed,
    }
}

/// The run after a file (or an empty one) of the current argument was
/// printed: it counts as matched, and a single-file argument is done.
pub open spec fn after_file(v: RunView) -> RunView {
    let a = v.arguments[v.current as int];
    if a.has_wildcard {
        RunView { matched_any: true, file: None, phase: B3sumPhase::FindNext, ..v }
    } else {
        RunView {
            current: v.current + 1,
            search_index: 0,
            matched_any: false,
            file: None,
            phase: B3sumPhase::FindNext,
            ..v
        }
    }
}

/// The run after a step, and the text shown.
pub open spec fn b3sum_next(v: RunView, r: ReplyView) -> (RunView, Seq<u8>) {
    let done = |c: u8| RunView { phase: B3sumPhase::Done(c), ..v };
    match v.phase {
        B3sumPhase::FindNext => if v.current >= v.arguments.len() {
            (done(0), Seq::empty())
        } else if v.arguments[v.current as int].drive_index == 25 {
            (done(1), "Access denied\r\n".spec_bytes())
        } else {
            let a = v.arguments[v.current as int];
            match r {
                ReplyView::Found(name, size, readable, next) => {
                    let path = if a.has_wildcard {
                        a.wildcard_prefix + display_name(name@)
                    } else {
                        a.display_path
                    };
                    let w = RunView { search_index: next, ..v };
                    if size == 0 {
                        (after_file(w), digest_line(blake3_digest(Seq::empty()), path))
                    } else if !readable {
                        (RunView { phase: B3sumPhase::Done(1), ..w }, "Read error\r\n".spec_bytes())
                    } else {
                        (
                            RunView { file: Some((Seq::empty(), path)), phase: B3sumPhase::Hashing, ..w },
                            Seq::empty(),
                        )
                    }
                },
                ReplyView::NoMore => if v.matched_any {
                    (
                        RunView { current: v.current + 1, search_index: 0, matched_any: false, ..v },
                        Seq::empty(),
                    )
                } else {
                    (done(1), "File not found\r\n".spec_bytes())
                },
                _ => (done(1), "File not found\r\n".spec_bytes()),
            }
        },
        B3sumPhase::Hashing => {
            let (input, path) = v.file.unwrap();
            match r {
                ReplyView::Chunk(d) => if d.len() == 0 {
                    (after_file(v), digest_line(blake3_digest(input), path))
                } else {
                    (RunView { file: Some((input + d, path)), ..v }, Seq::empty())
                },
                ReplyView::ChunkFailed(ChunkError::InvalidDrive) => (
                    done(1),
                    "Invalid drive\r\n".spec_bytes(),
                ),
                _ => (done(1), "Read error\r\n".spec_bytes()),
            }
        },
        B3sumPhase::Done(_) => (v, Seq::empty()),
    }
}

impl B3sumRun {
    /// A run over `arguments`, from the first.
    pub fn new(arguments: Vec<B3sumArgument>) -> (r: B3sumRun)
        ensures
            r@ == (RunView {
                arguments: arguments@.map_values(|a: B3sumArgument| argument_view(a)),
                current: 0,
                search_index: 0,
                matched_any: false,
                file: None,
                phase: B3sumPhase::FindNext,
            }),
    {
        B3sumRun { arguments, current: 0, search_index: 0, matched_any: false, file: None, phase: B3sumPhase::FindNext }
    }

    /// The outside work the current phase needs.
    pub fn request(&self) -> (r: B3sumRequest)
        ensures
            r == b3sum_request_of(self@),
    {
        match self.phase {
            B3sumPhase::FindNext => {
                if self.current >= self.arguments.len() || self.arguments[self.current].drive_index == 25 {
                    B3sumRequest::Proceed
                } else {
                    B3sumRequest::FindFrom { argument: self.current, search_index: self.search_index }
                }
            },
            B3sumPhase::Hashing => B3sumRequest::ReadChunk,
            B3sumPhase::Done(c) => B3sumRequest::Finished(c),
        }
    }

    /// Marks the current argument's file as printed.
    fn file_printed(&mut self)
        requires
            old(self).current < old(self).arguments.len(),
        ensures
            final(self)@ == after_file(old(self)@),
    {
        self.file = None;
        self.phase = B3sumPhase::FindNext;
        if self.arguments[self.current].has_wildcard {
            self.matched_any = true;
        } else {
            self.current = self.current + 1;
            self.search_index = 0;
            self.matched_any = false;
        }
    }

    /// Takes the answer to the current request and moves the run on.
    pub fn advance(&mut self, reply: B3sumReply) -> (out: Vec<u8>)
        requires
            b3sum_reply_fits(old(self)@, reply_view(reply)),
        ensures
            b3sum_next(old(self)@, reply_view(reply)) == (final(self)@, out@),
    {
        let mut out: Vec<u8> = Vec::new();
        match self.phase {
            B3sumPhase::FindNext => {
                if self.current >= self.arguments.len() {
                    self.phase = B3sumPhase::Done(0);
                    return out;
                }
                if self.arguments[self.current].drive_index == 25 {
                    push_bytes(&mut out, "Access denied\r\n".as_bytes());
                    self.phase = B3sumPhase::Done(1);
                    return out;
                }
                match reply {
                    B3sumReply::Found { name, file_size, readable, next_index } => {
                        self.search_index = next_index;
                        let arg = &self.arguments[self.current];
                        let path = if arg.has_wildcard {
                            let mut p = vstd::slice::slice_to_vec(arg.wildcard_prefix.as_slice());
                            let shown = fcb_to_display_name(&name);
                            push_bytes(&mut p, shown.as_slice());
                            p
                        } else {
                            vstd::slice::slice_to_vec(arg.display_path.as_slice())
                        };
                        if file_size == 0 {
                            let hash = DigestState::new();
                            let line = print_digest(&hash, path.as_slice());
                            self.file_printed();
                            line
                        } else if !readable {
                            push_bytes(&mut out, "Read error\r\n".as_bytes());
                            self.phase = B3sumPhase::Done(1);
                            out
                        } else {
                            self.file = Some(FileHashState { hash: DigestState::new(), display_path: path });
                            self.phase = B3sumPhase::Hashing;
                            out
                        }
                    },
                    B3sumReply::NoMore => {
                        if self.matched_any {
                            self.current = self.current + 1;
                            self.search_index = 0;
                            self.matched_any = false;
                        } else {
                            push_bytes(&mut out, "File not found\r\n".as_bytes());
                            self.phase = B3sumPhase::Done(1);
                        }
                        out
                    },
                    _ => {
                        push_bytes(&mut out, "File not found\r\n".as_bytes());
                        self.phase = B3sumPhase::Done(1);
                        out
                    },
                }
            },
            B3sumPhase::Hashing => {
                match reply {
                    B3sumReply::Chunk(data) => {
                        let mut file = self.file.take().unwrap();
                        let line = file.absorb_chunk(data.as_slice());
                        match line {
                            Some(line) => {
                                self.file_printed();
                                line
                            },
                            None => {
                                self.file = Some(file);
                                out
                            },
                        }
                    },
                    B3sumReply::ChunkFailed(ChunkError::InvalidDrive) => {
                        push_bytes(&mut out, "Invalid drive\r\n".as_bytes());
                        self.phase = B3sumPhase::Done(1);
                        out
                    },
                    _ => {
                        push_bytes(&mut out, "Read error\r\n".as_bytes());
                        self.phase = B3sumPhase::Done(1);
                        out
                    },
                }
            },
            B3sumPhase::Done(_) => out,
        }
    }
}

/// The run after the chunks were fed to it, one step each.
pub open spec fn fed(v: RunView, chunks: Seq<Seq<u8>>) -> RunView
    decreases chunks.len(),
{
    if chunks.len() == 0 {
        v
    } else {
        b3sum_next(fed(v, chunks.drop_last()), ReplyView::Chunk(chunks.last())).0
    }
}

/// Chunks joined end to end.
pub open spec fn chunks_joined(chunks: Seq<Seq<u8>>) -> Seq<u8>
    decreases chunks.len(),
{
    if chunks.len() == 0 {
        Seq::empty()
    } else {
        chunks_joined(chunks.drop_last()) + chunks.last()
    }
}

/// A file read in chunks is hashed whole: when a file is being hashed and
/// its chunks (none of them empty) come in one step each, the empty chunk
/// that ends it prints the digest of everything the hasher had taken and
/// all the chunks, joined.
pub proof fn lemma_chunks_hash_whole_file(v: RunView, chunks: Seq<Seq<u8>>)
    requires
        v.phase == B3sumPhase::Hashing,
        v.file is Some,
        forall|i: int| 0 <= i < chunks.len() ==> #[trigger] chunks[i].len() > 0,
    ensures
        fed(v, chunks).phase == B3sumPhase::Hashing,
        fed(v, chunks).file == Some((v.file.unwrap().0 + chunks_joined(chunks), v.file.unwrap().1)),
        b3sum_next(fed(v, chunks), ReplyView::Chunk(Seq::empty())).1 == digest_line(
            blake3_digest(v.file.unwrap().0 + chunks_joined(chunks)),
            v.file.unwrap().1,
        ),
    decreases chunks.len(),
{
    if chunks.len() == 0 {
        assert(v.file.unwrap().0 + chunks_joined(chunks) =~= v.file.unwrap().0);
    } else {
        let a = chunks.drop_last();
        assert forall|i: int| 0 <= i < a.len() implies #[trigger] a[i].len() > 0 by {
            assert(a[i] == chunks[i]);
        }
        lemma_chunks_hash_whole_file(v, a);
        assert(chunks.last() == chunks[chunks.len() - 1]);
        assert(v.file.unwrap().0 + chunks_joined(a) + chunks.last() =~= v.file.unwrap().0
            + chunks_joined(chunks));
    }
}

} // verus!
