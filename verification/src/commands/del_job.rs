//! DEL's steps: the question before deleting every file, then the matching
//! entries one at a time, each deleted at once or after a question (`/P`).
//!
//! `DelJob::request` tells what outside work the current phase needs, and
//! `DelJob::advance` takes the answer and decides what follows.

use vstd::prelude::*;
use vstd::string::StringSliceAdditionalSpecFns;
use crate::text::{push_bytes, trim_ascii, trim_ascii_spec, last_index_where, lemma_last_index_unique};
use crate::commands::{is_help_request, asks_help};
use crate::commands::del::{parse_switches, del_switches};
use crate::commands::dir::{
    ATTR_DIRECTORY, ATTR_VOLUME_ID, ATTR_READ_ONLY, display_name, fcb_to_display_name,
};

verus! {

/// What a DEL command line asks for.
#[derive(Debug, PartialEq, Eq)]
pub enum DelPlan {
    /// The help text (also for an empty command line).
    Help,
    /// Delete the files that `path` matches; `prompt` asks for each
    /// (`/P`); `confirm_all` asks once first, as the name is `*.*` or `*`.
    Start { path: Vec<u8>, prompt: bool, confirm_all: bool },
}

/// The file name at the end of a path: after its last backslash.
pub open spec fn file_name_part(path: Seq<u8>) -> Seq<u8> {
    path.skip(last_index_where(path, |b: u8| b == 0x5C) + 1)
}

/// A name that matches every file: `*.*` or `*`.
pub open spec fn is_all_wildcard(name: Seq<u8>) -> bool {
    name == seq![0x2Au8, 0x2Eu8, 0x2Au8] || name == seq![0x2Au8]
}

/// Reads a DEL command line.
pub fn del_plan(args: &[u8]) -> (r: DelPlan)
    ensures
        (asks_help(args@) || trim_ascii_spec(args@).len() == 0) <==> r is Help,
        r matches DelPlan::Start { path, prompt, confirm_all } ==> {
            let (p, has_prompt) = del_switches(trim_ascii_spec(args@));
            &&& path@ == p
            &&& prompt == has_prompt
            &&& confirm_all == (is_all_wildcard(file_name_part(p)) && !has_prompt)
        },
{
    let t = trim_ascii(args);
    let help = is_help_request(args);
    if help || t.len() == 0 {
        return DelPlan::Help;
    }
    let (path, prompt) = parse_switches(t);
    let mut k: usize = path.len();
    while k > 0 && path[k - 1] != 0x5C
        invariant
            k <= path@.len(),
            forall|j: int| k <= j < path@.len() ==> path@[j] != 0x5C,
        decreases k,
    {
        k = k - 1;
    }
    proof {
        let kk: int = k - 1;
        lemma_last_index_unique(path@, |b: u8| b == 0x5C, kk);
    }
    let name = vstd::slice::slice_subrange(path, k, path.len());
    assert(name@ =~= file_name_part(path@));
    let all = (name.len() == 3 && name[0] == 0x2A && name[1] == 0x2E && name[2] == 0x2A) || (name.len()
        == 1 && name[0] == 0x2A);
    proof {
        if name@.len() == 3 {
            assert(all == (name@ =~= seq![0x2Au8, 0x2Eu8, 0x2Au8]));
        }
        if name@.len() == 1 {
            assert(all == (name@ =~= seq![0x2Au8]));
        }
    }
    DelPlan::Start { path: vstd::slice::slice_to_vec(path), prompt, confirm_all: all && !prompt }
}

/// Where a deletion stands.
#[derive(Clone, Copy, Debug, PartialEq, Eq)]
pub enum DelPhase {
    /// Waiting for the answer to "Are you sure (Y/N)?".
    ConfirmAll,
    /// Looking for the next matching entry.
    DeleteNext,
    /// Waiting for the answer about this entry (`/P`).
    PromptFile([u8; 11]),
    /// Deleting this entry.
    Deleting([u8; 11]),
    /// The command ended with this exit code.
    Done(u8),
}

/// The state of a deletion: where the search goes on, whether to ask for
/// each file, whether any file was deleted, and the phase.
#[derive(Clone, Copy, Debug, PartialEq, Eq)]
pub struct DelJob {
    pub start_index: u16,
    pub prompt: bool,
    pub deleted_any: bool,
    pub phase: DelPhase,
}

/// The outside work the current phase needs.
#[derive(Debug, PartialEq, Eq)]
pub enum DelRequest {
    /// Whether a key is waiting, and which.
    Key,
    /// The next entry that matches, from this search index on.
    FindFrom(u16),
    /// Delete the entry of this name.
    Delete([u8; 11]),
    /// Nothing more: the command has ended.
    Finished(u8),
}

/// The answer to a request.
#[derive(Clone, Copy, Debug, PartialEq, Eq)]
pub enum DelReply {
    NoKey,
    Key(u8),
    /// A matching entry (name and attributes) and the search index after it.
    Found([u8; 11], u8, u16),
    /// No more matching entries.
    NoMore,
    /// The search failed.
    SearchFailed,
    /// Whether the deletion succeeded.
    Deleted(bool),
}

/// The request of a phase.
pub open spec fn del_request_of(v: DelJob) -> DelRequest {
    match v.phase {
        DelPhase::ConfirmAll | DelPhase::PromptFile(_) => DelRequest::Key,
        DelPhase::DeleteNext => DelRequest::FindFrom(v.start_index),
        DelPhase::Deleting(name) => DelRequest::Delete(name),
        DelPhase::Done(c) => DelRequest::Finished(c),
    }
}

/// The reply answers the request.
pub open spec fn del_reply_fits(v: DelJob, r: DelReply) -> bool {
    match del_request_of(v) {
        DelRequest::Key => r is NoKey || r is Key,
        DelRequest::FindFrom(_) => r is Found || r is NoMore || r is SearchFailed,
        DelRequest::Delete(_) => r is Deleted,
        DelRequest::Finished(_) => true,
    }
}

/// Entries DEL leaves alone: directories, volume labels, read-only files.
pub open spec fn kept(attribute: u8) -> bool {
    attribute & (ATTR_DIRECTORY | ATTR_VOLUME_ID | ATTR_READ_ONLY) != 0
}

/// A yes: `Y` or `y`.
pub open spec fn is_yes(key: u8) -> bool {
    key == 0x59 || key == 0x79
}

/// The job after a step and the text shown.
pub open spec fn del_next(v: DelJob, r: DelReply) -> (DelJob, Seq<u8>) {
    let crlf = "\r\n".spec_bytes();
    let not_found = "File not found\r\n".spec_bytes();
    match v.phase {
        DelPhase::ConfirmAll => match r {
            DelReply::Key(k) => (
                DelJob {
                    phase: if is_yes(k) {
                        DelPhase::DeleteNext
                    } else {
                        DelPhase::Done(0)
                    },
                    ..v
                },
                crlf,
            ),
            _ => (v, Seq::empty()),
        },
        DelPhase::DeleteNext => match r {
            DelReply::Found(name, attribute, next) => {
                let w = DelJob { start_index: next, ..v };
                if kept(attribute) {
                    (w, Seq::empty())
                } else if v.prompt {
                    (
                        DelJob { phase: DelPhase::PromptFile(name), ..w },
                        display_name(name@) + ", Delete (Y/N)?".spec_bytes(),
                    )
                } else {
                    (DelJob { phase: DelPhase::Deleting(name), ..w }, Seq::empty())
                }
            },
            DelReply::NoMore => if v.deleted_any {
                (DelJob { phase: DelPhase::Done(0), ..v }, Seq::empty())
            } else {
                (DelJob { phase: DelPhase::Done(1), ..v }, not_found)
            },
            _ => (DelJob { phase: DelPhase::Done(1), ..v }, not_found),
        },
        DelPhase::PromptFile(name) => match r {
            DelReply::Key(k) => (
                DelJob {
                    phase: if is_yes(k) {
                        DelPhase::Deleting(name)
                    } else {
                        DelPhase::DeleteNext
                    },
                    ..v
                },
                crlf,
            ),
            _ => (v, Seq::empty()),
        },
        DelPhase::Deleting(_) => if r == DelReply::Deleted(true) {
            (
                DelJob {
                    deleted_any: true,
                    start_index: if v.start_index > 0 {
                        (v.start_index - 1) as u16
                    } else {
                        0
                    },
                    phase: DelPhase::DeleteNext,
                    ..v
                },
                Seq::empty(),
            )
        } else {
            (DelJob { phase: DelPhase::DeleteNext, ..v }, Seq::empty())
        },
        DelPhase::Done(_) => (v, Seq::empty()),
    }
}

impl DelJob {
    /// A deletion that starts with the question about every file when
    /// `confirm_all`, else with the search.
    pub fn new(prompt: bool, confirm_all: bool) -> (r: (DelJob, Vec<u8>))
        ensures
            r.0 == (DelJob {
                start_index: 0,
                prompt,
                deleted_any: false,
                phase: if confirm_all {
                    DelPhase::ConfirmAll
                } else {
                    DelPhase::DeleteNext
                },
            }),
            r.1@ == if confirm_all {
                "All files in directory will be deleted!\r\nAre you sure (Y/N)?".spec_bytes()
            } else {
                Seq::empty()
            },
    {
        let mut out: Vec<u8> = Vec::new();
        if confirm_all {
            push_bytes(&mut out, "All files in directory will be deleted!\r\nAre you sure (Y/N)?".as_bytes());
        }
        let phase = if confirm_all {
            DelPhase::ConfirmAll
        } else {
            DelPhase::DeleteNext
        };
        (DelJob { start_index: 0, prompt, deleted_any: false, phase }, out)
    }

    /// The outside work the current phase needs.
    pub fn request(&self) -> (r: DelRequest)
        ensures
            r == del_request_of(*self),
    {
        match self.phase {
            DelPhase::ConfirmAll | DelPhase::PromptFile(_) => DelRequest::Key,
            DelPhase::DeleteNext => DelRequest::FindFrom(self.start_index),
            DelPhase::Deleting(name) => DelRequest::Delete(name),
            DelPhase::Done(c) => DelRequest::Finished(c),
        }
    }

    /// Takes the answer to the current request and moves the deletion on.
    pub fn advance(&mut self, reply: DelReply) -> (out: Vec<u8>)
        requires
            del_reply_fits(*old(self), reply),
        ensures
            del_next(*old(self), reply) == (*final(self), out@),
    {
        let mut out: Vec<u8> = Vec::new();
        match self.phase {
            DelPhase::ConfirmAll => {
                if let DelReply::Key(k) = reply {
                    push_bytes(&mut out, "\r\n".as_bytes());
                    self.phase = if k == 0x59 || k == 0x79 {
                        DelPhase::DeleteNext
                    } else {
                        DelPhase::Done(0)
                    };
                }
            },
            DelPhase::DeleteNext => match reply {
                DelReply::Found(name, attribute, next) => {
                    self.start_index = next;
                    if attribute & (ATTR_DIRECTORY | ATTR_VOLUME_ID | ATTR_READ_ONLY) != 0 {
                    } else if self.prompt {
                        let display = fcb_to_display_name(&name);
                        push_bytes(&mut out, display.as_slice());
                        push_bytes(&mut out, ", Delete (Y/N)?".as_bytes());
                        self.phase = DelPhase::PromptFile(name);
                    } else {
                        self.phase = DelPhase::Deleting(name);
                    }
                },
                DelReply::NoMore => {
                    if self.deleted_any {
                        self.phase = DelPhase::Done(0);
                    } else {
                        push_bytes(&mut out, "File not found\r\n".as_bytes());
                        self.phase = DelPhase::Done(1);
                    }
                },
                _ => {
                    push_bytes(&mut out, "File not found\r\n".as_bytes());
                    self.phase = DelPhase::Done(1);
                },
            },
            DelPhase::PromptFile(name) => {
                if let DelReply::Key(k) = reply {
                    push_bytes(&mut out, "\r\n".as_bytes());
                    self.phase = if k == 0x59 || k == 0x79 {
                        DelPhase::Deleting(name)
                    } else {
                        DelPhase::DeleteNext
                    };
                }
            },
            DelPhase::Deleting(_) => {
                if let DelReply::Deleted(true) = reply {
                    self.deleted_any = true;
                    self.start_index = self.start_index.saturating_sub(1);
                }
                self.phase = DelPhase::DeleteNext;
            },
            DelPhase::Done(_) => {},
        }
        out
    }
}

} // verus!
