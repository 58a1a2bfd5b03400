//! DIR's listing: the entries of one directory, filtered and sorted, shown
//! one per step in the bare, wide or standard form, with the counts that
//! the footer shows and the pause after each screen when asked for.

use vstd::prelude::*;
use vstd::string::StringSliceAdditionalSpecFns;
use crate::text::push_bytes;
use crate::commands::dir::{
    ReadDirEntry, AttrFilter, SortOrder, shows_entry, should_show_entry, sorted_by, sort_entries,
    display_name, fcb_to_display_name, format_standard, standard_line, format_wide, wide_cell,
    has_attr, ATTR_DIRECTORY, entry_is_directory,
};

verus! {

/// The entries a listing shows: those the filter lets through.
pub open spec fn shown(found: Seq<ReadDirEntry>, filter: AttrFilter) -> Seq<ReadDirEntry> {
    found.filter(shown_by(filter))
}

/// Whether the filter lets an entry through, as a function.
pub open spec fn shown_by(filter: AttrFilter) -> spec_fn(ReadDirEntry) -> bool {
    |e: ReadDirEntry| shows_entry(e, filter)
}

/// The entries of a directory as the listing shows them: the filter's
/// choice, sorted by `order` (directories first).
pub fn collect_entries(found: &[ReadDirEntry], filter: &AttrFilter, order: SortOrder) -> (r: Vec<ReadDirEntry>)
    ensures
        r@.to_multiset() == shown(found@, *filter).to_multiset(),
        sorted_by(r@, order),
{
    broadcast use vstd::seq::Seq::lemma_filter_push;

    let mut entries: Vec<ReadDirEntry> = Vec::new();
    let mut i: usize = 0;
    assert(found@.take(0).filter(shown_by(*filter)) =~= Seq::<ReadDirEntry>::empty()) by {
        reveal(Seq::filter);
    }
    while i < found.len()
        invariant
            i <= found@.len(),
            entries@ == shown(found@.take(i as int), *filter),
        decreases found@.len() - i,
    {
        let e = found[i];
        assert(found@.take(i + 1) =~= found@.take(i as int).push(e));
        proof {
            found@.take(i as int).lemma_filter_push(e, shown_by(*filter));
        }
        assert(found@.take(i as int).push(e).filter(shown_by(*filter)) == if shows_entry(e, *filter) {
            found@.take(i as int).filter(shown_by(*filter)).push(e)
        } else {
            found@.take(i as int).filter(shown_by(*filter))
        });
        if should_show_entry(&e, filter) {
            entries.push(e);
        }
        i = i + 1;
    }
    assert(found@.take(i as int) =~= found@);
    sort_entries(&mut entries, order);
    entries
}

/// What follows a listing step.
#[derive(Clone, Copy, Debug, PartialEq, Eq, Structural)]
pub enum ListingNext {
    /// The next entry.
    Listing,
    /// A screen is full: wait for a key, then go on.
    WaitKey,
    /// The directory is done: on to the next subdirectory.
    NextSubdir,
    /// The listing is done: the footer.
    Footer,
    /// Nothing was listed: "File Not Found", and the command fails.
    NotFound,
}

/// The state of a listing.
pub struct DirListing {
    pub entries: Vec<ReadDirEntry>,
    pub entry_index: usize,
    pub total_files: u32,
    pub total_bytes: u64,
    pub lines_shown: u16,
    pub wide_col: u8,
    pub wide: bool,
    pub bare: bool,
    pub paged: bool,
    pub recursive: bool,
    /// The directory listed, when it is a subdirectory of a recursive
    /// listing; else empty.
    pub current_path: Vec<u8>,
}

/// A listing as the contracts see it.
pub struct ListingView {
    pub entries: Seq<ReadDirEntry>,
    pub entry_index: nat,
    pub total_files: u32,
    pub total_bytes: u64,
    pub lines_shown: u16,
    pub wide_col: u8,
    pub wide: bool,
    pub bare: bool,
    pub paged: bool,
    pub recursive: bool,
    pub current_path: Seq<u8>,
}

impl View for DirListing {
    type V = ListingView;

    open spec fn view(&self) -> ListingView {
        ListingView {
            entries: self.entries@,
            entry_index: self.entry_index as nat,
            total_files: self.total_files,
            total_bytes: self.total_bytes,
            lines_shown: self.lines_shown,
            wide_col: self.wide_col,
            wide: self.wide,
            bare: self.bare,
            paged: self.paged,
            recursive: self.recursive,
            current_path: self.current_path@,
        }
    }
}

/// Lines shown before a paged listing waits for a key.
pub const PAGE_LINES: u16 = 23;

pub open spec fn crlf() -> Seq<u8> {
    "\r\n".spec_bytes()
}

/// The counts can take one more entry, and the wide column stays in range.
pub open spec fn listing_wf(v: ListingView) -> bool {
    &&& v.total_files < u32::MAX
    &&& v.total_bytes + u32::MAX <= u64::MAX
    &&& v.lines_shown < u16::MAX
    &&& v.wide_col < 255
}

/// The listing after one step, the bytes shown, and what follows. When
/// the entries are done: a wide listing ends its line; then the next
/// subdirectory (recursive), "File Not Found" (nothing listed), or the
/// footer. Else the next entry is counted and shown: bare (after the
/// subdirectory's path in a recursive listing), as a wide cell (five to a
/// line) or as a standard line; a paged listing pauses after 23 lines.
pub open spec fn listing_next(v: ListingView) -> (ListingView, Seq<u8>, ListingNext) {
    if v.entry_index >= v.entries.len() {
        let ends_line = v.wide && v.wide_col > 0;
        let v2 = ListingView { wide_col: if ends_line { 0 } else { v.wide_col }, ..v };
        let out = if ends_line { crlf() } else { Seq::empty() };
        if v.recursive {
            (v2, out, ListingNext::NextSubdir)
        } else if v.total_files == 0 {
            (v2, out + "File Not Found\r\n".spec_bytes(), ListingNext::NotFound)
        } else {
            (v2, out, ListingNext::Footer)
        }
    } else {
        let e = v.entries[v.entry_index as int];
        let col = v.wide_col + 1;
        let (line, wide_col) = if v.bare {
            (
                (if v.recursive && v.current_path.len() > 0 {
                    v.current_path.push(0x5C)
                } else {
                    Seq::empty()
                }) + display_name(e.name@) + crlf(),
                v.wide_col,
            )
        } else if v.wide {
            (
                wide_cell(e) + if col >= 5 {
                    crlf()
                } else {
                    Seq::empty()
                },
                if col >= 5 {
                    0u8
                } else {
                    col as u8
                },
            )
        } else {
            (standard_line(e) + crlf(), v.wide_col)
        };
        let lines = (v.lines_shown + 1) as u16;
        (
            ListingView {
                entry_index: v.entry_index + 1,
                total_files: (v.total_files + 1) as u32,
                total_bytes: (v.total_bytes + e.file_size) as u64,
                lines_shown: lines,
                wide_col,
                ..v
            },
            line,
            if v.paged && lines >= PAGE_LINES {
                ListingNext::WaitKey
            } else {
                ListingNext::Listing
            },
        )
    }
}

impl DirListing {
    /// One step of the listing.
    pub fn step(&mut self) -> (r: (Vec<u8>, ListingNext))
        requires
            listing_wf(old(self)@),
        ensures
            listing_next(old(self)@) == (final(self)@, r.0@, r.1),
    {
        let mut out: Vec<u8> = Vec::new();
        if self.entry_index >= self.entries.len() {
            if self.wide && self.wide_col > 0 {
                push_bytes(&mut out, "\r\n".as_bytes());
                self.wide_col = 0;
            }
            if self.recursive {
                return (out, ListingNext::NextSubdir);
            }
            if self.total_files == 0 {
                push_bytes(&mut out, "File Not Found\r\n".as_bytes());
                return (out, ListingNext::NotFound);
            }
            return (out, ListingNext::Footer);
        }
        let e = self.entries[self.entry_index];
        self.entry_index = self.entry_index + 1;
        self.total_files = self.total_files + 1;
        self.total_bytes = self.total_bytes + e.file_size as u64;
        if self.bare {
            if self.recursive && self.current_path.len() > 0 {
                push_bytes(&mut out, self.current_path.as_slice());
                out.push(0x5C);
            }
            let name = fcb_to_display_name(&e.name);
            push_bytes(&mut out, name.as_slice());
            push_bytes(&mut out, "\r\n".as_bytes());
        } else if self.wide {
            let (cell, line_end) = format_wide(&e, &mut self.wide_col);
            push_bytes(&mut out, cell.as_slice());
            if line_end {
                push_bytes(&mut out, "\r\n".as_bytes());
            }
        } else {
            let line = format_standard(&e);
            push_bytes(&mut out, line.as_slice());
            push_bytes(&mut out, "\r\n".as_bytes());
        }
        self.lines_shown = self.lines_shown + 1;
        let next = if self.paged && self.lines_shown >= PAGE_LINES {
            ListingNext::WaitKey
        } else {
            ListingNext::Listing
        };
        (out, next)
    }
}

/// The path of a subdirectory found while listing `base`: `base`, a
/// backslash unless it ends with one, and the entry's name.
pub open spec fn subdir_path_of(base: Seq<u8>, fcb: Seq<u8>) -> Seq<u8> {
    (if base.len() > 0 && base.last() == 0x5C {
        base
    } else {
        base.push(0x5C)
    }) + display_name(fcb)
}

/// The path of a subdirectory of `base` named by an FCB name.
pub fn subdir_path(base: &[u8], name: &[u8; 11]) -> (r: Vec<u8>)
    ensures
        r@ == subdir_path_of(base@, name@),
{
    let mut path = vstd::slice::slice_to_vec(base);
    if !(path.len() > 0 && path[path.len() - 1] == 0x5C) {
        path.push(0x5C);
    }
    let display = fcb_to_display_name(name);
    push_bytes(&mut path, display.as_slice());
    path
}

/// The subdirectories a recursive listing visits from a scan of a
/// directory: entries with the directory attribute other than `.` and `..`
/// that name a directory that can be entered, each with its path below
/// `base`.
pub open spec fn subdirs_of(found: Seq<(ReadDirEntry, Option<u32>)>, base: Seq<u8>) -> Seq<(u32, Seq<u8>)>
    decreases found.len(),
{
    if found.len() == 0 {
        Seq::empty()
    } else {
        let rest = subdirs_of(found.drop_last(), base);
        let (e, d) = found.last();
        if has_attr(e.attribute, ATTR_DIRECTORY) && e.name@ != ".          ".spec_bytes()
            && e.name@ != "..         ".spec_bytes() && d is Some {
            rest.push((d->0, subdir_path_of(base, e.name@)))
        } else {
            rest
        }
    }
}

/// Whether an FCB name is `.` or `..`.
fn is_dot_name(name: &[u8; 11]) -> (r: bool)
    ensures
        r == (name@ == ".          ".spec_bytes() || name@ == "..         ".spec_bytes()),
{
    proof {
        broadcast use vstd::string::group_string_axioms;
        reveal_strlit(".          ");
        reveal_strlit("..         ");
        assert(vstd::string::is_ascii(".          "));
        assert(vstd::string::is_ascii("..         "));
    }
    let mut rest_blank = true;
    let mut i: usize = 2;
    while i < 11
        invariant
            2 <= i <= 11,
            rest_blank == (forall|j: int| 2 <= j < i ==> name@[j] == 0x20),
        decreases 11 - i,
    {
        if name[i] != 0x20 {
            rest_blank = false;
        }
        i = i + 1;
    }
    let r = name[0] == 0x2E && (name[1] == 0x20 || name[1] == 0x2E) && rest_blank;
    assert(r == (name@ =~= ".          ".spec_bytes() || name@ =~= "..         ".spec_bytes()));
    r
}

/// The subdirectories found by a scan, in the order found.
pub fn subdirs_found(found: &Vec<(ReadDirEntry, Option<u32>)>, base: &[u8]) -> (r: Vec<(u32, Vec<u8>)>)
    ensures
        r@.len() == subdirs_of(found@, base@).len(),
        forall|i: int| 0 <= i < r@.len() ==> (#[trigger] r@[i]).0 == subdirs_of(found@, base@)[i].0
            && r@[i].1@ == subdirs_of(found@, base@)[i].1,
{
    let mut kept: Vec<(u32, Vec<u8>)> = Vec::new();
    let mut i: usize = 0;
    while i < found.len()
        invariant
            i <= found@.len(),
            kept@.len() == subdirs_of(found@.take(i as int), base@).len(),
            forall|k: int| 0 <= k < kept@.len() ==> (#[trigger] kept@[k]).0 == subdirs_of(found@.take(i as int), base@)[k].0
                && kept@[k].1@ == subdirs_of(found@.take(i as int), base@)[k].1,
        decreases found.len() - i,
    {
        let (e, d) = found[i];
        assert(found@.take(i + 1).drop_last() =~= found@.take(i as int));
        assert(found@.take(i + 1).last() == found@[i as int]);
        if entry_is_directory(&e) && !is_dot_name(&e.name) {
            match d {
                Some(dir) => {
                    let path = subdir_path(base, &e.name);
                    kept.push((dir, path));
                },
                None => {},
            }
        }
        i = i + 1;
    }
    assert(found@.take(found@.len() as int) =~= found@);
    kept
}

/// What follows a directory's listing in a recursive listing.
#[derive(Debug, PartialEq, Eq)]
pub enum SubdirStep {
    /// List this directory, found at this path.
    Enter(u32, Vec<u8>),
    /// Nothing was listed: "File Not Found", and the command fails.
    NotFound,
    /// The listing is done: the footer.
    Footer,
}

/// Takes the next subdirectory from the stack (the last pushed), with a
/// blank line before it unless the listing is bare; when none is left (or
/// on drive Z:, which is not descended), the footer, or "File Not Found"
/// when nothing was listed.
pub fn next_subdir(stack: &mut Vec<(u32, Vec<u8>)>, drive_index: u8, total_files: u32, bare: bool) -> (r: (Vec<u8>, SubdirStep))
    ensures
        drive_index != 25 && old(stack)@.len() > 0 ==> {
            &&& final(stack)@ == old(stack)@.drop_last()
            &&& r.1 == SubdirStep::Enter(old(stack)@.last().0, old(stack)@.last().1)
            &&& r.0@ == (if bare { Seq::empty() } else { "\r\n".spec_bytes() })
        },
        drive_index == 25 || old(stack)@.len() == 0 ==> {
            &&& final(stack)@ == old(stack)@
            &&& r.1 == (if total_files == 0 { SubdirStep::NotFound } else { SubdirStep::Footer })
            &&& r.0@ == (if total_files == 0 { "File Not Found\r\n".spec_bytes() } else { Seq::empty() })
        },
{
    let mut out: Vec<u8> = Vec::new();
    if drive_index != 25 {
        match stack.pop() {
            Some((directory, path)) => {
                if !bare {
                    push_bytes(&mut out, "\r\n".as_bytes());
                }
                return (out, SubdirStep::Enter(directory, path));
            },
            None => {},
        }
    }
    if total_files == 0 {
        push_bytes(&mut out, "File Not Found\r\n".as_bytes());
        (out, SubdirStep::NotFound)
    } else {
        (out, SubdirStep::Footer)
    }
}

} // verus!
