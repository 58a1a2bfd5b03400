//! The editor's file picker: its list navigation and path helpers.

use vstd::prelude::*;
use std::cmp::Ordering;
use crate::input::ByteField;
use crate::dos::{normalized, normalize_path, join_backslash, lemma_join_step};
use crate::filesystem::{split_path_spec, split_path};
use crate::text::{upper_bytes, ascii_upper, bytes_less, lemma_bytes_less_at, lemma_bytes_less_prefix};

verus! {

/// Rows of the picker's list.
pub const VISIBLE_ROWS: usize = 18;

/// Which part of the picker takes the keys.
#[derive(Debug, Clone, Copy, PartialEq, Eq, Structural)]
pub enum PickerFocus {
    Path,
    List,
}

/// What an entry of the picker stands for.
#[derive(Debug, Clone, Copy, PartialEq, Eq, Structural)]
pub enum FilePickerEntryKind {
    Parent,
    Directory,
    File,
}

/// One row of the picker's list.
pub struct FilePickerEntry {
    pub kind: FilePickerEntryKind,
    pub display_name: Vec<u8>,
    pub full_path: Vec<u8>,
    pub size: u32,
}

/// The picker: the directory shown, the path field, the list and its
/// selection.
pub struct FilePickerState {
    pub directory_path: Vec<u8>,
    pub path_field: ByteField,
    pub focus: PickerFocus,
    pub entries: Vec<FilePickerEntry>,
    pub selected: usize,
    pub scroll: usize,
}

/// The path that the path field shows for a selection: the selected entry's
/// path, or the directory's when nothing is selected.
pub open spec fn synced_path(s: &FilePickerState, selected: int) -> Seq<u8> {
    if 0 <= selected < s.entries@.len() {
        s.entries@[selected].full_path@
    } else {
        s.directory_path@
    }
}

/// `b` holds `a`'s directory, entries and focus.
pub open spec fn same_list(a: &FilePickerState, b: &FilePickerState) -> bool {
    &&& b.directory_path@ == a.directory_path@
    &&& b.entries@ == a.entries@
    &&& b.focus == a.focus
}

/// `s` has `selected` and `scroll`, and its path field shows the selection.
pub open spec fn shows(s: &FilePickerState, selected: int, scroll: int) -> bool {
    &&& s.selected == selected
    &&& s.scroll == scroll
    &&& s.path_field@ == (synced_path(s, selected), synced_path(s, selected).len())
}

/// The scroll offset after the selection moved down to `selected`: just
/// enough to show it.
pub open spec fn scroll_down_to(scroll: int, selected: int) -> int {
    if selected >= scroll + VISIBLE_ROWS {
        selected + 1 - VISIBLE_ROWS
    } else {
        scroll
    }
}

/// `b` is `a` after the selection moved up one row.
pub open spec fn after_move_up(a: FilePickerState, b: FilePickerState) -> bool {
    &&& same_list(&a, &b)
    &&& a.selected > 0 ==> shows(
        &b,
        a.selected - 1,
        if a.selected - 1 < a.scroll {
            a.selected - 1
        } else {
            a.scroll as int
        },
    )
    &&& a.selected == 0 ==> b.selected == 0 && b.scroll == a.scroll && b.path_field@
        == a.path_field@
}

/// `b` is `a` after the selection moved down one row.
pub open spec fn after_move_down(a: FilePickerState, b: FilePickerState) -> bool {
    &&& same_list(&a, &b)
    &&& a.selected + 1 < a.entries@.len() ==> shows(
        &b,
        a.selected + 1,
        scroll_down_to(a.scroll as int, a.selected + 1),
    )
    &&& !(a.selected + 1 < a.entries@.len()) ==> b.selected == a.selected && b.scroll == a.scroll
        && b.path_field@ == a.path_field@
}

/// `b` is `a` after the selection moved up a page.
pub open spec fn after_page_up(a: FilePickerState, b: FilePickerState) -> bool {
    &&& same_list(&a, &b)
    &&& a.selected > 0 ==> shows(
        &b,
        if a.selected >= VISIBLE_ROWS {
            a.selected - VISIBLE_ROWS
        } else {
            0
        },
        if a.scroll >= VISIBLE_ROWS {
            a.scroll - VISIBLE_ROWS
        } else {
            0
        },
    )
    &&& a.selected == 0 ==> b.selected == 0 && b.scroll == a.scroll && b.path_field@
        == a.path_field@
}

/// `b` is `a` after the selection moved down a page.
pub open spec fn after_page_down(a: FilePickerState, b: FilePickerState) -> bool {
    &&& same_list(&a, &b)
    &&& a.entries@.len() > 0 ==> {
        let sel = if a.selected + VISIBLE_ROWS <= a.entries@.len() - 1 {
            a.selected + VISIBLE_ROWS
        } else {
            a.entries@.len() - 1
        };
        shows(&b, sel, scroll_down_to(a.scroll as int, sel))
    }
    &&& a.entries@.len() == 0 ==> b.selected == a.selected && b.scroll == a.scroll
        && b.path_field@ == a.path_field@
}

/// `b` is `a` after the selection moved to the first row.
pub open spec fn after_move_home(a: FilePickerState, b: FilePickerState) -> bool {
    &&& same_list(&a, &b)
    &&& shows(&b, 0, 0)
}

/// `b` is `a` after the selection moved to the last row.
pub open spec fn after_move_end(a: FilePickerState, b: FilePickerState) -> bool {
    &&& same_list(&a, &b)
    &&& a.entries@.len() > 0 ==> {
        let last = a.entries@.len() - 1;
        shows(
            &b,
            last,
            if last >= VISIBLE_ROWS - 1 {
                last - (VISIBLE_ROWS - 1)
            } else {
                0
            },
        )
    }
    &&& a.entries@.len() == 0 ==> b.selected == a.selected && b.scroll == a.scroll
        && b.path_field@ == a.path_field@
}

/// `b` is `a` with the path field showing the selection.
pub open spec fn after_sync(a: FilePickerState, b: FilePickerState) -> bool {
    &&& same_list(&a, &b)
    &&& shows(&b, a.selected as int, a.scroll as int)
}

impl FilePickerState {
    /// A picker on `directory_path` with an empty list.
    pub fn new(directory_path: Vec<u8>, focus: PickerFocus) -> (r: FilePickerState)
        ensures
            r.directory_path@ == directory_path@,
            r.path_field@ == (directory_path@, directory_path@.len()),
            r.focus == focus,
            r.entries@.len() == 0,
            r.selected == 0,
            r.scroll == 0,
    {
        let path_field = ByteField::new(vstd::slice::slice_to_vec(directory_path.as_slice()));
        FilePickerState {
            directory_path,
            path_field,
            focus,
            entries: Vec::new(),
            selected: 0,
            scroll: 0,
        }
    }

    /// Shows the selected entry's path (or the directory's) in the path field.
    pub fn sync_path_with_selection(&mut self)
        ensures
            after_sync(*old(self), *final(self)),
    {
        if self.selected < self.entries.len() {
            let path = vstd::slice::slice_to_vec(self.entries[self.selected].full_path.as_slice());
            self.path_field.set_bytes(path);
        } else {
            let path = vstd::slice::slice_to_vec(self.directory_path.as_slice());
            self.path_field.set_bytes(path);
        }
    }

    pub fn move_up(&mut self)
        ensures
            after_move_up(*old(self), *final(self)),
    {
        if self.selected > 0 {
            self.selected -= 1;
            if self.selected < self.scroll {
                self.scroll = self.selected;
            }
            self.sync_path_with_selection();
        }
    }

    pub fn move_down(&mut self)
        ensures
            after_move_down(*old(self), *final(self)),
    {
        if self.entries.len() > 0 && self.selected < self.entries.len() - 1 {
            self.selected += 1;
            if self.selected >= self.scroll && self.selected - self.scroll >= VISIBLE_ROWS {
                self.scroll = self.selected - (VISIBLE_ROWS - 1);
            }
            self.sync_path_with_selection();
        }
    }

    pub fn page_up(&mut self)
        ensures
            after_page_up(*old(self), *final(self)),
    {
        if self.selected > 0 {
            self.selected = self.selected.saturating_sub(VISIBLE_ROWS);
            self.scroll = self.scroll.saturating_sub(VISIBLE_ROWS);
            self.sync_path_with_selection();
        }
    }

    pub fn page_down(&mut self)
        ensures
            after_page_down(*old(self), *final(self)),
    {
        if self.entries.len() > 0 {
            let last = self.entries.len() - 1;
            self.selected = if self.selected < last && last - self.selected >= VISIBLE_ROWS {
                self.selected + VISIBLE_ROWS
            } else {
                last
            };
            if self.selected >= self.scroll && self.selected - self.scroll >= VISIBLE_ROWS {
                self.scroll = self.selected - (VISIBLE_ROWS - 1);
            }
            self.sync_path_with_selection();
        }
    }

    pub fn move_home(&mut self)
        ensures
            after_move_home(*old(self), *final(self)),
    {
        self.selected = 0;
        self.scroll = 0;
        self.sync_path_with_selection();
    }

    pub fn move_end(&mut self)
        ensures
            after_move_end(*old(self), *final(self)),
    {
        if self.entries.len() > 0 {
            self.selected = self.entries.len() - 1;
            self.scroll = self.selected.saturating_sub(VISIBLE_ROWS - 1);
            self.sync_path_with_selection();
        }
    }

    /// The selected entry, if the selection names one.
    pub fn selected_entry(&self) -> (r: Option<&FilePickerEntry>)
        ensures
            r == (if self.selected < self.entries@.len() {
                Some(&self.entries@[self.selected as int])
            } else {
                None
            }),
    {
        if self.selected < self.entries.len() {
            Some(&self.entries[self.selected])
        } else {
            None
        }
    }

    /// The bytes of the path field.
    pub fn current_path_bytes(&self) -> (r: Vec<u8>)
        ensures
            r@ == self.path_field@.0,
    {
        vstd::slice::slice_to_vec(self.path_field.bytes())
    }
}

/// The parent of a path: its drive root followed by every component but
/// the last, after normalization.
pub open spec fn parent_of_path(path: Seq<u8>) -> Seq<u8> {
    let split = split_path_spec(normalized(path));
    let drive: u8 = match split.0 {
        Some(d) => d,
        None => 0,
    };
    let root = seq![(0x41 + drive) as u8, 0x3Au8, 0x5Cu8];
    if split.1.len() <= 1 {
        root
    } else {
        root + join_backslash(split.1.drop_last())
    }
}

/// The directory that holds `path`.
pub fn parent_directory(path: &[u8]) -> (r: Vec<u8>)
    ensures
        r@ == parent_of_path(path@),
{
    let normalized_path = normalize_path(path);
    let (drive_opt, components, _) = split_path(normalized_path.as_slice());
    let ghost cs = components@.map_values(|c: &[u8]| c@);
    let drive_index: u8 = match drive_opt {
        Some(d) => d,
        None => 0,
    };
    proof {
        crate::filesystem::lemma_drive_bound(normalized_path@);
    }
    let mut parent: Vec<u8> = vec![0x41 + drive_index, 0x3A, 0x5C];
    let ghost root = parent@;
    if components.len() <= 1 {
        return parent;
    }
    let count = components.len() - 1;
    let ghost prefix = cs.drop_last();
    let mut index: usize = 0;
    assert(join_backslash(prefix.take(0)) =~= Seq::<u8>::empty());
    assert(parent@ =~= root + join_backslash(prefix.take(0)));
    while index < count
        invariant
            count == prefix.len(),
            prefix == cs.drop_last(),
            cs == components@.map_values(|c: &[u8]| c@),
            count < components@.len(),
            index <= count,
            parent@ == root + join_backslash(prefix.take(index as int)),
        decreases count - index,
    {
        proof {
            lemma_join_step(prefix, index as int);
        }
        if index > 0 {
            parent.push(0x5C);
        }
        let component = components[index];
        assert(component@ == prefix[index as int]);
        let ghost start = parent@;
        let mut m: usize = 0;
        while m < component.len()
            invariant
                m <= component@.len(),
                parent@ == start + component@.take(m as int),
            decreases component@.len() - m,
        {
            parent.push(component[m]);
            m = m + 1;
            assert(parent@ =~= start + component@.take(m as int));
        }
        assert(component@.take(m as int) =~= component@);
        index = index + 1;
        assert(parent@ =~= root + join_backslash(prefix.take(index as int)));
    }
    assert(prefix.take(index as int) =~= prefix);
    parent
}

/// A directory path and a name joined by one backslash, after normalizing
/// the directory.
pub open spec fn joined_path(directory: Seq<u8>, name: Seq<u8>) -> Seq<u8> {
    let d = normalized(directory);
    if d.len() > 0 && d.last() == 0x5C {
        d + name
    } else {
        d.push(0x5C) + name
    }
}

pub fn join_path(directory: &[u8], name: &[u8]) -> (r: Vec<u8>)
    ensures
        r@ == joined_path(directory@, name@),
{
    let mut full_path = normalize_path(directory);
    if !(full_path.len() > 0 && full_path[full_path.len() - 1] == 0x5C) {
        full_path.push(0x5C);
    }
    let ghost start = full_path@;
    let mut i: usize = 0;
    while i < name.len()
        invariant
            i <= name@.len(),
            full_path@ == start + name@.take(i as int),
        decreases name@.len() - i,
    {
        full_path.push(name[i]);
        i = i + 1;
        assert(full_path@ =~= start + name@.take(i as int));
    }
    assert(name@.take(i as int) =~= name@);
    full_path
}

/// Compares two names bytewise, ignoring ASCII case: -1, 0 or 1 as the
/// first sorts before, with, or after the second.
pub fn compare_display_bytes(left: &[u8], right: &[u8]) -> (r: i8)
    ensures
        -1 <= r <= 1,
        (r == -1) == bytes_less(upper_bytes(left@), upper_bytes(right@)),
        (r == 0) == (upper_bytes(left@) == upper_bytes(right@)),
        (r == 1) == bytes_less(upper_bytes(right@), upper_bytes(left@)),
{
    let ghost l = upper_bytes(left@);
    let ghost rt = upper_bytes(right@);
    let mut i: usize = 0;
    assert(l.take(0) =~= rt.take(0));
    while i < left.len() && i < right.len()
        invariant
            i <= left@.len(),
            i <= right@.len(),
            l == upper_bytes(left@),
            rt == upper_bytes(right@),
            l.take(i as int) == rt.take(i as int),
        decreases left@.len() - i,
    {
        let a = ascii_upper(left[i]);
        let b = ascii_upper(right[i]);
        assert(l[i as int] == a && rt[i as int] == b);
        if a < b {
            proof {
                lemma_bytes_less_at(l, rt, i as int);
            }
            return -1;
        }
        if a > b {
            proof {
                lemma_bytes_less_at(rt, l, i as int);
            }
            return 1;
        }
        i = i + 1;
        assert(l.take(i as int) =~= l.take(i - 1).push(a));
        assert(rt.take(i as int) =~= rt.take(i - 1).push(b));
    }
    proof {
        lemma_bytes_less_prefix(l, rt, i as int);
    }
    if left.len() < right.len() {
        -1
    } else if left.len() > right.len() {
        1
    } else {
        assert(l =~= l.take(i as int));
        assert(rt =~= rt.take(i as int));
        0
    }
}

/// Orders two names as the picker lists them: bytewise, ignoring ASCII case.
pub fn cmp_display_bytes(left: &[u8], right: &[u8]) -> (r: Ordering)
    ensures
        (r == Ordering::Less) == bytes_less(upper_bytes(left@), upper_bytes(right@)),
        (r == Ordering::Equal) == (upper_bytes(left@) == upper_bytes(right@)),
        (r == Ordering::Greater) == bytes_less(upper_bytes(right@), upper_bytes(left@)),
{
    let c = compare_display_bytes(left, right);
    if c < 0 {
        Ordering::Less
    } else if c == 0 {
        Ordering::Equal
    } else {
        Ordering::Greater
    }
}

} // verus!
