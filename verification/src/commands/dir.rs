//! DIR: which entries the directory listing shows, in which order, and how
//! each is formatted.

use vstd::prelude::*;
use std::cmp::Ordering;
use crate::text::{
    upper_byte, ascii_upper, bytes_less, compare_tails, lemma_bytes_less_total, lemma_bytes_less_at, byte_chars,
    with_commas, push_with_commas, push_byte_chars, zero_padded, push_zero_padded, push_bytes,
    space_bytes, push_space_bytes, trim_ascii, trim_ascii_spec,
};
use crate::memory::{MemoryAccess, word_of, image};
use crate::commands::{split_words, words_of, words_view, is_switch};
use crate::text::{push_char, string_of, decimal_digits, push_decimal_digits, pad_left, push_padded_left};
use crate::copy_common::{dos_display, lossy_utf8};
use crate::cds::{CdsLayout, layout_fits, cds_path, cds_path_of};

verus! {

/// FAT attribute: read-only.
pub const ATTR_READ_ONLY: u8 = 0x01;
/// FAT attribute: hidden.
pub const ATTR_HIDDEN: u8 = 0x02;
/// FAT attribute: system.
pub const ATTR_SYSTEM: u8 = 0x04;
/// FAT attribute: volume label.
pub const ATTR_VOLUME_ID: u8 = 0x08;
/// FAT attribute: directory.
pub const ATTR_DIRECTORY: u8 = 0x10;
/// FAT attribute: archive.
pub const ATTR_ARCHIVE: u8 = 0x20;

/// A directory entry as the listing reads it: the 8.3 name in FCB form
/// (space-padded), attributes, DOS time and date, and size.
#[derive(Clone, Copy, Debug)]
pub struct ReadDirEntry {
    pub name: [u8; 11],
    pub attribute: u8,
    pub time: u16,
    pub date: u16,
    pub file_size: u32,
}

/// The order of the listing (`/O`).
#[derive(Clone, Copy, PartialEq, Eq, Structural, Debug)]
pub enum SortOrder {
    Unsorted,
    Name,
    Extension,
    Size,
    Date,
    NameDesc,
    ExtensionDesc,
    SizeDesc,
    DateDesc,
}

/// Which entries the listing shows (`/A`).
#[derive(Clone, Copy, PartialEq, Eq, Structural, Debug)]
pub struct AttrFilter {
    pub show_hidden: bool,
    pub show_system: bool,
    pub show_dirs: bool,
    pub show_read_only: bool,
    pub dirs_only: bool,
}

/// The filter without `/A`: directories and read-only files shown,
/// hidden and system files not.
pub open spec fn default_filter() -> AttrFilter {
    AttrFilter {
        show_hidden: false,
        show_system: false,
        show_dirs: true,
        show_read_only: true,
        dirs_only: false,
    }
}

impl Default for AttrFilter {
    fn default() -> (r: AttrFilter)
        ensures
            r == default_filter(),
    {
        AttrFilter {
            show_hidden: false,
            show_system: false,
            show_dirs: true,
            show_read_only: true,
            dirs_only: false,
        }
    }
}

/// Whether an attribute byte has a flag.
pub open spec fn has_attr(attribute: u8, flag: u8) -> bool {
    attribute & flag != 0
}

/// Whether the listing shows an entry: never a volume label; hidden and
/// system entries only when asked for; only directories with `/AD`.
pub open spec fn shows_entry(entry: ReadDirEntry, filter: AttrFilter) -> bool {
    &&& !has_attr(entry.attribute, ATTR_VOLUME_ID)
    &&& !(has_attr(entry.attribute, ATTR_HIDDEN) && !filter.show_hidden)
    &&& !(has_attr(entry.attribute, ATTR_SYSTEM) && !filter.show_system)
    &&& !(filter.dirs_only && !has_attr(entry.attribute, ATTR_DIRECTORY))
    &&& !(has_attr(entry.attribute, ATTR_DIRECTORY) && !filter.show_dirs)
}

pub fn should_show_entry(entry: &ReadDirEntry, filter: &AttrFilter) -> (r: bool)
    ensures
        r == shows_entry(*entry, *filter),
{
    if entry.attribute & ATTR_VOLUME_ID != 0 {
        return false;
    }
    if entry.attribute & ATTR_HIDDEN != 0 && !filter.show_hidden {
        return false;
    }
    if entry.attribute & ATTR_SYSTEM != 0 && !filter.show_system {
        return false;
    }
    if filter.dirs_only && entry.attribute & ATTR_DIRECTORY == 0 {
        return false;
    }
    if entry.attribute & ATTR_DIRECTORY != 0 && !filter.show_dirs {
        return false;
    }
    true
}

pub fn entry_is_directory(entry: &ReadDirEntry) -> (r: bool)
    ensures
        r == has_attr(entry.attribute, ATTR_DIRECTORY),
{
    entry.attribute & ATTR_DIRECTORY != 0
}

/// Date and time as one number: the date in the high half.
pub open spec fn timestamp(entry: ReadDirEntry) -> u32 {
    (entry.date as u32) << 16u32 | entry.time as u32
}

pub fn entry_timestamp(entry: &ReadDirEntry) -> (r: u32)
    ensures
        r == timestamp(*entry),
{
    ((entry.date as u32) << 16) | entry.time as u32
}

/// The order that `/O` with `spec` asks for: its first letter (N, E, S, D)
/// picks the key, a `-` anywhere reverses it, and a leading `-` takes the
/// key from the next letter; name order otherwise.
pub open spec fn sort_order_of(spec: Seq<u8>) -> SortOrder {
    if spec.len() == 0 {
        SortOrder::Name
    } else {
        let desc = spec.contains(0x2Du8);
        let c = upper_byte(spec[0]);
        if c == 0x4E {
            if desc { SortOrder::NameDesc } else { SortOrder::Name }
        } else if c == 0x45 {
            if desc { SortOrder::ExtensionDesc } else { SortOrder::Extension }
        } else if c == 0x53 {
            if desc { SortOrder::SizeDesc } else { SortOrder::Size }
        } else if c == 0x44 {
            if desc { SortOrder::DateDesc } else { SortOrder::Date }
        } else if c == 0x2D {
            if spec.len() > 1 {
                let d = upper_byte(spec[1]);
                if d == 0x4E {
                    SortOrder::NameDesc
                } else if d == 0x45 {
                    SortOrder::ExtensionDesc
                } else if d == 0x53 {
                    SortOrder::SizeDesc
                } else if d == 0x44 {
                    SortOrder::DateDesc
                } else {
                    SortOrder::Name
                }
            } else {
                SortOrder::Name
            }
        } else {
            SortOrder::Name
        }
    }
}

/// Whether `s` holds the byte `b`.
fn contains_byte(s: &[u8], b: u8) -> (r: bool)
    ensures
        r == s@.contains(b),
{
    let mut i: usize = 0;
    while i < s.len()
        invariant
            i <= s@.len(),
            forall|j: int| 0 <= j < i ==> s@[j] != b,
        decreases s@.len() - i,
    {
        if s[i] == b {
            assert(s@[i as int] == b);
            return true;
        }
        i = i + 1;
    }
    false
}

pub fn parse_sort_order(spec: &[u8]) -> (r: SortOrder)
    ensures
        r == sort_order_of(spec@),
{
    if spec.len() == 0 {
        return SortOrder::Name;
    }
    let desc = contains_byte(spec, 0x2D);
    let c = ascii_upper(spec[0]);
    if c == 0x4E {
        if desc { SortOrder::NameDesc } else { SortOrder::Name }
    } else if c == 0x45 {
        if desc { SortOrder::ExtensionDesc } else { SortOrder::Extension }
    } else if c == 0x53 {
        if desc { SortOrder::SizeDesc } else { SortOrder::Size }
    } else if c == 0x44 {
        if desc { SortOrder::DateDesc } else { SortOrder::Date }
    } else if c == 0x2D {
        if spec.len() > 1 {
            let d = ascii_upper(spec[1]);
            if d == 0x4E {
                SortOrder::NameDesc
            } else if d == 0x45 {
                SortOrder::ExtensionDesc
            } else if d == 0x53 {
                SortOrder::SizeDesc
            } else if d == 0x44 {
                SortOrder::DateDesc
            } else {
                SortOrder::Name
            }
        } else {
            SortOrder::Name
        }
    } else {
        SortOrder::Name
    }
}

/// The filter after the letters of `spec` from position `i` on: H shows
/// hidden, S system, R read-only entries; D shows directories only.
pub open spec fn filter_letters(f: AttrFilter, spec: Seq<u8>, i: int) -> AttrFilter
    decreases spec.len() - i,
{
    if i >= spec.len() || i < 0 {
        f
    } else {
        let c = upper_byte(spec[i]);
        let g = if c == 0x48 {
            AttrFilter { show_hidden: true, ..f }
        } else if c == 0x53 {
            AttrFilter { show_system: true, ..f }
        } else if c == 0x44 {
            AttrFilter { dirs_only: true, ..f }
        } else if c == 0x52 {
            AttrFilter { show_read_only: true, ..f }
        } else {
            f
        };
        filter_letters(g, spec, i + 1)
    }
}

/// The filter that `/A` with `spec` asks for: everything when `spec` is
/// empty, else the default with the letters' flags set.
pub open spec fn attr_filter_of(spec: Seq<u8>) -> AttrFilter {
    if spec.len() == 0 {
        AttrFilter {
            show_hidden: true,
            show_system: true,
            show_dirs: true,
            show_read_only: true,
            dirs_only: false,
        }
    } else {
        filter_letters(default_filter(), spec, 0)
    }
}

pub fn parse_attr_filter(spec: &[u8]) -> (r: AttrFilter)
    ensures
        r == attr_filter_of(spec@),
{
    if spec.len() == 0 {
        return AttrFilter {
            show_hidden: true,
            show_system: true,
            show_dirs: true,
            show_read_only: true,
            dirs_only: false,
        };
    }
    let mut filter = AttrFilter::default();
    let mut i: usize = 0;
    while i < spec.len()
        invariant
            i <= spec@.len(),
            filter_letters(filter, spec@, i as int) == filter_letters(default_filter(), spec@, 0),
        decreases spec@.len() - i,
    {
        let c = ascii_upper(spec[i]);
        if c == 0x48 {
            filter.show_hidden = true;
        } else if c == 0x53 {
            filter.show_system = true;
        } else if c == 0x44 {
            filter.dirs_only = true;
        } else if c == 0x52 {
            filter.show_read_only = true;
        }
        i = i + 1;
    }
    filter
}

/// The order of two byte sequences: bytewise, a proper prefix first.
pub open spec fn seq_order(a: Seq<u8>, b: Seq<u8>) -> Ordering {
    if bytes_less(a, b) {
        Ordering::Less
    } else if a == b {
        Ordering::Equal
    } else {
        Ordering::Greater
    }
}

/// The order of two numbers.
pub open spec fn num_order(a: u32, b: u32) -> Ordering {
    if a < b {
        Ordering::Less
    } else if a == b {
        Ordering::Equal
    } else {
        Ordering::Greater
    }
}

/// The order of two flags: false before true.
pub open spec fn flag_order(a: bool, b: bool) -> Ordering {
    if a == b {
        Ordering::Equal
    } else if !a {
        Ordering::Less
    } else {
        Ordering::Greater
    }
}

/// `first`, unless it is `Equal`; then `second`.
pub open spec fn then_order(first: Ordering, second: Ordering) -> Ordering {
    if first == Ordering::Equal {
        second
    } else {
        first
    }
}

/// The reverse order.
pub open spec fn flipped(o: Ordering) -> Ordering {
    match o {
        Ordering::Less => Ordering::Greater,
        Ordering::Equal => Ordering::Equal,
        Ordering::Greater => Ordering::Less,
    }
}

/// Names in FCB order: all 11 bytes.
pub open spec fn names_order(a: ReadDirEntry, b: ReadDirEntry) -> Ordering {
    seq_order(a.name@, b.name@)
}

/// Extensions (the last 3 bytes), then names.
pub open spec fn extensions_order(a: ReadDirEntry, b: ReadDirEntry) -> Ordering {
    then_order(seq_order(a.name@.skip(8), b.name@.skip(8)), names_order(a, b))
}

/// The order of two entries of the same kind under `order`.
pub open spec fn group_order(a: ReadDirEntry, b: ReadDirEntry, order: SortOrder) -> Ordering {
    match order {
        SortOrder::Unsorted | SortOrder::Name => names_order(a, b),
        SortOrder::NameDesc => names_order(b, a),
        SortOrder::Extension => extensions_order(a, b),
        SortOrder::ExtensionDesc => extensions_order(b, a),
        SortOrder::Size => then_order(num_order(a.file_size, b.file_size), names_order(a, b)),
        SortOrder::SizeDesc => then_order(num_order(b.file_size, a.file_size), names_order(a, b)),
        SortOrder::Date => then_order(num_order(timestamp(a), timestamp(b)), names_order(a, b)),
        SortOrder::DateDesc => then_order(num_order(timestamp(b), timestamp(a)), names_order(a, b)),
    }
}

/// The order of two entries in the listing: directories first, then by
/// `order`.
pub open spec fn entry_order(a: ReadDirEntry, b: ReadDirEntry, order: SortOrder) -> Ordering {
    then_order(
        flag_order(has_attr(b.attribute, ATTR_DIRECTORY), has_attr(a.attribute, ATTR_DIRECTORY)),
        group_order(a, b, order),
    )
}

/// The order of an `i8` comparison result.
fn order_of_sign(c: i8) -> (r: Ordering)
    requires
        -1 <= c <= 1,
    ensures
        r == (if c == -1 {
            Ordering::Less
        } else if c == 0 {
            Ordering::Equal
        } else {
            Ordering::Greater
        }),
{
    if c < 0 {
        Ordering::Less
    } else if c == 0 {
        Ordering::Equal
    } else {
        Ordering::Greater
    }
}

pub fn compare_entry_names(a: &ReadDirEntry, b: &ReadDirEntry) -> (r: Ordering)
    ensures
        r == names_order(*a, *b),
{
    let c = compare_tails(a.name.as_slice(), b.name.as_slice(), 0);
    proof {
        assert(a.name@.skip(0) =~= a.name@);
        assert(b.name@.skip(0) =~= b.name@);
        lemma_bytes_less_total(a.name@, b.name@);
    }
    order_of_sign(c)
}

/// `first`, unless it is `Equal`; then `second`.
fn then_with(first: Ordering, second: Ordering) -> (r: Ordering)
    ensures
        r == then_order(first, second),
{
    match first {
        Ordering::Equal => second,
        other => other,
    }
}

pub fn compare_entry_extensions(a: &ReadDirEntry, b: &ReadDirEntry) -> (r: Ordering)
    ensures
        r == extensions_order(*a, *b),
{
    let c = compare_tails(a.name.as_slice(), b.name.as_slice(), 8);
    proof {
        lemma_bytes_less_total(a.name@.skip(8), b.name@.skip(8));
    }
    then_with(order_of_sign(c), compare_entry_names(a, b))
}

/// The order of two numbers.
fn compare_u32(a: u32, b: u32) -> (r: Ordering)
    ensures
        r == num_order(a, b),
{
    if a < b {
        Ordering::Less
    } else if a == b {
        Ordering::Equal
    } else {
        Ordering::Greater
    }
}

pub fn compare_entries_within_group(a: &ReadDirEntry, b: &ReadDirEntry, order: SortOrder) -> (r: Ordering)
    ensures
        r == group_order(*a, *b, order),
{
    match order {
        SortOrder::Unsorted | SortOrder::Name => compare_entry_names(a, b),
        SortOrder::NameDesc => compare_entry_names(b, a),
        SortOrder::Extension => compare_entry_extensions(a, b),
        SortOrder::ExtensionDesc => compare_entry_extensions(b, a),
        SortOrder::Size => then_with(compare_u32(a.file_size, b.file_size), compare_entry_names(a, b)),
        SortOrder::SizeDesc => then_with(compare_u32(b.file_size, a.file_size), compare_entry_names(a, b)),
        SortOrder::Date => then_with(
            compare_u32(entry_timestamp(a), entry_timestamp(b)),
            compare_entry_names(a, b),
        ),
        SortOrder::DateDesc => then_with(
            compare_u32(entry_timestamp(b), entry_timestamp(a)),
            compare_entry_names(a, b),
        ),
    }
}

pub fn compare_entries(a: &ReadDirEntry, b: &ReadDirEntry, order: SortOrder) -> (r: Ordering)
    ensures
        r == entry_order(*a, *b, order),
{
    let da = entry_is_directory(a);
    let db = entry_is_directory(b);
    let first = if db == da {
        Ordering::Equal
    } else if !db {
        Ordering::Less
    } else {
        Ordering::Greater
    };
    then_with(first, compare_entries_within_group(a, b, order))
}

/// Byte sequences ordered one way are ordered the reverse way round.
proof fn lemma_seq_order_flip(a: Seq<u8>, b: Seq<u8>)
    ensures
        seq_order(b, a) == flipped(seq_order(a, b)),
{
    lemma_bytes_less_total(a, b);
    lemma_bytes_less_total(b, a);
}

/// Comparing two entries the other way round gives the reverse order.
pub proof fn lemma_entry_order_flip(a: ReadDirEntry, b: ReadDirEntry, order: SortOrder)
    ensures
        entry_order(b, a, order) == flipped(entry_order(a, b, order)),
{
    lemma_seq_order_flip(a.name@, b.name@);
    lemma_seq_order_flip(a.name@.skip(8), b.name@.skip(8));
}

/// Two entries that are both directories or both files.
pub open spec fn same_kind(a: ReadDirEntry, b: ReadDirEntry) -> bool {
    has_attr(a.attribute, ATTR_DIRECTORY) == has_attr(b.attribute, ATTR_DIRECTORY)
}

/// `/O-N` is `/ON` turned round: two entries of the same kind compare
/// under descending names as the other way round under ascending names,
/// and likewise `/O-E` against `/OE`. `/O-S` and `/O-D` turn round only
/// the size or time: entries that tie on it keep ascending name order.
pub proof fn lemma_descending_names_reverse(a: ReadDirEntry, b: ReadDirEntry)
    requires
        same_kind(a, b),
    ensures
        entry_order(a, b, SortOrder::NameDesc) == entry_order(b, a, SortOrder::Name),
        entry_order(a, b, SortOrder::NameDesc) == flipped(entry_order(a, b, SortOrder::Name)),
        entry_order(a, b, SortOrder::ExtensionDesc) == flipped(entry_order(a, b, SortOrder::Extension)),
        a.file_size != b.file_size ==> entry_order(a, b, SortOrder::SizeDesc) == flipped(
            entry_order(a, b, SortOrder::Size),
        ),
        a.file_size == b.file_size ==> entry_order(a, b, SortOrder::SizeDesc) == entry_order(a, b, SortOrder::Size)
            && entry_order(a, b, SortOrder::Size) == entry_order(a, b, SortOrder::Name),
        timestamp(a) != timestamp(b) ==> entry_order(a, b, SortOrder::DateDesc) == flipped(
            entry_order(a, b, SortOrder::Date),
        ),
        timestamp(a) == timestamp(b) ==> entry_order(a, b, SortOrder::DateDesc) == entry_order(a, b, SortOrder::Date)
            && entry_order(a, b, SortOrder::Date) == entry_order(a, b, SortOrder::Name),
{
    lemma_entry_order_flip(a, b, SortOrder::Name);
    lemma_entry_order_flip(a, b, SortOrder::Extension);
}

/// In a listing sorted by name, of two neighbours of the same kind the
/// first name is not after the second in byte order; sorted by descending
/// name, not before it. At the first byte where the names differ, the
/// first name's byte is the smaller (ascending) or the larger (descending).
pub proof fn lemma_sorted_names_in_byte_order(s: Seq<ReadDirEntry>, k: int, i: int)
    requires
        0 <= k < s.len() - 1,
        same_kind(s[k], s[k + 1]),
        0 <= i < 11,
        s[k].name@.take(i) == s[k + 1].name@.take(i),
    ensures
        sorted_by(s, SortOrder::Name) ==> !bytes_less(s[k + 1].name@, s[k].name@)
            && s[k].name@[i] <= s[k + 1].name@[i],
        sorted_by(s, SortOrder::NameDesc) ==> !bytes_less(s[k].name@, s[k + 1].name@)
            && s[k].name@[i] >= s[k + 1].name@[i],
{
    let a = s[k].name@;
    let b = s[k + 1].name@;
    lemma_bytes_less_total(a, b);
    if sorted_by(s, SortOrder::Name) {
        assert(adjacent_in_order(s, k, SortOrder::Name));
        if a[i] > b[i] {
            lemma_bytes_less_at(b, a, i);
        }
    }
    if sorted_by(s, SortOrder::NameDesc) {
        assert(adjacent_in_order(s, k, SortOrder::NameDesc));
        if a[i] < b[i] {
            lemma_bytes_less_at(a, b, i);
        }
    }
}

/// Entry `i` sorts no later than entry `i + 1`.
pub open spec fn adjacent_in_order(s: Seq<ReadDirEntry>, i: int, order: SortOrder) -> bool {
    entry_order(s[i], s[i + 1], order) != Ordering::Greater
}

/// Each entry sorts no later than the next.
pub open spec fn sorted_by(s: Seq<ReadDirEntry>, order: SortOrder) -> bool {
    forall|i: int| 0 <= i < s.len() - 1 ==> #[trigger] adjacent_in_order(s, i, order)
}

/// Swapping two elements keeps the multiset of a sequence.
proof fn lemma_swap_multiset(s: Seq<ReadDirEntry>, i: int, j: int)
    requires
        0 <= i < s.len(),
        0 <= j < s.len(),
    ensures
        s.update(i, s[j]).update(j, s[i]).to_multiset() == s.to_multiset(),
{
    broadcast use vstd::seq_lib::to_multiset_update;
    broadcast use vstd::multiset::group_multiset_axioms;

    let t = s.update(i, s[j]);
    assert(t.to_multiset() == s.to_multiset().insert(s[j]).remove(s[i]));
    assert(t[j] == (if i == j { s[j] } else { s[j] }));
    assert(t.update(j, s[i]).to_multiset() == t.to_multiset().insert(s[i]).remove(t[j]));
    let m = s.to_multiset();
    assert(m.count(s[i]) > 0) by {
        broadcast use vstd::seq_lib::to_multiset_contains;

        assert(s.contains(s[i]));
    }
    let r = m.insert(s[j]).remove(s[i]).insert(s[i]).remove(s[j]);
    assert forall|x: ReadDirEntry| r.count(x) == m.count(x) by {
        if s[i] == s[j] {
        } else {
        }
    }
    assert(r =~= m);
}

/// `a` sorts after `b`.
pub open spec fn after(a: ReadDirEntry, b: ReadDirEntry, order: SortOrder) -> bool {
    entry_order(a, b, order) == Ordering::Greater
}

/// `a` sorts before `b`.
pub open spec fn before(a: ReadDirEntry, b: ReadDirEntry, order: SortOrder) -> bool {
    entry_order(a, b, order) == Ordering::Less
}

/// An entry that sorts after another has the other sort before it.
proof fn lemma_after_flip(a: ReadDirEntry, b: ReadDirEntry, order: SortOrder)
    ensures
        after(a, b, order) ==> before(b, a, order),
{
    lemma_entry_order_flip(a, b, order);
}

/// Whether `a` sorts after `b`.
fn entry_after(a: &ReadDirEntry, b: &ReadDirEntry, order: SortOrder) -> (r: bool)
    ensures
        r == after(*a, *b, order),
{
    match compare_entries(a, b, order) {
        Ordering::Greater => true,
        _ => false,
    }
}

/// Sorts a listing: directories first, then by `order`; a stable
/// insertion sort.
pub fn sort_entries(entries: &mut Vec<ReadDirEntry>, order: SortOrder)
    ensures
        final(entries)@.to_multiset() == old(entries)@.to_multiset(),
        sorted_by(final(entries)@, order),
{
    let n = entries.len();
    if n < 2 {
        return;
    }
    let mut i: usize = 1;
    while i < n
        invariant
            entries@.len() == n,
            1 <= i <= n,
            entries@.to_multiset() == old(entries)@.to_multiset(),
            forall|k: int| 0 <= k < i - 1 ==> #[trigger] adjacent_in_order(entries@, k, order),
        decreases n - i,
    {
        let mut j: usize = i;
        loop
            invariant
                entries@.len() == n,
                j <= i < n,
                entries@.to_multiset() == old(entries)@.to_multiset(),
                forall|k: int| 0 <= k < j - 1 ==> #[trigger] adjacent_in_order(entries@, k, order),
                forall|k: int| j + 1 <= k < i ==> #[trigger] adjacent_in_order(entries@, k, order),
                0 < j < i ==> !after(entries@[j - 1], entries@[j + 1], order),
                j < i ==> before(entries@[j + 0], entries@[j + 1], order),
            ensures
                entries@.len() == n,
                j <= i < n,
                entries@.to_multiset() == old(entries)@.to_multiset(),
                forall|k: int| 0 <= k < j - 1 ==> #[trigger] adjacent_in_order(entries@, k, order),
                forall|k: int| j + 1 <= k < i ==> #[trigger] adjacent_in_order(entries@, k, order),
                j < i ==> before(entries@[j + 0], entries@[j + 1], order),
                j > 0 ==> !after(entries@[j - 1], entries@[j + 0], order),
            decreases j,
        {
            if j == 0 {
                break;
            }
            if !entry_after(&entries[j - 1], &entries[j], order) {
                break;
            }
            let ghost s = entries@;
            let prev = entries[j - 1];
            let cur = entries[j];
            entries.set(j - 1, cur);
            entries.set(j, prev);
            proof {
                lemma_swap_multiset(s, j - 1, j + 0);
                lemma_after_flip(prev, cur, order);
                let t = entries@;
                assert(t == s.update(j - 1, s[j + 0]).update(j + 0, s[j - 1]));
                assert forall|k: int| 0 <= k < j - 2 implies #[trigger] adjacent_in_order(t, k, order) by {
                    assert(adjacent_in_order(s, k, order));
                }
                assert forall|k: int| j <= k < i implies #[trigger] adjacent_in_order(t, k, order) by {
                    if k == j {
                        assert(!after(s[j - 1], s[j + 1], order));
                    } else {
                        assert(adjacent_in_order(s, k, order));
                    }
                }
                if j > 1 {
                    assert(adjacent_in_order(s, j - 2, order));
                }
            }
            j = j - 1;
        }
        proof {
            let t = entries@;
            assert forall|k: int| 0 <= k < i implies #[trigger] adjacent_in_order(t, k, order) by {
                if k < j - 1 {
                } else if k == j - 1 {
                } else if k == j {
                } else {
                }
            }
        }
        i = i + 1;
    }
}

/// Address of the BIOS keyboard buffer's key count.
pub const KB_BUF_COUNT: u32 = 0x0528;

/// Address of the BIOS keyboard buffer's head pointer.
pub const KB_BUF_HEAD: u32 = 0x0524;

/// Takes one key from the BIOS keyboard buffer: the head pointer moves two
/// bytes on, wrapping from 522h to 502h, and the key count drops by one.
pub fn consume_key<M: MemoryAccess>(memory: &mut M)
    ensures
        forall|a: u32| #[trigger]
            final(memory).peek(a) == {
                let next = crate::commands::del::next_key_head(
                    word_of(image(old(memory)), KB_BUF_HEAD) as int,
                ) as u16;
                let count = old(memory).peek(KB_BUF_COUNT);
                if a == KB_BUF_HEAD {
                    (next & 0xFF) as u8
                } else if a == KB_BUF_HEAD + 1 {
                    (next >> 8u16) as u8
                } else if a == KB_BUF_COUNT && count > 0 {
                    (count - 1) as u8
                } else {
                    old(memory).peek(a)
                }
            },
{
    let head = memory.read_word(KB_BUF_HEAD) as u32;
    proof {
        crate::memory::lemma_read_word(&*old(memory), KB_BUF_HEAD, head as u16);
    }
    let mut new_head = head + 2;
    if new_head >= 0x0522 {
        new_head = 0x0502;
    }
    memory.write_word(KB_BUF_HEAD, new_head as u16);
    let count = memory.read_byte(KB_BUF_COUNT);
    if count > 0 {
        memory.write_byte(KB_BUF_COUNT, count - 1);
    }
}

/// Where the text `s[start..end]` ends once trailing spaces are dropped.
pub open spec fn text_end(s: Seq<u8>, start: int, end: int) -> int
    decreases end - start,
{
    if end <= start {
        start
    } else if s[end - 1] != 0x20 {
        end
    } else {
        text_end(s, start, end - 1)
    }
}

/// Finds where `s[start..end]` ends once trailing spaces are dropped.
fn find_text_end(s: &[u8], start: usize, end: usize) -> (r: usize)
    requires
        start <= end <= s@.len(),
    ensures
        r == text_end(s@, start as int, end as int),
        start <= r <= end,
        forall|i: int| r <= i < end ==> s@[i] == 0x20,
{
    let mut k: usize = end;
    while k > start && s[k - 1] == 0x20
        invariant
            start <= k <= end <= s@.len(),
            text_end(s@, start as int, k as int) == text_end(s@, start as int, end as int),
            forall|i: int| k <= i < end ==> s@[i] == 0x20,
        decreases k,
    {
        k = k - 1;
    }
    k
}

/// The name shown for an FCB name: the base without trailing spaces, then
/// a dot and the extension without trailing spaces when there is one.
pub open spec fn display_name(fcb: Seq<u8>) -> Seq<u8> {
    let base = fcb.take(text_end(fcb, 0, 8));
    let ext = fcb.subrange(8, text_end(fcb, 8, 11));
    if ext.len() > 0 {
        base + seq![0x2Eu8] + ext
    } else {
        base
    }
}

pub fn fcb_to_display_name(fcb: &[u8; 11]) -> (r: Vec<u8>)
    ensures
        r@ == display_name(fcb@),
{
    let name = fcb.as_slice();
    let base_end = find_text_end(name, 0, 8);
    let ext_end = find_text_end(name, 8, 11);
    let mut r: Vec<u8> = Vec::new();
    push_bytes(&mut r, vstd::slice::slice_subrange(name, 0, base_end));
    if ext_end > 8 {
        r.push(0x2E);
        push_bytes(&mut r, vstd::slice::slice_subrange(name, 8, ext_end));
    }
    assert(r@ =~= display_name(fcb@));
    r
}

pub fn format_bare(entry: &ReadDirEntry) -> (r: Vec<u8>)
    ensures
        r@ == display_name(entry.name@),
{
    fcb_to_display_name(&entry.name)
}

/// `t` right-aligned in `width` columns, as bytes.
pub open spec fn pad_left_bytes(t: Seq<u8>, width: nat) -> Seq<u8> {
    if t.len() < width {
        space_bytes((width - t.len()) as nat) + t
    } else {
        t
    }
}

pub fn format_decimal_with_commas(value: u64) -> (r: String)
    ensures
        r@ == byte_chars(with_commas(value as nat)),
{
    let mut digits: Vec<u8> = Vec::new();
    push_with_commas(&mut digits, value);
    let mut r = String::new();
    push_byte_chars(&mut r, digits.as_slice());
    r
}

/// A DOS date as `YYYY-MM-DD`: year from 1980 in bits 9-15, month in bits
/// 5-8, day in bits 0-4.
pub open spec fn dos_date_bytes(date: u16) -> Seq<u8> {
    zero_padded((((date >> 9u16) & 0x7Fu16) + 1980) as nat, 4) + seq![0x2Du8] + zero_padded(
        ((date >> 5u16) & 0x0Fu16) as nat,
        2,
    ) + seq![0x2Du8] + zero_padded((date & 0x1Fu16) as nat, 2)
}

/// Appends a DOS date as `YYYY-MM-DD`.
fn push_dos_date(out: &mut Vec<u8>, date: u16)
    ensures
        final(out)@ == old(out)@ + dos_date_bytes(date),
{
    assert((date >> 9u16) & 0x7Fu16 <= 0x7F) by (bit_vector);
    let year = ((date >> 9) & 0x7F) + 1980;
    let month = (date >> 5) & 0x0F;
    let day = date & 0x1F;
    push_zero_padded(out, year as u64, 4);
    out.push(0x2D);
    push_zero_padded(out, month as u64, 2);
    out.push(0x2D);
    push_zero_padded(out, day as u64, 2);
    assert(out@ =~= old(out)@ + dos_date_bytes(date));
}

pub fn format_dos_date(date: u16) -> (r: String)
    ensures
        r@ == byte_chars(dos_date_bytes(date)),
{
    let mut bytes: Vec<u8> = Vec::new();
    push_dos_date(&mut bytes, date);
    let mut r = String::new();
    push_byte_chars(&mut r, bytes.as_slice());
    r
}

/// The `<DIR>` column of a directory's line.
pub open spec fn dir_column() -> Seq<u8> {
    seq![0x20u8, 0x20, 0x20, 0x20, 0x20, 0x3C, 0x44, 0x49, 0x52, 0x3E, 0x20, 0x20, 0x20]
}

/// A DOS time as `HH:MM`: hours in bits 11-15, minutes in bits 5-10.
pub open spec fn dos_time_bytes(time: u16) -> Seq<u8> {
    zero_padded(((time >> 11u16) & 0x1Fu16) as nat, 2) + seq![0x3Au8] + zero_padded(
        ((time >> 5u16) & 0x3Fu16) as nat,
        2,
    )
}

/// An entry's line in the standard listing: the 8-byte base, a space, the
/// 3-byte extension, `<DIR>` or the size with commas right-aligned in 10
/// columns, the date, two spaces and the time.
pub open spec fn standard_line(entry: ReadDirEntry) -> Seq<u8> {
    entry.name@.take(8) + seq![0x20u8] + entry.name@.skip(8) + (if has_attr(
        entry.attribute,
        ATTR_DIRECTORY,
    ) {
        dir_column()
    } else {
        pad_left_bytes(with_commas(entry.file_size as nat), 10) + seq![0x20u8]
    }) + dos_date_bytes(entry.date) + seq![0x20u8, 0x20u8] + dos_time_bytes(entry.time)
}

pub fn format_standard(entry: &ReadDirEntry) -> (r: Vec<u8>)
    ensures
        r@ == standard_line(*entry),
{
    let name = entry.name.as_slice();
    let mut line: Vec<u8> = Vec::new();
    let base_end = find_text_end(name, 0, 8);
    let mut i: usize = 0;
    while i < 8
        invariant
            name@ == entry.name@,
            name@.len() == 11,
            base_end <= 8,
            forall|k: int| base_end <= k < 8 ==> name@[k] == 0x20,
            i <= 8,
            line@ == name@.take(i as int),
        decreases 8 - i,
    {
        if i < base_end {
            line.push(name[i]);
        } else {
            line.push(0x20);
        }
        i = i + 1;
        assert(line@ =~= name@.take(i as int));
    }
    line.push(0x20);
    let ext_end = find_text_end(name, 8, 11);
    let ghost head = line@;
    let mut j: usize = 0;
    while j < 3
        invariant
            name@ == entry.name@,
            name@.len() == 11,
            8 <= ext_end <= 11,
            forall|k: int| ext_end <= k < 11 ==> name@[k] == 0x20,
            j <= 3,
            line@ == head + name@.subrange(8, 8 + j),
        decreases 3 - j,
    {
        if 8 + j < ext_end {
            line.push(name[8 + j]);
        } else {
            line.push(0x20);
        }
        j = j + 1;
        assert(line@ =~= head + name@.subrange(8, 8 + j));
    }
    assert(name@.subrange(8, 11) =~= name@.skip(8));
    let ghost named = line@;
    if entry.attribute & ATTR_DIRECTORY != 0 {
        push_bytes(&mut line, &[0x20u8, 0x20, 0x20, 0x20, 0x20, 0x3C, 0x44, 0x49, 0x52, 0x3E, 0x20, 0x20, 0x20]);
    } else {
        let mut size: Vec<u8> = Vec::new();
        push_with_commas(&mut size, entry.file_size as u64);
        let digits = size.len();
        if digits < 10 {
            push_space_bytes(&mut line, 10 - digits);
        }
        push_bytes(&mut line, size.as_slice());
        line.push(0x20);
    }
    let ghost sized = line@;
    push_dos_date(&mut line, entry.date);
    line.push(0x20);
    line.push(0x20);
    let hour = (entry.time >> 11) & 0x1F;
    let minute = (entry.time >> 5) & 0x3F;
    push_zero_padded(&mut line, hour as u64, 2);
    line.push(0x3A);
    push_zero_padded(&mut line, minute as u64, 2);
    assert(line@ =~= standard_line(*entry));
    line
}

/// An entry's cell in the wide listing: the name (in brackets for a
/// directory) padded with spaces to 15 columns.
pub open spec fn wide_cell(entry: ReadDirEntry) -> Seq<u8> {
    let name = display_name(entry.name@);
    let shown = if has_attr(entry.attribute, ATTR_DIRECTORY) {
        seq![0x5Bu8] + name + seq![0x5Du8]
    } else {
        name
    };
    if shown.len() < 15 {
        shown + space_bytes((15 - shown.len()) as nat)
    } else {
        shown
    }
}

/// Formats an entry for the wide listing, five to a line: gives the cell
/// and whether a line ends after it, and counts the column.
pub fn format_wide(entry: &ReadDirEntry, wide_col: &mut u8) -> (r: (Vec<u8>, bool))
    requires
        *old(wide_col) < 255,
    ensures
        r.0@ == wide_cell(*entry),
        r.1 == (*old(wide_col) + 1 >= 5),
        *final(wide_col) == (if *old(wide_col) + 1 >= 5 {
            0
        } else {
            *old(wide_col) + 1
        }),
{
    let display = fcb_to_display_name(&entry.name);
    let mut cell: Vec<u8> = Vec::new();
    if entry.attribute & ATTR_DIRECTORY != 0 {
        cell.push(0x5B);
        push_bytes(&mut cell, display.as_slice());
        cell.push(0x5D);
    } else {
        push_bytes(&mut cell, display.as_slice());
    }
    let used = cell.len();
    if used < 15 {
        push_space_bytes(&mut cell, 15 - used);
    }
    assert(cell@ =~= wide_cell(*entry));
    *wide_col = *wide_col + 1;
    let line_end = *wide_col >= 5;
    if line_end {
        *wide_col = 0;
    }
    (cell, line_end)
}

/// The options that the words of a DIR command line set so far, and the
/// words that are not switches.
pub struct DirFlags {
    pub wide: bool,
    pub bare: bool,
    pub paged: bool,
    pub recursive: bool,
    pub sort_order: SortOrder,
    pub attr_filter: AttrFilter,
    pub paths: Seq<Seq<u8>>,
}

/// The argument of a `/O` or `/A` switch: what follows the letter, after
/// an optional colon; `default` when nothing does.
pub open spec fn switch_argument(w: Seq<u8>, default: Seq<u8>) -> Seq<u8> {
    if w.len() > 2 {
        w.skip(if w[2] == 0x3A { 3 } else { 2 })
    } else {
        default
    }
}

/// The options after one more word: `/W` wide, `/B` bare, `/P` paged, `/S`
/// recursive, `/O` the order (by name when bare), `/A` the filter
/// (everything when bare); other words are paths.
pub open spec fn dir_word(f: DirFlags, w: Seq<u8>) -> DirFlags {
    if is_switch(w) {
        let c = upper_byte(w[1]);
        if c == 0x57 {
            DirFlags { wide: true, ..f }
        } else if c == 0x42 {
            DirFlags { bare: true, ..f }
        } else if c == 0x50 {
            DirFlags { paged: true, ..f }
        } else if c == 0x53 {
            DirFlags { recursive: true, ..f }
        } else if c == 0x4F {
            DirFlags { sort_order: sort_order_of(switch_argument(w, seq![0x4Eu8])), ..f }
        } else if c == 0x41 {
            DirFlags { attr_filter: attr_filter_of(switch_argument(w, Seq::empty())), ..f }
        } else {
            f
        }
    } else {
        DirFlags { paths: f.paths.push(w), ..f }
    }
}

/// The options that a sequence of words sets, left to right.
pub open spec fn dir_flags(words: Seq<Seq<u8>>) -> DirFlags
    decreases words.len(),
{
    if words.len() == 0 {
        DirFlags {
            wide: false,
            bare: false,
            paged: false,
            recursive: false,
            sort_order: SortOrder::Unsorted,
            attr_filter: default_filter(),
            paths: Seq::empty(),
        }
    } else {
        dir_word(dir_flags(words.drop_last()), words.last())
    }
}

/// The options of a DIR command line, the path to list (`*.*` when none
/// is given) and whether that path holds a wildcard.
pub struct DirOptions {
    pub wide: bool,
    pub bare: bool,
    pub paged: bool,
    pub recursive: bool,
    pub sort_order: SortOrder,
    pub attr_filter: AttrFilter,
    pub path: Vec<u8>,
    pub has_wildcard: bool,
}

/// The path that DIR lists: the first path word, or `*.*`.
pub open spec fn dir_path(f: DirFlags) -> Seq<u8> {
    if f.paths.len() == 0 {
        seq![0x2Au8, 0x2E, 0x2A]
    } else {
        f.paths[0]
    }
}

/// `r` holds the options that the command line `args` sets.
pub open spec fn dir_options_of(args: Seq<u8>, r: DirOptions) -> bool {
    let f = dir_flags(words_of(trim_ascii_spec(args)));
    &&& r.wide == f.wide
    &&& r.bare == f.bare
    &&& r.paged == f.paged
    &&& r.recursive == f.recursive
    &&& r.sort_order == f.sort_order
    &&& r.attr_filter == f.attr_filter
    &&& r.path@ == dir_path(f)
    &&& r.has_wildcard == (dir_path(f).contains(0x2Au8) || dir_path(f).contains(0x3Fu8))
}

/// The rest of a switch word after the letter and an optional colon.
fn switch_rest(w: &Vec<u8>) -> (r: &[u8])
    requires
        w@.len() > 2,
    ensures
        r@ == switch_argument(w@, Seq::empty()),
{
    let start: usize = if w[2] == 0x3A {
        3
    } else {
        2
    };
    let r = vstd::slice::slice_subrange(w.as_slice(), start, w.len());
    assert(r@ =~= w@.skip(start as int));
    r
}

/// Reads a DIR command line.
pub fn dir_options(args: &[u8]) -> (r: DirOptions)
    ensures
        dir_options_of(args@, r),
{
    let args = trim_ascii(args);
    let words = split_words(args);
    let ghost ws = words_view(words@);
    let mut wide = false;
    let mut bare = false;
    let mut paged = false;
    let mut recursive = false;
    let mut sort_order = SortOrder::Unsorted;
    let mut attr_filter = AttrFilter::default();
    let mut first_path: Option<usize> = None;
    let mut i: usize = 0;
    while i < words.len()
        invariant
            ws == words_view(words@),
            i <= ws.len(),
            ({
                let f = dir_flags(ws.take(i as int));
                &&& wide == f.wide
                &&& bare == f.bare
                &&& paged == f.paged
                &&& recursive == f.recursive
                &&& sort_order == f.sort_order
                &&& attr_filter == f.attr_filter
                &&& (match first_path {
                    Some(k) => k < i && f.paths.len() > 0 && f.paths[0] == ws[k as int],
                    None => f.paths.len() == 0,
                })
            }),
        decreases ws.len() - i,
    {
        let w = &words[i];
        assert(w@ == ws[i as int]);
        assert(ws.take(i + 1).drop_last() =~= ws.take(i as int));
        if w.len() >= 2 && w[0] == 0x2F {
            let c = ascii_upper(w[1]);
            if c == 0x57 {
                wide = true;
            } else if c == 0x42 {
                bare = true;
            } else if c == 0x50 {
                paged = true;
            } else if c == 0x53 {
                recursive = true;
            } else if c == 0x4F {
                if w.len() > 2 {
                    sort_order = parse_sort_order(switch_rest(w));
                } else {
                    let by_name: [u8; 1] = [0x4E];
                    sort_order = parse_sort_order(&by_name);
                    assert(seq![0x4Eu8] =~= by_name@);
                }
            } else if c == 0x41 {
                if w.len() > 2 {
                    attr_filter = parse_attr_filter(switch_rest(w));
                } else {
                    let none: [u8; 0] = [];
                    attr_filter = parse_attr_filter(&none);
                    assert(Seq::<u8>::empty() =~= none@);
                }
            }
        } else {
            if first_path.is_none() {
                first_path = Some(i);
            }
        }
        i = i + 1;
    }
    assert(ws.take(i as int) =~= ws);
    let path: Vec<u8> = match first_path {
        Some(k) => vstd::slice::slice_to_vec(words[k].as_slice()),
        None => vec![0x2A, 0x2E, 0x2A],
    };
    let has_wildcard = contains_byte(path.as_slice(), 0x2A) || contains_byte(path.as_slice(), 0x3F);
    let r = DirOptions {
        wide,
        bare,
        paged,
        recursive,
        sort_order,
        attr_filter,
        path,
        has_wildcard,
    };
    assert(r.path@ =~= dir_path(dir_flags(ws)));
    r
}

/// The listing's header: the volume label (or that there is none) and
/// the directory shown.
pub open spec fn header_text(drive: u8, label: Option<Seq<char>>, path: Seq<char>) -> Seq<char> {
    let letter = seq![(0x41 + drive) as char];
    let volume = match label {
        Some(l) => " Volume in drive "@ + letter + " is "@ + l + "\r\n"@,
        None => " Volume in drive "@ + letter + " has no label\r\n"@,
    };
    volume + " Directory of "@ + path + "\r\n\r\n"@
}

/// The header of a listing of `path` on `drive`.
pub fn dir_header(drive: u8, label: Option<&str>, path: &str) -> (r: String)
    requires
        drive < 26,
    ensures
        r@ == header_text(
            drive,
            match label {
                Some(l) => Some(l@),
                None => None,
            },
            path@,
        ),
{
    let mut r = string_of(" Volume in drive ");
    push_char(&mut r, (0x41 + drive) as char);
    match label {
        Some(l) => {
            r.append(" is ");
            r.append(l);
            r.append("\r\n");
        },
        None => {
            r.append(" has no label\r\n");
        },
    }
    r.append(" Directory of ");
    r.append(path);
    r.append("\r\n\r\n");
    r
}

/// The directory a listing shows when it names none: the current path in
/// the drive's CDS entry, as text.
pub fn dir_display_path<M: MemoryAccess>(memory: &M, layout: CdsLayout, drive: u8) -> (r: String)
    requires
        layout_fits(layout),
        drive < 26,
    ensures
        r@ == lossy_utf8(cds_path_of(image(memory), layout, drive)),
{
    let path = cds_path(memory, layout, drive);
    dos_display(path.as_slice())
}

/// The listing's footer: the files and their bytes, and the bytes free.
pub open spec fn footer_text(total_files: u32, total_bytes: u64, free_bytes: u64) -> Seq<char> {
    pad_left(byte_chars(decimal_digits(total_files as nat)), 9) + " file(s) "@ + pad_left(
        byte_chars(with_commas(total_bytes as nat)),
        12,
    ) + " bytes\r\n"@ + pad_left(byte_chars(with_commas(free_bytes as nat)), 25)
        + " bytes free\r\n"@
}

/// The footer of a listing.
pub fn dir_footer(total_files: u32, total_bytes: u64, free_bytes: u64) -> (r: String)
    ensures
        r@ == footer_text(total_files, total_bytes, free_bytes),
{
    let mut digits: Vec<u8> = Vec::new();
    push_decimal_digits(&mut digits, total_files as u64);
    let mut files = String::new();
    push_byte_chars(&mut files, digits.as_slice());
    assert(digits@ =~= decimal_digits(total_files as nat));
    let mut r = String::new();
    push_padded_left(&mut r, files.as_str(), 9);
    r.append(" file(s) ");
    let total = format_decimal_with_commas(total_bytes);
    push_padded_left(&mut r, total.as_str(), 12);
    r.append(" bytes\r\n");
    let free = format_decimal_with_commas(free_bytes);
    push_padded_left(&mut r, free.as_str(), 25);
    r.append(" bytes free\r\n");
    r
}

} // verus!
