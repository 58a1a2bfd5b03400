//! XCOPY: how the command reads its command line and treats the entries it
//! copies.

use vstd::prelude::*;
use crate::text::{trim_ascii, trim_ascii_spec, contains_byte};
use crate::commands::{parse_words, plain_words, switch_letters, words_view};
use crate::commands::dir::{ReadDirEntry, ATTR_ARCHIVE, display_name, fcb_to_display_name};

verus! {

/// What an XCOPY command line asks for.
#[derive(Debug, PartialEq, Eq)]
pub struct XcopyOptions {
    /// The first word that is not a switch.
    pub source: Vec<u8>,
    /// The second word that is not a switch.
    pub dest: Vec<u8>,
    /// `/S` or `/E`: copy subdirectories.
    pub recursive: bool,
    /// `/E`: copy empty subdirectories too.
    pub copy_empty_dirs: bool,
    /// `/P`: ask before each file.
    pub prompt_each: bool,
    /// The source holds `*` or `?`.
    pub source_has_wildcard: bool,
}

/// What an XCOPY command line asks for, as values: source, destination,
/// and the `/S`-or-`/E`, `/E` and `/P` flags; `None` when fewer than two
/// words that are not switches are given.
pub open spec fn xcopy_request(args: Seq<u8>) -> Option<(Seq<u8>, Seq<u8>, bool, bool, bool)> {
    let t = trim_ascii_spec(args);
    let words = plain_words(t);
    let letters = switch_letters(t);
    if t.len() == 0 || words.len() < 2 {
        None
    } else {
        Some(
            (
                words[0],
                words[1],
                letters.contains(0x53u8) || letters.contains(0x45u8),
                letters.contains(0x45u8),
                letters.contains(0x50u8),
            ),
        )
    }
}

/// Reads an XCOPY command line; fails with `Required parameter missing`
/// when it names no source and destination.
pub fn xcopy_arguments(args: &[u8]) -> (r: Result<XcopyOptions, &'static str>)
    ensures
        match r {
            Ok(o) => {
                &&& xcopy_request(args@) == Some(
                    (o.source@, o.dest@, o.recursive, o.copy_empty_dirs, o.prompt_each),
                )
                &&& o.source_has_wildcard == (o.source@.contains(0x2Au8) || o.source@.contains(
                    0x3Fu8,
                ))
            },
            Err(m) => xcopy_request(args@) is None && m@ == "Required parameter missing\r\n"@,
        },
{
    let args = trim_ascii(args);
    if args.len() == 0 {
        return Err("Required parameter missing\r\n");
    }
    let (mut words, letters) = parse_words(args);
    if words.len() < 2 {
        return Err("Required parameter missing\r\n");
    }
    let recursive = contains_byte(letters.as_slice(), 0x53) || contains_byte(letters.as_slice(), 0x45);
    let copy_empty_dirs = contains_byte(letters.as_slice(), 0x45);
    let prompt_each = contains_byte(letters.as_slice(), 0x50);
    let ghost w = words_view(words@);
    let dest = words.remove(1);
    let source = words.remove(0);
    assert(source@ == w[0] && dest@ == w[1]);
    let source_has_wildcard = contains_byte(source.as_slice(), 0x2A) || contains_byte(source.as_slice(), 0x3F);
    Ok(XcopyOptions { source, dest, recursive, copy_empty_dirs, prompt_each, source_has_wildcard })
}

/// The attributes a copied file gets: those of the source that a file
/// keeps (read-only, hidden, system, archive) for a FAT source, and the
/// archive bit alone for a CD-ROM one.
pub fn destination_file_attributes(entry: &ReadDirEntry, from_cdrom: bool) -> (r: u8)
    ensures
        r == if from_cdrom { ATTR_ARCHIVE } else { entry.attribute & 0x27 },
{
    if from_cdrom {
        ATTR_ARCHIVE
    } else {
        entry.attribute & 0x27
    }
}

/// Entries a tree copy skips: `.`, `..`, and an entry whose name shows
/// empty.
pub fn is_dot_directory(entry: &ReadDirEntry) -> (r: bool)
    ensures
        r == (display_name(entry.name@).len() == 0 || display_name(entry.name@) == seq![0x2Eu8]
            || display_name(entry.name@) == seq![0x2Eu8, 0x2Eu8]),
{
    let display = fcb_to_display_name(&entry.name);
    let r = display.len() == 0 || (display.len() == 1 && display[0] == 0x2E) || (display.len() == 2
        && display[0] == 0x2E && display[1] == 0x2E);
    proof {
        if display@.len() == 1 {
            assert(r == (display@ =~= seq![0x2Eu8]));
        }
        if display@.len() == 2 {
            assert(r == (display@ =~= seq![0x2Eu8, 0x2Eu8]));
        }
    }
    r
}

} // verus!
