//! DOS path splitting with Shift-JIS double-byte characters.

use vstd::prelude::*;
use crate::jis::{is_lead, is_shift_jis_lead_byte};
use crate::text::{upper_byte, ascii_upper};

verus! {

/// A DBCS lead byte: the Shift-JIS lead bytes.
pub fn is_dbcs_lead_byte(b: u8) -> (r: bool)
    ensures
        r == is_lead(b),
{
    is_shift_jis_lead_byte(b)
}

/// The drive a path names by an `X:` prefix (0 for A), if it has one.
pub open spec fn path_drive(p: Seq<u8>) -> Option<u8> {
    if p.len() >= 2 && p[1] == 0x3A && 0x41 <= upper_byte(p[0]) <= 0x5A {
        Some((upper_byte(p[0]) - 0x41) as u8)
    } else {
        None
    }
}

/// Where the path proper starts: after the drive prefix, if any.
pub open spec fn path_start(p: Seq<u8>) -> int {
    if path_drive(p) is Some {
        2
    } else {
        0
    }
}

/// The piece `start..i` as a component, when it is not empty.
pub open spec fn piece(p: Seq<u8>, start: int, i: int) -> Seq<Seq<u8>> {
    if i > start {
        seq![p.subrange(start, i)]
    } else {
        Seq::empty()
    }
}

/// The components of `p` from position `i`, the current component having
/// started at `start`: the scan stops at a NUL byte, steps over the trail
/// byte of a double-byte character (which may be 5Ch), and cuts at each
/// backslash; empty components are dropped.
pub open spec fn components_from(p: Seq<u8>, i: int, start: int) -> Seq<Seq<u8>>
    recommends
        0 <= start <= i <= p.len(),
    decreases p.len() - i,
{
    if i >= p.len() || p[i] == 0 {
        piece(p, start, i)
    } else if is_lead(p[i]) && i + 1 < p.len() {
        components_from(p, i + 2, start)
    } else if p[i] == 0x5C {
        piece(p, start, i) + components_from(p, i + 1, i + 1)
    } else {
        components_from(p, i + 1, start)
    }
}

/// The drive, the components, and whether the path is absolute (a
/// backslash after the optional drive prefix).
pub open spec fn split_path_spec(p: Seq<u8>) -> (Option<u8>, Seq<Seq<u8>>, bool) {
    if p.len() == 0 {
        (None, Seq::empty(), false)
    } else {
        let pos = path_start(p);
        (path_drive(p), components_from(p, pos, pos), pos < p.len() && p[pos] == 0x5C)
    }
}

/// A drive named by a path lies between A (0) and Z (25).
pub proof fn lemma_drive_bound(p: Seq<u8>)
    ensures
        split_path_spec(p).0 matches Some(d) ==> d < 26,
{
}

/// Splits a DOS path into its drive, its components and whether it is
/// absolute.
pub fn split_path(path: &[u8]) -> (r: (Option<u8>, Vec<&[u8]>, bool))
    ensures
        (r.0, r.1@.map_values(|c: &[u8]| c@), r.2) == split_path_spec(path@),
{
    let ghost p = path@;
    if path.len() == 0 {
        let v: Vec<&[u8]> = Vec::new();
        assert(v@.map_values(|c: &[u8]| c@) =~= Seq::<Seq<u8>>::empty());
        return (None, v, false);
    }
    let mut pos: usize = 0;
    let mut drive_index: Option<u8> = None;
    if path.len() >= 2 && path[1] == 0x3A {
        let letter = ascii_upper(path[0]);
        if 0x41 <= letter && letter <= 0x5A {
            drive_index = Some(letter - 0x41);
            pos = 2;
        }
    }
    let is_absolute = pos < path.len() && path[pos] == 0x5C;
    let mut components: Vec<&[u8]> = Vec::new();
    let mut comp_start: usize = pos;
    let mut i: usize = pos;
    assert(pos == path_start(p) && drive_index == path_drive(p));
    assert(components@.map_values(|c: &[u8]| c@) + components_from(p, pos as int, pos as int)
        =~= components_from(p, pos as int, pos as int));
    while i < path.len()
        invariant
            p == path@,
            pos <= comp_start <= i <= p.len(),
            components@.map_values(|c: &[u8]| c@) + components_from(p, i as int, comp_start as int)
                == components_from(p, pos as int, pos as int),
        ensures
            p == path@,
            pos <= comp_start <= i <= p.len(),
            i >= p.len() || p[i as int] == 0,
            components@.map_values(|c: &[u8]| c@) + components_from(p, i as int, comp_start as int)
                == components_from(p, pos as int, pos as int),
        decreases p.len() - i,
    {
        if path[i] == 0 {
            break;
        }
        if is_dbcs_lead_byte(path[i]) && i + 1 < path.len() {
            i = i + 2;
            continue;
        }
        if path[i] == 0x5C {
            let ghost before = components@.map_values(|c: &[u8]| c@);
            if i > comp_start {
                components.push(vstd::slice::slice_subrange(path, comp_start, i));
            }
            assert(components@.map_values(|c: &[u8]| c@) =~= before + piece(p, comp_start as int, i as int));
            i = i + 1;
            comp_start = i;
            continue;
        }
        i = i + 1;
    }
    let ghost before = components@.map_values(|c: &[u8]| c@);
    if i > comp_start {
        components.push(vstd::slice::slice_subrange(path, comp_start, i));
    }
    assert(components@.map_values(|c: &[u8]| c@) =~= before + piece(p, comp_start as int, i as int));
    assert(piece(p, comp_start as int, i as int) + Seq::<Seq<u8>>::empty() =~= piece(p, comp_start as int, i as int));
    (drive_index, components, is_absolute)
}

} // verus!
