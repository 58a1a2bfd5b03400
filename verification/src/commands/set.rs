//! SET: shows or sets environment variables.

use vstd::prelude::*;
use crate::text::{trim_ascii, trim_ascii_spec};
use crate::commands::{is_help_request, asks_help};

verus! {

/// What a SET command line asks for.
#[derive(Debug, PartialEq, Eq)]
pub enum SetRequest {
    /// The help text.
    Help,
    /// Every variable.
    ShowAll,
    /// `NAME=VALUE`: set (or, with no value, remove) a variable.
    Assign { name: Vec<u8>, value: Vec<u8> },
    /// The variables whose names start with this text.
    ShowMatching(Vec<u8>),
}

/// Reads a SET command line: help when a word is `/?`; every variable when
/// nothing is given; an assignment split at the first `=` of the trimmed
/// text; else the text as a name prefix.
pub fn set_request(args: &[u8]) -> (r: SetRequest)
    ensures
        asks_help(args@) <==> r is Help,
        !asks_help(args@) && trim_ascii_spec(args@).len() == 0 <==> r is ShowAll,
        r matches SetRequest::Assign { name, value } ==> {
            let t = trim_ascii_spec(args@);
            exists|p: int| {
                &&& 0 <= p < t.len()
                &&& t[p] == 0x3D
                &&& (forall|j: int| 0 <= j < p ==> t[j] != 0x3D)
                &&& name@ == t.take(p)
                &&& value@ == t.skip(p + 1)
            }
        },
        r matches SetRequest::ShowMatching(prefix) ==> prefix@ == trim_ascii_spec(args@) && !trim_ascii_spec(
            args@,
        ).contains(0x3Du8),
        !asks_help(args@) && trim_ascii_spec(args@).len() > 0 ==> (trim_ascii_spec(args@).contains(
            0x3Du8,
        ) <==> r is Assign),
{
    if is_help_request(args) {
        return SetRequest::Help;
    }
    let t = trim_ascii(args);
    if t.len() == 0 {
        return SetRequest::ShowAll;
    }
    let mut i: usize = 0;
    while i < t.len()
        invariant
            !asks_help(args@),
            t@ == trim_ascii_spec(args@),
            t@.len() > 0,
            i <= t@.len(),
            forall|j: int| 0 <= j < i ==> t@[j] != 0x3D,
        decreases t@.len() - i,
    {
        if t[i] == 0x3D {
            let name = vstd::slice::slice_to_vec(vstd::slice::slice_subrange(t, 0, i));
            let value = vstd::slice::slice_to_vec(vstd::slice::slice_subrange(t, i + 1, t.len()));
            assert(name@ =~= t@.take(i as int));
            assert(value@ =~= t@.skip(i + 1));
            assert(t@.contains(0x3Du8)) by {
                assert(t@[i as int] == 0x3D);
            }
            return SetRequest::Assign { name, value };
        }
        i = i + 1;
    }
    assert(!t@.contains(0x3Du8));
    SetRequest::ShowMatching(vstd::slice::slice_to_vec(t))
}

} // verus!
