//! CD: shows or changes the current directory.

use vstd::prelude::*;
use vstd::string::StringSliceAdditionalSpecFns;
use crate::text::{trim_ascii, trim_ascii_spec, push_bytes};
use crate::commands::{is_help_request, asks_help};
use crate::memory::{MemoryAccess, image};
use crate::cds::{CdsLayout, layout_fits, cds_path, cds_path_of};

verus! {

/// What a CD command line asks for.
#[derive(Debug, PartialEq, Eq)]
pub enum CdRequest {
    /// The help text.
    Help,
    /// The current directory of the current drive.
    ShowCurrent,
    /// A change to this directory.
    Change(Vec<u8>),
}

/// Reads a CD command line: help when a word is `/?`, the current
/// directory when nothing is given, else a change to the trimmed text.
pub fn cd_request(args: &[u8]) -> (r: CdRequest)
    ensures
        asks_help(args@) <==> r is Help,
        !asks_help(args@) && trim_ascii_spec(args@).len() == 0 <==> r is ShowCurrent,
        r matches CdRequest::Change(p) ==> p@ == trim_ascii_spec(args@),
{
    if is_help_request(args) {
        return CdRequest::Help;
    }
    let t = trim_ascii(args);
    if t.len() == 0 {
        CdRequest::ShowCurrent
    } else {
        CdRequest::Change(vstd::slice::slice_to_vec(t))
    }
}

/// The line CD prints for the current directory of `drive`: the path its
/// CDS entry holds, and CR LF.
pub fn current_directory_line<M: MemoryAccess>(memory: &M, layout: CdsLayout, drive: u8) -> (r: Vec<u8>)
    requires
        layout_fits(layout),
        drive < 26,
    ensures
        r@ == cds_path_of(image(memory), layout, drive) + "\r\n".spec_bytes(),
{
    let mut line = cds_path(memory, layout, drive);
    push_bytes(&mut line, "\r\n".as_bytes());
    line
}

} // verus!
