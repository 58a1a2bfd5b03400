//! VER: shows the DOS version.

use vstd::prelude::*;
use vstd::string::StringSliceAdditionalSpecFns;
use crate::text::{push_bytes, push_decimal_digits, decimal_digits};

verus! {

/// The text VER prints: `Neetan DOS major.minor` and two line breaks.
pub open spec fn version_text(major: u8, minor: u8) -> Seq<u8> {
    "Neetan DOS ".spec_bytes() + decimal_digits(major as nat) + ".".spec_bytes()
        + decimal_digits(minor as nat) + "\r\n\r\n".spec_bytes()
}

/// The text VER prints for a version.
pub fn version_line(major: u8, minor: u8) -> (r: Vec<u8>)
    ensures
        r@ == version_text(major, minor),
{
    let mut out: Vec<u8> = Vec::new();
    push_bytes(&mut out, "Neetan DOS ".as_bytes());
    push_decimal_digits(&mut out, major as u64);
    push_bytes(&mut out, ".".as_bytes());
    push_decimal_digits(&mut out, minor as u64);
    push_bytes(&mut out, "\r\n\r\n".as_bytes());
    assert(out@ =~= version_text(major, minor));
    out
}

} // verus!
