//! DOSMOCK: the argument and error handling of the command that creates
//! DOS marker files on a drive root.

use vstd::prelude::*;
use crate::text::{upper_byte, ascii_upper};

verus! {

/// The drive that a `X:` or `X:\` (or `X:/`) argument names, 0 for A.
pub open spec fn drive_arg(args: Seq<u8>) -> Option<u8> {
    if args.len() != 2 && args.len() != 3 {
        None
    } else if args[1] != 0x3A {
        None
    } else if args.len() == 3 && args[2] != 0x5C && args[2] != 0x2F {
        None
    } else if !(0x41 <= upper_byte(args[0]) <= 0x5A) {
        None
    } else {
        Some((upper_byte(args[0]) - 0x41) as u8)
    }
}

pub fn parse_drive_arg(args: &[u8]) -> (r: Option<u8>)
    ensures
        r == drive_arg(args@),
{
    if args.len() != 2 && args.len() != 3 {
        return None;
    }
    if args[1] != 0x3A {
        return None;
    }
    if args.len() == 3 && args[2] != 0x5C && args[2] != 0x2F {
        return None;
    }
    let drive_letter = ascii_upper(args[0]);
    if !(0x41 <= drive_letter && drive_letter <= 0x5A) {
        return None;
    }
    Some(drive_letter - 0x41)
}

/// The message for a DOS error code from creating the marker files.
pub open spec fn error_text(error: u16) -> Seq<char> {
    if error == 0x0005 {
        "Target drive is not writable\r\n"@
    } else if error == 0x0050 {
        "DOS mock files already exist\r\n"@
    } else if error == 0x001F {
        "Unable to create DOS mock files\r\n"@
    } else {
        "Unable to access target drive\r\n"@
    }
}

pub fn error_message(error: u16) -> (r: &'static str)
    ensures
        r@ == error_text(error),
{
    match error {
        0x0005 => "Target drive is not writable\r\n",
        0x0050 => "DOS mock files already exist\r\n",
        0x001F => "Unable to create DOS mock files\r\n",
        _ => "Unable to access target drive\r\n",
    }
}

} // verus!
