//! RD: the error messages of the command that removes a directory.

use vstd::prelude::*;

verus! {

/// The message for a DOS error code from removing a directory.
pub open spec fn error_text(error: u16) -> Seq<char> {
    if error == 0x0003 {
        "Invalid path\r\n"@
    } else if error == 0x0005 {
        "Access denied\r\n"@
    } else if error == 0x000F {
        "Invalid drive\r\n"@
    } else if error == 0x0012 {
        "Directory not empty\r\n"@
    } else {
        "Disk error\r\n"@
    }
}

pub fn error_message(error: u16) -> (r: &'static str)
    ensures
        r@ == error_text(error),
{
    match error {
        0x0003 => "Invalid path\r\n",
        0x0005 => "Access denied\r\n",
        0x000F => "Invalid drive\r\n",
        0x0012 => "Directory not empty\r\n",
        _ => "Disk error\r\n",
    }
}

} // verus!
