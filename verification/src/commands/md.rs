//! MD: the error messages of the command that creates a directory.

use vstd::prelude::*;

verus! {

/// The message for a DOS error code from creating a directory.
pub open spec fn error_text(error: u16) -> Seq<char> {
    if error == 0x0005 {
        "Access denied\r\n"@
    } else if error == 0x000F {
        "Invalid drive\r\n"@
    } else {
        "Unable to create directory\r\n"@
    }
}

pub fn error_message(error: u16) -> (r: &'static str)
    ensures
        r@ == error_text(error),
{
    match error {
        0x0005 => "Access denied\r\n",
        0x000F => "Invalid drive\r\n",
        _ => "Unable to create directory\r\n",
    }
}

} // verus!
