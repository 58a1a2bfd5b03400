//! TIME: shows the current time.

use vstd::prelude::*;
use vstd::string::StringSliceAdditionalSpecFns;
use crate::text::{push_bytes, push_zero_padded, zero_padded};

verus! {

/// The line TIME prints: `Current time is HH:MM:SS.00` and CR LF.
pub open spec fn time_text(hour: u8, minute: u8, second: u8) -> Seq<u8> {
    "Current time is ".spec_bytes() + zero_padded(hour as nat, 2) + ":".spec_bytes()
        + zero_padded(minute as nat, 2) + ":".spec_bytes() + zero_padded(second as nat, 2)
        + ".00\r\n".spec_bytes()
}

/// The line TIME prints for a time of day.
pub fn time_line(hour: u8, minute: u8, second: u8) -> (r: Vec<u8>)
    ensures
        r@ == time_text(hour, minute, second),
{
    let mut out: Vec<u8> = Vec::new();
    push_bytes(&mut out, "Current time is ".as_bytes());
    push_zero_padded(&mut out, hour as u64, 2);
    push_bytes(&mut out, ":".as_bytes());
    push_zero_padded(&mut out, minute as u64, 2);
    push_bytes(&mut out, ":".as_bytes());
    push_zero_padded(&mut out, second as u64, 2);
    push_bytes(&mut out, ".00\r\n".as_bytes());
    assert(out@ =~= time_text(hour, minute, second));
    out
}

} // verus!
