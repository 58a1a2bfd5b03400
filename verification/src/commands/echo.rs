//! ECHO: shows a message.

use vstd::prelude::*;
use vstd::string::StringSliceAdditionalSpecFns;
use crate::text::{push_bytes, trim_ascii, trim_ascii_spec};
use crate::commands::help_word;

verus! {

/// What ECHO does with its text.
#[derive(Debug, PartialEq, Eq)]
pub enum EchoOutput {
    /// The text, trimmed, is `/?`: the help is shown.
    Help,
    /// These bytes are shown: the text and a line break.
    Text(Vec<u8>),
}

/// What ECHO shows for `text`: its help when the trimmed text is `/?`,
/// else the text followed by CR LF (a bare CR LF for no text).
pub fn echo_output(text: &[u8]) -> (r: EchoOutput)
    ensures
        trim_ascii_spec(text@) == help_word() <==> r is Help,
        r matches EchoOutput::Text(out) ==> out@ == text@ + "\r\n".spec_bytes(),
{
    let t = trim_ascii(text);
    if t.len() == 2 && t[0] == 0x2F && t[1] == 0x3F {
        assert(t@ =~= help_word());
        return EchoOutput::Help;
    }
    assert(t@ != help_word()) by {
        if t@ == help_word() {
            assert(t@.len() == 2 && t@[0] == 0x2F && t@[1] == 0x3F);
        }
    }
    let mut out: Vec<u8> = Vec::new();
    push_bytes(&mut out, text);
    push_bytes(&mut out, "\r\n".as_bytes());
    EchoOutput::Text(out)
}

} // verus!
