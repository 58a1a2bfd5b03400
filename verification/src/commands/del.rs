//! DEL: the switch parsing of the delete command and its key reading.

use vstd::prelude::*;
use crate::text::{trim_ascii, trim_ascii_spec, upper_byte, ascii_upper};
use crate::memory::{MemoryAccess, word_of, image};

verus! {

/// Address of the BIOS keyboard buffer's head pointer.
pub const KB_BUF_HEAD: u32 = 0x0524;

/// Address of the BIOS keyboard buffer's key count.
pub const KB_BUF_COUNT: u32 = 0x0528;

/// Index of the first `/P` (either case) in `s`, or -1.
pub open spec fn first_p_switch(s: Seq<u8>) -> int
    decreases s.len(),
{
    if s.len() < 2 {
        -1
    } else if s[0] == 0x2F && upper_byte(s[1]) == 0x50 {
        0
    } else {
        let r = first_p_switch(s.skip(1));
        if r < 0 {
            -1
        } else {
            r + 1
        }
    }
}

/// The file argument of DEL and whether `/P` was given: with `/P`, the
/// trimmed text before it, or the trimmed text after it when nothing
/// comes before.
pub open spec fn del_switches(args: Seq<u8>) -> (Seq<u8>, bool) {
    let i = first_p_switch(args);
    if i < 0 {
        (args, false)
    } else if i > 0 {
        (trim_ascii_spec(args.take(i)), true)
    } else {
        (trim_ascii_spec(args.skip(i + 2)), true)
    }
}

/// `first_p_switch` gives -1 or an index.
proof fn lemma_first_p_switch_range(s: Seq<u8>)
    ensures
        first_p_switch(s) >= -1,
    decreases s.len(),
{
    if s.len() >= 2 {
        lemma_first_p_switch_range(s.skip(1));
    }
}

pub fn parse_switches(args: &[u8]) -> (r: (&[u8], bool))
    ensures
        (r.0@, r.1) == del_switches(args@),
{
    let mut i: usize = 0;
    assert(args@.skip(0) =~= args@);
    proof {
        lemma_first_p_switch_range(args@);
    }
    while i < args.len()
        invariant
            i <= args@.len(),
            first_p_switch(args@) == (if first_p_switch(args@.skip(i as int)) < 0 {
                -1
            } else {
                first_p_switch(args@.skip(i as int)) + i
            }),
        decreases args@.len() - i,
    {
        let ghost here = args@.skip(i as int);
        assert(here.skip(1) =~= args@.skip(i + 1));
        if args[i] == 0x2F && i + 1 < args.len() && ascii_upper(args[i + 1]) == 0x50 {
            assert(here[0] == args@[i as int] && here[1] == args@[i + 1]);
            let len = args.len();
            let trimmed = if i > 0 {
                let before = vstd::slice::slice_subrange(args, 0, i);
                assert(before@ =~= args@.take(i as int));
                trim_ascii(before)
            } else {
                let after = vstd::slice::slice_subrange(args, i + 2, len);
                assert(after@ =~= args@.skip(i + 2));
                trim_ascii(after)
            };
            return (trimmed, true);
        }
        if i + 1 < args.len() {
            assert(here[0] == args@[i as int] && here[1] == args@[i + 1]);
        }
        i = i + 1;
    }
    assert(args@.skip(i as int).len() == 0);
    (args, false)
}

/// Where the keyboard buffer's head moves after one key is taken: two
/// bytes on, wrapping from the end of the buffer (522h) to its start (502h).
pub open spec fn next_key_head(head: int) -> int {
    if head + 2 >= 0x0522 {
        0x0502
    } else {
        head + 2
    }
}

/// Takes one key from the BIOS keyboard buffer and gives its character
/// byte: the head pointer moves on and the key count drops by one.
pub fn consume_key<M: MemoryAccess>(memory: &mut M) -> (r: u8)
    ensures
        r == old(memory).peek(word_of(image(old(memory)), KB_BUF_HEAD) as u32),
        forall|a: u32| #[trigger]
            final(memory).peek(a) == {
                let next = next_key_head(word_of(image(old(memory)), KB_BUF_HEAD) as int) as u16;
                let count = old(memory).peek(KB_BUF_COUNT);
                if a == KB_BUF_HEAD {
                    (next & 0xFF) as u8
                } else if a == KB_BUF_HEAD + 1 {
                    (next >> 8u16) as u8
                } else if a == KB_BUF_COUNT && count > 0 {
                    (count - 1) as u8
                } else {
                    old(memory).peek(a)
                }
            },
{
    let head = memory.read_word(KB_BUF_HEAD) as u32;
    proof {
        crate::memory::lemma_read_word(&*old(memory), KB_BUF_HEAD, head as u16);
    }
    let ch = memory.read_byte(head);
    let mut new_head = head + 2;
    if new_head >= 0x0522 {
        new_head = 0x0502;
    }
    memory.write_word(KB_BUF_HEAD, new_head as u16);
    let count = memory.read_byte(KB_BUF_COUNT);
    if count > 0 {
        memory.write_byte(KB_BUF_COUNT, count - 1);
    }
    ch
}

} // verus!
