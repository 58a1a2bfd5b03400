//! MORE: shows a file one screen at a time.
//!
//! The command alternates output with waits for a key; what it decides at
//! each step is `more_step`, from its state and whether a key is waiting to
//! the next state and what to do.

use vstd::prelude::*;
use vstd::string::StringSliceAdditionalSpecFns;

verus! {

/// Lines shown before the command stops and waits for a key.
pub const LINES_PER_PAGE: u16 = 24;

/// The number of line feeds in `s`.
pub open spec fn newline_count(s: Seq<u8>) -> nat
    decreases s.len(),
{
    if s.len() == 0 {
        0
    } else {
        newline_count(s.drop_last()) + if s.last() == 0x0A {
            1nat
        } else {
            0nat
        }
    }
}

/// How many more line feeds fill the page when `shown` lines are on it.
pub open spec fn lines_left(shown: u16) -> nat {
    if shown + 1 >= LINES_PER_PAGE {
        1
    } else {
        (LINES_PER_PAGE - shown) as nat
    }
}

/// The prompt shown at the foot of a full page.
pub open spec fn more_prompt() -> Seq<u8> {
    "-- More --".spec_bytes()
}

/// What erases the prompt once a key was pressed: a carriage return, forty
/// spaces and another carriage return.
pub open spec fn prompt_erasure() -> Seq<u8> {
    seq![0x0Du8] + Seq::new(40, |i: int| 0x20u8) + seq![0x0Du8]
}

/// One page of output: the bytes to show, and where to go on after the
/// next key (`None` when the data ran out first).
pub struct MorePage {
    pub output: Vec<u8>,
    pub resume_at: Option<usize>,
}

/// Shows `data` from `offset` on until the page is full (the line feed that
/// fills it is shown, then the prompt) or the data ends.
pub fn more_page(data: &[u8], offset: usize, lines_shown: u16) -> (r: MorePage)
    ensures
        offset >= data@.len() ==> r.output@ == Seq::<u8>::empty() && r.resume_at is None,
        offset < data@.len() ==> match r.resume_at {
            Some(j) => {
                &&& offset < j <= data@.len()
                &&& data@[j - 1] == 0x0A
                &&& newline_count(data@.subrange(offset as int, j as int)) == lines_left(lines_shown)
                &&& r.output@ == data@.subrange(offset as int, j as int) + more_prompt()
            },
            None => {
                &&& newline_count(data@.subrange(offset as int, data@.len() as int)) < lines_left(
                    lines_shown,
                )
                &&& r.output@ == data@.subrange(offset as int, data@.len() as int)
            },
        },
{
    let mut output: Vec<u8> = Vec::new();
    if offset >= data.len() {
        return MorePage { output, resume_at: None };
    }
    let need: u16 = if lines_shown >= LINES_PER_PAGE - 1 {
        1
    } else {
        LINES_PER_PAGE - lines_shown
    };
    let mut left: u16 = need;
    let mut i: usize = offset;
    assert(data@.subrange(offset as int, i as int) =~= Seq::<u8>::empty());
    while i < data.len()
        invariant
            offset <= i <= data@.len(),
            need == lines_left(lines_shown),
            1 <= left <= need,
            output@ == data@.subrange(offset as int, i as int),
            newline_count(data@.subrange(offset as int, i as int)) + left == need,
        decreases data@.len() - i,
    {
        let b = data[i];
        output.push(b);
        assert(data@.subrange(offset as int, i + 1).drop_last() =~= data@.subrange(
            offset as int,
            i as int,
        ));
        assert(output@ =~= data@.subrange(offset as int, i + 1));
        if b == 0x0A {
            if left == 1 {
                let prompt = "-- More --".as_bytes();
                crate::text::push_bytes(&mut output, prompt);
                return MorePage { output, resume_at: Some(i + 1) };
            }
            left = left - 1;
        }
        i = i + 1;
    }
    MorePage { output, resume_at: None }
}

/// Where the command stands.
#[derive(Clone, Copy, Debug, PartialEq, Eq)]
pub enum MoreState {
    /// Showing the data from `offset` on, with `lines_shown` lines on the page.
    Outputting { offset: usize, lines_shown: u16 },
    /// A page is full; the next page starts at `offset`.
    WaitKey { offset: usize },
    /// All the data was shown.
    Finished,
}

/// What one step does: the next state, the bytes to show, and whether a
/// key is taken from the keyboard buffer.
pub struct MoreStep {
    pub next: MoreState,
    pub output: Vec<u8>,
    pub take_key: bool,
}

/// One step of the command over `data`, given whether a key is waiting.
pub fn more_step(data: &[u8], state: MoreState, key_waiting: bool) -> (r: MoreStep)
    ensures
        match state {
            MoreState::Outputting { offset, lines_shown } => {
                &&& !r.take_key
                &&& (offset < data@.len() ==> (newline_count(
                    data@.subrange(offset as int, data@.len() as int),
                ) >= lines_left(lines_shown) <==> r.next is WaitKey))
                &&& (r.next is WaitKey || r.next is Finished)
                &&& match r.next {
                    MoreState::WaitKey { offset: j } => {
                        &&& offset < j <= data@.len()
                        &&& data@[j - 1] == 0x0A
                        &&& newline_count(data@.subrange(offset as int, j as int)) == lines_left(
                            lines_shown,
                        )
                        &&& r.output@ == data@.subrange(offset as int, j as int) + more_prompt()
                    },
                    _ => r.output@ == if offset < data@.len() {
                        data@.subrange(offset as int, data@.len() as int)
                    } else {
                        Seq::<u8>::empty()
                    },
                }
            },
            MoreState::WaitKey { offset } => if key_waiting {
                &&& r.take_key
                &&& r.next == (MoreState::Outputting { offset, lines_shown: 0 })
                &&& r.output@ == prompt_erasure()
            } else {
                &&& !r.take_key
                &&& r.next == state
                &&& r.output@ == Seq::<u8>::empty()
            },
            MoreState::Finished => {
                &&& !r.take_key
                &&& r.next == MoreState::Finished
                &&& r.output@ == Seq::<u8>::empty()
            },
        },
{
    match state {
        MoreState::Outputting { offset, lines_shown } => {
            let page = more_page(data, offset, lines_shown);
            proof {
                if offset < data@.len() {
                    if page.resume_at is None {
                        assert(newline_count(data@.subrange(offset as int, data@.len() as int))
                            < lines_left(lines_shown));
                    } else {
                        let j = page.resume_at->0;
                        lemma_newline_count_monotone(data@.subrange(offset as int, data@.len() as int), j - offset);
                        assert(data@.subrange(offset as int, data@.len() as int).take(j - offset) =~= data@.subrange(offset as int, j as int));
                    }
                }
            }
            let next = match page.resume_at {
                Some(j) => MoreState::WaitKey { offset: j },
                None => MoreState::Finished,
            };
            MoreStep { next, output: page.output, take_key: false }
        },
        MoreState::WaitKey { offset } => {
            if key_waiting {
                let mut output: Vec<u8> = Vec::new();
                output.push(0x0D);
                let mut k: usize = 0;
                while k < 40
                    invariant
                        k <= 40,
                        output@ == seq![0x0Du8] + Seq::new(k as nat, |i: int| 0x20u8),
                    decreases 40 - k,
                {
                    output.push(0x20);
                    k = k + 1;
                    assert(output@ =~= seq![0x0Du8] + Seq::new(k as nat, |i: int| 0x20u8));
                }
                output.push(0x0D);
                assert(output@ =~= prompt_erasure());
                MoreStep {
                    next: MoreState::Outputting { offset, lines_shown: 0 },
                    output,
                    take_key: true,
                }
            } else {
                MoreStep { next: state, output: Vec::new(), take_key: false }
            }
        },
        MoreState::Finished => MoreStep { next: MoreState::Finished, output: Vec::new(), take_key: false },
    }
}

/// Counting line feeds over a prefix gives no more than over the whole.
pub proof fn lemma_newline_count_monotone(s: Seq<u8>, n: int)
    requires
        0 <= n <= s.len(),
    ensures
        newline_count(s.take(n)) <= newline_count(s),
    decreases s.len(),
{
    if n < s.len() {
        assert(s.drop_last().take(n) =~= s.take(n));
        lemma_newline_count_monotone(s.drop_last(), n);
    } else {
        assert(s.take(n) =~= s);
    }
}

} // verus!
