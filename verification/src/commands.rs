//! Helpers shared by the built-in shell commands, and the commands' own
//! logic.

pub mod dosmock;
pub mod md;
pub mod rd;
pub mod ren;
pub mod del;
pub mod del_job;
pub mod mem;
pub mod dir;
pub mod dir_listing;
pub mod b3sum;
pub mod b3sum_run;
pub mod format;
pub mod format_job;
pub mod copy;
pub mod copy_transfer;
pub mod more;
pub mod date;
pub mod time;
pub mod ver;
pub mod echo;
pub mod xcopy;
pub mod xcopy_run;
pub mod diskcopy;
pub mod cd;
pub mod set;

use vstd::prelude::*;
use crate::text::{
    trim_ascii, trim_ascii_spec, split_blank, lemma_split_blank_nonempty, is_blank, joined,
    lemma_joined_cut, lemma_joined_push, lemma_joined_start, lemma_joined_end, upper_byte,
    ascii_upper,
};

verus! {

/// The word that asks a command for help: `/?`.
pub open spec fn help_word() -> Seq<u8> {
    seq![0x2Fu8, 0x3Fu8]
}

/// Whether a command's arguments ask for help: one of the blank-separated
/// words of the trimmed arguments is `/?`.
pub open spec fn asks_help(args: Seq<u8>) -> bool {
    split_blank(trim_ascii_spec(args)).contains(help_word())
}

/// The bytes `start..end` of `t` are the word `/?`.
fn is_help_word(t: &[u8], start: usize, end: usize) -> (r: bool)
    requires
        start <= end <= t@.len(),
    ensures
        r == (t@.subrange(start as int, end as int) == help_word()),
{
    let r = end - start == 2 && t[start] == 0x2F && t[start + 1] == 0x3F;
    proof {
        if end - start == 2 {
            assert(r == (t@.subrange(start as int, end as int) =~= help_word()));
        } else {
            assert(help_word().len() == 2);
        }
    }
    r
}

pub fn is_help_request(args: &[u8]) -> (r: bool)
    ensures
        r == asks_help(args@),
{
    let t = trim_ascii(args);
    let ghost s = t@;
    let ghost mut done: Seq<Seq<u8>> = Seq::empty();
    let mut start: usize = 0;
    let mut i: usize = 0;
    proof {
        lemma_split_blank_nonempty(s);
        lemma_joined_start(split_blank(s));
        assert(s.skip(0) =~= s);
        assert(s.subrange(0, 0) =~= Seq::<u8>::empty());
    }
    while i < t.len()
        invariant
            s == t@,
            s == trim_ascii_spec(args@),
            start <= i <= s.len(),
            split_blank(s) == joined(done, s.subrange(start as int, i as int), split_blank(s.skip(i as int))),
            !done.contains(help_word()),
        decreases s.len() - i,
    {
        let ghost here = s.skip(i as int);
        assert(here[0] == s[i as int]);
        assert(here.skip(1) =~= s.skip(i + 1));
        let ghost next = split_blank(s.skip(i + 1));
        proof {
            lemma_split_blank_nonempty(s.skip(i + 1));
        }
        let ghost cur = s.subrange(start as int, i as int);
        if t[i] == 0x20 || t[i] == 0x09 {
            proof {
                lemma_joined_cut(done, cur, next);
            }
            if is_help_word(t, start, i) {
                proof {
                    let all = split_blank(s);
                    assert(all[done.len() as int] == cur + Seq::<u8>::empty());
                    assert(cur + Seq::<u8>::empty() =~= cur);
                    assert(all.contains(help_word()));
                }
                return true;
            }
            proof {
                assert forall|k: int| 0 <= k < done.push(cur).len() implies done.push(cur)[k]
                    != help_word() by {
                    if k < done.len() {
                        assert(done.push(cur)[k] == done[k]);
                    }
                }
                done = done.push(cur);
            }
            start = i + 1;
            i = i + 1;
            assert(s.subrange(start as int, i as int) =~= Seq::<u8>::empty());
        } else {
            proof {
                lemma_joined_push(done, cur, s[i as int], next);
            }
            i = i + 1;
            assert(s.subrange(start as int, i as int) =~= cur.push(s[i - 1]));
        }
    }
    proof {
        assert(s.skip(i as int) =~= Seq::<u8>::empty());
        lemma_joined_end(done, s.subrange(start as int, i as int));
    }
    let r = is_help_word(t, start, i);
    proof {
        let all = split_blank(s);
        let cur = s.subrange(start as int, i as int);
        assert(all == done.push(cur));
        if r {
            assert(all[done.len() as int] == cur);
        } else {
            assert forall|k: int| 0 <= k < all.len() implies all[k] != help_word() by {
                if k < done.len() {
                    assert(all[k] == done[k]);
                }
            }
        }
    }
    r
}

/// A word that is not empty.
pub open spec fn nonempty() -> spec_fn(Seq<u8>) -> bool {
    |w: Seq<u8>| w.len() > 0
}

/// A switch: a word of two or more bytes that starts with `/`.
pub open spec fn is_switch(w: Seq<u8>) -> bool {
    w.len() >= 2 && w[0] == 0x2F
}

/// Switch words.
pub open spec fn switch_word() -> spec_fn(Seq<u8>) -> bool {
    |w: Seq<u8>| is_switch(w)
}

/// Words that are not switches.
pub open spec fn plain_word() -> spec_fn(Seq<u8>) -> bool {
    |w: Seq<u8>| !is_switch(w)
}

/// The upper-cased letter of a switch.
pub open spec fn switch_letter() -> spec_fn(Seq<u8>) -> u8 {
    |w: Seq<u8>| upper_byte(w[1])
}

/// The blank-separated words of `args`, empty pieces dropped.
pub open spec fn words_of(args: Seq<u8>) -> Seq<Seq<u8>> {
    split_blank(args).filter(nonempty())
}

/// The words of `args` that are not switches, in order.
pub open spec fn plain_words(args: Seq<u8>) -> Seq<Seq<u8>> {
    words_of(args).filter(plain_word())
}

/// The letters of the switches among the words of `args`, upper-cased, in
/// order.
pub open spec fn switch_letters(args: Seq<u8>) -> Seq<u8> {
    words_of(args).filter(switch_word()).map_values(switch_letter())
}

/// The view of a list of words.
pub open spec fn words_view(words: Seq<Vec<u8>>) -> Seq<Seq<u8>> {
    words.map_values(|w: Vec<u8>| w@)
}

/// Sorts one finished piece into the words or the switches.
fn take_piece(
    words: &mut Vec<Vec<u8>>,
    switches: &mut Vec<u8>,
    piece: Vec<u8>,
    Ghost(done): Ghost<Seq<Seq<u8>>>,
)
    requires
        words_view(old(words)@) == done.filter(nonempty()).filter(plain_word()),
        old(switches)@ == done.filter(nonempty()).filter(switch_word()).map_values(switch_letter()),
    ensures
        words_view(final(words)@) == done.push(piece@).filter(nonempty()).filter(plain_word()),
        final(switches)@ == done.push(piece@).filter(nonempty()).filter(switch_word()).map_values(
            switch_letter(),
        ),
{
    broadcast use vstd::seq::Seq::lemma_filter_push, vstd::seq::Seq::lemma_push_map_commute;

    let ghost ne = done.filter(nonempty());
    assert(done.push(piece@).filter(nonempty()) == if piece@.len() > 0 {
        ne.push(piece@)
    } else {
        ne
    });
    if piece.len() == 0 {
        return;
    }
    assert(ne.push(piece@).filter(plain_word()) == if !is_switch(piece@) {
        ne.filter(plain_word()).push(piece@)
    } else {
        ne.filter(plain_word())
    });
    assert(ne.push(piece@).filter(switch_word()) == if is_switch(piece@) {
        ne.filter(switch_word()).push(piece@)
    } else {
        ne.filter(switch_word())
    });
    if piece.len() >= 2 && piece[0] == 0x2F {
        let letter = ascii_upper(piece[1]);
        switches.push(letter);
        assert(ne.filter(switch_word()).push(piece@).map_values(switch_letter()) =~= ne.filter(
            switch_word(),
        ).map_values(switch_letter()).push(letter));
    } else {
        let ghost p = piece@;
        words.push(piece);
        assert(words_view(words@) =~= words_view(old(words)@).push(p));
    }
}

/// The words of a command line that are not switches, and the upper-cased
/// letters of its switches (`/X`).
pub fn parse_words(args: &[u8]) -> (r: (Vec<Vec<u8>>, Vec<u8>))
    ensures
        words_view(r.0@) == plain_words(args@),
        r.1@ == switch_letters(args@),
{
    let ghost s = args@;
    let ghost mut done: Seq<Seq<u8>> = Seq::empty();
    let mut words: Vec<Vec<u8>> = Vec::new();
    let mut switches: Vec<u8> = Vec::new();
    let mut piece: Vec<u8> = Vec::new();
    let mut i: usize = 0;
    proof {
        lemma_split_blank_nonempty(s);
        lemma_joined_start(split_blank(s));
        assert(s.skip(0) =~= s);
        assert(words_view(words@) =~= Seq::<Seq<u8>>::empty());
        assert(done.filter(nonempty()) =~= Seq::<Seq<u8>>::empty()) by {
            reveal(Seq::filter);
        }
        assert(Seq::<Seq<u8>>::empty().filter(plain_word()) =~= Seq::<Seq<u8>>::empty()) by {
            reveal(Seq::filter);
        }
        assert(Seq::<Seq<u8>>::empty().filter(switch_word()) =~= Seq::<Seq<u8>>::empty()) by {
            reveal(Seq::filter);
        }
        assert(switches@ =~= Seq::<Seq<u8>>::empty().map_values(switch_letter()));
    }
    while i < args.len()
        invariant
            s == args@,
            i <= s.len(),
            split_blank(s) == joined(done, piece@, split_blank(s.skip(i as int))),
            words_view(words@) == done.filter(nonempty()).filter(plain_word()),
            switches@ == done.filter(nonempty()).filter(switch_word()).map_values(switch_letter()),
        decreases s.len() - i,
    {
        let ghost here = s.skip(i as int);
        assert(here[0] == s[i as int]);
        assert(here.skip(1) =~= s.skip(i + 1));
        let ghost next = split_blank(s.skip(i + 1));
        proof {
            lemma_split_blank_nonempty(s.skip(i + 1));
        }
        let b = args[i];
        if b == 0x20 || b == 0x09 {
            proof {
                lemma_joined_cut(done, piece@, next);
            }
            let finished = piece;
            piece = Vec::new();
            take_piece(&mut words, &mut switches, finished, Ghost(done));
            proof {
                done = done.push(finished@);
            }
        } else {
            proof {
                lemma_joined_push(done, piece@, b, next);
            }
            piece.push(b);
        }
        i = i + 1;
    }
    proof {
        assert(s.skip(i as int) =~= Seq::<u8>::empty());
        lemma_joined_end(done, piece@);
    }
    let ghost last = piece@;
    take_piece(&mut words, &mut switches, piece, Ghost(done));
    proof {
        assert(split_blank(s) == done.push(last));
    }
    (words, switches)
}

/// Keeps a finished piece when it is not empty.
fn keep_word(words: &mut Vec<Vec<u8>>, piece: Vec<u8>, Ghost(done): Ghost<Seq<Seq<u8>>>)
    requires
        words_view(old(words)@) == done.filter(nonempty()),
    ensures
        words_view(final(words)@) == done.push(piece@).filter(nonempty()),
{
    broadcast use vstd::seq::Seq::lemma_filter_push;

    if piece.len() > 0 {
        let ghost p = piece@;
        words.push(piece);
        assert(words_view(words@) =~= words_view(old(words)@).push(p));
    }
}

/// The blank-separated words of a command line.
pub fn split_words(args: &[u8]) -> (r: Vec<Vec<u8>>)
    ensures
        words_view(r@) == words_of(args@),
{
    let ghost s = args@;
    let ghost mut done: Seq<Seq<u8>> = Seq::empty();
    let mut words: Vec<Vec<u8>> = Vec::new();
    let mut piece: Vec<u8> = Vec::new();
    let mut i: usize = 0;
    proof {
        lemma_split_blank_nonempty(s);
        lemma_joined_start(split_blank(s));
        assert(s.skip(0) =~= s);
        assert(words_view(words@) =~= Seq::<Seq<u8>>::empty());
        assert(done.filter(nonempty()) =~= Seq::<Seq<u8>>::empty()) by {
            reveal(Seq::filter);
        }
    }
    while i < args.len()
        invariant
            s == args@,
            i <= s.len(),
            split_blank(s) == joined(done, piece@, split_blank(s.skip(i as int))),
            words_view(words@) == done.filter(nonempty()),
        decreases s.len() - i,
    {
        let ghost here = s.skip(i as int);
        assert(here[0] == s[i as int]);
        assert(here.skip(1) =~= s.skip(i + 1));
        let ghost next = split_blank(s.skip(i + 1));
        proof {
            lemma_split_blank_nonempty(s.skip(i + 1));
        }
        let b = args[i];
        if b == 0x20 || b == 0x09 {
            proof {
                lemma_joined_cut(done, piece@, next);
            }
            let finished = piece;
            piece = Vec::new();
            keep_word(&mut words, finished, Ghost(done));
            proof {
                done = done.push(finished@);
            }
        } else {
            proof {
                lemma_joined_push(done, piece@, b, next);
            }
            piece.push(b);
        }
        i = i + 1;
    }
    proof {
        assert(s.skip(i as int) =~= Seq::<u8>::empty());
        lemma_joined_end(done, piece@);
    }
    keep_word(&mut words, piece, Ghost(done));
    words
}

} // verus!
