//! REN: argument splitting and wildcard renaming of the rename command.

use vstd::prelude::*;
use crate::text::{trim_ascii, trim_ascii_spec, is_blank};

verus! {

/// Index of the first blank (space or tab) of `s`, or -1.
pub open spec fn first_blank(s: Seq<u8>) -> int
    decreases s.len(),
{
    if s.len() == 0 {
        -1
    } else if is_blank(s[0]) {
        0
    } else {
        let r = first_blank(s.skip(1));
        if r < 0 {
            -1
        } else {
            r + 1
        }
    }
}

/// What `first_blank` says, element by element.
proof fn lemma_first_blank(s: Seq<u8>, k: int)
    requires
        0 <= k <= s.len(),
        forall|j: int| 0 <= j < k ==> !is_blank(#[trigger] s[j]),
        k < s.len() ==> is_blank(s[k]),
    ensures
        first_blank(s) == (if k < s.len() {
            k
        } else {
            -1
        }),
    decreases k,
{
    if k > 0 {
        assert forall|j: int| 0 <= j < k - 1 implies !is_blank(#[trigger] s.skip(1)[j]) by {
            assert(s.skip(1)[j] == s[j + 1]);
        }
        lemma_first_blank(s.skip(1), k - 1);
    }
}

/// Finds the first blank of `s`.
pub fn position_blank(s: &[u8]) -> (r: Option<usize>)
    ensures
        r matches Some(i) ==> first_blank(s@) == i && i < s@.len(),
        r is None ==> first_blank(s@) == -1,
{
    let mut i: usize = 0;
    while i < s.len()
        invariant
            i <= s@.len(),
            forall|j: int| 0 <= j < i ==> !is_blank(#[trigger] s@[j]),
        decreases s@.len() - i,
    {
        if s[i] == 0x20 || s[i] == 0x09 {
            proof {
                lemma_first_blank(s@, i as int);
            }
            return Some(i);
        }
        i = i + 1;
    }
    proof {
        lemma_first_blank(s@, i as int);
    }
    None
}

/// The two arguments of REN: the first blank-separated word of the trimmed
/// arguments, and the first word of the rest; none when there is no second.
pub open spec fn two_args(args: Seq<u8>) -> Option<(Seq<u8>, Seq<u8>)> {
    let t = trim_ascii_spec(args);
    let pos = first_blank(t);
    if pos < 0 {
        None
    } else {
        let rest = trim_ascii_spec(t.skip(pos + 1));
        if rest.len() == 0 {
            None
        } else {
            let end = if first_blank(rest) < 0 {
                rest.len() as int
            } else {
                first_blank(rest)
            };
            Some((t.take(pos), rest.take(end)))
        }
    }
}

pub fn split_two_args(args: &[u8]) -> (r: Option<(&[u8], &[u8])>)
    ensures
        match r {
            Some((a, b)) => two_args(args@) == Some((a@, b@)),
            None => two_args(args@) is None,
        },
{
    let args = trim_ascii(args);
    let pos = match position_blank(args) {
        Some(p) => p,
        None => return None,
    };
    let len = args.len();
    let first = vstd::slice::slice_subrange(args, 0, pos);
    let after = vstd::slice::slice_subrange(args, pos + 1, len);
    assert(after@ =~= args@.skip(pos + 1));
    assert(first@ =~= args@.take(pos as int));
    let rest = trim_ascii(after);
    if rest.len() == 0 {
        return None;
    }
    let end = match position_blank(rest) {
        Some(e) => e,
        None => rest.len(),
    };
    let second = vstd::slice::slice_subrange(rest, 0, end);
    assert(second@ =~= rest@.take(end as int));
    Some((first, second))
}

/// A renamed 8.3 name: each position takes the source's byte where the
/// template has `?`, else the template's byte.
pub open spec fn merged_name(source: Seq<u8>, template: Seq<u8>) -> Seq<u8> {
    Seq::new(11, |i: int| if template[i] == 0x3F { source[i] } else { template[i] })
}

pub fn merge_wildcard_name(source: &[u8; 11], template: &[u8; 11]) -> (r: [u8; 11])
    ensures
        r@ == merged_name(source@, template@),
{
    let mut result = [0u8; 11];
    let mut i: usize = 0;
    while i < 11
        invariant
            i <= 11,
            result@.len() == 11,
            forall|j: int| 0 <= j < i ==> #[trigger] result@[j] == merged_name(source@, template@)[j],
        decreases 11 - i,
    {
        result[i] = if template[i] == 0x3F {
            source[i]
        } else {
            template[i]
        };
        i = i + 1;
    }
    assert(result@ =~= merged_name(source@, template@));
    result
}

} // verus!
