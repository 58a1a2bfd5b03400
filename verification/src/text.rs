//! Byte and string helpers shared by the rest of the library.

use vstd::prelude::*;

verus! {

/// ASCII upper-casing of one byte, as `u8::to_ascii_uppercase` does.
pub open spec fn upper_byte(b: u8) -> u8 {
    if 0x61 <= b <= 0x7A {
        (b - 0x20) as u8
    } else {
        b
    }
}

/// ASCII upper-casing of one byte.
pub fn ascii_upper(b: u8) -> (r: u8)
    ensures
        r == upper_byte(b),
{
    if 0x61 <= b && b <= 0x7A {
        b - 0x20
    } else {
        b
    }
}

/// ASCII upper-casing of a byte sequence.
pub open spec fn upper_bytes(s: Seq<u8>) -> Seq<u8> {
    s.map_values(|b: u8| upper_byte(b))
}

/// Bytes read as Latin-1 characters (identical to UTF-8 decoding for ASCII).
pub open spec fn byte_chars(s: Seq<u8>) -> Seq<char> {
    s.map_values(|b: u8| b as char)
}

/// A separator of DOS path components.
pub open spec fn is_separator(b: u8) -> bool {
    b == 0x5C || b == 0x2F
}

/// Index of the last element of `s` that satisfies `p`, or -1.
pub open spec fn last_index_where(s: Seq<u8>, p: spec_fn(u8) -> bool) -> int
    decreases s.len(),
{
    if s.len() == 0 {
        -1
    } else if p(s.last()) {
        s.len() - 1
    } else {
        last_index_where(s.drop_last(), p)
    }
}

/// What `last_index_where` says, element by element.
pub proof fn lemma_last_index_where(s: Seq<u8>, p: spec_fn(u8) -> bool)
    ensures
        -1 <= last_index_where(s, p) < s.len(),
        last_index_where(s, p) >= 0 ==> p(s[last_index_where(s, p)]),
        forall|j: int| last_index_where(s, p) < j < s.len() ==> !p(#[trigger] s[j]),
    decreases s.len(),
{
    if s.len() > 0 && !p(s.last()) {
        lemma_last_index_where(s.drop_last(), p);
        assert forall|j: int| last_index_where(s, p) < j < s.len() implies !p(#[trigger] s[j]) by {
            if j < s.len() - 1 {
                assert(s[j] == s.drop_last()[j]);
            }
        }
    }
}

/// The index described by `last_index_where` is the only one with those properties.
pub proof fn lemma_last_index_unique(s: Seq<u8>, p: spec_fn(u8) -> bool, k: int)
    requires
        -1 <= k < s.len(),
        k >= 0 ==> p(s[k]),
        forall|j: int| k < j < s.len() ==> !p(#[trigger] s[j]),
    ensures
        last_index_where(s, p) == k,
    decreases s.len(),
{
    if s.len() > 0 {
        if k < s.len() - 1 {
            assert(!p(s[s.len() - 1]));
            assert forall|j: int| k < j < s.drop_last().len() implies !p(#[trigger] s.drop_last()[j]) by {
                assert(s.drop_last()[j] == s[j]);
            }
            if k >= 0 {
                assert(s.drop_last()[k] == s[k]);
            }
            lemma_last_index_unique(s.drop_last(), p, k);
        }
    }
}

/// Pieces already cut, the piece being read, and the pieces that the rest
/// of the input cuts into, joined as one sequence of pieces.
pub open spec fn joined<A>(done: Seq<Seq<A>>, cur: Seq<A>, rest: Seq<Seq<A>>) -> Seq<Seq<A>> {
    done + seq![cur + rest[0]] + rest.skip(1)
}

/// An element read onto the current piece.
pub proof fn lemma_joined_push<A>(done: Seq<Seq<A>>, cur: Seq<A>, u: A, rest: Seq<Seq<A>>)
    requires
        rest.len() >= 1,
    ensures
        joined(done, cur, rest.update(0, seq![u] + rest[0])) == joined(done, cur.push(u), rest),
{
    assert(cur + (seq![u] + rest[0]) =~= cur.push(u) + rest[0]);
    assert(rest.update(0, seq![u] + rest[0]).skip(1) =~= rest.skip(1));
    assert(joined(done, cur, rest.update(0, seq![u] + rest[0])) =~= joined(done, cur.push(u), rest));
}

/// A separator read: the current piece is finished and a new one begins.
pub proof fn lemma_joined_cut<A>(done: Seq<Seq<A>>, cur: Seq<A>, rest: Seq<Seq<A>>)
    requires
        rest.len() >= 1,
    ensures
        joined(done, cur, seq![Seq::empty()] + rest) == joined(done.push(cur), Seq::empty(), rest),
{
    let e = Seq::<A>::empty();
    assert(cur + (seq![e] + rest)[0] =~= cur);
    assert(e + rest[0] =~= rest[0]);
    assert((seq![e] + rest).skip(1) =~= rest);
    assert(joined(done, cur, seq![e] + rest) =~= done.push(cur) + rest);
    assert(joined(done.push(cur), e, rest) =~= done.push(cur) + rest);
}

/// Reading starts with nothing cut.
pub proof fn lemma_joined_start<A>(all: Seq<Seq<A>>)
    requires
        all.len() >= 1,
    ensures
        joined(Seq::empty(), Seq::empty(), all) == all,
{
    assert(Seq::<A>::empty() + all[0] =~= all[0]);
    assert(joined(Seq::empty(), Seq::empty(), all) =~= all);
}

/// Reading ends: the last piece is the one being read.
pub proof fn lemma_joined_end<A>(done: Seq<Seq<A>>, cur: Seq<A>)
    ensures
        joined(done, cur, seq![Seq::empty()]) == done.push(cur),
{
    assert(cur + Seq::<A>::empty() =~= cur);
    assert(joined(done, cur, seq![Seq::empty()]) =~= done.push(cur));
}

/// `a` sorts before `b`: at the first position where they differ `a` has
/// the smaller byte, or `a` is a proper prefix of `b`.
pub open spec fn bytes_less(a: Seq<u8>, b: Seq<u8>) -> bool
    decreases a.len(),
{
    if a.len() == 0 {
        b.len() > 0
    } else if b.len() == 0 {
        false
    } else if a[0] != b[0] {
        a[0] < b[0]
    } else {
        bytes_less(a.skip(1), b.skip(1))
    }
}

/// Sequences that agree before position `i` and differ there are ordered by
/// their bytes at `i`.
pub proof fn lemma_bytes_less_at(a: Seq<u8>, b: Seq<u8>, i: int)
    requires
        0 <= i < a.len(),
        i < b.len(),
        a.take(i) == b.take(i),
        a[i] < b[i],
    ensures
        bytes_less(a, b),
        !bytes_less(b, a),
        a != b,
    decreases i,
{
    if i > 0 {
        assert(a[0] == a.take(i)[0]);
        assert(b[0] == b.take(i)[0]);
        assert(a.skip(1).take(i - 1) =~= a.take(i).skip(1));
        assert(b.skip(1).take(i - 1) =~= b.take(i).skip(1));
        lemma_bytes_less_at(a.skip(1), b.skip(1), i - 1);
    }
    assert(a[i] != b[i]);
}

/// Sequences that agree up to the end of the shorter are ordered by length.
pub proof fn lemma_bytes_less_prefix(a: Seq<u8>, b: Seq<u8>, i: int)
    requires
        0 <= i,
        i == a.len() || i == b.len(),
        i <= a.len(),
        i <= b.len(),
        a.take(i) == b.take(i),
    ensures
        bytes_less(a, b) == (a.len() < b.len()),
        bytes_less(b, a) == (b.len() < a.len()),
        (a == b) == (a.len() == b.len()),
    decreases i,
{
    if i > 0 {
        assert(a[0] == a.take(i)[0]);
        assert(b[0] == b.take(i)[0]);
        assert(a.skip(1).take(i - 1) =~= a.take(i).skip(1));
        assert(b.skip(1).take(i - 1) =~= b.take(i).skip(1));
        lemma_bytes_less_prefix(a.skip(1), b.skip(1), i - 1);
    }
    if a.len() == b.len() {
        assert(a =~= a.take(i));
        assert(b =~= b.take(i));
    }
}

/// Exactly one of: `a` sorts before `b`, they are equal, `b` sorts before `a`.
pub proof fn lemma_bytes_less_total(a: Seq<u8>, b: Seq<u8>)
    ensures
        bytes_less(a, b) || a == b || bytes_less(b, a),
        !(bytes_less(a, b) && bytes_less(b, a)),
        bytes_less(a, b) ==> a != b,
    decreases a.len(),
{
    if a.len() > 0 && b.len() > 0 && a[0] == b[0] {
        lemma_bytes_less_total(a.skip(1), b.skip(1));
        if a.skip(1) == b.skip(1) {
            assert(a =~= seq![a[0]] + a.skip(1));
            assert(b =~= seq![b[0]] + b.skip(1));
        }
    }
    if a.len() == 0 && b.len() == 0 {
        assert(a =~= b);
    }
}

/// Compares `a[start..]` with `b[start..]` bytewise: -1, 0 or 1 as the
/// first sorts before, with, or after the second.
pub fn compare_tails(a: &[u8], b: &[u8], start: usize) -> (r: i8)
    requires
        start <= a@.len(),
        start <= b@.len(),
    ensures
        -1 <= r <= 1,
        (r == -1) == bytes_less(a@.skip(start as int), b@.skip(start as int)),
        (r == 0) == (a@.skip(start as int) == b@.skip(start as int)),
        (r == 1) == bytes_less(b@.skip(start as int), a@.skip(start as int)),
{
    let ghost l = a@.skip(start as int);
    let ghost rt = b@.skip(start as int);
    let mut i: usize = start;
    assert(l.take(0) =~= rt.take(0));
    while i < a.len() && i < b.len()
        invariant
            start <= i <= a@.len(),
            i <= b@.len(),
            l == a@.skip(start as int),
            rt == b@.skip(start as int),
            l.take(i - start) == rt.take(i - start),
        decreases a@.len() - i,
    {
        let x = a[i];
        let y = b[i];
        assert(l[i - start] == x && rt[i - start] == y);
        if x < y {
            proof {
                lemma_bytes_less_at(l, rt, i - start);
            }
            return -1;
        }
        if x > y {
            proof {
                lemma_bytes_less_at(rt, l, i - start);
            }
            return 1;
        }
        i = i + 1;
        assert(l.take(i - start) =~= l.take(i - 1 - start).push(x));
        assert(rt.take(i - start) =~= rt.take(i - 1 - start).push(y));
    }
    proof {
        lemma_bytes_less_prefix(l, rt, i - start);
    }
    if a.len() < b.len() {
        -1
    } else if a.len() > b.len() {
        1
    } else {
        assert(l =~= l.take(i - start));
        assert(rt =~= rt.take(i - start));
        0
    }
}

/// ASCII whitespace, as `u8::is_ascii_whitespace` has it: space, tab, line
/// feed, form feed and carriage return.
pub open spec fn is_ascii_ws(b: u8) -> bool {
    b == 0x20 || b == 0x09 || b == 0x0A || b == 0x0C || b == 0x0D
}

/// `s` without its leading ASCII whitespace.
pub open spec fn trim_front(s: Seq<u8>) -> Seq<u8>
    decreases s.len(),
{
    if s.len() > 0 && is_ascii_ws(s[0]) {
        trim_front(s.skip(1))
    } else {
        s
    }
}

/// `s` without its trailing ASCII whitespace.
pub open spec fn trim_back(s: Seq<u8>) -> Seq<u8>
    decreases s.len(),
{
    if s.len() > 0 && is_ascii_ws(s.last()) {
        trim_back(s.drop_last())
    } else {
        s
    }
}

/// `s` without leading and trailing ASCII whitespace (`<[u8]>::trim_ascii`).
pub open spec fn trim_ascii_spec(s: Seq<u8>) -> Seq<u8> {
    trim_back(trim_front(s))
}

/// Removing leading whitespace from position `i` on.
proof fn lemma_trim_front_from(s: Seq<u8>, i: int)
    requires
        0 <= i <= s.len(),
        forall|j: int| 0 <= j < i ==> is_ascii_ws(#[trigger] s[j]),
    ensures
        trim_front(s) == trim_front(s.skip(i)),
    decreases i,
{
    if i > 0 {
        assert(s.skip(1).skip(i - 1) =~= s.skip(i));
        lemma_trim_front_from(s.skip(1), i - 1);
    } else {
        assert(s.skip(0) =~= s);
    }
}

/// Removing trailing whitespace from position `k` on.
proof fn lemma_trim_back_to(s: Seq<u8>, k: int)
    requires
        0 <= k <= s.len(),
        forall|j: int| k <= j < s.len() ==> is_ascii_ws(#[trigger] s[j]),
    ensures
        trim_back(s) == trim_back(s.take(k)),
    decreases s.len() - k,
{
    if k < s.len() {
        assert(s.drop_last().take(k) =~= s.take(k));
        lemma_trim_back_to(s.drop_last(), k);
    } else {
        assert(s.take(k) =~= s);
    }
}

/// `s` without leading and trailing ASCII whitespace.
pub fn trim_ascii(s: &[u8]) -> (r: &[u8])
    ensures
        r@ == trim_ascii_spec(s@),
{
    let mut start: usize = 0;
    while start < s.len() && (s[start] == 0x20 || s[start] == 0x09 || s[start] == 0x0A || s[start]
        == 0x0C || s[start] == 0x0D)
        invariant
            start <= s@.len(),
            forall|j: int| 0 <= j < start ==> is_ascii_ws(#[trigger] s@[j]),
        decreases s@.len() - start,
    {
        start = start + 1;
    }
    let mut end: usize = s.len();
    while end > start && (s[end - 1] == 0x20 || s[end - 1] == 0x09 || s[end - 1] == 0x0A || s[end
        - 1] == 0x0C || s[end - 1] == 0x0D)
        invariant
            start <= end <= s@.len(),
            forall|j: int| end <= j < s@.len() ==> is_ascii_ws(#[trigger] s@[j]),
        decreases end,
    {
        end = end - 1;
    }
    proof {
        lemma_trim_front_from(s@, start as int);
        let f = s@.skip(start as int);
        assert(start < s@.len() ==> !is_ascii_ws(f[0]));
        assert(trim_front(f) == f);
        assert forall|j: int| end - start <= j < f.len() implies is_ascii_ws(#[trigger] f[j]) by {
            assert(f[j] == s@[start + j]);
        }
        lemma_trim_back_to(f, end - start);
        let g = f.take(end - start);
        assert(g =~= s@.subrange(start as int, end as int));
        assert(end > start ==> g.last() == s@[end - 1]);
        assert(trim_back(g) == g);
    }
    vstd::slice::slice_subrange(s, start, end)
}

/// A blank that separates command arguments: space or tab.
pub open spec fn is_blank(b: u8) -> bool {
    b == 0x20 || b == 0x09
}

/// `s` cut at every blank (empty pieces included), as `split` on blanks does.
pub open spec fn split_blank(s: Seq<u8>) -> Seq<Seq<u8>>
    decreases s.len(),
{
    if s.len() == 0 {
        seq![Seq::empty()]
    } else {
        let r = split_blank(s.skip(1));
        if is_blank(s[0]) {
            seq![Seq::empty()] + r
        } else {
            r.update(0, seq![s[0]] + r[0])
        }
    }
}

/// A sequence always cuts into at least one piece.
pub proof fn lemma_split_blank_nonempty(s: Seq<u8>)
    ensures
        split_blank(s).len() >= 1,
    decreases s.len(),
{
    if s.len() > 0 {
        lemma_split_blank_nonempty(s.skip(1));
    }
}

/// The ASCII digit for `d` (0-9).
pub open spec fn digit_byte(d: int) -> u8 {
    (0x30 + d) as u8
}

/// The decimal digits of `n`, most significant first, without leading zeros
/// (`0` for zero).
pub open spec fn decimal_digits(n: nat) -> Seq<u8>
    decreases n,
{
    if n < 10 {
        seq![digit_byte(n as int)]
    } else {
        decimal_digits(n / 10).push(digit_byte((n % 10) as int))
    }
}

/// Appends the decimal digits of `n`.
pub fn push_decimal_digits(out: &mut Vec<u8>, n: u64)
    ensures
        final(out)@ == old(out)@ + decimal_digits(n as nat),
    decreases n,
{
    if n >= 10 {
        push_decimal_digits(out, n / 10);
    }
    out.push((n % 10) as u8 + 0x30);
    assert(out@ =~= old(out)@ + decimal_digits(n as nat));
}

/// The digits of `d` from position `i` on, with a comma before each digit
/// (but the first) that starts a group of three counted from the right.
pub open spec fn commas_from(d: Seq<u8>, i: int) -> Seq<u8>
    decreases d.len() - i,
{
    if i >= d.len() || i < 0 {
        Seq::empty()
    } else {
        (if i > 0 && (d.len() - i) % 3 == 0 {
            seq![0x2Cu8]
        } else {
            Seq::empty()
        }) + seq![d[i]] + commas_from(d, i + 1)
    }
}

/// A number's decimal digits grouped by three with commas (`1,234,567`).
pub open spec fn with_commas(n: nat) -> Seq<u8> {
    commas_from(decimal_digits(n), 0)
}

/// Appends the decimal digits of `n` grouped by three with commas.
pub fn push_with_commas(out: &mut Vec<u8>, n: u64)
    ensures
        final(out)@ == old(out)@ + with_commas(n as nat),
{
    let mut digits: Vec<u8> = Vec::new();
    push_decimal_digits(&mut digits, n);
    let ghost d = digits@;
    assert(d =~= decimal_digits(n as nat));
    let ghost start = out@;
    let len = digits.len();
    let mut i: usize = 0;
    while i < len
        invariant
            d == digits@,
            len == d.len(),
            i <= len,
            out@ + commas_from(d, i as int) == start + commas_from(d, 0),
        decreases len - i,
    {
        let ghost before = out@;
        if i > 0 && (len - i) % 3 == 0 {
            out.push(0x2C);
        }
        out.push(digits[i]);
        i = i + 1;
        assert(out@ + commas_from(d, i as int) =~= before + commas_from(d, i - 1));
    }
    assert(out@ =~= out@ + commas_from(d, i as int));
}

/// `n`'s decimal digits, with zeros before them up to `width` digits.
pub open spec fn zero_padded(n: nat, width: nat) -> Seq<u8> {
    let d = decimal_digits(n);
    if d.len() < width {
        Seq::new((width - d.len()) as nat, |i: int| 0x30u8) + d
    } else {
        d
    }
}

/// Appends `n`'s decimal digits, with zeros before them up to `width` digits.
pub fn push_zero_padded(out: &mut Vec<u8>, n: u64, width: usize)
    ensures
        final(out)@ == old(out)@ + zero_padded(n as nat, width as nat),
{
    let mut digits: Vec<u8> = Vec::new();
    push_decimal_digits(&mut digits, n);
    assert(digits@ =~= decimal_digits(n as nat));
    let len = digits.len();
    let mut k: usize = len;
    let ghost start = out@;
    while k < width
        invariant
            len <= k <= width || (k == len && len >= width),
            out@ == start + Seq::new((k - len) as nat, |i: int| 0x30u8),
        decreases width - k,
    {
        out.push(0x30);
        k = k + 1;
        assert(out@ =~= start + Seq::new((k - len) as nat, |i: int| 0x30u8));
    }
    let ghost mid = out@;
    let mut i: usize = 0;
    while i < len
        invariant
            len == digits@.len(),
            i <= len,
            out@ == mid + digits@.take(i as int),
        decreases len - i,
    {
        out.push(digits[i]);
        i = i + 1;
        assert(out@ =~= mid + digits@.take(i as int));
    }
    assert(digits@.take(i as int) =~= digits@);
    assert(out@ =~= old(out)@ + zero_padded(n as nat, width as nat));
}

/// Appends the bytes of `data`.
pub fn push_bytes(out: &mut Vec<u8>, data: &[u8])
    ensures
        final(out)@ == old(out)@ + data@,
{
    let mut i: usize = 0;
    while i < data.len()
        invariant
            i <= data@.len(),
            out@ == old(out)@ + data@.take(i as int),
        decreases data@.len() - i,
    {
        out.push(data[i]);
        i = i + 1;
        assert(out@ =~= old(out)@ + data@.take(i as int));
    }
    assert(data@.take(i as int) =~= data@);
}

/// `count` spaces as bytes.
pub open spec fn space_bytes(count: nat) -> Seq<u8> {
    Seq::new(count, |i: int| 0x20u8)
}

/// Appends `count` space bytes.
pub fn push_space_bytes(out: &mut Vec<u8>, count: usize)
    ensures
        final(out)@ == old(out)@ + space_bytes(count as nat),
{
    let mut k: usize = 0;
    while k < count
        invariant
            k <= count,
            out@ == old(out)@ + space_bytes(k as nat),
        decreases count - k,
    {
        out.push(0x20);
        k = k + 1;
        assert(out@ =~= old(out)@ + space_bytes(k as nat));
    }
}

/// `t` right-aligned in `width` columns: spaces before it when it is shorter.
pub open spec fn pad_left(t: Seq<char>, width: nat) -> Seq<char> {
    if t.len() < width {
        Seq::new((width - t.len()) as nat, |i: int| ' ') + t
    } else {
        t
    }
}

/// `t` left-aligned in `width` columns: spaces after it when it is shorter.
pub open spec fn pad_right(t: Seq<char>, width: nat) -> Seq<char> {
    if t.len() < width {
        t + Seq::new((width - t.len()) as nat, |i: int| ' ')
    } else {
        t
    }
}

/// Appends `count` spaces.
pub fn push_spaces(out: &mut String, count: usize)
    ensures
        final(out)@ == old(out)@ + Seq::new(count as nat, |i: int| ' '),
{
    let mut k: usize = 0;
    while k < count
        invariant
            k <= count,
            out@ == old(out)@ + Seq::new(k as nat, |i: int| ' '),
        decreases count - k,
    {
        push_char(out, ' ');
        k = k + 1;
        assert(out@ =~= old(out)@ + Seq::new(k as nat, |i: int| ' '));
    }
}

/// Appends `t` right-aligned in `width` columns.
pub fn push_padded_left(out: &mut String, t: &str, width: usize)
    ensures
        final(out)@ == old(out)@ + pad_left(t@, width as nat),
{
    let n = t.unicode_len();
    if n < width {
        push_spaces(out, width - n);
    }
    out.append(t);
    assert(out@ =~= old(out)@ + pad_left(t@, width as nat));
}

/// Appends `t` left-aligned in `width` columns.
pub fn push_padded_right(out: &mut String, t: &str, width: usize)
    ensures
        final(out)@ == old(out)@ + pad_right(t@, width as nat),
{
    let n = t.unicode_len();
    out.append(t);
    if n < width {
        push_spaces(out, width - n);
    }
    assert(out@ =~= old(out)@ + pad_right(t@, width as nat));
}

/// Appends one character to a string (`String::push`).
#[verifier::external_body]
pub(crate) fn push_char(s: &mut String, c: char)
    ensures
        final(s)@ == old(s)@.push(c),
{
    s.push(c);
}

/// Appends bytes, read as Latin-1 characters, to a string.
pub fn push_byte_chars(s: &mut String, bytes: &[u8])
    ensures
        final(s)@ == old(s)@ + byte_chars(bytes@),
{
    let mut i: usize = 0;
    while i < bytes.len()
        invariant
            i <= bytes.len(),
            s@ == old(s)@ + byte_chars(bytes@.take(i as int)),
        decreases bytes.len() - i,
    {
        let b = bytes[i];
        push_char(s, b as char);
        i += 1;
        assert(byte_chars(bytes@.take(i as int)) =~= byte_chars(bytes@.take(i - 1)).push(b as char));
    }
    assert(bytes@.take(i as int) =~= bytes@);
}

/// Builds a `String` holding the characters of a literal.
pub fn string_of(text: &str) -> (r: String)
    ensures
        r@ == text@,
{
    let mut r = String::new();
    r.append(text);
    r
}

/// Whether `s` holds the byte `b`.
pub fn contains_byte(s: &[u8], b: u8) -> (r: bool)
    ensures
        r == s@.contains(b),
{
    let mut i: usize = 0;
    while i < s.len()
        invariant
            i <= s@.len(),
            forall|j: int| 0 <= j < i ==> s@[j] != b,
        decreases s@.len() - i,
    {
        if s[i] == b {
            assert(s@[i as int] == b);
            return true;
        }
        i = i + 1;
    }
    false
}

} // verus!
