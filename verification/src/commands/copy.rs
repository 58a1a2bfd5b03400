//! COPY: how the copy command reads its command line.

use vstd::prelude::*;
use crate::text::{upper_bytes, ascii_upper, trim_ascii, trim_ascii_spec, push_bytes, contains_byte};
use crate::commands::{parse_words, plain_words, switch_letters, words_view};
use crate::commands::dir::{ReadDirEntry, display_name, fcb_to_display_name};

verus! {

/// The prefix that marks a host path: `host:` in any case.
pub open spec fn host_prefix() -> Seq<u8> {
    seq![0x48u8, 0x4F, 0x53, 0x54, 0x3A]
}

/// A token names a host path: it starts with `host:` in any case.
pub open spec fn is_host_token(token: Seq<u8>) -> bool {
    token.len() >= 5 && upper_bytes(token.take(5)) == host_prefix()
}

pub fn starts_with_host_prefix(token: &[u8]) -> (r: bool)
    ensures
        r == is_host_token(token@),
{
    if token.len() < 5 {
        return false;
    }
    let r = ascii_upper(token[0]) == 0x48 && ascii_upper(token[1]) == 0x4F && ascii_upper(token[2])
        == 0x53 && ascii_upper(token[3]) == 0x54 && token[4] == 0x3A;
    assert(r == (upper_bytes(token@.take(5)) =~= host_prefix()));
    r
}

/// A COPY argument: a DOS path, or a host path (the bytes after `host:`).
#[derive(Debug, PartialEq, Eq)]
pub enum ArgKind {
    Dos(Vec<u8>),
    Host(Vec<u8>),
}

/// What a token stands for.
pub open spec fn arg_of(token: Seq<u8>) -> (bool, Seq<u8>) {
    if is_host_token(token) {
        (true, token.skip(5))
    } else {
        (false, token)
    }
}

/// The view of an argument: whether it is a host path, and its bytes.
pub open spec fn arg_view(a: ArgKind) -> (bool, Seq<u8>) {
    match a {
        ArgKind::Dos(p) => (false, p@),
        ArgKind::Host(p) => (true, p@),
    }
}

pub fn parse_arg(token: &[u8]) -> (r: ArgKind)
    ensures
        arg_view(r) == arg_of(token@),
{
    if starts_with_host_prefix(token) {
        let rest = vstd::slice::slice_subrange(token, 5, token.len());
        assert(rest@ =~= token@.skip(5));
        ArgKind::Host(vstd::slice::slice_to_vec(rest))
    } else {
        ArgKind::Dos(vstd::slice::slice_to_vec(token))
    }
}

/// Tokens joined end to end.
pub open spec fn concatenated(tokens: Seq<Seq<u8>>) -> Seq<u8>
    decreases tokens.len(),
{
    if tokens.len() == 0 {
        Seq::empty()
    } else {
        concatenated(tokens.drop_last()) + tokens.last()
    }
}

/// A concatenation `A+B C`: two tokens or more, none but the last a host
/// path, and the sources, joined end to end, holding a `+`; gives the
/// joined sources and the destination.
pub open spec fn concat_of(tokens: Seq<Seq<u8>>) -> Option<(Seq<u8>, Seq<u8>)> {
    if tokens.len() < 2 {
        None
    } else {
        let sources = tokens.drop_last();
        if exists|i: int| 0 <= i < sources.len() && is_host_token(#[trigger] sources[i]) {
            None
        } else if concatenated(sources).contains(0x2Bu8) {
            Some((concatenated(sources), tokens.last()))
        } else {
            None
        }
    }
}

pub fn concat_tokens(tokens: &[Vec<u8>]) -> (r: Option<(Vec<u8>, Vec<u8>)>)
    ensures
        match r {
            Some((joined, dest)) => concat_of(words_view(tokens@)) == Some((joined@, dest@)),
            None => concat_of(words_view(tokens@)) is None,
        },
{
    let ghost ts = words_view(tokens@);
    if tokens.len() < 2 {
        return None;
    }
    let n = tokens.len() - 1;
    let ghost sources = ts.drop_last();
    let mut i: usize = 0;
    while i < n
        invariant
            n + 1 == tokens@.len(),
            ts == words_view(tokens@),
            sources == ts.drop_last(),
            i <= n,
            forall|j: int| 0 <= j < i ==> !is_host_token(#[trigger] sources[j]),
        decreases n - i,
    {
        if starts_with_host_prefix(tokens[i].as_slice()) {
            assert(sources[i as int] == tokens@[i as int]@);
            return None;
        }
        i = i + 1;
    }
    let mut source_part: Vec<u8> = Vec::new();
    let mut k: usize = 0;
    assert(sources.take(0) =~= Seq::<Seq<u8>>::empty());
    while k < n
        invariant
            n + 1 == tokens@.len(),
            ts == words_view(tokens@),
            sources == ts.drop_last(),
            k <= n,
            source_part@ == concatenated(sources.take(k as int)),
        decreases n - k,
    {
        push_bytes(&mut source_part, tokens[k].as_slice());
        assert(sources.take(k + 1).drop_last() =~= sources.take(k as int));
        k = k + 1;
    }
    assert(sources.take(n as int) =~= sources);
    if contains_byte(source_part.as_slice(), 0x2B) {
        let dest = vstd::slice::slice_to_vec(tokens[n].as_slice());
        Some((source_part, dest))
    } else {
        None
    }
}

/// Drive Z: (index 25) cannot be written.
pub fn reject_protected_drive(drive_index: u8) -> (r: Result<(), &'static str>)
    ensures
        drive_index == 25 ==> (r matches Err(m) && m@ == "Access denied\r\n"@),
        drive_index != 25 ==> r is Ok,
{
    if drive_index == 25 {
        Err("Access denied\r\n")
    } else {
        Ok(())
    }
}

/// The `.` and `..` entries of a directory.
pub fn is_dot_directory(entry: &ReadDirEntry) -> (r: bool)
    ensures
        r == (display_name(entry.name@) == seq![0x2Eu8] || display_name(entry.name@) == seq![
            0x2Eu8,
            0x2Eu8,
        ]),
{
    let display = fcb_to_display_name(&entry.name);
    let r = (display.len() == 1 && display[0] == 0x2E) || (display.len() == 2 && display[0] == 0x2E
        && display[1] == 0x2E);
    proof {
        if display@.len() == 1 {
            assert(r == (display@ =~= seq![0x2Eu8]));
        }
        if display@.len() == 2 {
            assert(r == (display@ =~= seq![0x2Eu8, 0x2Eu8]));
        }
    }
    r
}

/// What the COPY command line asks for.
#[derive(Debug, PartialEq, Eq)]
pub enum CopyRequest {
    /// `A+B C`: the sources joined end to end, and the destination.
    Concat { sources: Vec<u8>, dest: Vec<u8>, verify: bool, overwrite_all: bool },
    /// `A B`: one source and one destination.
    Pair { source: ArgKind, dest: ArgKind, verify: bool, overwrite_all: bool },
}

/// The message for a missing argument.
pub open spec fn missing_text() -> Seq<char> {
    "Required parameter missing\r\n"@
}

/// What a COPY command line asks for, as values.
pub enum RequestView {
    Concat { sources: Seq<u8>, dest: Seq<u8> },
    Pair { source: (bool, Seq<u8>), dest: (bool, Seq<u8>) },
}

/// What a COPY command line asks for, with its `/V` and `/Y` flags, or the
/// message that refuses it: a concatenation when the words form one; else
/// the first two words as source and destination, which must not both be
/// host paths.
pub open spec fn copy_request(args: Seq<u8>) -> Result<(RequestView, bool, bool), Seq<char>> {
    let t = trim_ascii_spec(args);
    let tokens = plain_words(t);
    let verify = switch_letters(t).contains(0x56u8);
    let overwrite = switch_letters(t).contains(0x59u8);
    if t.len() == 0 || tokens.len() == 0 {
        Err(missing_text())
    } else if concat_of(tokens) is Some {
        Ok(
            (
                RequestView::Concat {
                    sources: concat_of(tokens).unwrap().0,
                    dest: concat_of(tokens).unwrap().1,
                },
                verify,
                overwrite,
            ),
        )
    } else if tokens.len() < 2 {
        Err(missing_text())
    } else if arg_of(tokens[0]).0 && arg_of(tokens[1]).0 {
        Err("Host-to-host copy is not supported\r\n"@)
    } else {
        Ok((RequestView::Pair { source: arg_of(tokens[0]), dest: arg_of(tokens[1]) }, verify, overwrite))
    }
}

/// The view of a request.
pub open spec fn request_view(r: CopyRequest) -> (RequestView, bool, bool) {
    match r {
        CopyRequest::Concat { sources, dest, verify, overwrite_all } => (
            RequestView::Concat { sources: sources@, dest: dest@ },
            verify,
            overwrite_all,
        ),
        CopyRequest::Pair { source, dest, verify, overwrite_all } => (
            RequestView::Pair { source: arg_view(source), dest: arg_view(dest) },
            verify,
            overwrite_all,
        ),
    }
}

/// Reads a COPY command line.
pub fn copy_arguments(args: &[u8]) -> (r: Result<CopyRequest, &'static str>)
    ensures
        match r {
            Ok(req) => copy_request(args@) == Ok::<(RequestView, bool, bool), Seq<char>>(
                request_view(req),
            ),
            Err(m) => copy_request(args@) == Err::<(RequestView, bool, bool), Seq<char>>(m@),
        },
{
    let args = trim_ascii(args);
    if args.len() == 0 {
        return Err("Required parameter missing\r\n");
    }
    let (tokens, switches) = parse_words(args);
    let verify = contains_byte(switches.as_slice(), 0x56);
    let overwrite_all = contains_byte(switches.as_slice(), 0x59);
    if tokens.len() == 0 {
        return Err("Required parameter missing\r\n");
    }
    if let Some((sources, dest)) = concat_tokens(tokens.as_slice()) {
        return Ok(CopyRequest::Concat { sources, dest, verify, overwrite_all });
    }
    if tokens.len() < 2 {
        return Err("Required parameter missing\r\n");
    }
    let source = parse_arg(tokens[0].as_slice());
    let dest = parse_arg(tokens[1].as_slice());
    let both_host = match (&source, &dest) {
        (ArgKind::Host(_), ArgKind::Host(_)) => true,
        _ => false,
    };
    if both_host {
        return Err("Host-to-host copy is not supported\r\n");
    }
    Ok(CopyRequest::Pair { source, dest, verify, overwrite_all })
}

/// The pieces of `s` between `+` signs, empty ones left out, with `cur`
/// the piece already begun.
pub open spec fn plus_pieces(s: Seq<u8>, cur: Seq<u8>) -> Seq<Seq<u8>>
    decreases s.len(),
{
    let done = if cur.len() > 0 {
        seq![cur]
    } else {
        Seq::empty()
    };
    if s.len() == 0 {
        done
    } else if s[0] == 0x2B {
        done + plus_pieces(s.drop_first(), Seq::empty())
    } else {
        plus_pieces(s.drop_first(), cur.push(s[0]))
    }
}

/// What a concatenation `A+B+... dest` starts from: a host destination is
/// refused; else the source names between the `+` signs, empty ones left
/// out, of which there must be one at least.
pub open spec fn concat_plan_of(source_part: Seq<u8>, dest_token: Seq<u8>) -> Result<Seq<Seq<u8>>, Seq<char>> {
    if is_host_token(dest_token) {
        Err("Concatenation requires a DOS destination\r\n"@)
    } else if plus_pieces(source_part, Seq::empty()).len() == 0 {
        Err("Required parameter missing\r\n"@)
    } else {
        Ok(plus_pieces(source_part, Seq::empty()))
    }
}

/// The sources of a concatenation, or why there are none to copy.
pub fn concat_plan(source_part: &[u8], dest_token: &[u8]) -> (r: Result<Vec<Vec<u8>>, &'static str>)
    ensures
        match r {
            Ok(v) => concat_plan_of(source_part@, dest_token@) == Ok::<Seq<Seq<u8>>, Seq<char>>(words_view(v@)),
            Err(m) => concat_plan_of(source_part@, dest_token@) == Err::<Seq<Seq<u8>>, Seq<char>>(m@),
        },
{
    if starts_with_host_prefix(dest_token) {
        return Err("Concatenation requires a DOS destination\r\n");
    }
    let mut out: Vec<Vec<u8>> = Vec::new();
    let mut cur: Vec<u8> = Vec::new();
    let mut i: usize = 0;
    assert(source_part@.skip(0) =~= source_part@);
    assert(words_view(out@) =~= Seq::<Seq<u8>>::empty());
    assert(cur@ =~= Seq::<u8>::empty());
    assert(Seq::<Seq<u8>>::empty() + plus_pieces(source_part@, Seq::empty()) =~= plus_pieces(
        source_part@,
        Seq::empty(),
    ));
    while i < source_part.len()
        invariant
            i <= source_part@.len(),
            plus_pieces(source_part@, Seq::empty()) == words_view(out@) + plus_pieces(
                source_part@.skip(i as int),
                cur@,
            ),
        decreases source_part.len() - i,
    {
        let b = source_part[i];
        let ghost rest = source_part@.skip(i as int);
        assert(rest[0] == b);
        assert(rest.drop_first() =~= source_part@.skip(i + 1));
        let ghost prev = words_view(out@);
        let ghost was = cur@;
        if b == 0x2B {
            if cur.len() > 0 {
                let piece = cur;
                out.push(piece);
                cur = Vec::new();
                assert(words_view(out@) =~= prev.push(was));
                assert(prev + (seq![was] + plus_pieces(rest.drop_first(), Seq::empty())) =~= words_view(out@)
                    + plus_pieces(rest.drop_first(), Seq::empty()));
            } else {
                assert(Seq::<Seq<u8>>::empty() + plus_pieces(rest.drop_first(), Seq::empty()) =~= plus_pieces(
                    rest.drop_first(),
                    Seq::empty(),
                ));
            }
            assert(cur@ =~= Seq::<u8>::empty());
        } else {
            cur.push(b);
        }
        i = i + 1;
    }
    assert(source_part@.skip(i as int) =~= Seq::<u8>::empty());
    let ghost prev = words_view(out@);
    let ghost was = cur@;
    if cur.len() > 0 {
        out.push(cur);
        assert(words_view(out@) =~= prev + seq![was]);
    } else {
        assert(words_view(out@) =~= prev + Seq::<Seq<u8>>::empty());
    }
    if out.len() == 0 {
        return Err("Required parameter missing\r\n");
    }
    Ok(out)
}

/// What a concatenation source needs, checked in turn as each is reached:
/// a DOS path, that resolves (`drive` is the drive it resolved to), on a
/// drive other than Z:.
pub open spec fn concat_source_of(token: Seq<u8>, drive: Option<u8>) -> Result<(), Seq<char>> {
    if is_host_token(token) {
        Err("Concatenation sources must be DOS paths\r\n"@)
    } else {
        match drive {
            None => Err("File not found\r\n"@),
            Some(d) => if d == 25 {
                Err("Access denied\r\n"@)
            } else {
                Ok(())
            },
        }
    }
}

/// Checks one concatenation source.
pub fn concat_source_check(token: &[u8], drive: Option<u8>) -> (r: Result<(), &'static str>)
    ensures
        match r {
            Ok(()) => concat_source_of(token@, drive) == Ok::<(), Seq<char>>(()),
            Err(m) => concat_source_of(token@, drive) == Err::<(), Seq<char>>(m@),
        },
{
    if starts_with_host_prefix(token) {
        return Err("Concatenation sources must be DOS paths\r\n");
    }
    match drive {
        None => Err("File not found\r\n"),
        Some(d) => if d == 25 {
            Err("Access denied\r\n")
        } else {
            Ok(())
        },
    }
}

/// The sources of a concatenation checked in order, `drives[i]` being
/// the drive that source `i` resolved to: the first refusal, if any.
pub open spec fn concat_sources_of(tokens: Seq<Seq<u8>>, drives: Seq<Option<u8>>) -> Result<(), Seq<char>>
    decreases tokens.len(),
{
    if tokens.len() == 0 {
        Ok(())
    } else {
        match concat_source_of(tokens[0], drives[0]) {
            Err(m) => Err(m),
            Ok(()) => concat_sources_of(tokens.drop_first(), drives.drop_first()),
        }
    }
}

/// Checks the sources of a concatenation in order.
pub fn concat_sources_check(tokens: &Vec<Vec<u8>>, drives: &Vec<Option<u8>>) -> (r: Result<(), &'static str>)
    requires
        tokens.len() == drives.len(),
    ensures
        match r {
            Ok(()) => concat_sources_of(words_view(tokens@), drives@) == Ok::<(), Seq<char>>(()),
            Err(m) => concat_sources_of(words_view(tokens@), drives@) == Err::<(), Seq<char>>(m@),
        },
{
    let mut i: usize = 0;
    assert(words_view(tokens@).skip(0) =~= words_view(tokens@));
    assert(drives@.skip(0) =~= drives@);
    while i < tokens.len()
        invariant
            tokens.len() == drives.len(),
            i <= tokens.len(),
            concat_sources_of(words_view(tokens@), drives@) == concat_sources_of(
                words_view(tokens@).skip(i as int),
                drives@.skip(i as int),
            ),
        decreases tokens.len() - i,
    {
        let ghost ts = words_view(tokens@).skip(i as int);
        let ghost ds = drives@.skip(i as int);
        assert(ts[0] == tokens@[i as int]@);
        assert(ds[0] == drives@[i as int]);
        assert(ts.drop_first() =~= words_view(tokens@).skip(i + 1));
        assert(ds.drop_first() =~= drives@.skip(i + 1));
        match concat_source_check(tokens[i].as_slice(), drives[i]) {
            Err(m) => return Err(m),
            Ok(()) => {},
        }
        i = i + 1;
    }
    assert(words_view(tokens@).skip(i as int).len() == 0);
    Ok(())
}

/// The FCB name `CONCAT` takes when the destination is a directory.
pub open spec fn concat_default_fcb() -> Seq<u8> {
    seq![0x43u8, 0x4F, 0x4E, 0x43, 0x41, 0x54, 0x20, 0x20, 0x20, 0x20, 0x20]
}

/// The name of a concatenation's destination: the file named, or `CONCAT`
/// in the directory named.
pub fn concat_dest_name(file: Option<[u8; 11]>) -> (r: [u8; 11])
    ensures
        r@ == match file {
            Some(name) => name@,
            None => concat_default_fcb(),
        },
{
    match file {
        Some(name) => name,
        None => {
            let name: [u8; 11] = [0x43, 0x4F, 0x4E, 0x43, 0x41, 0x54, 0x20, 0x20, 0x20, 0x20, 0x20];
            assert(name@ =~= concat_default_fcb());
            name
        },
    }
}

} // verus!
