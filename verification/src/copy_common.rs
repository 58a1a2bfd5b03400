//! Helpers shared by the host copy tool and the `COPY` command: 8.3 name
//! validation, DOS path manipulation and DOS timestamp encoding.

use vstd::prelude::*;

use crate::text::{
    ascii_upper,
    byte_chars, is_separator, last_index_where, lemma_last_index_unique,
    lemma_last_index_where, push_byte_chars, string_of, upper_byte, upper_bytes,
};

verus! {

broadcast use vstd::string::group_string_axioms;

/// A byte that may not appear in a DOS name: non-ASCII or a control character.
pub open spec fn is_bad_name_byte(b: u8) -> bool {
    b >= 0x80 || b < 0x20
}

/// A byte that DOS reserves: `< > : " | ? * / \`.
pub open spec fn is_reserved_name_byte(b: u8) -> bool {
    b == 0x3C || b == 0x3E || b == 0x3A || b == 0x22 || b == 0x7C || b == 0x3F || b == 0x2A
        || b == 0x2F || b == 0x5C
}

pub open spec fn is_dot(b: u8) -> bool {
    b == 0x2E
}

/// Position of the last `.` of a name, or -1.
pub open spec fn last_dot(name: Seq<u8>) -> int {
    last_index_where(name, |b: u8| is_dot(b))
}

/// The part of a name before its last dot.
pub open spec fn name_base(name: Seq<u8>) -> Seq<u8> {
    let d = last_dot(name);
    if d < 0 {
        name
    } else {
        name.take(d)
    }
}

/// The part of a name after its last dot (empty when the dot ends the name).
pub open spec fn name_ext(name: Seq<u8>) -> Seq<u8> {
    let d = last_dot(name);
    if d < 0 || d == name.len() - 1 {
        Seq::empty()
    } else {
        name.skip(d + 1)
    }
}

/// The canonical upper-case display form of a valid 8.3 name.
pub open spec fn canonical_name(name: Seq<u8>) -> Seq<u8> {
    let ext = name_ext(name);
    if ext.len() > 0 {
        upper_bytes(name_base(name)) + seq![0x2Eu8] + upper_bytes(ext)
    } else {
        upper_bytes(name_base(name))
    }
}

/// What `validate_dos_basename` returns: the canonical name, or the
/// message of the first rule that the name breaks.
pub open spec fn basename_result(name: Seq<u8>) -> Result<Seq<u8>, Seq<char>> {
    if name.len() == 0 {
        Err("name is empty"@)
    } else if name == seq![0x2Eu8] || name == seq![0x2Eu8, 0x2Eu8] {
        Err("name is reserved"@)
    } else if exists|i: int| 0 <= i < name.len() && is_bad_name_byte(#[trigger] name[i]) {
        Err("non-ASCII or control character"@)
    } else if exists|i: int| 0 <= i < name.len() && is_reserved_name_byte(#[trigger] name[i]) {
        Err("character is reserved in DOS names"@)
    } else if name_base(name).len() == 0 {
        Err("name has no base"@)
    } else if name_base(name).len() > 8 {
        Err("base '"@ + byte_chars(name_base(name)) + "' exceeds 8 characters"@)
    } else if name_ext(name).len() > 3 {
        Err("extension '"@ + byte_chars(name_ext(name)) + "' exceeds 3 characters"@)
    } else if name_base(name).contains(0x2Eu8) {
        Err("extension may not contain '.'"@)
    } else {
        Ok(canonical_name(name))
    }
}

fn last_dot_index(name: &[u8]) -> (r: Option<usize>)
    ensures
        match r {
            Some(i) => i == last_dot(name@),
            None => last_dot(name@) == -1,
        },
{
    let mut i = name.len();
    while i > 0
        invariant
            i <= name.len(),
            forall|j: int| i <= j < name.len() ==> !is_dot(#[trigger] name@[j]),
        decreases i,
    {
        if name[i - 1] == 0x2E {
            proof {
                lemma_last_index_unique(name@, |b: u8| is_dot(b), i - 1);
            }
            return Some(i - 1);
        }
        i -= 1;
    }
    proof {
        lemma_last_index_unique(name@, |b: u8| is_dot(b), -1);
    }
    None
}

fn upper_into(out: &mut Vec<u8>, bytes: &[u8])
    ensures
        final(out)@ == old(out)@ + upper_bytes(bytes@),
{
    let mut i: usize = 0;
    while i < bytes.len()
        invariant
            i <= bytes.len(),
            out@ == old(out)@ + upper_bytes(bytes@.take(i as int)),
        decreases bytes.len() - i,
    {
        out.push(ascii_upper(bytes[i]));
        i += 1;
        assert(upper_bytes(bytes@.take(i as int)) =~= upper_bytes(bytes@.take(i - 1)).push(
            upper_byte(bytes@[i - 1]),
        ));
    }
    assert(bytes@.take(i as int) =~= bytes@);
}

/// Validates a single DOS file or directory name against the 8.3 ASCII
/// constraints and returns the canonical uppercase display form. A name
/// holds at most one dot: text after a first dot that holds another dot
/// is refused as an extension holding a dot.
#[verifier::loop_isolation(false)]
pub fn validate_dos_basename(name: &[u8]) -> (r: Result<Vec<u8>, String>)
    ensures
        match r {
            Ok(v) => basename_result(name@) == Ok::<Seq<u8>, Seq<char>>(v@),
            Err(msg) => basename_result(name@) == Err::<Seq<u8>, Seq<char>>(msg@),
        },
{
    if name.len() == 0 {
        return Err("name is empty".to_string());
    }
    if (name.len() == 1 && name[0] == 0x2E) || (name.len() == 2 && name[0] == 0x2E && name[1]
        == 0x2E) {
        assert(name.len() == 1 ==> name@ =~= seq![0x2Eu8]);
        assert(name.len() == 2 ==> name@ =~= seq![0x2Eu8, 0x2Eu8]);
        return Err("name is reserved".to_string());
    }
    assert(name@ != seq![0x2Eu8]) by {
        if name@ == seq![0x2Eu8] {
            assert(name@[0] == 0x2E);
        }
    }
    assert(name@ != seq![0x2Eu8, 0x2Eu8]) by {
        if name@ == seq![0x2Eu8, 0x2Eu8] {
            assert(name@[0] == 0x2E && name@[1] == 0x2E);
        }
    }
    let mut i: usize = 0;
    while i < name.len()
        invariant
            i <= name.len(),
            forall|j: int| 0 <= j < i ==> !is_bad_name_byte(#[trigger] name@[j]),
        decreases name.len() - i,
    {
        let b = name[i];
        if b >= 0x80 || b < 0x20 {
            assert(is_bad_name_byte(name@[i as int]));
            return Err("non-ASCII or control character".to_string());
        }
        i += 1;
    }
    let mut i: usize = 0;
    while i < name.len()
        invariant
            i <= name.len(),
            forall|j: int| 0 <= j < i ==> !is_reserved_name_byte(#[trigger] name@[j]),
        decreases name.len() - i,
    {
        let b = name[i];
        if b == 0x3C || b == 0x3E || b == 0x3A || b == 0x22 || b == 0x7C || b == 0x3F || b == 0x2A
            || b == 0x2F || b == 0x5C {
            assert(is_reserved_name_byte(name@[i as int]));
            return Err("character is reserved in DOS names".to_string());
        }
        i += 1;
    }
    proof {
        lemma_last_index_where(name@, |b: u8| is_dot(b));
    }
    let dot = last_dot_index(name);
    let (base, ext): (&[u8], &[u8]) = match dot {
        Some(idx) => {
            if idx == name.len() - 1 {
                (&name[0..idx], &name[0..0])
            } else {
                (&name[0..idx], &name[idx + 1..name.len()])
            }
        },
        None => (name, &name[0..0]),
    };
    assert(base@ =~= name_base(name@));
    assert(ext@ =~= name_ext(name@));
    if base.len() == 0 {
        return Err("name has no base".to_string());
    }
    if base.len() > 8 {
        let mut msg = string_of("base '");
        push_byte_chars(&mut msg, base);
        msg.append("' exceeds 8 characters");
        return Err(msg);
    }
    if ext.len() > 3 {
        let mut msg = string_of("extension '");
        push_byte_chars(&mut msg, ext);
        msg.append("' exceeds 3 characters");
        return Err(msg);
    }
    let mut k: usize = 0;
    while k < base.len()
        invariant
            k <= base.len(),
            forall|j: int| 0 <= j < k ==> base@[j] != 0x2E,
        decreases base.len() - k,
    {
        if base[k] == 0x2E {
            assert(base@.contains(0x2Eu8)) by {
                assert(base@[k as int] == 0x2E);
            }
            return Err("extension may not contain '.'".to_string());
        }
        k += 1;
    }
    assert(!base@.contains(0x2Eu8));
    let mut display: Vec<u8> = Vec::new();
    upper_into(&mut display, base);
    if ext.len() > 0 {
        display.push(0x2E);
        upper_into(&mut display, ext);
    }
    assert(display@ =~= canonical_name(name@));
    Ok(display)
}

/// Upper-casing keeps a byte's classes: a byte that may stand in a name
/// still may, and only a dot becomes a dot.
proof fn lemma_upper_byte_classes(b: u8)
    ensures
        is_bad_name_byte(upper_byte(b)) == is_bad_name_byte(b),
        is_reserved_name_byte(upper_byte(b)) == is_reserved_name_byte(b),
        is_dot(upper_byte(b)) == is_dot(b),
        upper_byte(upper_byte(b)) == upper_byte(b),
{
}

/// Validating a name again gives back its canonical form: when
/// `validate_dos_basename` accepts `name` with the display form `d`, it
/// accepts `d` with `d` itself.
pub proof fn lemma_basename_idempotent(name: Seq<u8>)
    requires
        basename_result(name) is Ok,
    ensures
        basename_result(basename_result(name)->Ok_0) == Ok::<Seq<u8>, Seq<char>>(
            basename_result(name)->Ok_0,
        ),
{
    let base = name_base(name);
    let ext = name_ext(name);
    let d = canonical_name(name);
    lemma_last_index_where(name, |b: u8| is_dot(b));
    let k = last_dot(name);
    assert forall|i: int| 0 <= i < name.len() implies !is_bad_name_byte(#[trigger] name[i])
        && !is_reserved_name_byte(name[i]) by {}
    // No dot after the last one, so none in the extension.
    assert forall|i: int| 0 <= i < ext.len() implies !is_dot(#[trigger] ext[i]) by {
        assert(ext[i] == name[k + 1 + i]);
    }
    assert forall|i: int| 0 <= i < base.len() implies !is_dot(#[trigger] base[i]) by {
        if is_dot(base[i]) {
            assert(base.contains(base[i]));
        }
    }
    let ub = upper_bytes(base);
    let ue = upper_bytes(ext);
    assert forall|i: int| 0 <= i < ub.len() implies !is_dot(#[trigger] ub[i]) && !is_bad_name_byte(ub[i])
        && !is_reserved_name_byte(ub[i]) && upper_byte(ub[i]) == ub[i] by {
        lemma_upper_byte_classes(base[i]);
        assert(base[i] == name[i]);
    }
    assert forall|i: int| 0 <= i < ue.len() implies !is_dot(#[trigger] ue[i]) && !is_bad_name_byte(ue[i])
        && !is_reserved_name_byte(ue[i]) && upper_byte(ue[i]) == ue[i] by {
        lemma_upper_byte_classes(ext[i]);
        assert(ext[i] == name[k + 1 + i]);
    }
    assert(upper_bytes(ub) =~= ub);
    assert(upper_bytes(ue) =~= ue);
    if ext.len() > 0 {
        assert(d == ub + seq![0x2Eu8] + ue);
        let dd = ub.len() as int;
        assert(d[dd] == 0x2E);
        assert forall|j: int| dd < j < d.len() implies !is_dot(#[trigger] d[j]) by {
            assert(d[j] == ue[j - dd - 1]);
        }
        lemma_last_index_unique(d, |b: u8| is_dot(b), dd);
        assert(name_base(d) =~= ub);
        assert(name_ext(d) =~= ue);
        assert forall|i: int| 0 <= i < d.len() implies !is_bad_name_byte(#[trigger] d[i])
            && !is_reserved_name_byte(d[i]) by {
            if i < dd {
                assert(d[i] == ub[i]);
            } else if i > dd {
                assert(d[i] == ue[i - dd - 1]);
            }
        }
        assert(d.len() > 2);
    } else {
        assert(d == ub);
        assert forall|j: int| -1 < j < d.len() implies !is_dot(#[trigger] d[j]) by {
            assert(d[j] == ub[j]);
        }
        lemma_last_index_unique(d, |b: u8| is_dot(b), -1);
        assert(name_base(d) =~= ub);
        assert(name_ext(d) =~= Seq::<u8>::empty());
        assert(d != seq![0x2Eu8]) by {
            if d == seq![0x2Eu8] {
                assert(is_dot(d[0]));
            }
        }
        assert(d != seq![0x2Eu8, 0x2Eu8]) by {
            if d == seq![0x2Eu8, 0x2Eu8] {
                assert(is_dot(d[0]));
            }
        }
    }
    assert(!name_base(d).contains(0x2Eu8)) by {
        if name_base(d).contains(0x2Eu8) {
            let i = choose|i: int| 0 <= i < ub.len() && ub[i] == 0x2Eu8;
            assert(is_dot(ub[i]));
        }
    }
    assert(!(exists|i: int| 0 <= i < d.len() && is_bad_name_byte(#[trigger] d[i])));
    assert(!(exists|i: int| 0 <= i < d.len() && is_reserved_name_byte(#[trigger] d[i])));
    assert(canonical_name(d) =~= d);
}

/// Whether a path starts with a drive prefix (`X:`).
pub open spec fn has_drive_prefix(path: Seq<u8>) -> bool {
    path.len() >= 2 && path[1] == 0x3A
}

/// The verdict on a pending component once it is complete.
pub open spec fn check_component(cur: Seq<u8>) -> Result<(), Seq<char>> {
    if cur.len() > 0 {
        match basename_result(cur) {
            Err(m) => Err(m),
            Ok(_) => Ok(()),
        }
    } else {
        Ok(())
    }
}

/// Checks the components of `s`, left to right, with `cur` the part of the
/// current component already read: the first invalid component decides,
/// and a NUL byte ends the path.
pub open spec fn scan_components(s: Seq<u8>, cur: Seq<u8>) -> Result<(), Seq<char>>
    decreases s.len(),
{
    if s.len() == 0 || s[0] == 0 {
        check_component(cur)
    } else if is_separator(s[0]) {
        match check_component(cur) {
            Err(m) => Err(m),
            Ok(_) => scan_components(s.drop_first(), Seq::empty()),
        }
    } else {
        scan_components(s.drop_first(), cur.push(s[0]))
    }
}

/// What `validate_dos_components` returns.
pub open spec fn components_result(path: Seq<u8>) -> Result<(), Seq<char>> {
    if has_drive_prefix(path) && !(0x41 <= upper_byte(path[0]) <= 0x5A) {
        Err("invalid drive letter"@)
    } else {
        let start = if has_drive_prefix(path) { 2int } else { 0int };
        scan_components(path.skip(start), Seq::empty())
    }
}

/// Walks a DOS path and validates each component as a valid 8.3 ASCII name.
/// Accepts an optional drive letter prefix.
pub fn validate_dos_components(path: &[u8]) -> (r: Result<(), String>)
    ensures
        match r {
            Ok(()) => components_result(path@) == Ok::<(), Seq<char>>(()),
            Err(msg) => components_result(path@) == Err::<(), Seq<char>>(msg@),
        },
{
    let mut pos: usize = 0;
    if path.len() >= 2 && path[1] == 0x3A {
        let letter = ascii_upper(path[0]);
        if !(0x41 <= letter && letter <= 0x5A) {
            return Err("invalid drive letter".to_string());
        }
        pos = 2;
    }
    let ghost start = pos as int;
    let mut current: Vec<u8> = Vec::new();
    while pos <= path.len()
        invariant
            start <= pos <= path.len(),
            start == (if has_drive_prefix(path@) { 2int } else { 0int }),
            components_result(path@) == scan_components(path@.skip(pos as int), current@),
        ensures
            components_result(path@) == check_component(current@),
        decreases path.len() + 1 - pos,
    {
        if pos == path.len() {
            assert(path@.skip(pos as int) =~= Seq::<u8>::empty());
            break;
        }
        let byte = path[pos];
        assert(path@.skip(pos as int)[0] == byte);
        assert(path@.skip(pos as int).drop_first() =~= path@.skip(pos + 1));
        if byte == 0 {
            break;
        }
        if byte == 0x5C || byte == 0x2F {
            if current.len() > 0 {
                match validate_dos_basename(current.as_slice()) {
                    Err(e) => {
                        return Err(e);
                    },
                    Ok(_) => {},
                }
                current.clear();
            }
            assert(current@ =~= Seq::<u8>::empty());
        } else {
            current.push(byte);
        }
        pos += 1;
    }
    if current.len() > 0 {
        match validate_dos_basename(current.as_slice()) {
            Err(e) => {
                return Err(e);
            },
            Ok(_) => {},
        }
    }
    Ok(())
}

/// Length of a path once its trailing separators are dropped.
pub open spec fn trimmed_len(path: Seq<u8>) -> int
    decreases path.len(),
{
    if path.len() > 0 && is_separator(path.last()) {
        trimmed_len(path.drop_last())
    } else {
        path.len() as int
    }
}

/// A path without its trailing separators.
pub open spec fn trimmed(path: Seq<u8>) -> Seq<u8> {
    path.take(trimmed_len(path))
}

proof fn lemma_trimmed_len(path: Seq<u8>)
    ensures
        0 <= trimmed_len(path) <= path.len(),
        trimmed_len(path) > 0 ==> !is_separator(path[trimmed_len(path) - 1]),
        forall|j: int| trimmed_len(path) <= j < path.len() ==> is_separator(#[trigger] path[j]),
    decreases path.len(),
{
    if path.len() > 0 && is_separator(path.last()) {
        lemma_trimmed_len(path.drop_last());
        assert forall|j: int| trimmed_len(path) <= j < path.len() implies is_separator(
            #[trigger] path[j],
        ) by {
            if j < path.len() - 1 {
                assert(path[j] == path.drop_last()[j]);
            }
        }
        if trimmed_len(path) > 0 {
            assert(path[trimmed_len(path) - 1] == path.drop_last()[trimmed_len(path) - 1]);
        }
    }
}

proof fn lemma_trimmed_len_unique(path: Seq<u8>, k: int)
    requires
        0 <= k <= path.len(),
        k > 0 ==> !is_separator(path[k - 1]),
        forall|j: int| k <= j < path.len() ==> is_separator(#[trigger] path[j]),
    ensures
        trimmed_len(path) == k,
    decreases path.len(),
{
    if path.len() > k {
        assert(is_separator(path[path.len() - 1]));
        assert forall|j: int| k <= j < path.drop_last().len() implies is_separator(
            #[trigger] path.drop_last()[j],
        ) by {
            assert(path.drop_last()[j] == path[j]);
        }
        if k > 0 {
            assert(path.drop_last()[k - 1] == path[k - 1]);
        }
        lemma_trimmed_len_unique(path.drop_last(), k);
    }
}

fn trimmed_end(path: &[u8]) -> (end: usize)
    ensures
        end == trimmed_len(path@),
        end <= path@.len(),
{
    let mut end = path.len();
    while end > 0 && (path[end - 1] == 0x5C || path[end - 1] == 0x2F)
        invariant
            end <= path.len(),
            forall|j: int| end <= j < path.len() ==> is_separator(#[trigger] path@[j]),
        decreases end,
    {
        end -= 1;
    }
    proof {
        lemma_trimmed_len_unique(path@, end as int);
    }
    end
}

/// Drops the trailing `\` and `/` separators of a path.
pub fn trim_trailing_separator(path: &[u8]) -> (r: &[u8])
    ensures
        r@ == trimmed(path@),
{
    let end = trimmed_end(path);
    &path[0..end]
}

/// What `join_dos` returns: the directory, a `\` unless the directory is
/// empty or already ends with a separator, and the leaf.
pub open spec fn joined(dir: Seq<u8>, leaf: Seq<u8>) -> Seq<u8> {
    if dir.len() > 0 && !is_separator(dir.last()) {
        dir + seq![0x5Cu8] + leaf
    } else {
        dir + leaf
    }
}

/// Joins a DOS directory path with a single 8.3 leaf name using `\` as the
/// separator. The directory path may or may not end with `\`; the leaf must
/// not contain separators.
pub fn join_dos(dir: &[u8], leaf: &[u8]) -> (r: Vec<u8>)
    ensures
        r@ == joined(dir@, leaf@),
{
    let mut out: Vec<u8> = Vec::new();
    out.extend_from_slice(dir);
    if dir.len() > 0 && dir[dir.len() - 1] != 0x5C && dir[dir.len() - 1] != 0x2F {
        out.push(0x5C);
    }
    out.extend_from_slice(leaf);
    out
}

/// What `split_dos_parent` returns: the path, without trailing separators,
/// up to its last separator after the drive prefix; `None` when there is no
/// such separator or when that leaves nothing.
pub open spec fn parent_of(path: Seq<u8>) -> Option<Seq<u8>> {
    let stripped = trimmed(path);
    let pos = if has_drive_prefix(stripped) { 2int } else { 0int };
    let body = stripped.skip(pos);
    let sep = last_index_where(body, |b: u8| is_separator(b));
    if sep < 0 {
        None
    } else {
        let out = stripped.take(pos) + body.take(sep);
        if out.len() == 0 {
            None
        } else {
            Some(out)
        }
    }
}

fn last_separator(s: &[u8]) -> (r: Option<usize>)
    ensures
        match r {
            Some(i) => i == last_index_where(s@, |b: u8| is_separator(b)),
            None => last_index_where(s@, |b: u8| is_separator(b)) == -1,
        },
{
    let mut i = s.len();
    while i > 0
        invariant
            i <= s.len(),
            forall|j: int| i <= j < s.len() ==> !is_separator(#[trigger] s@[j]),
        decreases i,
    {
        if s[i - 1] == 0x5C || s[i - 1] == 0x2F {
            proof {
                lemma_last_index_unique(s@, |b: u8| is_separator(b), i - 1);
            }
            return Some(i - 1);
        }
        i -= 1;
    }
    proof {
        lemma_last_index_unique(s@, |b: u8| is_separator(b), -1);
    }
    None
}

/// Splits a DOS path into its parent. Returns `None` if there is no
/// parent (root-level leaf).
pub fn split_dos_parent(path: &[u8]) -> (r: Option<Vec<u8>>)
    ensures
        match r {
            Some(v) => parent_of(path@) == Some(v@),
            None => parent_of(path@) is None,
        },
{
    let stripped = trim_trailing_separator(path);
    let mut pos: usize = 0;
    if stripped.len() >= 2 && stripped[1] == 0x3A {
        pos = 2;
    }
    let body = &stripped[pos..stripped.len()];
    assert(body@ =~= stripped@.skip(pos as int));
    let body_pos = match last_separator(body) {
        Some(p) => p,
        None => {
            return None;
        },
    };
    proof {
        lemma_last_index_where(body@, |b: u8| is_separator(b));
    }
    let mut out: Vec<u8> = Vec::new();
    out.extend_from_slice(&stripped[0..pos]);
    out.extend_from_slice(&body[0..body_pos]);
    assert(out@ =~= stripped@.take(pos as int) + body@.take(body_pos as int));
    if out.len() == 0 {
        return None;
    }
    Some(out)
}

/// A separator or a drive colon.
pub open spec fn is_leaf_boundary(b: u8) -> bool {
    is_separator(b) || b == 0x3A
}

/// What `dos_leaf_basename` returns: the last component of the path without
/// its trailing separators, or `None` when nothing follows the last boundary.
pub open spec fn leaf_of(path: Seq<u8>) -> Option<Seq<u8>> {
    let stripped = trimmed(path);
    let pos = last_index_where(stripped, |b: u8| is_leaf_boundary(b)) + 1;
    if pos >= stripped.len() {
        None
    } else {
        Some(stripped.skip(pos))
    }
}

/// The last component of a DOS path.
pub fn dos_leaf_basename(path: &[u8]) -> (r: Option<Vec<u8>>)
    ensures
        match r {
            Some(v) => leaf_of(path@) == Some(v@),
            None => leaf_of(path@) is None,
        },
{
    let stripped = trim_trailing_separator(path);
    let mut i = stripped.len();
    while i > 0 && !(stripped[i - 1] == 0x5C || stripped[i - 1] == 0x2F || stripped[i - 1] == 0x3A)
        invariant
            i <= stripped.len(),
            forall|j: int| i <= j < stripped.len() ==> !is_leaf_boundary(#[trigger] stripped@[j]),
        decreases i,
    {
        i -= 1;
    }
    proof {
        if i > 0 {
            lemma_last_index_unique(stripped@, |b: u8| is_leaf_boundary(b), i - 1);
        } else {
            lemma_last_index_unique(stripped@, |b: u8| is_leaf_boundary(b), -1);
        }
    }
    let pos = i;
    if pos >= stripped.len() {
        return None;
    }
    let mut out: Vec<u8> = Vec::new();
    out.extend_from_slice(&stripped[pos..stripped.len()]);
    assert(out@ =~= stripped@.skip(pos as int));
    Some(out)
}

/// What `join_dos` puts before the leaf: the directory, with a `\` added
/// unless it is empty or already ends with a separator.
pub open spec fn join_prefix(dir: Seq<u8>) -> Seq<u8> {
    if dir.len() > 0 && !is_separator(dir.last()) {
        dir.push(0x5Cu8)
    } else {
        dir
    }
}

/// A joined path is its prefix and the leaf; the prefix, when there is
/// one, ends with a separator, and what comes before that separator is the
/// directory without trailing separators (when the directory does not end
/// with two of them).
proof fn lemma_join_prefix(dir: Seq<u8>, leaf: Seq<u8>)
    requires
        !(dir.len() >= 2 && is_separator(dir.last()) && is_separator(dir[dir.len() - 2])),
    ensures
        joined(dir, leaf) == join_prefix(dir) + leaf,
        join_prefix(dir).len() == 0 <==> dir.len() == 0,
        join_prefix(dir).len() > 0 ==> is_separator(join_prefix(dir).last()),
        join_prefix(dir).len() > 0 ==> join_prefix(dir).drop_last() == trimmed(dir),
        dir.len() == 0 ==> trimmed(dir).len() == 0,
        trimmed(dir).len() > 0 ==> !is_separator(trimmed(dir).last()),
{
    let p = join_prefix(dir);
    if dir.len() > 0 && !is_separator(dir.last()) {
        assert(joined(dir, leaf) =~= p + leaf);
        lemma_trimmed_len_unique(dir, dir.len() as int);
        assert(p.drop_last() =~= dir);
        assert(trimmed(dir) =~= dir);
    } else if dir.len() > 0 {
        let k = dir.len() - 1;
        if k > 0 {
            assert(!is_separator(dir[k - 1]));
        }
        lemma_trimmed_len_unique(dir, k);
        assert(p.drop_last() =~= dir.take(k));
    } else {
        assert(joined(dir, leaf) =~= p + leaf);
    }
}

/// Splitting a joined path gives back its directory: for a leaf name that
/// is not empty and holds no separator or colon, and a directory that does
/// not end with two separators, the parent of `join_dos(dir, leaf)` is the
/// directory without its trailing separator, or `None` when that leaves
/// nothing.
pub proof fn lemma_parent_of_joined(dir: Seq<u8>, leaf: Seq<u8>)
    requires
        !(dir.len() >= 2 && is_separator(dir.last()) && is_separator(dir[dir.len() - 2])),
        leaf.len() > 0,
        forall|i: int| 0 <= i < leaf.len() ==> !is_leaf_boundary(#[trigger] leaf[i]),
    ensures
        parent_of(joined(dir, leaf)) == (if trimmed(dir).len() == 0 {
            None
        } else {
            Some(trimmed(dir))
        }),
{
    lemma_join_prefix(dir, leaf);
    let p = join_prefix(dir);
    let t = trimmed(dir);
    let j = joined(dir, leaf);
    assert(j[j.len() - 1] == leaf[leaf.len() - 1]);
    lemma_trimmed_len_unique(j, j.len() as int);
    assert(trimmed(j) =~= j);
    if p.len() == 0 {
        assert(j =~= leaf);
        assert(!has_drive_prefix(j)) by {
            if j.len() >= 2 {
                assert(!is_leaf_boundary(leaf[1]));
            }
        }
        assert(j.skip(0) =~= j);
        assert forall|m: int| -1 < m < j.len() implies !is_separator(#[trigger] j[m]) by {
            assert(!is_leaf_boundary(leaf[m]));
        }
        lemma_last_index_unique(j, |b: u8| is_separator(b), -1);
    } else {
        let k0 = t.len() as int;
        assert(p == t.push(p.last()));
        assert(j[k0] == p.last());
        assert forall|m: int| k0 < m < j.len() implies !is_leaf_boundary(#[trigger] j[m]) by {
            assert(j[m] == leaf[m - k0 - 1]);
        }
        if has_drive_prefix(j) {
            assert(t.len() >= 2) by {
                if t.len() <= 1 {
                    assert(j[1] != 0x3A);
                }
            }
        }
        let pos = if has_drive_prefix(j) { 2int } else { 0int };
        let body = j.skip(pos);
        let k = k0 - pos;
        assert(body[k] == p.last());
        assert forall|m: int| k < m < body.len() implies !is_separator(#[trigger] body[m]) by {
            assert(body[m] == j[m + pos]);
        }
        lemma_last_index_unique(body, |b: u8| is_separator(b), k);
        assert(j.take(pos) + body.take(k) =~= t);
    }
}

/// The leaf of a joined path is the leaf joined: for every directory and a
/// leaf name that is not empty and holds no separator or colon, the last
/// component of `join_dos(dir, leaf)` is `leaf`.
pub proof fn lemma_leaf_of_joined(dir: Seq<u8>, leaf: Seq<u8>)
    requires
        leaf.len() > 0,
        forall|i: int| 0 <= i < leaf.len() ==> !is_leaf_boundary(#[trigger] leaf[i]),
    ensures
        leaf_of(joined(dir, leaf)) == Some(leaf),
{
    let p = if dir.len() > 0 && !is_separator(dir.last()) { dir.push(0x5Cu8) } else { dir };
    let j = joined(dir, leaf);
    assert(j =~= p + leaf);
    assert(j[j.len() - 1] == leaf[leaf.len() - 1]);
    assert(!is_leaf_boundary(leaf[leaf.len() - 1]));
    lemma_trimmed_len_unique(j, j.len() as int);
    assert(trimmed(j) =~= j);
    let k = p.len() - 1;
    assert forall|m: int| k < m < j.len() implies !is_leaf_boundary(#[trigger] j[m]) by {
        assert(j[m] == leaf[m - k - 1]);
    }
    if p.len() > 0 {
        assert(j[k] == p.last());
        assert(is_leaf_boundary(j[k]));
    }
    lemma_last_index_unique(j, |b: u8| is_leaf_boundary(b), k);
    assert(j.skip(k + 1) =~= leaf);
}

/// What `String::from_utf8_lossy` makes of a byte sequence.
pub uninterp spec fn lossy_utf8(bytes: Seq<u8>) -> Seq<char>;

/// Decodes bytes as UTF-8, replacing invalid sequences with U+FFFD
/// (`String::from_utf8_lossy`). Its documentation makes valid UTF-8 come
/// back as the text it encodes, and so ASCII unchanged; what it does with
/// other bytes is left to the name `lossy_utf8`.
#[verifier::external_body]
fn utf8_lossy(bytes: &[u8]) -> (r: String)
    ensures
        r@ == lossy_utf8(bytes@),
        vstd::utf8::valid_utf8(bytes@) ==> r@ == vstd::utf8::decode_utf8(bytes@),
        (forall|i: int| 0 <= i < bytes@.len() ==> bytes@[i] < 0x80) ==> r@ == byte_chars(bytes@),
{
    String::from_utf8_lossy(bytes).into_owned()
}

/// The path as text, for messages.
pub fn dos_display(path: &[u8]) -> (r: String)
    ensures
        r@ == lossy_utf8(path@),
        vstd::utf8::valid_utf8(path@) ==> r@ == vstd::utf8::decode_utf8(path@),
        (forall|i: int| 0 <= i < path@.len() ==> path@[i] < 0x80) ==> r@ == byte_chars(path@),
{
    utf8_lossy(path)
}

/// Gregorian leap year rule.
pub open spec fn leap(year: int) -> bool {
    (year % 4 == 0 && year % 100 != 0) || year % 400 == 0
}

/// Whether `year` is a Gregorian leap year.
#[verifier::spinoff_prover]
#[verifier::rlimit(40)]
pub fn is_leap(year: i64) -> (r: bool)
    ensures
        r == leap(year as int),
{
    (year % 4 == 0 && year % 100 != 0) || year % 400 == 0
}

pub open spec fn year_length(year: int) -> int {
    if leap(year) {
        366
    } else {
        365
    }
}

/// The year that holds day `days` counted from the start of `year`, and the
/// day within that year.
pub open spec fn year_and_day(days: int, year: int) -> (int, int)
    decreases days,
{
    if days < 0 || days < year_length(year) {
        (year, days)
    } else {
        year_and_day(days - year_length(year), year + 1)
    }
}

pub open spec fn month_length(year: int, month: int) -> int {
    if month == 2 {
        if leap(year) {
            29
        } else {
            28
        }
    } else if month == 4 || month == 6 || month == 9 || month == 11 {
        30
    } else {
        31
    }
}

/// Month (1-based) and day of month (1-based) of day `d` of `year`, counting
/// months from `month`.
pub open spec fn month_and_day(d: int, year: int, month: int) -> (int, int)
    decreases 13 - month,
{
    if month >= 12 || d < month_length(year, month) {
        (month, d + 1)
    } else {
        month_and_day(d - month_length(year, month), year, month + 1)
    }
}

/// The civil date and time (UTC) of a Unix timestamp.
pub open spec fn civil_time(secs: int) -> (u32, u32, u32, u32, u32, u32) {
    let total_days = secs / 86400;
    let tod = secs % 86400;
    let (year, d) = year_and_day(total_days, 1970);
    let (month, day) = month_and_day(d, year, 1);
    (year as u32, month as u32, day as u32, (tod / 3600) as u32, ((tod % 3600) / 60) as u32, (tod
        % 60) as u32)
}

/// Days in the months before `month`.
pub open spec fn month_prefix(year: int, month: int) -> int
    decreases month,
{
    if month <= 1 {
        0
    } else {
        month_prefix(year, month - 1) + month_length(year, month - 1)
    }
}

/// Cheap conversion from a Unix timestamp to (Y, M, D, h, m, s) in UTC.
/// DOS timestamps have no timezone; using UTC matches the convention DOS
/// uses when the host clock is unsynced.
pub fn unix_to_local(secs: u64) -> (r: (u32, u32, u32, u32, u32, u32))
    ensures
        r == civil_time(secs as int),
{
    let day_seconds = 86_400u64;
    let total_days = (secs / day_seconds) as i64;
    let time_of_day = (secs % day_seconds) as u32;
    let hour = time_of_day / 3600;
    let minute = (time_of_day % 3600) / 60;
    let second = time_of_day % 60;

    let mut days = total_days;
    let mut year: i64 = 1970;
    while days >= year_len(year)
        invariant
            0 <= days <= total_days,
            1970 <= year <= 1970 + (total_days - days),
            total_days == secs / 86400,
            year_and_day(total_days as int, 1970) == year_and_day(days as int, year as int),
        decreases days,
    {
        days -= year_len(year);
        year += 1;
    }
    let ghost year_days = days;
    proof {
        reveal_with_fuel(month_prefix, 13);
    }
    let mut m: i64 = 1;
    while m < 12 && days >= month_len(year, m)
        invariant
            1 <= m <= 12,
            0 <= days,
            month_and_day(year_days as int, year as int, 1) == month_and_day(
                days as int,
                year as int,
                m as int,
            ),
            days + month_prefix(year as int, m as int) == year_days,
            year_days < year_length(year as int),
            month_prefix(year as int, 12) + 31 == year_length(year as int),
        decreases 12 - m,
    {
        days -= month_len(year, m);
        m += 1;
    }
    let day = days as u32 + 1;
    (year as u32, m as u32, day, hour, minute, second)
}

fn year_len(year: i64) -> (r: i64)
    ensures
        r == year_length(year as int),
{
    if is_leap(year) {
        366
    } else {
        365
    }
}

fn month_len(year: i64, month: i64) -> (r: i64)
    ensures
        r == month_length(year as int, month as int),
{
    if month == 2 {
        if is_leap(year) {
            29
        } else {
            28
        }
    } else if month == 4 || month == 6 || month == 9 || month == 11 {
        30
    } else {
        31
    }
}

/// The FAT packed time of day: hours in bits 11-15, minutes in bits 5-10,
/// seconds divided by two in bits 0-4, truncated to 16 bits.
pub open spec fn fat_time(hour: u32, minute: u32, second: u32) -> u16 {
    ((hour << 11u32) | (minute << 5u32) | (second / 2)) as u16
}

/// The FAT packed date: years since 1980 in bits 9-15, month in bits 5-8,
/// day in bits 0-4, truncated to 16 bits; 0 before 1980.
pub open spec fn fat_date(year: u32, month: u32, day: u32) -> u16 {
    if year >= 1980 {
        ((((year - 1980) as u32) << 9u32) | (month << 5u32) | day) as u16
    } else {
        0
    }
}

/// `(dos_time, dos_date)` of a Unix timestamp.
pub open spec fn dos_timestamp(secs: int) -> (u16, u16) {
    let (year, month, day, hour, minute, second) = civil_time(secs);
    (fat_time(hour, minute, second), fat_date(year, month, day))
}

/// Encodes a Unix timestamp as `(dos_time, dos_date)` in the FAT packed
/// representation.
pub fn dos_timestamp_from_unix(secs: u64) -> (r: (u16, u16))
    ensures
        r == dos_timestamp(secs as int),
{
    let (year, month, day, hour, minute, second) = unix_to_local(secs);
    let dos_date = if year >= 1980 {
        ((year - 1980) << 9) | (month << 5) | day
    } else {
        0
    };
    let dos_time = (hour << 11) | (minute << 5) | (second / 2);
    (dos_time as u16, dos_date as u16)
}

/// Seconds since the Unix epoch on the host clock (`SystemTime::now`), 0
/// when the clock is set before the epoch. Nothing is promised of the value:
/// it is whatever the clock reads.
#[verifier::external_body]
fn unix_time_secs() -> u64 {
    std::time::SystemTime::now().duration_since(std::time::UNIX_EPOCH).map(|d| d.as_secs()).unwrap_or(0)
}

/// Returns the current host time encoded as `(dos_time, dos_date)` using
/// the standard FAT packed representation.
pub fn dos_now() -> (r: (u16, u16))
    ensures
        exists|secs: u64| r == dos_timestamp(secs as int),
{
    let secs = unix_time_secs();
    let r = dos_timestamp_from_unix(secs);
    assert(r == dos_timestamp(secs as int));
    r
}

} // verus!
