//! DOS path normalization.

use vstd::prelude::*;
use crate::text::{joined, lemma_joined_cut, lemma_joined_push, lemma_joined_start, lemma_joined_end};

verus! {

/// Length of a path's root prefix: `X:\` (3), `X:` (2), or none.
pub open spec fn root_len(p: Seq<u8>) -> int {
    if p.len() >= 3 && p[1] == 0x3A && p[2] == 0x5C {
        3
    } else if p.len() >= 2 && p[1] == 0x3A {
        2
    } else {
        0
    }
}

/// `s` cut at every backslash (empty pieces included).
pub open spec fn split_backslash(s: Seq<u8>) -> Seq<Seq<u8>>
    decreases s.len(),
{
    if s.len() == 0 {
        seq![Seq::empty()]
    } else {
        let r = split_backslash(s.skip(1));
        if s[0] == 0x5C {
            seq![Seq::empty()] + r
        } else {
            r.update(0, seq![s[0]] + r[0])
        }
    }
}

/// The path component `.`.
pub open spec fn dot() -> Seq<u8> {
    seq![0x2Eu8]
}

/// The path component `..`.
pub open spec fn dot_dot() -> Seq<u8> {
    seq![0x2Eu8, 0x2Eu8]
}

/// Components after taking one more piece: an empty piece and `.` change
/// nothing, `..` drops the last component, any other piece is appended.
pub open spec fn resolve_step(c: Seq<Seq<u8>>, p: Seq<u8>) -> Seq<Seq<u8>> {
    if p.len() == 0 || p == dot() {
        c
    } else if p == dot_dot() {
        if c.len() > 0 {
            c.drop_last()
        } else {
            c
        }
    } else {
        c.push(p)
    }
}

/// The components that a sequence of pieces resolves to, read left to right.
pub open spec fn resolve(parts: Seq<Seq<u8>>) -> Seq<Seq<u8>>
    decreases parts.len(),
{
    if parts.len() == 0 {
        Seq::empty()
    } else {
        resolve_step(resolve(parts.drop_last()), parts.last())
    }
}

/// Components joined by backslashes.
pub open spec fn join_backslash(cs: Seq<Seq<u8>>) -> Seq<u8>
    decreases cs.len(),
{
    if cs.len() == 0 {
        Seq::empty()
    } else if cs.len() == 1 {
        cs[0]
    } else {
        join_backslash(cs.drop_last()) + seq![0x5Cu8] + cs.last()
    }
}

/// A path with its `.` and `..` components resolved and empty components
/// dropped, its root prefix kept, and a bare drive `X:` made `X:\`.
pub open spec fn normalized(p: Seq<u8>) -> Seq<u8> {
    let n = root_len(p);
    let r = p.take(n) + join_backslash(resolve(split_backslash(p.skip(n))));
    if r.len() == 2 && r[1] == 0x3A {
        r.push(0x5C)
    } else {
        r
    }
}

/// A path always cuts into at least one piece.
pub proof fn lemma_split_nonempty(s: Seq<u8>)
    ensures
        split_backslash(s).len() >= 1,
    decreases s.len(),
{
    if s.len() > 0 {
        lemma_split_nonempty(s.skip(1));
    }
}

/// Bytes of the first `i + 1` components joined: those of the first `i`,
/// a backslash when `i > 0`, then component `i`.
pub proof fn lemma_join_step(cs: Seq<Seq<u8>>, i: int)
    requires
        0 <= i < cs.len(),
    ensures
        join_backslash(cs.take(i + 1)) == join_backslash(cs.take(i)) + (if i > 0 {
            seq![0x5Cu8]
        } else {
            Seq::empty()
        }) + cs[i],
{
    assert(cs.take(i + 1).drop_last() =~= cs.take(i));
    if i == 0 {
        assert(join_backslash(cs.take(0)) =~= Seq::<u8>::empty());
        assert(join_backslash(cs.take(1)) =~= Seq::<u8>::empty() + Seq::<u8>::empty() + cs[0]);
    }
}

/// Resolves `.` and `..` in a DOS path such as `A:\FOO\BAR\..\BAZ`.
pub fn normalize_path(path: &[u8]) -> (r: Vec<u8>)
    ensures
        r@ == normalized(path@),
{
    let ghost p = path@;
    let root: usize = if path.len() >= 3 && path[1] == 0x3A && path[2] == 0x5C {
        3
    } else if path.len() >= 2 && path[1] == 0x3A {
        2
    } else {
        0
    };
    let ghost rest = p.skip(root as int);
    let mut components: Vec<Vec<u8>> = Vec::new();
    let mut part: Vec<u8> = Vec::new();
    let ghost mut done: Seq<Seq<u8>> = Seq::empty();
    let mut i: usize = root;
    proof {
        lemma_split_nonempty(rest);
        lemma_joined_start(split_backslash(rest));
        assert(rest.skip(0) =~= rest);
        assert(components@.map_values(|v: Vec<u8>| v@) =~= resolve(done));
    }
    while i < path.len()
        invariant
            p == path@,
            root <= i <= p.len(),
            rest == p.skip(root as int),
            split_backslash(rest) == joined(done, part@, split_backslash(rest.skip(i - root))),
            components@.map_values(|v: Vec<u8>| v@) == resolve(done),
        decreases p.len() - i,
    {
        let b = path[i];
        let ghost here = rest.skip(i - root);
        assert(here[0] == b);
        assert(here.skip(1) =~= rest.skip(i + 1 - root));
        let ghost next = split_backslash(rest.skip(i + 1 - root));
        proof {
            lemma_split_nonempty(rest.skip(i + 1 - root));
        }
        if b == 0x5C {
            proof {
                lemma_joined_cut(done, part@, next);
            }
            resolve_part(&mut components, &part, Ghost(done));
            proof {
                done = done.push(part@);
            }
            part = Vec::new();
        } else {
            proof {
                lemma_joined_push(done, part@, b, next);
            }
            part.push(b);
        }
        i = i + 1;
    }
    proof {
        assert(rest.skip(i - root) =~= Seq::<u8>::empty());
        lemma_joined_end(done, part@);
    }
    resolve_part(&mut components, &part, Ghost(done));
    proof {
        done = done.push(part@);
    }
    let ghost cs = resolve(done);
    let mut result: Vec<u8> = Vec::new();
    let mut k: usize = 0;
    while k < root
        invariant
            p == path@,
            root <= p.len(),
            k <= root,
            result@ == p.take(k as int),
        decreases root - k,
    {
        result.push(path[k]);
        k = k + 1;
        assert(result@ =~= p.take(k as int));
    }
    let ghost prefix = result@;
    let mut j: usize = 0;
    assert(join_backslash(cs.take(0)) =~= Seq::<u8>::empty());
    assert(result@ =~= prefix + join_backslash(cs.take(0)));
    while j < components.len()
        invariant
            components@.map_values(|v: Vec<u8>| v@) == cs,
            j <= cs.len(),
            result@ == prefix + join_backslash(cs.take(j as int)),
        decreases cs.len() - j,
    {
        proof {
            lemma_join_step(cs, j as int);
        }
        if j > 0 {
            result.push(0x5C);
        }
        let component = &components[j];
        assert(component@ == cs[j as int]);
        let mut m: usize = 0;
        let ghost start = result@;
        while m < component.len()
            invariant
                m <= component@.len(),
                result@ == start + component@.take(m as int),
            decreases component@.len() - m,
        {
            result.push(component[m]);
            m = m + 1;
            assert(result@ =~= start + component@.take(m as int));
        }
        assert(component@.take(m as int) =~= component@);
        j = j + 1;
        assert(result@ =~= prefix + join_backslash(cs.take(j as int)));
    }
    assert(cs.take(j as int) =~= cs);
    if result.len() == 2 && result[1] == 0x3A {
        result.push(0x5C);
    }
    result
}

/// Adds one piece of a path to the resolved components.
fn resolve_part(components: &mut Vec<Vec<u8>>, part: &Vec<u8>, Ghost(done): Ghost<Seq<Seq<u8>>>)
    requires
        old(components)@.map_values(|v: Vec<u8>| v@) == resolve(done),
    ensures
        final(components)@.map_values(|v: Vec<u8>| v@) == resolve(done.push(part@)),
{
    let ghost c = resolve(done);
    assert(done.push(part@).drop_last() =~= done);
    let is_dot = part.len() == 1 && part[0] == 0x2E;
    let is_dot_dot = part.len() == 2 && part[0] == 0x2E && part[1] == 0x2E;
    proof {
        if part@.len() == 1 {
            assert(is_dot <==> part@ =~= dot());
        } else {
            assert(part@ != dot());
        }
        if part@.len() == 2 {
            assert(is_dot_dot <==> part@ =~= dot_dot());
        } else {
            assert(part@ != dot_dot());
        }
    }
    if part.len() == 0 || is_dot {
    } else if is_dot_dot {
        if components.len() > 0 {
            components.pop();
            assert(components@.map_values(|v: Vec<u8>| v@) =~= c.drop_last());
        }
    } else {
        components.push(part.clone());
        assert(components@.map_values(|v: Vec<u8>| v@) =~= c.push(part@));
    }
}

/// Cutting `x`, a backslash and `y` gives the pieces of `x` and then those
/// of `y`.
proof fn lemma_split_concat(x: Seq<u8>, y: Seq<u8>)
    ensures
        split_backslash(x + seq![0x5Cu8] + y) == split_backslash(x) + split_backslash(y),
    decreases x.len(),
{
    let s = x + seq![0x5Cu8] + y;
    if x.len() == 0 {
        assert(s.skip(1) =~= y);
        assert(s[0] == 0x5C);
    } else {
        let x1 = x.skip(1);
        assert(s.skip(1) =~= x1 + seq![0x5Cu8] + y);
        lemma_split_concat(x1, y);
        lemma_split_nonempty(x1);
        if x[0] == 0x5C {
            assert(seq![Seq::<u8>::empty()] + (split_backslash(x1) + split_backslash(y)) =~= (seq![
                Seq::<u8>::empty(),
            ] + split_backslash(x1)) + split_backslash(y));
        } else {
            let r = split_backslash(x1) + split_backslash(y);
            assert(r.update(0, seq![x[0]] + r[0]) =~= split_backslash(x1).update(
                0,
                seq![x[0]] + split_backslash(x1)[0],
            ) + split_backslash(y));
        }
    }
}

/// Text without a backslash is one piece.
proof fn lemma_split_plain(b: Seq<u8>)
    requires
        forall|i: int| 0 <= i < b.len() ==> b[i] != 0x5C,
    ensures
        split_backslash(b) == seq![b],
    decreases b.len(),
{
    if b.len() > 0 {
        lemma_split_plain(b.skip(1));
        assert(seq![b[0]] + b.skip(1) =~= b);
        assert(seq![b.skip(1)].update(0, seq![b[0]] + b.skip(1)) =~= seq![b]);
    } else {
        assert(b =~= Seq::<u8>::empty());
    }
}

/// Text without a backslash.
pub open spec fn no_backslash(c: Seq<u8>) -> bool {
    forall|j: int| 0 <= j < c.len() ==> c[j] != 0x5C
}

/// Text without a backslash or a colon.
pub open spec fn plain_piece(c: Seq<u8>) -> bool {
    forall|j: int| 0 <= j < c.len() ==> c[j] != 0x5C && c[j] != 0x3A
}

/// A component as the normalization leaves it: not empty, not `.` or
/// `..`, without a backslash or a colon.
pub open spec fn clean_component(c: Seq<u8>) -> bool {
    &&& c.len() > 0
    &&& c != dot()
    &&& c != dot_dot()
    &&& plain_piece(c)
}

/// Components joined by backslashes cut back into the same components.
proof fn lemma_split_join(cs: Seq<Seq<u8>>)
    requires
        cs.len() >= 1,
        forall|i: int| 0 <= i < cs.len() ==> no_backslash(#[trigger] cs[i]),
    ensures
        split_backslash(join_backslash(cs)) == cs,
    decreases cs.len(),
{
    if cs.len() == 1 {
        assert(no_backslash(cs[0]));
        lemma_split_plain(cs[0]);
        assert(seq![cs[0]] =~= cs);
    } else {
        let a = cs.drop_last();
        assert forall|i: int| 0 <= i < a.len() implies no_backslash(#[trigger] a[i]) by {
            assert(a[i] == cs[i]);
        }
        lemma_split_join(a);
        lemma_split_concat(join_backslash(a), cs.last());
        assert(no_backslash(cs[cs.len() - 1]));
        lemma_split_plain(cs.last());
        assert(a + seq![cs.last()] =~= cs);
    }
}

/// Clean components resolve to themselves.
proof fn lemma_resolve_clean(cs: Seq<Seq<u8>>)
    requires
        forall|i: int| 0 <= i < cs.len() ==> clean_component(#[trigger] cs[i]),
    ensures
        resolve(cs) == cs,
    decreases cs.len(),
{
    if cs.len() > 0 {
        let a = cs.drop_last();
        assert forall|i: int| 0 <= i < a.len() implies clean_component(#[trigger] a[i]) by {
            assert(a[i] == cs[i]);
        }
        lemma_resolve_clean(a);
        assert(clean_component(cs[cs.len() - 1]));
        assert(a.push(cs.last()) =~= cs);
    }
}

/// The pieces of text without a colon hold no backslash and no colon.
proof fn lemma_split_pieces(s: Seq<u8>)
    requires
        forall|k: int| 0 <= k < s.len() ==> s[k] != 0x3A,
    ensures
        forall|i: int| 0 <= i < split_backslash(s).len() ==> plain_piece(#[trigger] split_backslash(s)[i]),
    decreases s.len(),
{
    if s.len() > 0 {
        let t = s.skip(1);
        assert forall|k: int| 0 <= k < t.len() implies t[k] != 0x3A by {
            assert(t[k] == s[k + 1]);
        }
        lemma_split_pieces(t);
        lemma_split_nonempty(t);
    }
}

/// Resolving pieces without backslash or colon gives clean components.
proof fn lemma_resolve_pieces(parts: Seq<Seq<u8>>)
    requires
        forall|i: int| 0 <= i < parts.len() ==> plain_piece(#[trigger] parts[i]),
    ensures
        forall|i: int| 0 <= i < resolve(parts).len() ==> clean_component(#[trigger] resolve(parts)[i]),
    decreases parts.len(),
{
    if parts.len() > 0 {
        let a = parts.drop_last();
        assert forall|i: int| 0 <= i < a.len() implies plain_piece(#[trigger] a[i]) by {
            assert(a[i] == parts[i]);
        }
        lemma_resolve_pieces(a);
        let c = resolve(a);
        let p = parts.last();
        assert(p == parts[parts.len() - 1]);
        let r = resolve_step(c, p);
        assert forall|i: int| 0 <= i < r.len() implies clean_component(#[trigger] r[i]) by {
            if p.len() == 0 || p == dot() {
            } else if p == dot_dot() {
                if c.len() > 0 {
                    assert(r[i] == c[i]);
                }
            } else {
                if i < c.len() {
                    assert(r[i] == c[i]);
                } else {
                    assert(r[i] == p);
                }
            }
        }
    }
}

/// Clean components joined hold no colon, and start with the first
/// component's first byte.
proof fn lemma_join_clean(cs: Seq<Seq<u8>>)
    requires
        forall|i: int| 0 <= i < cs.len() ==> clean_component(#[trigger] cs[i]),
    ensures
        forall|k: int| 0 <= k < join_backslash(cs).len() ==> join_backslash(cs)[k] != 0x3A,
        cs.len() > 0 ==> join_backslash(cs).len() > 0 && join_backslash(cs)[0] == cs[0][0],
    decreases cs.len(),
{
    if cs.len() == 1 {
        assert(clean_component(cs[0]));
    } else if cs.len() > 1 {
        let a = cs.drop_last();
        assert forall|i: int| 0 <= i < a.len() implies clean_component(#[trigger] a[i]) by {
            assert(a[i] == cs[i]);
        }
        lemma_join_clean(a);
        let l = cs.last();
        assert(clean_component(cs[cs.len() - 1]));
        let j = join_backslash(a) + seq![0x5Cu8] + l;
        assert forall|k: int| 0 <= k < j.len() implies j[k] != 0x3A by {
            if k < join_backslash(a).len() {
            } else if k == join_backslash(a).len() {
            } else {
                assert(j[k] == l[k - join_backslash(a).len() - 1]);
            }
        }
        assert(a[0] == cs[0]);
    }
}

/// Normalizing a normalized path changes nothing, when the path's bytes
/// after its root prefix hold no colon.
pub proof fn lemma_normalize_idempotent(p: Seq<u8>)
    requires
        forall|i: int| root_len(p) <= i < p.len() ==> p[i] != 0x3A,
    ensures
        normalized(normalized(p)) == normalized(p),
{
    let n = root_len(p);
    let rest = p.skip(n);
    assert forall|k: int| 0 <= k < rest.len() implies rest[k] != 0x3A by {
        assert(rest[k] == p[n + k]);
    }
    lemma_split_pieces(rest);
    let parts = split_backslash(rest);
    lemma_resolve_pieces(parts);
    let cs = resolve(parts);
    lemma_join_clean(cs);
    let jc = join_backslash(cs);
    let r = p.take(n) + jc;
    let q = normalized(p);
    assert forall|i: int| 0 <= i < cs.len() implies no_backslash(#[trigger] cs[i]) by {
        assert(clean_component(cs[i]));
    }
    lemma_resolve_clean(cs);
    if cs.len() > 0 {
        lemma_split_join(cs);
    }
    assert(resolve(split_backslash(Seq::<u8>::empty())) =~= Seq::<Seq<u8>>::empty()) by {
        let e = seq![Seq::<u8>::empty()];
        assert(split_backslash(Seq::<u8>::empty()) =~= e);
        assert(e.drop_last() =~= Seq::<Seq<u8>>::empty());
        assert(resolve(e.drop_last()) =~= Seq::<Seq<u8>>::empty());
        assert(e.last().len() == 0);
        assert(resolve(e) == resolve_step(resolve(e.drop_last()), e.last()));
    }
    assert(join_backslash(Seq::<Seq<u8>>::empty()) =~= Seq::<u8>::empty());
    assert(resolve(split_backslash(jc)) == cs);
    if n == 3 {
        assert(q == r);
        assert(q.take(3) =~= p.take(3));
        assert(root_len(q) == 3);
        assert(q.skip(3) =~= jc);
    } else if n == 2 {
        if cs.len() == 0 {
            assert(r =~= p.take(2));
            assert(q =~= p.take(2).push(0x5C));
            assert(root_len(q) == 3);
            assert(q.skip(3) =~= Seq::<u8>::empty());
            assert(q.take(3) + Seq::<u8>::empty() =~= q);
        } else {
            assert(q == r);
            assert(q[2] == cs[0][0]);
            assert(clean_component(cs[0]));
            assert(root_len(q) == 2);
            assert(q.take(2) =~= p.take(2));
            assert(q.skip(2) =~= jc);
        }
    } else {
        assert(r =~= jc);
        assert(q == r);
        assert(root_len(q) == 0);
        assert(q.take(0) + jc =~= q);
        assert(q.skip(0) =~= q);
    }
}

} // verus!
