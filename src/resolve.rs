//! The path resolver: maps a request target onto a path under the serving
//! root, component by component, or rejects it.
use vstd::prelude::*;
use crate::bytes::{append, is_text, text};

verus! {

/// The byte `/`.
pub const SLASH: u8 = 47;

/// The byte `.`.
pub const DOT: u8 = 46;

/// The pieces of `rest` between slashes, the first of which starts with `cur`.
pub open spec fn pieces_from(cur: Seq<u8>, rest: Seq<u8>) -> Seq<Seq<u8>>
    decreases rest.len(),
{
    if rest.len() == 0 {
        seq![cur]
    } else if rest[0] == SLASH {
        seq![cur] + pieces_from(Seq::empty(), rest.drop_first())
    } else {
        pieces_from(cur.push(rest[0]), rest.drop_first())
    }
}

/// The pieces of `s` between slashes, empty ones included (`/a//b` gives
/// `""`, `"a"`, `""`, `"b"`).
pub open spec fn pieces(s: Seq<u8>) -> Seq<Seq<u8>> {
    pieces_from(Seq::empty(), s)
}

/// The views of a sequence of byte vectors.
pub open spec fn views(v: Seq<Vec<u8>>) -> Seq<Seq<u8>> {
    v.map_values(|p: Vec<u8>| p@)
}

/// Splits `s` at every slash.
pub fn split_pieces(s: &[u8]) -> (r: Vec<Vec<u8>>)
    ensures
        views(r@) == pieces(s@),
{
    let n = s.len();
    let mut out: Vec<Vec<u8>> = Vec::new();
    let mut cur: Vec<u8> = Vec::new();
    let mut i: usize = 0;
    assert(s@.skip(0) =~= s@);
    while i < n
        invariant
            n == s@.len(),
            i <= n,
            views(out@) + pieces_from(cur@, s@.skip(i as int)) == pieces(s@),
        decreases n - i,
    {
        let ghost rest = s@.skip(i as int);
        assert(rest[0] == s@[i as int]);
        assert(rest.drop_first() =~= s@.skip(i + 1));
        if s[i] == SLASH {
            let ghost before = views(out@);
            let ghost c = cur@;
            out.push(cur);
            cur = Vec::new();
            assert(views(out@) =~= before.push(c));
            assert(before + (seq![c] + pieces_from(Seq::empty(), rest.drop_first()))
                =~= before.push(c) + pieces_from(Seq::empty(), rest.drop_first()));
        } else {
            cur.push(s[i]);
        }
        i = i + 1;
    }
    let ghost before = views(out@);
    let ghost c = cur@;
    assert(s@.skip(n as int) =~= Seq::<u8>::empty());
    out.push(cur);
    assert(views(out@) =~= before + seq![c]);
    out
}

/// Why a request target yields no file.
#[derive(Debug, PartialEq, Eq, Structural)]
pub enum UriError {
    /// Nothing that can be read stands at the resolved path.
    NotFound,
    /// The target climbs above the serving root.
    IllegalPath,
}

/// A `..` piece.
pub open spec fn is_parent(p: Seq<u8>) -> bool {
    p == text("..")
}

/// A piece that names nothing: empty, or `.`.
pub open spec fn is_current(p: Seq<u8>) -> bool {
    p.len() == 0 || p == text(".")
}

/// A piece that names an entry of a directory.
pub open spec fn is_normal(p: Seq<u8>) -> bool {
    !is_current(p) && !is_parent(p)
}

/// One entry's name: a normal piece without a slash.
pub open spec fn is_name(p: Seq<u8>) -> bool {
    is_normal(p) && !p.contains(SLASH)
}

/// Whether `p` is one entry's name.
pub fn is_entry_name(p: &[u8]) -> (r: bool)
    ensures
        r == is_name(p@),
{
    if p.len() == 0 || is_text(p, ".") || is_text(p, "..") {
        return false;
    }
    let mut i: usize = 0;
    while i < p.len()
        invariant
            i <= p@.len(),
            forall|j: int| 0 <= j < i ==> p@[j] != SLASH,
        decreases p@.len() - i,
    {
        if p[i] == SLASH {
            assert(p@[i as int] == SLASH);
            return false;
        }
        i = i + 1;
    }
    true
}

/// Walks the pieces `ps` from the segments `acc`: a normal piece is appended,
/// `..` drops the last segment and fails where there is none, and the rest are
/// passed over.
pub open spec fn walk(acc: Seq<Seq<u8>>, ps: Seq<Seq<u8>>) -> Option<Seq<Seq<u8>>>
    decreases ps.len(),
{
    if ps.len() == 0 {
        Some(acc)
    } else if is_parent(ps[0]) {
        if acc.len() == 0 {
            None
        } else {
            walk(acc.drop_last(), ps.drop_first())
        }
    } else if is_normal(ps[0]) {
        walk(acc.push(ps[0]), ps.drop_first())
    } else {
        walk(acc, ps.drop_first())
    }
}

/// The segments below the serving root that `target` resolves to, or `None`
/// where it climbs above the root.
pub open spec fn resolve(target: Seq<u8>) -> Option<Seq<Seq<u8>>> {
    walk(Seq::empty(), pieces(target))
}

/// The normal pieces of `ps`, in order.
pub open spec fn normal_components(ps: Seq<Seq<u8>>) -> Seq<Seq<u8>>
    decreases ps.len(),
{
    if ps.len() == 0 {
        Seq::empty()
    } else if is_normal(ps[0]) {
        seq![ps[0]] + normal_components(ps.drop_first())
    } else {
        normal_components(ps.drop_first())
    }
}

/// How far the pieces `ps` descend: one for each normal piece, minus one for
/// each `..`.
pub open spec fn depth(ps: Seq<Seq<u8>>) -> int
    decreases ps.len(),
{
    if ps.len() == 0 {
        0
    } else if is_parent(ps[0]) {
        depth(ps.drop_first()) - 1
    } else if is_normal(ps[0]) {
        depth(ps.drop_first()) + 1
    } else {
        depth(ps.drop_first())
    }
}

/// Whether some leading run of the target's pieces climbs above the root.
pub open spec fn escapes(target: Seq<u8>) -> bool {
    exists|k: int| 0 <= k <= pieces(target).len() && #[trigger] depth(pieces(target).take(k)) < 0
}

/// Whether the target holds a `..` piece.
pub open spec fn has_parent(target: Seq<u8>) -> bool {
    exists|i: int| 0 <= i < pieces(target).len() && is_parent(#[trigger] pieces(target)[i])
}

/// The segments joined with a slash before each.
pub open spec fn joined(segs: Seq<Seq<u8>>) -> Seq<u8>
    decreases segs.len(),
{
    if segs.len() == 0 {
        Seq::empty()
    } else {
        joined(segs.drop_last()) + seq![SLASH] + segs.last()
    }
}

/// The filesystem path of the segments, relative to the serving root `.`.
pub open spec fn fs_path(segs: Seq<Seq<u8>>) -> Seq<u8> {
    seq![DOT] + joined(segs)
}

/// Resolves `target` to the segments of a path below the serving root.
pub fn resolve_target(target: &[u8]) -> (r: Result<Vec<Vec<u8>>, UriError>)
    ensures
        match r {
            Ok(segs) => resolve(target@) == Some(views(segs@)),
            Err(e) => e == UriError::IllegalPath && resolve(target@) is None,
        },
{
    let ps = split_pieces(target);
    let mut acc: Vec<Vec<u8>> = Vec::new();
    let mut i: usize = 0;
    assert(views(ps@).skip(0) =~= views(ps@));
    assert(views(acc@) =~= Seq::<Seq<u8>>::empty());
    while i < ps.len()
        invariant
            i <= ps@.len(),
            walk(views(acc@), views(ps@).skip(i as int)) == resolve(target@),
        decreases ps@.len() - i,
    {
        let ghost rest = views(ps@).skip(i as int);
        assert(rest[0] == ps@[i as int]@);
        assert(rest.drop_first() =~= views(ps@).skip(i + 1));
        let p = ps[i].as_slice();
        let ghost before = views(acc@);
        if is_text(p, "..") {
            if acc.len() == 0 {
                return Err(UriError::IllegalPath);
            }
            acc.pop();
            assert(views(acc@) =~= before.drop_last());
        } else if p.len() != 0 && !is_text(p, ".") {
            let mut seg: Vec<u8> = Vec::new();
            append(&mut seg, p);
            assert(seg@ =~= p@);
            acc.push(seg);
            assert(views(acc@) =~= before.push(p@));
        }
        i = i + 1;
    }
    assert(views(ps@).skip(i as int) =~= Seq::<Seq<u8>>::empty());
    Ok(acc)
}

/// The filesystem path, below the serving root `.`, of the segments `segs`.
pub fn path_of(segs: &Vec<Vec<u8>>) -> (r: Vec<u8>)
    ensures
        r@ == fs_path(views(segs@)),
{
    let mut out: Vec<u8> = Vec::new();
    out.push(DOT);
    let mut i: usize = 0;
    assert(views(segs@).take(0) =~= Seq::<Seq<u8>>::empty());
    while i < segs.len()
        invariant
            i <= segs@.len(),
            out@ == seq![DOT] + joined(views(segs@).take(i as int)),
        decreases segs@.len() - i,
    {
        let ghost before = out@;
        out.push(SLASH);
        append(&mut out, segs[i].as_slice());
        assert(views(segs@).take(i + 1).drop_last() =~= views(segs@).take(i as int));
        assert(out@ =~= seq![DOT] + joined(views(segs@).take(i + 1)));
        i = i + 1;
    }
    assert(views(segs@).take(i as int) =~= views(segs@));
    out
}

proof fn lemma_walk_escape(acc: Seq<Seq<u8>>, ps: Seq<Seq<u8>>, k: int)
    requires
        0 <= k <= ps.len(),
        acc.len() + depth(ps.take(k)) < 0,
    ensures
        walk(acc, ps) is None,
    decreases ps.len(),
{
    if k == 0 {
        assert(ps.take(0) =~= Seq::<Seq<u8>>::empty());
    } else {
        let t = ps.take(k);
        assert(t[0] == ps[0]);
        assert(t.drop_first() =~= ps.drop_first().take(k - 1));
        if is_parent(ps[0]) {
            if acc.len() > 0 {
                lemma_walk_escape(acc.drop_last(), ps.drop_first(), k - 1);
            }
        } else if is_normal(ps[0]) {
            lemma_walk_escape(acc.push(ps[0]), ps.drop_first(), k - 1);
        } else {
            lemma_walk_escape(acc, ps.drop_first(), k - 1);
        }
    }
}

proof fn lemma_walk_plain(acc: Seq<Seq<u8>>, ps: Seq<Seq<u8>>)
    requires
        forall|i: int| 0 <= i < ps.len() ==> !is_parent(#[trigger] ps[i]),
    ensures
        walk(acc, ps) == Some(acc + normal_components(ps)),
    decreases ps.len(),
{
    if ps.len() == 0 {
        assert(acc + Seq::<Seq<u8>>::empty() =~= acc);
    } else {
        let rest = ps.drop_first();
        assert forall|i: int| 0 <= i < rest.len() implies !is_parent(#[trigger] rest[i]) by {
            assert(rest[i] == ps[i + 1]);
        }
        assert(!is_parent(ps[0]));
        if is_normal(ps[0]) {
            lemma_walk_plain(acc.push(ps[0]), rest);
            assert(acc.push(ps[0]) + normal_components(rest) =~= acc + (seq![ps[0]]
                + normal_components(rest)));
        } else {
            lemma_walk_plain(acc, rest);
        }
    }
}

proof fn lemma_walk_none_escapes(acc: Seq<Seq<u8>>, ps: Seq<Seq<u8>>) -> (k: int)
    requires
        walk(acc, ps) is None,
    ensures
        0 <= k <= ps.len(),
        acc.len() + depth(ps.take(k)) < 0,
    decreases ps.len(),
{
    let rest = ps.drop_first();
    if is_parent(ps[0]) && acc.len() == 0 {
        let t = ps.take(1);
        assert(t.drop_first() =~= Seq::<Seq<u8>>::empty());
        assert(t[0] == ps[0]);
        assert(depth(t) == depth(t.drop_first()) - 1);
        1
    } else {
        let j = if is_parent(ps[0]) {
            lemma_walk_none_escapes(acc.drop_last(), rest)
        } else if is_normal(ps[0]) {
            lemma_walk_none_escapes(acc.push(ps[0]), rest)
        } else {
            lemma_walk_none_escapes(acc, rest)
        };
        let t = ps.take(j + 1);
        assert(t[0] == ps[0]);
        assert(t.drop_first() =~= rest.take(j));
        j + 1
    }
}

proof fn lemma_pieces_have_no_slash(cur: Seq<u8>, rest: Seq<u8>)
    requires
        !cur.contains(SLASH),
    ensures
        forall|i: int|
            0 <= i < pieces_from(cur, rest).len() ==> !(#[trigger] pieces_from(cur, rest)[i]).contains(
                SLASH,
            ),
    decreases rest.len(),
{
    if rest.len() == 0 {
        assert(pieces_from(cur, rest) =~= seq![cur]);
        assert(pieces_from(cur, rest)[0] == cur);
    } else {
        if rest[0] == SLASH {
            lemma_pieces_have_no_slash(Seq::empty(), rest.drop_first());
            let tail = pieces_from(Seq::empty(), rest.drop_first());
            assert forall|i: int| 0 <= i < pieces_from(cur, rest).len() implies !(
            #[trigger] pieces_from(cur, rest)[i]).contains(SLASH) by {
                if i > 0 {
                    assert(pieces_from(cur, rest)[i] == tail[i - 1]);
                } else {
                    assert(pieces_from(cur, rest)[0] == cur);
                }
            }
        } else {
            let next = cur.push(rest[0]);
            assert forall|j: int| 0 <= j < next.len() implies next[j] != SLASH by {
                if j < cur.len() {
                    assert(next[j] == cur[j]);
                }
            }
            lemma_pieces_have_no_slash(next, rest.drop_first());
            assert(pieces_from(cur, rest) == pieces_from(next, rest.drop_first()));
        }
    }
}

proof fn lemma_walk_keeps_names(acc: Seq<Seq<u8>>, ps: Seq<Seq<u8>>)
    requires
        forall|i: int| 0 <= i < acc.len() ==> is_name(#[trigger] acc[i]),
        forall|i: int| 0 <= i < ps.len() ==> !(#[trigger] ps[i]).contains(SLASH),
    ensures
        walk(acc, ps) matches Some(segs) ==> forall|i: int|
            0 <= i < segs.len() ==> is_name(#[trigger] segs[i]),
    decreases ps.len(),
{
    if ps.len() > 0 {
        let rest = ps.drop_first();
        assert forall|i: int| 0 <= i < rest.len() implies !(#[trigger] rest[i]).contains(SLASH) by {
            assert(rest[i] == ps[i + 1]);
        }
        if is_parent(ps[0]) {
            if acc.len() > 0 {
                let a = acc.drop_last();
                assert forall|i: int| 0 <= i < a.len() implies is_name(#[trigger] a[i]) by {
                    assert(a[i] == acc[i]);
                }
                lemma_walk_keeps_names(a, rest);
            }
        } else if is_normal(ps[0]) {
            let a = acc.push(ps[0]);
            assert(!ps[0].contains(SLASH));
            assert forall|i: int| 0 <= i < a.len() implies is_name(#[trigger] a[i]) by {
                if i < acc.len() {
                    assert(a[i] == acc[i]);
                }
            }
            lemma_walk_keeps_names(a, rest);
        } else {
            lemma_walk_keeps_names(acc, rest);
        }
    }
}

/// Every segment a target resolves to is one entry's name: never empty, `.`,
/// `..`, nor holding a slash, so the path stays below the serving root.
pub proof fn lemma_resolved_segments_are_names(target: Seq<u8>)
    ensures
        resolve(target) matches Some(segs) ==> forall|i: int|
            0 <= i < segs.len() ==> is_name(#[trigger] segs[i]),
{
    lemma_pieces_have_no_slash(Seq::empty(), target);
    lemma_walk_keeps_names(Seq::empty(), pieces(target));
}

/// A target is refused exactly when some leading run of its pieces climbs
/// above the serving root: such a target never maps to a path outside it.
pub proof fn lemma_refused_iff_escapes(target: Seq<u8>)
    ensures
        resolve(target) is None <==> escapes(target),
{
    if escapes(target) {
        let k = choose|k: int|
            0 <= k <= pieces(target).len() && #[trigger] depth(pieces(target).take(k)) < 0;
        lemma_walk_escape(Seq::empty(), pieces(target), k);
    }
    if resolve(target) is None {
        let k = lemma_walk_none_escapes(Seq::empty(), pieces(target));
        assert(depth(pieces(target).take(k)) < 0);
    }
}

/// A target without `..` resolves to the root joined with its normal
/// components, in order.
pub proof fn lemma_plain_target_resolves(target: Seq<u8>)
    requires
        !has_parent(target),
    ensures
        resolve(target) == Some(normal_components(pieces(target))),
{
    lemma_walk_plain(Seq::empty(), pieces(target));
    assert(Seq::<Seq<u8>>::empty() + normal_components(pieces(target)) =~= normal_components(pieces(target)));
}

} // verus!
