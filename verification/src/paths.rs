//! Unix paths as `std::path::Path` compares them: by their components, so
//! that `a//b`, `a/./b` and `a/b/` are one path, and ordered component by
//! component.
use vstd::prelude::*;
use crate::text::{chars_of, slice_range};
use crate::diff::chars_eq;
use crate::session_names::{lex_lt, lemma_lex_irreflexive, lemma_lex_total, lemma_lex_transitive};

verus! {

/// One component of a path.
pub enum Comp {
    /// The leading `/`.
    Root,
    /// A leading `.` of a relative path.
    Cur,
    /// `..`.
    Parent,
    /// Any other non-empty segment.
    Normal(Seq<char>),
}

/// Where the segment starting at `i` of `s` ends: the next `/`, or the
/// end.
pub open spec fn seg_end(s: Seq<char>, i: int) -> int
    decreases s.len() - i,
{
    if i >= s.len() || i < 0 || s[i] == '/' { i } else { seg_end(s, i + 1) }
}

proof fn lemma_seg_end(s: Seq<char>, i: int)
    requires
        0 <= i <= s.len(),
    ensures
        i <= seg_end(s, i) <= s.len(),
        seg_end(s, i) < s.len() ==> s[seg_end(s, i)] == '/',
    decreases s.len() - i,
{
    if i < s.len() && s[i] != '/' {
        lemma_seg_end(s, i + 1);
    }
}

/// The component a segment makes, if any: empty segments and a `.` other
/// than a relative path's first segment make none.
pub open spec fn part_of(seg: Seq<char>, first: bool) -> Seq<Comp> {
    if seg.len() == 0 {
        Seq::empty()
    } else if seg == seq!['.'] {
        if first { seq![Comp::Cur] } else { Seq::empty() }
    } else if seg == seq!['.', '.'] {
        seq![Comp::Parent]
    } else {
        seq![Comp::Normal(seg)]
    }
}

/// The components of the segments of `s` from `i` on; `first` when the
/// segment at `i` is the path's first.
pub open spec fn comps_from(s: Seq<char>, i: int, first: bool) -> Seq<Comp>
    decreases s.len() - i,
{
    if i < 0 || i > s.len() {
        Seq::empty()
    } else {
        let e = seg_end(s, i);
        if e < i || e > s.len() {
            Seq::empty()
        } else if e < s.len() {
            part_of(s.subrange(i, e), first) + comps_from(s, e + 1, false)
        } else {
            part_of(s.subrange(i, e), first)
        }
    }
}

/// The components of the path `s`.
pub open spec fn components(s: Seq<char>) -> Seq<Comp> {
    if s.len() > 0 && s[0] == '/' {
        seq![Comp::Root] + comps_from(s, 1, false)
    } else {
        comps_from(s, 0, true)
    }
}

/// The rank of a component's kind, in the order `std` declares them.
pub open spec fn comp_rank(c: Comp) -> int {
    match c {
        Comp::Root => 0,
        Comp::Cur => 1,
        Comp::Parent => 2,
        Comp::Normal(_) => 3,
    }
}

/// The order of components: by kind, and names by their text.
pub open spec fn comp_lt(a: Comp, b: Comp) -> bool {
    match (a, b) {
        (Comp::Normal(x), Comp::Normal(y)) => lex_lt(x, y),
        _ => comp_rank(a) < comp_rank(b),
    }
}

/// The order of paths: component by component, a proper prefix first.
pub open spec fn comps_lt(x: Seq<Comp>, y: Seq<Comp>) -> bool
    decreases x.len(),
{
    if x.len() == 0 {
        y.len() > 0
    } else if y.len() == 0 {
        false
    } else if x[0] != y[0] {
        comp_lt(x[0], y[0])
    } else {
        comps_lt(x.drop_first(), y.drop_first())
    }
}

/// Whether `a` sorts before `b` as paths.
pub open spec fn path_lt(a: Seq<char>, b: Seq<char>) -> bool {
    comps_lt(components(a), components(b))
}

/// Whether `a` and `b` are the same path.
pub open spec fn same_path(a: Seq<char>, b: Seq<char>) -> bool {
    components(a) == components(b)
}

proof fn lemma_comp_lt_irreflexive(a: Comp)
    ensures
        !comp_lt(a, a),
{
    if let Comp::Normal(x) = a {
        lemma_lex_irreflexive(x);
    }
}

proof fn lemma_comp_lt_transitive(a: Comp, b: Comp, c: Comp)
    requires
        comp_lt(a, b),
        comp_lt(b, c),
    ensures
        comp_lt(a, c),
{
    if let (Comp::Normal(x), Comp::Normal(y), Comp::Normal(z)) = (a, b, c) {
        lemma_lex_transitive(x, y, z);
    }
}

proof fn lemma_comp_lt_total(a: Comp, b: Comp)
    requires
        a != b,
    ensures
        comp_lt(a, b) || comp_lt(b, a),
{
    if let (Comp::Normal(x), Comp::Normal(y)) = (a, b) {
        lemma_lex_total(x, y);
    }
}

/// No path sorts before itself.
pub proof fn lemma_comps_lt_irreflexive(x: Seq<Comp>)
    ensures
        !comps_lt(x, x),
    decreases x.len(),
{
    if x.len() > 0 {
        lemma_comps_lt_irreflexive(x.drop_first());
    }
}

/// The order of paths is transitive.
pub proof fn lemma_comps_lt_transitive(x: Seq<Comp>, y: Seq<Comp>, z: Seq<Comp>)
    requires
        comps_lt(x, y),
        comps_lt(y, z),
    ensures
        comps_lt(x, z),
    decreases x.len(),
{
    if x.len() > 0 && y.len() > 0 && z.len() > 0 {
        if x[0] == y[0] && y[0] == z[0] {
            lemma_comps_lt_transitive(x.drop_first(), y.drop_first(), z.drop_first());
        } else if x[0] != y[0] && y[0] != z[0] {
            lemma_comp_lt_transitive(x[0], y[0], z[0]);
            if x[0] == z[0] {
                lemma_comp_lt_irreflexive(x[0]);
            }
        } else if x[0] == y[0] {
            assert(y[0] != z[0]);
        } else {
            assert(x[0] != z[0]);
        }
    }
}

/// Of two different paths, one sorts before the other.
pub proof fn lemma_comps_lt_total(x: Seq<Comp>, y: Seq<Comp>)
    requires
        x != y,
    ensures
        comps_lt(x, y) || comps_lt(y, x),
    decreases x.len(),
{
    if x.len() > 0 && y.len() > 0 {
        if x[0] == y[0] {
            if x.drop_first() == y.drop_first() {
                assert(x =~= seq![x[0]] + x.drop_first());
                assert(y =~= seq![y[0]] + y.drop_first());
            }
            lemma_comps_lt_total(x.drop_first(), y.drop_first());
        } else {
            lemma_comp_lt_total(x[0], y[0]);
        }
    } else if x.len() == 0 && y.len() == 0 {
        assert(x =~= y);
    }
}

/// One component, as executable data.
pub enum PathPart {
    RootDir,
    CurDir,
    ParentDir,
    Normal(Vec<char>),
}

pub open spec fn part_view(p: PathPart) -> Comp {
    match p {
        PathPart::RootDir => Comp::Root,
        PathPart::CurDir => Comp::Cur,
        PathPart::ParentDir => Comp::Parent,
        PathPart::Normal(v) => Comp::Normal(v@),
    }
}

pub open spec fn parts_view(v: Seq<PathPart>) -> Seq<Comp> {
    v.map_values(|p: PathPart| part_view(p))
}

/// The components of the path `s` (see [`components`]).
pub fn path_parts(s: &str) -> (r: Vec<PathPart>)
    ensures
        parts_view(r@) == components(s@),
{
    let cs = chars_of(s);
    let ghost t = s@;
    let mut out: Vec<PathPart> = Vec::new();
    let mut i: usize = 0;
    let mut first = true;
    if cs.len() > 0 && cs[0] == '/' {
        out.push(PathPart::RootDir);
        i = 1;
        first = false;
        assert(parts_view(out@) =~= seq![Comp::Root]);
    } else {
        assert(parts_view(out@) =~= Seq::<Comp>::empty());
    }
    assert(parts_view(out@) + comps_from(t, i as int, first) =~= components(t));
    while i < cs.len()
        invariant
            cs@ == t,
            i <= cs@.len(),
            parts_view(out@) + comps_from(t, i as int, first) == components(t),
        decreases cs@.len() - i,
    {
        let mut e: usize = i;
        while e < cs.len() && cs[e] != '/'
            invariant
                cs@ == t,
                i <= e <= cs@.len(),
                seg_end(t, e as int) == seg_end(t, i as int),
            decreases cs@.len() - e,
        {
            e = e + 1;
        }
        proof {
            lemma_seg_end(t, i as int);
        }
        let seg = slice_range(&cs, i, e);
        let ghost before = out@;
        let n = seg.len();
        if n == 0 {
        } else if n == 1 && seg[0] == '.' {
            assert(seg@ =~= seq!['.']);
            if first {
                out.push(PathPart::CurDir);
            }
        } else if n == 2 && seg[0] == '.' && seg[1] == '.' {
            assert(seg@ =~= seq!['.', '.']);
            out.push(PathPart::ParentDir);
        } else {
            assert(seg@ != seq!['.']);
            assert(seg@ != seq!['.', '.']) by {
                if seg@ == seq!['.', '.'] {
                    assert(seg@[0] == '.' && seg@[1] == '.');
                }
            }
            out.push(PathPart::Normal(seg));
        }
        proof {
            assert(parts_view(out@) =~= parts_view(before) + part_of(t.subrange(i as int, e as int), first));
        }
        if e < cs.len() {
            proof {
                assert(comps_from(t, i as int, first) == part_of(t.subrange(i as int, e as int), first) + comps_from(t, e + 1, false));
                assert(parts_view(out@) + comps_from(t, e + 1, false) =~= parts_view(before) + comps_from(t, i as int, first));
            }
            i = e + 1;
        } else {
            proof {
                assert(comps_from(t, i as int, first) == part_of(t.subrange(i as int, e as int), first));
                assert(comps_from(t, cs@.len() as int, false) =~= Seq::<Comp>::empty());
                assert(parts_view(out@) + comps_from(t, cs@.len() as int, false) =~= parts_view(before) + comps_from(t, i as int, first));
            }
            i = cs.len();
        }
        first = false;
    }
    proof {
        assert(comps_from(t, i as int, first) =~= Seq::<Comp>::empty());
        assert(parts_view(out@) + Seq::<Comp>::empty() =~= parts_view(out@));
    }
    out
}

fn part_eq(a: &PathPart, b: &PathPart) -> (r: bool)
    ensures
        r == (part_view(*a) == part_view(*b)),
{
    match (a, b) {
        (PathPart::RootDir, PathPart::RootDir) => true,
        (PathPart::CurDir, PathPart::CurDir) => true,
        (PathPart::ParentDir, PathPart::ParentDir) => true,
        (PathPart::Normal(x), PathPart::Normal(y)) => chars_eq(x.as_slice(), y.as_slice()),
        _ => false,
    }
}

fn part_lt(a: &PathPart, b: &PathPart) -> (r: bool)
    ensures
        r == comp_lt(part_view(*a), part_view(*b)),
{
    match (a, b) {
        (PathPart::Normal(x), PathPart::Normal(y)) => {
            let mut i: usize = 0;
            assert(x@.skip(0) =~= x@);
            assert(y@.skip(0) =~= y@);
            while i < x.len() && i < y.len() && x[i] == y[i]
                invariant
                    i <= x@.len(),
                    i <= y@.len(),
                    lex_lt(x@, y@) == lex_lt(x@.skip(i as int), y@.skip(i as int)),
                decreases x@.len() - i,
            {
                proof {
                    assert(x@.skip(i as int).drop_first() =~= x@.skip(i + 1));
                    assert(y@.skip(i as int).drop_first() =~= y@.skip(i + 1));
                }
                i = i + 1;
            }
            if i < x.len() && i < y.len() {
                assert(x@.skip(i as int)[0] == x@[i as int]);
                assert(y@.skip(i as int)[0] == y@[i as int]);
                x[i] < y[i]
            } else {
                i == x.len() && i < y.len()
            }
        },
        _ => {
            let ra: u8 = match a {
                PathPart::RootDir => 0,
                PathPart::CurDir => 1,
                PathPart::ParentDir => 2,
                PathPart::Normal(_) => 3,
            };
            let rb: u8 = match b {
                PathPart::RootDir => 0,
                PathPart::CurDir => 1,
                PathPart::ParentDir => 2,
                PathPart::Normal(_) => 3,
            };
            ra < rb
        },
    }
}

fn parts_eq(a: &Vec<PathPart>, b: &Vec<PathPart>) -> (r: bool)
    ensures
        r == (parts_view(a@) == parts_view(b@)),
{
    if a.len() != b.len() {
        assert(parts_view(a@).len() != parts_view(b@).len());
        return false;
    }
    let mut i: usize = 0;
    while i < a.len()
        invariant
            a@.len() == b@.len(),
            i <= a@.len(),
            forall|j: int| 0 <= j < i ==> part_view(#[trigger] a@[j]) == part_view(b@[j]),
        decreases a@.len() - i,
    {
        if !part_eq(&a[i], &b[i]) {
            assert(parts_view(a@)[i as int] != parts_view(b@)[i as int]);
            return false;
        }
        i = i + 1;
    }
    assert(parts_view(a@) =~= parts_view(b@));
    true
}

fn parts_lt(a: &Vec<PathPart>, b: &Vec<PathPart>) -> (r: bool)
    ensures
        r == comps_lt(parts_view(a@), parts_view(b@)),
{
    let ghost x = parts_view(a@);
    let ghost y = parts_view(b@);
    let mut i: usize = 0;
    assert(x.skip(0) =~= x);
    assert(y.skip(0) =~= y);
    while i < a.len() && i < b.len() && part_eq(&a[i], &b[i])
        invariant
            x == parts_view(a@),
            y == parts_view(b@),
            i <= a@.len(),
            i <= b@.len(),
            comps_lt(x, y) == comps_lt(x.skip(i as int), y.skip(i as int)),
        decreases a@.len() - i,
    {
        proof {
            assert(x.skip(i as int).drop_first() =~= x.skip(i + 1));
            assert(y.skip(i as int).drop_first() =~= y.skip(i + 1));
            assert(x.skip(i as int)[0] == x[i as int]);
            assert(y.skip(i as int)[0] == y[i as int]);
        }
        i = i + 1;
    }
    if i < a.len() && i < b.len() {
        proof {
            assert(x.skip(i as int)[0] == x[i as int]);
            assert(y.skip(i as int)[0] == y[i as int]);
        }
        part_lt(&a[i], &b[i])
    } else {
        i == a.len() && i < b.len()
    }
}

/// Whether `a` and `b` are the same path (see [`same_path`]).
pub fn path_eq(a: &str, b: &str) -> (r: bool)
    ensures
        r == same_path(a@, b@),
{
    let x = path_parts(a);
    let y = path_parts(b);
    parts_eq(&x, &y)
}

/// Whether `a` sorts before `b` as paths (see [`path_lt`]).
pub fn path_less(a: &str, b: &str) -> (r: bool)
    ensures
        r == path_lt(a@, b@),
{
    let x = path_parts(a);
    let y = path_parts(b);
    parts_lt(&x, &y)
}

} // verus!
