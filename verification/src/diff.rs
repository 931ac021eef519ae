//! A small unified-diff engine: line splitting, a longest-common-subsequence
//! table, the edit walk over it, and the `diff -u`-style rendering with three
//! lines of context.
use vstd::prelude::*;
use crate::text::{string_of, string_from, chars_of, push_str, push_char, push_decimal, decimal, occurs_at, matches_at,
    lookup, find_value, str_eq, clone_string};

verus! {

/// Above this many `(old_lines + 1) * (new_lines + 1)` table cells,
/// [`unified_diff`] renders a coarse summary instead of a line diff.
pub const MAX_DIFF_CELLS: u64 = 4000000;

/// Unchanged lines shown around each changed run.
pub const CONTEXT: usize = 3;

/// One step of an edit script.
#[derive(Clone, Copy, Debug, PartialEq, Eq, Structural)]
pub enum OpKind {
    Equal,
    Delete,
    Insert,
}

// ---------------------------------------------------------------------
// Lines
// ---------------------------------------------------------------------

/// `t` cut at every `'\n'` (`str::split('\n')`): always at least one piece.
pub open spec fn split_nl(t: Seq<char>) -> Seq<Seq<char>>
    decreases t.len(),
{
    if t.len() == 0 {
        seq![Seq::<char>::empty()]
    } else {
        let prev = split_nl(t.drop_last());
        if t.last() == '\n' {
            prev.push(Seq::<char>::empty())
        } else {
            prev.update(prev.len() - 1, prev.last().push(t.last()))
        }
    }
}

/// The lines a text is diffed by: no lines at all for an empty text,
/// otherwise its `'\n'`-separated pieces.
pub open spec fn lines_of(t: Seq<char>) -> Seq<Seq<char>> {
    if t.len() == 0 {
        Seq::empty()
    } else {
        split_nl(t)
    }
}

/// The pieces `ls` glued back together with `'\n'` between them.
pub open spec fn join_lines(ls: Seq<Seq<char>>) -> Seq<char>
    decreases ls.len(),
{
    if ls.len() == 0 {
        Seq::empty()
    } else if ls.len() == 1 {
        ls[0]
    } else {
        join_lines(ls.drop_last()) + seq!['\n'] + ls.last()
    }
}

/// Whether `l` holds no `'\n'`.
pub open spec fn no_newline(l: Seq<char>) -> bool {
    forall|k: int| 0 <= k < l.len() ==> l[k] != '\n'
}

proof fn lemma_split_nl_len(t: Seq<char>)
    ensures
        split_nl(t).len() >= 1,
    decreases t.len(),
{
    if t.len() > 0 {
        lemma_split_nl_len(t.drop_last());
    }
}

/// Splitting at `'\n'` loses nothing: the pieces join back to the text, and
/// no piece holds a `'\n'`.
pub proof fn lemma_split_nl_join(t: Seq<char>)
    ensures
        join_lines(split_nl(t)) == t,
        forall|i: int| 0 <= i < split_nl(t).len() ==> no_newline(#[trigger] split_nl(t)[i]),
    decreases t.len(),
{
    lemma_split_nl_len(t);
    if t.len() > 0 {
        let u = t.drop_last();
        let prev = split_nl(u);
        lemma_split_nl_join(u);
        lemma_split_nl_len(u);
        if t.last() == '\n' {
            let cur = prev.push(Seq::<char>::empty());
            assert(cur.drop_last() =~= prev);
            assert(join_lines(cur) =~= join_lines(prev) + seq!['\n'] + Seq::<char>::empty());
            assert(join_lines(cur) =~= t);
        } else {
            let cur = prev.update(prev.len() - 1, prev.last().push(t.last()));
            if prev.len() == 1 {
                assert(cur[0] =~= prev[0].push(t.last()));
                assert(join_lines(prev) == prev[0]);
                assert(cur.len() == 1);
                assert(join_lines(cur) == cur[0]);
                assert(t =~= u.push(t.last()));
                assert(prev[0] == u);
                assert(cur[0] == u.push(t.last()));
                assert(join_lines(cur) == t);
            } else {
                assert(cur.drop_last() =~= prev.drop_last());
                assert(join_lines(cur) =~= join_lines(prev.drop_last()) + seq!['\n'] + prev.last().push(t.last()));
                assert(join_lines(prev) == join_lines(prev.drop_last()) + seq!['\n'] + prev.last());
                assert(t =~= u.push(t.last()));
                assert(join_lines(prev.drop_last()) + seq!['\n'] + prev.last().push(t.last())
                    =~= (join_lines(prev.drop_last()) + seq!['\n'] + prev.last()).push(t.last()));
                assert(join_lines(cur) =~= t);
            }
            assert forall|i: int| 0 <= i < cur.len() implies no_newline(#[trigger] cur[i]) by {
                if i == cur.len() - 1 {
                    assert(no_newline(prev[i]));
                    assert forall|k: int| 0 <= k < cur[i].len() implies cur[i][k] != '\n' by {
                        if k < prev[i].len() {
                            assert(cur[i][k] == prev[i][k]);
                        }
                    }
                } else {
                    assert(no_newline(prev[i]));
                }
            }
        }
    }
}

/// The lines of `t` (as owned strings); none for an empty text.
pub fn split_lines(t: &[char]) -> (r: Vec<String>)
    ensures
        r.deep_view() == lines_of(t@),
{
    if t.len() == 0 {
        let r: Vec<String> = Vec::new();
        assert(r.deep_view() =~= lines_of(t@));
        return r;
    }
    let mut lines: Vec<String> = Vec::new();
    let mut cur: Vec<char> = Vec::new();
    let mut i: usize = 0;
    assert(t@.take(0) =~= Seq::<char>::empty());
    assert(lines.deep_view().push(cur@) =~= split_nl(t@.take(0)));
    while i < t.len()
        invariant
            i <= t.len(),
            lines.deep_view().push(cur@) == split_nl(t@.take(i as int)),
        decreases t.len() - i,
    {
        let c = t[i];
        let ghost before = t@.take(i as int);
        let ghost after = t@.take(i + 1);
        assert(after.drop_last() =~= before);
        assert(after.last() == c);
        if c == '\n' {
            let s = string_of(&cur);
            let ghost old_lines = lines.deep_view();
            lines.push(s);
            cur = Vec::new();
            assert(lines.deep_view() =~= old_lines.push(s@));
            assert(lines.deep_view().push(cur@) =~= split_nl(after));
        } else {
            let ghost old_cur = cur@;
            cur.push(c);
            let ghost prev = split_nl(before);
            assert(prev =~= lines.deep_view().push(old_cur));
            assert(lines.deep_view().push(cur@) =~= prev.update(prev.len() - 1, prev.last().push(c)));
        }
        i = i + 1;
    }
    assert(t@.take(t.len() as int) =~= t@);
    let s = string_of(&cur);
    let ghost old_lines = lines.deep_view();
    lines.push(s);
    assert(lines.deep_view() =~= old_lines.push(s@));
    lines
}

// ---------------------------------------------------------------------
// Longest common subsequence
// ---------------------------------------------------------------------

/// The length of a longest common subsequence of `a[i..]` and `b[j..]`.
pub open spec fn lcs(a: Seq<Seq<char>>, b: Seq<Seq<char>>, i: int, j: int) -> nat
    decreases a.len() - i + b.len() - j,
{
    if i < 0 || j < 0 || i >= a.len() || j >= b.len() {
        0
    } else if a[i] == b[j] {
        1 + lcs(a, b, i + 1, j + 1)
    } else {
        let x = lcs(a, b, i + 1, j);
        let y = lcs(a, b, i, j + 1);
        if x >= y { x } else { y }
    }
}

proof fn lemma_lcs_bound(a: Seq<Seq<char>>, b: Seq<Seq<char>>, i: int, j: int)
    requires
        0 <= i <= a.len(),
        0 <= j <= b.len(),
    ensures
        lcs(a, b, i, j) <= a.len() - i,
        lcs(a, b, i, j) <= b.len() - j,
    decreases a.len() - i + b.len() - j,
{
    if i < a.len() && j < b.len() {
        lemma_lcs_bound(a, b, i + 1, j + 1);
        lemma_lcs_bound(a, b, i + 1, j);
        lemma_lcs_bound(a, b, i, j + 1);
    }
}

/// Row `i` of the LCS table: `lcs(a, b, i, j)` for every `j` in `0..=b.len()`.
fn lcs_row(a: &Vec<String>, b: &Vec<String>, i: usize, next: &Vec<u32>) -> (row: Vec<u32>)
    requires
        i < a.len(),
        a.len() < 0xffff_ffff,
        b.len() < 0xffff_ffff,
        next.len() == b.len() + 1,
        forall|j: int| 0 <= j <= b.len() ==> next@[j] == lcs(a.deep_view(), b.deep_view(), i + 1, j),
    ensures
        row.len() == b.len() + 1,
        forall|j: int| 0 <= j <= b.len() ==> row@[j] == lcs(a.deep_view(), b.deep_view(), i as int, j),
{
    let ghost av = a.deep_view();
    let ghost bv = b.deep_view();
    let m = b.len();
    let mut row: Vec<u32> = Vec::new();
    let mut k: usize = 0;
    while k <= m
        invariant
            k <= m + 1,
            m == b.len(),
            m < 0xffff_ffff,
            row.len() == k,
            forall|q: int| 0 <= q < k ==> row@[q] == 0,
        decreases m + 1 - k,
    {
        row.push(0);
        k = k + 1;
    }
    let mut j: usize = m;
    while j > 0
        invariant
            j <= m,
            m == b.len(),
            i < a.len(),
            a.len() < 0xffff_ffff,
            av == a.deep_view(),
            bv == b.deep_view(),
            row.len() == m + 1,
            next.len() == m + 1,
            forall|q: int| 0 <= q <= m ==> next@[q] == lcs(av, bv, i + 1, q),
            forall|q: int| j <= q <= m ==> row@[q] == lcs(av, bv, i as int, q),
            forall|q: int| 0 <= q < j ==> row@[q] == 0,
        decreases j,
    {
        let jj = j - 1;
        proof {
            lemma_lcs_bound(av, bv, i + 1, jj + 1);
        }
        let v: u32 = if a[i] == b[jj] {
            next[jj + 1] + 1
        } else {
            let x = next[jj];
            let y = row[jj + 1];
            if x >= y { x } else { y }
        };
        assert(v == lcs(av, bv, i as int, jj as int));
        row.set(jj, v);
        j = jj;
    }
    row
}

/// The suffix-indexed LCS table: `table[i][j] == lcs(a, b, i, j)`.
fn lcs_table(a: &Vec<String>, b: &Vec<String>) -> (table: Vec<Vec<u32>>)
    requires
        a.len() < 0xffff_ffff,
        b.len() < 0xffff_ffff,
    ensures
        table.len() == a.len() + 1,
        forall|i: int| 0 <= i <= a.len() ==> (#[trigger] table@[i]).len() == b.len() + 1,
        forall|i: int, j: int|
            0 <= i <= a.len() && 0 <= j <= b.len() ==> #[trigger] table@[i]@[j] == lcs(
                a.deep_view(),
                b.deep_view(),
                i,
                j,
            ),
{
    let ghost av = a.deep_view();
    let ghost bv = b.deep_view();
    let n = a.len();
    let m = b.len();
    // The last row: everything is zero.
    let mut last: Vec<u32> = Vec::new();
    let mut k: usize = 0;
    while k <= m
        invariant
            k <= m + 1,
            m == b.len(),
            m < 0xffff_ffff,
            last.len() == k,
            forall|q: int| 0 <= q < k ==> last@[q] == 0,
        decreases m + 1 - k,
    {
        last.push(0);
        k = k + 1;
    }
    // Rows are produced bottom-up: `rev[k]` is row `n - k`.
    let mut rev: Vec<Vec<u32>> = Vec::new();
    rev.push(last);
    let mut i: usize = n;
    while i > 0
        invariant
            i <= n,
            n == a.len(),
            m == b.len(),
            n < 0xffff_ffff,
            m < 0xffff_ffff,
            av == a.deep_view(),
            bv == b.deep_view(),
            rev.len() == n - i + 1,
            forall|k: int| 0 <= k < rev.len() ==> (#[trigger] rev@[k]).len() == m + 1,
            forall|k: int, j: int|
                0 <= k < rev.len() && 0 <= j <= m ==> #[trigger] rev@[k]@[j] == lcs(
                    av,
                    bv,
                    n - k,
                    j,
                ),
        decreases i,
    {
        let row = lcs_row(a, b, i - 1, &rev[n - i]);
        rev.push(row);
        i = i - 1;
    }
    // Reverse into top-down order.
    let mut table: Vec<Vec<u32>> = Vec::new();
    while rev.len() > 0
        invariant
            rev.len() + table.len() == n + 1,
            n == a.len(),
            m == b.len(),
            av == a.deep_view(),
            bv == b.deep_view(),
            forall|k: int| 0 <= k < rev.len() ==> (#[trigger] rev@[k]).len() == m + 1,
            forall|k: int, j: int|
                0 <= k < rev.len() && 0 <= j <= m ==> #[trigger] rev@[k]@[j] == lcs(
                    av,
                    bv,
                    n - k,
                    j,
                ),
            forall|k: int| 0 <= k < table.len() ==> (#[trigger] table@[k]).len() == m + 1,
            forall|k: int, j: int|
                0 <= k < table.len() && 0 <= j <= m ==> #[trigger] table@[k]@[j] == lcs(
                    av,
                    bv,
                    k,
                    j,
                ),
        decreases rev.len(),
    {
        let ghost r0 = rev@;
        let row = rev.pop().unwrap();
        assert(row == r0[r0.len() - 1]);
        table.push(row);
    }
    table
}

// ---------------------------------------------------------------------
// The edit walk
// ---------------------------------------------------------------------

/// The edit script the forward walk over the LCS table produces from
/// `(i, j)`: a shared line is kept, otherwise the side whose removal keeps
/// the longer common subsequence is dropped, and on a tie the old line is
/// deleted before the new one is inserted. An op's index names a line of `a`
/// (`Equal`, `Delete`) or of `b` (`Insert`).
pub open spec fn walk(a: Seq<Seq<char>>, b: Seq<Seq<char>>, i: int, j: int) -> Seq<(OpKind, int)>
    decreases a.len() - i + b.len() - j,
{
    if i < 0 || j < 0 || i > a.len() || j > b.len() {
        Seq::empty()
    } else if i < a.len() && j < b.len() {
        if a[i] == b[j] {
            seq![(OpKind::Equal, i)] + walk(a, b, i + 1, j + 1)
        } else if lcs(a, b, i + 1, j) >= lcs(a, b, i, j + 1) {
            seq![(OpKind::Delete, i)] + walk(a, b, i + 1, j)
        } else {
            seq![(OpKind::Insert, j)] + walk(a, b, i, j + 1)
        }
    } else if i < a.len() {
        seq![(OpKind::Delete, i)] + walk(a, b, i + 1, j)
    } else if j < b.len() {
        seq![(OpKind::Insert, j)] + walk(a, b, i, j + 1)
    } else {
        Seq::empty()
    }
}

/// The edit script between `a` and `b`.
pub open spec fn edit_script(a: Seq<Seq<char>>, b: Seq<Seq<char>>) -> Seq<(OpKind, int)> {
    walk(a, b, 0, 0)
}

/// The line an op names.
pub open spec fn op_line(a: Seq<Seq<char>>, b: Seq<Seq<char>>, op: (OpKind, int)) -> Seq<char> {
    if op.0 == OpKind::Insert {
        b[op.1]
    } else {
        a[op.1]
    }
}

/// The old side of an edit script: its `Equal` and `Delete` lines, in order.
pub open spec fn old_side(a: Seq<Seq<char>>, b: Seq<Seq<char>>, ops: Seq<(OpKind, int)>) -> Seq<Seq<char>>
    decreases ops.len(),
{
    if ops.len() == 0 {
        Seq::empty()
    } else if ops[0].0 == OpKind::Insert {
        old_side(a, b, ops.drop_first())
    } else {
        seq![op_line(a, b, ops[0])] + old_side(a, b, ops.drop_first())
    }
}

/// The new side of an edit script: its `Equal` and `Insert` lines, in order.
pub open spec fn new_side(a: Seq<Seq<char>>, b: Seq<Seq<char>>, ops: Seq<(OpKind, int)>) -> Seq<Seq<char>>
    decreases ops.len(),
{
    if ops.len() == 0 {
        Seq::empty()
    } else if ops[0].0 == OpKind::Delete {
        new_side(a, b, ops.drop_first())
    } else {
        seq![op_line(a, b, ops[0])] + new_side(a, b, ops.drop_first())
    }
}

/// The number of `Equal` ops in a script.
pub open spec fn kept(ops: Seq<(OpKind, int)>) -> nat
    decreases ops.len(),
{
    if ops.len() == 0 {
        0
    } else if ops[0].0 == OpKind::Equal {
        1 + kept(ops.drop_first())
    } else {
        kept(ops.drop_first())
    }
}

/// An edit script is faithful and minimal: its old side is exactly `a`, its
/// new side exactly `b`, and it keeps a longest common subsequence of the
/// two, so no script changes fewer lines.
pub proof fn lemma_walk_reconstructs(a: Seq<Seq<char>>, b: Seq<Seq<char>>, i: int, j: int)
    requires
        0 <= i <= a.len(),
        0 <= j <= b.len(),
    ensures
        old_side(a, b, walk(a, b, i, j)) == a.skip(i),
        new_side(a, b, walk(a, b, i, j)) == b.skip(j),
        kept(walk(a, b, i, j)) == lcs(a, b, i, j),
    decreases a.len() - i + b.len() - j,
{
    let w = walk(a, b, i, j);
    if i < a.len() && j < b.len() {
        if a[i] == b[j] {
            lemma_walk_reconstructs(a, b, i + 1, j + 1);
            assert(w.drop_first() =~= walk(a, b, i + 1, j + 1));
            assert(a.skip(i) =~= seq![a[i]] + a.skip(i + 1));
            assert(b.skip(j) =~= seq![b[j]] + b.skip(j + 1));
        } else if lcs(a, b, i + 1, j) >= lcs(a, b, i, j + 1) {
            lemma_walk_reconstructs(a, b, i + 1, j);
            assert(w.drop_first() =~= walk(a, b, i + 1, j));
            assert(a.skip(i) =~= seq![a[i]] + a.skip(i + 1));
        } else {
            lemma_walk_reconstructs(a, b, i, j + 1);
            assert(w.drop_first() =~= walk(a, b, i, j + 1));
            assert(b.skip(j) =~= seq![b[j]] + b.skip(j + 1));
        }
    } else if i < a.len() {
        lemma_walk_reconstructs(a, b, i + 1, j);
        assert(w.drop_first() =~= walk(a, b, i + 1, j));
        assert(a.skip(i) =~= seq![a[i]] + a.skip(i + 1));
        assert(b.skip(j) =~= Seq::<Seq<char>>::empty());
    } else if j < b.len() {
        lemma_walk_reconstructs(a, b, i, j + 1);
        assert(w.drop_first() =~= walk(a, b, i, j + 1));
        assert(b.skip(j) =~= seq![b[j]] + b.skip(j + 1));
        assert(a.skip(i) =~= Seq::<Seq<char>>::empty());
    } else {
        assert(a.skip(i) =~= Seq::<Seq<char>>::empty());
        assert(b.skip(j) =~= Seq::<Seq<char>>::empty());
    }
}

/// Every op of `walk(a, b, i, j)` names a line that exists.
proof fn lemma_walk_indices(a: Seq<Seq<char>>, b: Seq<Seq<char>>, i: int, j: int)
    requires
        0 <= i <= a.len(),
        0 <= j <= b.len(),
    ensures
        walk(a, b, i, j).len() == (a.len() - i) + (b.len() - j) - lcs(a, b, i, j),
        forall|k: int| 0 <= k < walk(a, b, i, j).len() ==> {
            let op = #[trigger] walk(a, b, i, j)[k];
            if op.0 == OpKind::Insert { 0 <= op.1 < b.len() } else { 0 <= op.1 < a.len() }
        },
    decreases a.len() - i + b.len() - j,
{
    let w = walk(a, b, i, j);
    if i < a.len() && j < b.len() {
        if a[i] == b[j] {
            lemma_walk_indices(a, b, i + 1, j + 1);
            assert forall|k: int| 0 <= k < w.len() implies {
                let op = #[trigger] w[k];
                if op.0 == OpKind::Insert { 0 <= op.1 < b.len() } else { 0 <= op.1 < a.len() }
            } by {
                if k > 0 {
                    assert(w[k] == walk(a, b, i + 1, j + 1)[k - 1]);
                }
            }
        } else if lcs(a, b, i + 1, j) >= lcs(a, b, i, j + 1) {
            lemma_walk_indices(a, b, i + 1, j);
            assert forall|k: int| 0 <= k < w.len() implies {
                let op = #[trigger] w[k];
                if op.0 == OpKind::Insert { 0 <= op.1 < b.len() } else { 0 <= op.1 < a.len() }
            } by {
                if k > 0 {
                    assert(w[k] == walk(a, b, i + 1, j)[k - 1]);
                }
            }
        } else {
            lemma_walk_indices(a, b, i, j + 1);
            assert forall|k: int| 0 <= k < w.len() implies {
                let op = #[trigger] w[k];
                if op.0 == OpKind::Insert { 0 <= op.1 < b.len() } else { 0 <= op.1 < a.len() }
            } by {
                if k > 0 {
                    assert(w[k] == walk(a, b, i, j + 1)[k - 1]);
                }
            }
        }
    } else if i < a.len() {
        lemma_walk_indices(a, b, i + 1, j);
        assert forall|k: int| 0 <= k < w.len() implies {
            let op = #[trigger] w[k];
            if op.0 == OpKind::Insert { 0 <= op.1 < b.len() } else { 0 <= op.1 < a.len() }
        } by {
            if k > 0 {
                assert(w[k] == walk(a, b, i + 1, j)[k - 1]);
            }
        }
    } else if j < b.len() {
        lemma_walk_indices(a, b, i, j + 1);
        assert forall|k: int| 0 <= k < w.len() implies {
            let op = #[trigger] w[k];
            if op.0 == OpKind::Insert { 0 <= op.1 < b.len() } else { 0 <= op.1 < a.len() }
        } by {
            if k > 0 {
                assert(w[k] == walk(a, b, i, j + 1)[k - 1]);
            }
        }
    }
}

/// The edit script between `a` and `b` (see [`walk`]).
fn diff_ops(a: &Vec<String>, b: &Vec<String>) -> (ops: Vec<(OpKind, usize)>)
    requires
        a.len() < 0xffff_ffff,
        b.len() < 0xffff_ffff,
    ensures
        ops@.len() == edit_script(a.deep_view(), b.deep_view()).len(),
        forall|k: int| 0 <= k < ops@.len() ==> (#[trigger] ops@[k]).0 == edit_script(a.deep_view(), b.deep_view())[k].0
            && ops@[k].1 as int == edit_script(a.deep_view(), b.deep_view())[k].1,
{
    let ghost av = a.deep_view();
    let ghost bv = b.deep_view();
    let table = lcs_table(a, b);
    let n = a.len();
    let m = b.len();
    let mut i: usize = 0;
    let mut j: usize = 0;
    let mut ops: Vec<(OpKind, usize)> = Vec::new();
    let ghost whole = walk(av, bv, 0, 0);
    proof {
        lemma_walk_indices(av, bv, 0, 0);
    }
    while i < n || j < m
        invariant
            i <= n,
            j <= m,
            n == a.len(),
            m == b.len(),
            av == a.deep_view(),
            bv == b.deep_view(),
            whole == walk(av, bv, 0, 0),
            table.len() == n + 1,
            forall|q: int| 0 <= q <= n ==> (#[trigger] table@[q]).len() == m + 1,
            forall|p: int, q: int|
                0 <= p <= n && 0 <= q <= m ==> #[trigger] table@[p]@[q] == lcs(av, bv, p, q),
            ops@.len() + walk(av, bv, i as int, j as int).len() == whole.len(),
            forall|k: int| 0 <= k < ops@.len() ==> (#[trigger] ops@[k]).0 == whole[k].0 && ops@[k].1 as int == whole[k].1,
            forall|k: int| 0 <= k < walk(av, bv, i as int, j as int).len() ==> #[trigger] walk(av, bv, i as int, j as int)[k] == whole[ops@.len() + k],
        decreases n - i + m - j,
    {
        let ghost rest = walk(av, bv, i as int, j as int);
        if i < n && j < m {
            if a[i] == b[j] {
                ops.push((OpKind::Equal, i));
                proof {
                    assert(rest[0] == (OpKind::Equal, i as int));
                    assert forall|k: int| 0 <= k < walk(av, bv, i + 1, j + 1).len() implies #[trigger] walk(av, bv, i + 1, j + 1)[k] == whole[ops@.len() + k] by {
                        assert(walk(av, bv, i + 1, j + 1)[k] == rest[k + 1]);
                    }
                }
                i = i + 1;
                j = j + 1;
            } else if table[i + 1][j] >= table[i][j + 1] {
                ops.push((OpKind::Delete, i));
                proof {
                    assert(rest[0] == (OpKind::Delete, i as int));
                    assert forall|k: int| 0 <= k < walk(av, bv, i + 1, j as int).len() implies #[trigger] walk(av, bv, i + 1, j as int)[k] == whole[ops@.len() + k] by {
                        assert(walk(av, bv, i + 1, j as int)[k] == rest[k + 1]);
                    }
                }
                i = i + 1;
            } else {
                ops.push((OpKind::Insert, j));
                proof {
                    assert(rest[0] == (OpKind::Insert, j as int));
                    assert forall|k: int| 0 <= k < walk(av, bv, i as int, j + 1).len() implies #[trigger] walk(av, bv, i as int, j + 1)[k] == whole[ops@.len() + k] by {
                        assert(walk(av, bv, i as int, j + 1)[k] == rest[k + 1]);
                    }
                }
                j = j + 1;
            }
        } else if i < n {
            ops.push((OpKind::Delete, i));
            proof {
                assert(rest[0] == (OpKind::Delete, i as int));
                assert forall|k: int| 0 <= k < walk(av, bv, i + 1, j as int).len() implies #[trigger] walk(av, bv, i + 1, j as int)[k] == whole[ops@.len() + k] by {
                    assert(walk(av, bv, i + 1, j as int)[k] == rest[k + 1]);
                }
            }
            i = i + 1;
        } else {
            ops.push((OpKind::Insert, j));
            proof {
                assert(rest[0] == (OpKind::Insert, j as int));
                assert forall|k: int| 0 <= k < walk(av, bv, i as int, j + 1).len() implies #[trigger] walk(av, bv, i as int, j + 1)[k] == whole[ops@.len() + k] by {
                    assert(walk(av, bv, i as int, j + 1)[k] == rest[k + 1]);
                }
            }
            j = j + 1;
        }
    }
    ops
}


// ---------------------------------------------------------------------
// Rendering
// ---------------------------------------------------------------------

/// The old lines consumed by the first `k` ops.
pub open spec fn old_before(ops: Seq<(OpKind, int)>, k: int) -> int
    decreases k,
{
    if k <= 0 {
        0
    } else {
        old_before(ops, k - 1) + if ops[k - 1].0 != OpKind::Insert { 1int } else { 0int }
    }
}

/// The new lines produced by the first `k` ops.
pub open spec fn new_before(ops: Seq<(OpKind, int)>, k: int) -> int
    decreases k,
{
    if k <= 0 {
        0
    } else {
        new_before(ops, k - 1) + if ops[k - 1].0 != OpKind::Delete { 1int } else { 0int }
    }
}

/// Folds the change at op `idx` into the hunk windows `ws` of a script of
/// `len` ops: its context window `[idx - 3, idx + 4)` (clipped to the script)
/// extends the last window when the two touch or overlap, and opens a new
/// one otherwise.
pub open spec fn merge_window(ws: Seq<(int, int)>, idx: int, len: int) -> Seq<(int, int)> {
    let lo = if idx - CONTEXT < 0 { 0 } else { idx - CONTEXT };
    let hi = if idx + CONTEXT + 1 < len { idx + CONTEXT + 1 } else { len };
    if ws.len() > 0 && lo <= ws.last().1 {
        ws.update(ws.len() - 1, (ws.last().0, if ws.last().1 >= hi { ws.last().1 } else { hi }))
    } else {
        ws.push((lo, hi))
    }
}

/// The hunk windows of the first `k` ops of `ops`.
pub open spec fn windows_upto(ops: Seq<(OpKind, int)>, k: int) -> Seq<(int, int)>
    decreases k,
{
    if k <= 0 {
        Seq::empty()
    } else {
        let w = windows_upto(ops, k - 1);
        if ops[k - 1].0 != OpKind::Equal {
            merge_window(w, k - 1, ops.len() as int)
        } else {
            w
        }
    }
}

/// The marker a line carries in a hunk body.
pub open spec fn marker(kind: OpKind) -> char {
    match kind {
        OpKind::Equal => ' ',
        OpKind::Delete => '-',
        OpKind::Insert => '+',
    }
}

/// The body lines of the hunk covering ops `lo..hi`.
pub open spec fn hunk_body(a: Seq<Seq<char>>, b: Seq<Seq<char>>, ops: Seq<(OpKind, int)>, lo: int, hi: int) -> Seq<char>
    decreases hi - lo,
{
    if lo >= hi {
        Seq::empty()
    } else {
        hunk_body(a, b, ops, lo, hi - 1) + seq![marker(ops[hi - 1].0)] + op_line(a, b, ops[hi - 1]) + seq!['\n']
    }
}

/// `@@ -<old start>,<old count> +<new start>,<new count> @@` for ops `lo..hi`.
pub open spec fn hunk_header(ops: Seq<(OpKind, int)>, lo: int, hi: int) -> Seq<char> {
    "@@ -"@ + decimal((old_before(ops, lo) + 1) as nat) + ","@
        + decimal((old_before(ops, hi) - old_before(ops, lo)) as nat) + " +"@
        + decimal((new_before(ops, lo) + 1) as nat) + ","@
        + decimal((new_before(ops, hi) - new_before(ops, lo)) as nat) + " @@\n"@
}

/// The first `k` hunks of `ws`, rendered.
pub open spec fn hunks(a: Seq<Seq<char>>, b: Seq<Seq<char>>, ops: Seq<(OpKind, int)>, ws: Seq<(int, int)>, k: int) -> Seq<char>
    decreases k,
{
    if k <= 0 {
        Seq::empty()
    } else {
        hunks(a, b, ops, ws, k - 1) + hunk_header(ops, ws[k - 1].0, ws[k - 1].1)
            + hunk_body(a, b, ops, ws[k - 1].0, ws[k - 1].1)
    }
}

/// The coarse summary shown when a line diff would exceed [`MAX_DIFF_CELLS`].
pub open spec fn omitted_summary(old_label: Seq<char>, new_label: Seq<char>, n: nat, m: nat) -> Seq<char> {
    "--- "@ + old_label + "\n+++ "@ + new_label + "\n@@ diff omitted: "@ + decimal(n)
        + " old line(s), "@ + decimal(m) + " new line(s) -- exceeds this preview's "@
        + decimal(MAX_DIFF_CELLS as nat) + "-cell bound @@\n"@
}

/// The unified diff of `old_text` against `new_text`: empty when the texts
/// are identical or differ in no line; the coarse summary past the cell
/// bound; otherwise the `---`/`+++` headers and one hunk per context window.
pub open spec fn unified(old_label: Seq<char>, new_label: Seq<char>, old_text: Seq<char>, new_text: Seq<char>) -> Seq<char> {
    let a = lines_of(old_text);
    let b = lines_of(new_text);
    let ops = edit_script(a, b);
    let ws = windows_upto(ops, ops.len() as int);
    if old_text == new_text {
        Seq::empty()
    } else if (a.len() + 1) * (b.len() + 1) > MAX_DIFF_CELLS {
        omitted_summary(old_label, new_label, a.len(), b.len())
    } else if ws.len() == 0 {
        Seq::empty()
    } else {
        "--- "@ + old_label + "\n+++ "@ + new_label + "\n"@ + hunks(a, b, ops, ws, ws.len() as int)
    }
}

/// Whether two character slices are equal.
pub fn chars_eq(x: &[char], y: &[char]) -> (r: bool)
    ensures
        r == (x@ == y@),
{
    if x.len() != y.len() {
        return false;
    }
    let mut k: usize = 0;
    while k < x.len()
        invariant
            k <= x.len(),
            x.len() == y.len(),
            forall|q: int| 0 <= q < k ==> x@[q] == y@[q],
        decreases x.len() - k,
    {
        if x[k] != y[k] {
            return false;
        }
        k = k + 1;
    }
    assert(x@ =~= y@);
    true
}

proof fn lemma_cells_bound(n: int, m: int)
    requires
        0 <= n,
        0 <= m,
        (n + 1) * (m + 1) <= MAX_DIFF_CELLS,
    ensures
        n < MAX_DIFF_CELLS,
        m < MAX_DIFF_CELLS,
{
    assert((n + 1) * (m + 1) >= n + 1) by (nonlinear_arith)
        requires
            0 <= n,
            0 <= m,
    ;
    assert((n + 1) * (m + 1) >= m + 1) by (nonlinear_arith)
        requires
            0 <= n,
            0 <= m,
    ;
}

proof fn lemma_before_bounds(ops: Seq<(OpKind, int)>, k: int)
    requires
        0 <= k <= ops.len(),
    ensures
        0 <= old_before(ops, k) <= k,
        0 <= new_before(ops, k) <= k,
        forall|p: int| 0 <= p <= k ==> old_before(ops, p) <= old_before(ops, k),
        forall|p: int| 0 <= p <= k ==> new_before(ops, p) <= new_before(ops, k),
    decreases k,
{
    if k > 0 {
        lemma_before_bounds(ops, k - 1);
    }
}

fn push_hunk_header(out: &mut String, ob: &Vec<usize>, nb: &Vec<usize>, lo: usize, hi: usize, Ghost(ops): Ghost<Seq<(OpKind, int)>>)
    requires
        lo <= hi < ob.len(),
        ob.len() == nb.len(),
        ob.len() == ops.len() + 1,
        forall|k: int| 0 <= k < ob.len() ==> #[trigger] ob@[k] == old_before(ops, k),
        forall|k: int| 0 <= k < nb.len() ==> #[trigger] nb@[k] == new_before(ops, k),
    ensures
        final(out)@ == old(out)@ + hunk_header(ops, lo as int, hi as int),
{
    proof {
        lemma_before_bounds(ops, hi as int);
    }
    let ghost start = out@;
    push_str(out, "@@ -");
    push_decimal(out, (ob[lo] + 1) as u64);
    push_str(out, ",");
    push_decimal(out, (ob[hi] - ob[lo]) as u64);
    push_str(out, " +");
    push_decimal(out, (nb[lo] + 1) as u64);
    push_str(out, ",");
    push_decimal(out, (nb[hi] - nb[lo]) as u64);
    push_str(out, " @@\n");
    assert(out@ =~= start + hunk_header(ops, lo as int, hi as int));
}

/// Renders a unified diff between `old_text` and `new_text`, labelled with
/// `old_label`/`new_label` for the `---`/`+++` headers.
pub fn unified_diff(old_label: &str, new_label: &str, old_text: &str, new_text: &str) -> (r: String)
    ensures
        r@ == unified(old_label@, new_label@, old_text@, new_text@),
{
    let old_chars = chars_of(old_text);
    let new_chars = chars_of(new_text);
    let ghost a = lines_of(old_text@);
    let ghost b = lines_of(new_text@);
    if chars_eq(&old_chars, &new_chars) {
        return String::new();
    }
    let old_lines = split_lines(&old_chars);
    let new_lines = split_lines(&new_chars);
    let n = old_lines.len();
    let m = new_lines.len();
    let too_big: bool = if n as u64 >= MAX_DIFF_CELLS || m as u64 >= MAX_DIFF_CELLS {
        assert((n + 1) * (m + 1) > MAX_DIFF_CELLS) by (nonlinear_arith)
            requires
                n >= MAX_DIFF_CELLS || m >= MAX_DIFF_CELLS,
        ;
        true
    } else {
        assert((n + 1) * (m + 1) <= MAX_DIFF_CELLS * MAX_DIFF_CELLS) by (nonlinear_arith)
            requires
                n < MAX_DIFF_CELLS,
                m < MAX_DIFF_CELLS,
        ;
        (n as u64 + 1) * (m as u64 + 1) > MAX_DIFF_CELLS
    };
    if too_big {
        let mut out = String::new();
        push_str(&mut out, "--- ");
        push_str(&mut out, old_label);
        push_str(&mut out, "\n+++ ");
        push_str(&mut out, new_label);
        push_str(&mut out, "\n@@ diff omitted: ");
        push_decimal(&mut out, n as u64);
        push_str(&mut out, " old line(s), ");
        push_decimal(&mut out, m as u64);
        push_str(&mut out, " new line(s) -- exceeds this preview's ");
        push_decimal(&mut out, MAX_DIFF_CELLS);
        push_str(&mut out, "-cell bound @@\n");
        assert(out@ =~= omitted_summary(old_label@, new_label@, a.len(), b.len()));
        return out;
    }
    proof {
        lemma_cells_bound(n as int, m as int);
    }
    let ops = diff_ops(&old_lines, &new_lines);
    let ghost sops = edit_script(a, b);
    let len = ops.len();
    proof {
        lemma_walk_indices(a, b, 0, 0);
    }

    // Lines consumed on each side before each op.
    let mut ob: Vec<usize> = Vec::new();
    let mut nb: Vec<usize> = Vec::new();
    ob.push(0);
    nb.push(0);
    let mut k: usize = 0;
    while k < len
        invariant
            k <= len,
            len == ops@.len(),
            len == sops.len(),
            forall|q: int| 0 <= q < len ==> (#[trigger] ops@[q]).0 == sops[q].0,
            ob.len() == k + 1,
            nb.len() == k + 1,
            forall|q: int| 0 <= q <= k ==> #[trigger] ob@[q] == old_before(sops, q),
            forall|q: int| 0 <= q <= k ==> #[trigger] nb@[q] == new_before(sops, q),
        decreases len - k,
    {
        proof {
            lemma_before_bounds(sops, k as int);
        }
        let co: usize = if ops[k].0 != OpKind::Insert { 1 } else { 0 };
        let cn: usize = if ops[k].0 != OpKind::Delete { 1 } else { 0 };
        let o = ob[k] + co;
        let w = nb[k] + cn;
        ob.push(o);
        nb.push(w);
        k = k + 1;
    }

    // Context windows around every changed op.
    let mut windows: Vec<(usize, usize)> = Vec::new();
    let mut k: usize = 0;
    assert(len < 2 * MAX_DIFF_CELLS);
    while k < len
        invariant
            k <= len,
            len < 2 * MAX_DIFF_CELLS,
            len == ops@.len(),
            len == sops.len(),
            forall|q: int| 0 <= q < len ==> (#[trigger] ops@[q]).0 == sops[q].0,
            windows@.len() == windows_upto(sops, k as int).len(),
            forall|q: int| 0 <= q < windows@.len() ==> (#[trigger] windows@[q]).0 as int == windows_upto(sops, k as int)[q].0
                && windows@[q].1 as int == windows_upto(sops, k as int)[q].1,
            forall|q: int| 0 <= q < windows@.len() ==> (#[trigger] windows@[q]).0 <= windows@[q].1 <= len,
        decreases len - k,
    {
        if ops[k].0 != OpKind::Equal {
            let lo: usize = if k >= CONTEXT { k - CONTEXT } else { 0 };
            let hi: usize = if k + CONTEXT + 1 < len { k + CONTEXT + 1 } else { len };
            let wl = windows.len();
            if wl > 0 && lo <= windows[wl - 1].1 {
                let (last_lo, last_hi) = windows[wl - 1];
                let new_hi = if last_hi >= hi { last_hi } else { hi };
                windows.set(wl - 1, (last_lo, new_hi));
            } else {
                windows.push((lo, hi));
            }
        }
        k = k + 1;
    }
    let ghost ws = windows_upto(sops, len as int);
    if windows.len() == 0 {
        return String::new();
    }

    let mut out = String::new();
    push_str(&mut out, "--- ");
    push_str(&mut out, old_label);
    push_str(&mut out, "\n+++ ");
    push_str(&mut out, new_label);
    push_str(&mut out, "\n");
    let ghost head = out@;
    assert(head =~= "--- "@ + old_label@ + "\n+++ "@ + new_label@ + "\n"@);
    let mut w: usize = 0;
    while w < windows.len()
        invariant
            w <= windows@.len(),
            windows@.len() == ws.len(),
            len == ops@.len(),
            len == sops.len(),
            ob.len() == len + 1,
            nb.len() == len + 1,
            forall|q: int| 0 <= q <= len ==> #[trigger] ob@[q] == old_before(sops, q),
            forall|q: int| 0 <= q <= len ==> #[trigger] nb@[q] == new_before(sops, q),
            forall|q: int| 0 <= q < windows@.len() ==> (#[trigger] windows@[q]).0 as int == ws[q].0
                && windows@[q].1 as int == ws[q].1,
            forall|q: int| 0 <= q < windows@.len() ==> (#[trigger] windows@[q]).0 <= windows@[q].1 <= len,
            forall|q: int| 0 <= q < len ==> (#[trigger] ops@[q]).0 == sops[q].0 && ops@[q].1 as int == sops[q].1,
            forall|q: int| 0 <= q < len ==> {
                let op = #[trigger] sops[q];
                if op.0 == OpKind::Insert { 0 <= op.1 < b.len() } else { 0 <= op.1 < a.len() }
            },
            old_lines.deep_view() == a,
            new_lines.deep_view() == b,
            out@ == head + hunks(a, b, sops, ws, w as int),
        decreases windows@.len() - w,
    {
        let (lo, hi) = windows[w];
        push_hunk_header(&mut out, &ob, &nb, lo, hi, Ghost(sops));
        let ghost mid = out@;
        let mut k = lo;
        while k < hi
            invariant
                lo <= k <= hi,
                hi <= len,
                len == ops@.len(),
                len == sops.len(),
                forall|q: int| 0 <= q < len ==> (#[trigger] ops@[q]).0 == sops[q].0 && ops@[q].1 as int == sops[q].1,
                forall|q: int| 0 <= q < len ==> {
                    let op = #[trigger] sops[q];
                    if op.0 == OpKind::Insert { 0 <= op.1 < b.len() } else { 0 <= op.1 < a.len() }
                },
                old_lines.deep_view() == a,
                new_lines.deep_view() == b,
                out@ == mid + hunk_body(a, b, sops, lo as int, k as int),
            decreases hi - k,
        {
            let (kind, idx) = ops[k];
            let mk = if kind == OpKind::Equal { ' ' } else if kind == OpKind::Delete { '-' } else { '+' };
            let ghost before = out@;
            push_char(&mut out, mk);
            if kind == OpKind::Insert {
                push_str(&mut out, new_lines[idx].as_str());
                assert(new_lines@[idx as int]@ == b[idx as int]);
            } else {
                push_str(&mut out, old_lines[idx].as_str());
                assert(old_lines@[idx as int]@ == a[idx as int]);
            }
            push_char(&mut out, '\n');
            assert(out@ =~= before + seq![marker(sops[k as int].0)] + op_line(a, b, sops[k as int]) + seq!['\n']);
            k = k + 1;
        }
        w = w + 1;
    }
    out
}


/// Identical texts never produce a diff.
pub proof fn law_identical_texts_have_no_diff(old_label: Seq<char>, new_label: Seq<char>, text: Seq<char>)
    ensures
        unified(old_label, new_label, text, text) == Seq::<char>::empty(),
{
}

/// The edit script behind every diff is faithful and minimal: replaying its
/// old side gives back the old lines, its new side gives the new lines, and
/// it keeps a longest common subsequence of the two.
pub proof fn law_edit_script_is_faithful_and_minimal(a: Seq<Seq<char>>, b: Seq<Seq<char>>)
    ensures
        old_side(a, b, edit_script(a, b)) == a,
        new_side(a, b, edit_script(a, b)) == b,
        kept(edit_script(a, b)) == lcs(a, b, 0, 0),
{
    lemma_walk_reconstructs(a, b, 0, 0);
    assert(a.skip(0) =~= a);
    assert(b.skip(0) =~= b);
}

proof fn lemma_sides_concat(a: Seq<Seq<char>>, b: Seq<Seq<char>>, x: Seq<(OpKind, int)>, y: Seq<(OpKind, int)>)
    ensures
        old_side(a, b, x + y) == old_side(a, b, x) + old_side(a, b, y),
        new_side(a, b, x + y) == new_side(a, b, x) + new_side(a, b, y),
    decreases x.len(),
{
    if x.len() == 0 {
        assert(x + y =~= y);
        assert(old_side(a, b, x) =~= Seq::<Seq<char>>::empty());
        assert(new_side(a, b, x) =~= Seq::<Seq<char>>::empty());
        assert(old_side(a, b, y) =~= Seq::<Seq<char>>::empty() + old_side(a, b, y));
        assert(new_side(a, b, y) =~= Seq::<Seq<char>>::empty() + new_side(a, b, y));
    } else {
        lemma_sides_concat(a, b, x.drop_first(), y);
        assert((x + y).drop_first() =~= x.drop_first() + y);
        assert((x + y)[0] == x[0]);
        if x[0].0 == OpKind::Insert {
            assert(new_side(a, b, x + y) =~= seq![op_line(a, b, x[0])] + new_side(a, b, x.drop_first() + y));
            assert(new_side(a, b, x) =~= seq![op_line(a, b, x[0])] + new_side(a, b, x.drop_first()));
            assert(new_side(a, b, x + y) =~= new_side(a, b, x) + new_side(a, b, y));
        } else if x[0].0 == OpKind::Delete {
            assert(old_side(a, b, x + y) =~= seq![op_line(a, b, x[0])] + old_side(a, b, x.drop_first() + y));
            assert(old_side(a, b, x) =~= seq![op_line(a, b, x[0])] + old_side(a, b, x.drop_first()));
            assert(old_side(a, b, x + y) =~= old_side(a, b, x) + old_side(a, b, y));
        } else {
            assert(new_side(a, b, x + y) =~= seq![op_line(a, b, x[0])] + new_side(a, b, x.drop_first() + y));
            assert(new_side(a, b, x) =~= seq![op_line(a, b, x[0])] + new_side(a, b, x.drop_first()));
            assert(new_side(a, b, x + y) =~= new_side(a, b, x) + new_side(a, b, y));
            assert(old_side(a, b, x + y) =~= seq![op_line(a, b, x[0])] + old_side(a, b, x.drop_first() + y));
            assert(old_side(a, b, x) =~= seq![op_line(a, b, x[0])] + old_side(a, b, x.drop_first()));
            assert(old_side(a, b, x + y) =~= old_side(a, b, x) + old_side(a, b, y));
        }
    }
}

proof fn lemma_sides_of_prefix(a: Seq<Seq<char>>, b: Seq<Seq<char>>, ops: Seq<(OpKind, int)>, k: int)
    requires
        0 <= k <= ops.len(),
    ensures
        old_side(a, b, ops.take(k)).len() == old_before(ops, k),
        new_side(a, b, ops.take(k)).len() == new_before(ops, k),
    decreases k,
{
    if k == 0 {
        assert(ops.take(0) =~= Seq::<(OpKind, int)>::empty());
    } else {
        lemma_sides_of_prefix(a, b, ops, k - 1);
        let one = seq![ops[k - 1]];
        assert(ops.take(k) =~= ops.take(k - 1) + one);
        lemma_sides_concat(a, b, ops.take(k - 1), one);
        assert(one.drop_first() =~= Seq::<(OpKind, int)>::empty());
        assert(old_side(a, b, one.drop_first()) =~= Seq::<Seq<char>>::empty());
        assert(new_side(a, b, one.drop_first()) =~= Seq::<Seq<char>>::empty());
    }
}

/// A hunk header locates its hunk in both texts: of the edit script between
/// the old lines `a` and the new lines `b`, the hunk of ops `lo..hi` starts
/// one line past the old lines and one line past the new lines that the
/// ops before it account for -- so an insertion or deletion in an earlier
/// hunk shifts only the side it touches -- and its counts are the old and
/// new lines the hunk itself covers. Those lines are exactly the lines of
/// `a` and of `b` at the positions the header names.
pub proof fn law_hunk_header_locates_the_hunk(a: Seq<Seq<char>>, b: Seq<Seq<char>>, lo: int, hi: int)
    requires
        0 <= lo <= hi <= edit_script(a, b).len(),
    ensures
        ({
            let ops = edit_script(a, b);
            let po = old_side(a, b, ops.take(lo));
            let pn = new_side(a, b, ops.take(lo));
            let ho = old_side(a, b, ops.subrange(lo, hi));
            let hn = new_side(a, b, ops.subrange(lo, hi));
            &&& hunk_header(ops, lo, hi) == "@@ -"@ + decimal(po.len() + 1) + ","@ + decimal(ho.len()) + " +"@
                + decimal(pn.len() + 1) + ","@ + decimal(hn.len()) + " @@\n"@
            &&& po + ho == a.take((po.len() + ho.len()) as int)
            &&& pn + hn == b.take((pn.len() + hn.len()) as int)
        }),
{
    let ops = edit_script(a, b);
    lemma_sides_of_prefix(a, b, ops, lo);
    lemma_sides_of_prefix(a, b, ops, hi);
    assert(ops.take(hi) =~= ops.take(lo) + ops.subrange(lo, hi));
    lemma_sides_concat(a, b, ops.take(lo), ops.subrange(lo, hi));
    assert(ops =~= ops.take(hi) + ops.skip(hi));
    lemma_sides_concat(a, b, ops.take(hi), ops.skip(hi));
    law_edit_script_is_faithful_and_minimal(a, b);
    let po = old_side(a, b, ops.take(lo));
    let pn = new_side(a, b, ops.take(lo));
    let ho = old_side(a, b, ops.subrange(lo, hi));
    let hn = new_side(a, b, ops.subrange(lo, hi));
    assert(a.take((po.len() + ho.len()) as int) =~= po + ho);
    assert(b.take((pn.len() + hn.len()) as int) =~= pn + hn);
    assert((old_before(ops, lo) + 1) as nat == po.len() + 1);
    assert((new_before(ops, lo) + 1) as nat == pn.len() + 1);
    assert((old_before(ops, hi) - old_before(ops, lo)) as nat == ho.len());
    assert((new_before(ops, hi) - new_before(ops, lo)) as nat == hn.len());
}

// ---------------------------------------------------------------------
// Literal substring replacement (what the `edit` tool does to a file)
// ---------------------------------------------------------------------

/// The number of non-overlapping, leftmost-first occurrences of `p` in `s`
/// (`str::matches(p).count()`); an empty `p` matches at every one of the
/// `s.len() + 1` character boundaries.
pub open spec fn count_matches(s: Seq<char>, p: Seq<char>) -> nat
    decreases s.len(),
{
    if p.len() == 0 {
        s.len() + 1
    } else if s.len() < p.len() {
        0
    } else if occurs_at(s, p, 0) {
        1 + count_matches(s.skip(p.len() as int), p)
    } else {
        count_matches(s.skip(1), p)
    }
}

/// `s` with every non-overlapping, leftmost-first occurrence of `p`
/// replaced by `r` (`str::replace`); an empty `p` puts `r` at every
/// character boundary.
pub open spec fn replace_all(s: Seq<char>, p: Seq<char>, r: Seq<char>) -> Seq<char>
    decreases s.len(),
{
    if p.len() == 0 {
        if s.len() == 0 {
            r
        } else {
            r + seq![s[0]] + replace_all(s.skip(1), p, r)
        }
    } else if s.len() < p.len() {
        s
    } else if occurs_at(s, p, 0) {
        r + replace_all(s.skip(p.len() as int), p, r)
    } else {
        seq![s[0]] + replace_all(s.skip(1), p, r)
    }
}

/// `s` with its first occurrence of `p` replaced by `r`
/// (`str::replacen(p, r, 1)`).
pub open spec fn replace_first(s: Seq<char>, p: Seq<char>, r: Seq<char>) -> Seq<char>
    decreases s.len(),
{
    if p.len() == 0 {
        r + s
    } else if s.len() < p.len() {
        s
    } else if occurs_at(s, p, 0) {
        r + s.skip(p.len() as int)
    } else {
        seq![s[0]] + replace_first(s.skip(1), p, r)
    }
}

/// What the `edit` tool does with `old_string`/`new_string`: refused
/// (`None`) when the two are equal, when `old_string` does not occur, or
/// when it occurs more than once without `replace_all`; otherwise the new
/// content and the number of replacements.
pub open spec fn edit_outcome(content: Seq<char>, old_string: Seq<char>, new_string: Seq<char>, all: bool) -> Option<(Seq<char>, nat)> {
    let count = count_matches(content, old_string);
    if old_string == new_string {
        None
    } else if count == 0 {
        None
    } else if count > 1 && !all {
        None
    } else if all {
        Some((replace_all(content, old_string, new_string), count))
    } else {
        Some((replace_first(content, old_string, new_string), 1nat))
    }
}

proof fn lemma_occurs_skip(s: Seq<char>, p: Seq<char>, i: int)
    requires
        0 <= i <= s.len(),
    ensures
        occurs_at(s.skip(i), p, 0) == occurs_at(s, p, i),
{
    if occurs_at(s, p, i) {
        assert(s.skip(i).subrange(0, p.len() as int) =~= s.subrange(i, i + p.len()));
    }
    if occurs_at(s.skip(i), p, 0) {
        assert(s.skip(i).subrange(0, p.len() as int) =~= s.subrange(i, i + p.len()));
    }
}

proof fn lemma_count_bound(s: Seq<char>, p: Seq<char>)
    requires
        p.len() > 0,
    ensures
        count_matches(s, p) <= s.len(),
    decreases s.len(),
{
    if s.len() >= p.len() {
        if occurs_at(s, p, 0) {
            lemma_count_bound(s.skip(p.len() as int), p);
        } else {
            lemma_count_bound(s.skip(1), p);
        }
    }
}

/// `count_matches(s, p)` for a non-empty `p`, by a left-to-right scan.
fn count_occurrences(s: &[char], p: &[char]) -> (c: usize)
    requires
        p@.len() > 0,
    ensures
        c == count_matches(s@, p@),
{
    let mut i: usize = 0;
    let mut c: usize = 0;
    proof {
        assert(s@.skip(0) =~= s@);
        lemma_count_bound(s@, p@);
    }
    while p.len() <= s.len() - i
        invariant
            i <= s.len(),
            p.len() > 0,
            c + count_matches(s@.skip(i as int), p@) == count_matches(s@, p@),
            count_matches(s@, p@) <= s@.len(),
        decreases s.len() - i,
    {
        proof {
            lemma_occurs_skip(s@, p@, i as int);
        }
        if matches_at(s, p, i) {
            proof {
                assert(s@.skip(i as int).skip(p.len() as int) =~= s@.skip(i + p.len()));
                lemma_count_bound(s@.skip(i + p.len()), p@);
            }
            c = c + 1;
            i = i + p.len();
        } else {
            proof {
                assert(s@.skip(i as int).skip(1) =~= s@.skip(i + 1));
                lemma_count_bound(s@.skip(i + 1), p@);
            }
            i = i + 1;
        }
    }
    c
}

/// `replace_all(s, p, r)` computed by a left-to-right scan.
fn replace_every(s: &[char], p: &[char], r: &[char]) -> (out: Vec<char>)
    ensures
        out@ == replace_all(s@, p@, r@),
{
    let mut out: Vec<char> = Vec::new();
    let mut i: usize = 0;
    assert(s@.skip(0) =~= s@);
    if p.len() == 0 {
        while i < s.len()
            invariant
                i <= s.len(),
                p@.len() == 0,
                out@ + replace_all(s@.skip(i as int), p@, r@) == replace_all(s@, p@, r@),
            decreases s.len() - i,
        {
            let ghost before = out@;
            let mut k: usize = 0;
            while k < r.len()
                invariant
                    k <= r.len(),
                    out@ == before + r@.take(k as int),
                decreases r.len() - k,
            {
                out.push(r[k]);
                k = k + 1;
                assert(out@ =~= before + r@.take(k as int));
            }
            out.push(s[i]);
            proof {
                assert(r@.take(r.len() as int) =~= r@);
                assert(s@.skip(i as int).skip(1) =~= s@.skip(i + 1));
                assert(out@ + replace_all(s@.skip(i + 1), p@, r@) =~= before + replace_all(s@.skip(i as int), p@, r@));
            }
            i = i + 1;
        }
        let ghost before = out@;
        let mut k: usize = 0;
        while k < r.len()
            invariant
                k <= r.len(),
                out@ == before + r@.take(k as int),
            decreases r.len() - k,
        {
            out.push(r[k]);
            k = k + 1;
            assert(out@ =~= before + r@.take(k as int));
        }
        proof {
            assert(r@.take(r.len() as int) =~= r@);
            assert(s@.skip(i as int).len() == 0);
        }
        return out;
    }
    while p.len() <= s.len() - i
        invariant
            i <= s.len(),
            p.len() > 0,
            out@ + replace_all(s@.skip(i as int), p@, r@) == replace_all(s@, p@, r@),
        decreases s.len() - i,
    {
        proof {
            lemma_occurs_skip(s@, p@, i as int);
        }
        let ghost before = out@;
        if matches_at(s, p, i) {
            let mut k: usize = 0;
            while k < r.len()
                invariant
                    k <= r.len(),
                    out@ == before + r@.take(k as int),
                decreases r.len() - k,
            {
                out.push(r[k]);
                k = k + 1;
                assert(out@ =~= before + r@.take(k as int));
            }
            proof {
                assert(r@.take(r.len() as int) =~= r@);
                assert(s@.skip(i as int).skip(p.len() as int) =~= s@.skip(i + p.len()));
                assert(out@ + replace_all(s@.skip(i + p.len()), p@, r@) =~= before + replace_all(s@.skip(i as int), p@, r@));
            }
            i = i + p.len();
        } else {
            out.push(s[i]);
            proof {
                assert(s@.skip(i as int).skip(1) =~= s@.skip(i + 1));
                assert(out@ + replace_all(s@.skip(i + 1), p@, r@) =~= before + replace_all(s@.skip(i as int), p@, r@));
            }
            i = i + 1;
        }
    }
    let ghost before = out@;
    let tail_start = i;
    while i < s.len()
        invariant
            tail_start <= i <= s.len(),
            out@ == before + s@.subrange(tail_start as int, i as int),
        decreases s.len() - i,
    {
        out.push(s[i]);
        i = i + 1;
        assert(out@ =~= before + s@.subrange(tail_start as int, i as int));
    }
    assert(s@.subrange(tail_start as int, s.len() as int) =~= s@.skip(tail_start as int));
    out
}

/// `replace_first(s, p, r)` computed by a left-to-right scan.
fn replace_once(s: &[char], p: &[char], r: &[char]) -> (out: Vec<char>)
    ensures
        out@ == replace_first(s@, p@, r@),
{
    let mut out: Vec<char> = Vec::new();
    let mut i: usize = 0;
    assert(s@.skip(0) =~= s@);
    let mut found = false;
    if p.len() == 0 {
        let mut k: usize = 0;
        while k < r.len()
            invariant
                k <= r.len(),
                out@ == r@.take(k as int),
            decreases r.len() - k,
        {
            out.push(r[k]);
            k = k + 1;
            assert(out@ =~= r@.take(k as int));
        }
        assert(r@.take(r.len() as int) =~= r@);
        found = true;
    }
    while !found && p.len() <= s.len() - i
        invariant
            i <= s.len(),
            !found ==> p.len() > 0,
            !found ==> out@ + replace_first(s@.skip(i as int), p@, r@) == replace_first(s@, p@, r@),
            found ==> out@ + s@.skip(i as int) == replace_first(s@, p@, r@),
        decreases s.len() - i, (if found { 0int } else { 1int }),
    {
        proof {
            lemma_occurs_skip(s@, p@, i as int);
        }
        let ghost before = out@;
        if matches_at(s, p, i) {
            let mut k: usize = 0;
            while k < r.len()
                invariant
                    k <= r.len(),
                    out@ == before + r@.take(k as int),
                decreases r.len() - k,
            {
                out.push(r[k]);
                k = k + 1;
                assert(out@ =~= before + r@.take(k as int));
            }
            proof {
                assert(r@.take(r.len() as int) =~= r@);
                assert(s@.skip(i as int).skip(p.len() as int) =~= s@.skip(i + p.len()));
                assert(out@ + s@.skip(i + p.len()) =~= before + replace_first(s@.skip(i as int), p@, r@));
            }
            i = i + p.len();
            found = true;
        } else {
            out.push(s[i]);
            proof {
                assert(s@.skip(i as int).skip(1) =~= s@.skip(i + 1));
                assert(out@ + replace_first(s@.skip(i + 1), p@, r@) =~= before + replace_first(s@.skip(i as int), p@, r@));
            }
            i = i + 1;
        }
    }
    if !found {
        assert(replace_first(s@.skip(i as int), p@, r@) == s@.skip(i as int));
    }
    let ghost before = out@;
    let tail_start = i;
    while i < s.len()
        invariant
            tail_start <= i <= s.len(),
            out@ == before + s@.subrange(tail_start as int, i as int),
        decreases s.len() - i,
    {
        out.push(s[i]);
        i = i + 1;
        assert(out@ =~= before + s@.subrange(tail_start as int, i as int));
    }
    assert(s@.subrange(tail_start as int, s.len() as int) =~= s@.skip(tail_start as int));
    out
}

/// Whether `content` holds more than one match of an empty pattern, i.e.
/// is non-empty (an empty pattern matches at every character boundary).
proof fn lemma_empty_pattern_count(s: Seq<char>, p: Seq<char>)
    requires
        p.len() == 0,
    ensures
        count_matches(s, p) == s.len() + 1,
{
}

/// The text half of [`edit_outcome`]: the new content, or `None` where the
/// tool refuses.
fn edit_text(content: &[char], o: &[char], n: &[char], all: bool) -> (r: Option<Vec<char>>)
    ensures
        match edit_outcome(content@, o@, n@, all) {
            None => r is None,
            Some((text, _)) => r matches Some(v) && v@ == text,
        },
{
    if chars_eq(o, n) {
        return None;
    }
    if o.len() == 0 {
        proof {
            lemma_empty_pattern_count(content@, o@);
        }
        if !all && content.len() > 0 {
            return None;
        }
    } else {
        let count = count_occurrences(content, o);
        if count == 0 {
            return None;
        }
        if count > 1 && !all {
            return None;
        }
    }
    if all {
        Some(replace_every(content, o, n))
    } else {
        Some(replace_once(content, o, n))
    }
}

/// Mirrors the `edit` tool's literal substring replacement: `None` in every
/// case the tool would refuse, else the new content and the number of
/// replacements (see [`edit_outcome`]).
pub fn simulate_edit(content: &str, old_string: &str, new_string: &str, replace_all: bool) -> (r: Option<(String, usize)>)
    requires
        content@.len() < usize::MAX,
    ensures
        match edit_outcome(content@, old_string@, new_string@, replace_all) {
            None => r is None,
            Some((text, count)) => r matches Some((s, n)) && s@ == text && n == count,
        },
{
    let c = chars_of(content);
    let o = chars_of(old_string);
    let n = chars_of(new_string);
    match edit_text(&c, &o, &n, replace_all) {
        None => None,
        Some(out) => {
            let count = if !replace_all {
                1
            } else if o.len() == 0 {
                proof {
                    lemma_empty_pattern_count(c@, o@);
                }
                c.len() + 1
            } else {
                count_occurrences(&c, &o)
            };
            Some((string_of(&out), count))
        }
    }
}

// ---------------------------------------------------------------------
// File touches and the cumulative per-path diff
// ---------------------------------------------------------------------

/// What one successful `edit`/`write` call did to its file.
#[derive(Debug, PartialEq, Eq)]
pub enum TouchKind {
    Edit {
        old_string: String,
        new_string: String,
        replace_all: bool,
    },
    Write {
        content: String,
    },
}

/// One successful `edit`/`write` call against `path`.
#[derive(Debug, PartialEq, Eq)]
pub struct FileTouch {
    pub path: String,
    pub kind: TouchKind,
}

/// The string-valued (and boolean) fields of a tool call's JSON
/// `arguments` that a file touch is read from: each is `Some` exactly when
/// the field is present with a value of that JSON type.
pub struct ToolArgs {
    pub path: Option<String>,
    pub content: Option<String>,
    pub old_string: Option<String>,
    pub new_string: Option<String>,
    pub replace_all: Option<bool>,
}

/// The content a touch produces from `before`: a `write` replaces it, an
/// `edit` applies the tool's replacement, and an edit the tool would refuse
/// leaves `before` unchanged.
pub open spec fn apply(before: Seq<char>, kind: TouchKind) -> Seq<char> {
    match kind {
        TouchKind::Write { content } => content@,
        TouchKind::Edit { old_string, new_string, replace_all } => match edit_outcome(before, old_string@, new_string@, replace_all) {
            Some((text, _)) => text,
            None => before,
        },
    }
}

/// Undoes one touch from `after`: a `write` leaves nothing to go back to
/// (empty), an `edit` is undone by replacing `new_string` back with
/// `old_string`, and an undo the tool would refuse leaves `after` unchanged.
pub open spec fn unapply_one(after: Seq<char>, kind: TouchKind) -> Seq<char> {
    match kind {
        TouchKind::Write { .. } => Seq::empty(),
        TouchKind::Edit { old_string, new_string, replace_all } => match edit_outcome(after, new_string@, old_string@, replace_all) {
            Some((text, _)) => text,
            None => after,
        },
    }
}

/// Folds `kinds` onto `start` in order.
pub open spec fn apply_all(start: Seq<char>, kinds: Seq<TouchKind>) -> Seq<char>
    decreases kinds.len(),
{
    if kinds.len() == 0 {
        start
    } else {
        apply(apply_all(start, kinds.drop_last()), kinds.last())
    }
}

/// Walks `current` back through `kinds`, newest first.
pub open spec fn unapply_all(current: Seq<char>, kinds: Seq<TouchKind>) -> Seq<char>
    decreases kinds.len(),
{
    if kinds.len() == 0 {
        current
    } else {
        unapply_all(unapply_one(current, kinds.last()), kinds.drop_last())
    }
}

/// Folds one touch onto `before` (see [`apply`]).
pub fn apply_touch(before: &str, kind: &TouchKind) -> (r: String)
    ensures
        r@ == apply(before@, *kind),
{
    match kind {
        TouchKind::Write { content } => string_from(content.as_str()),
        TouchKind::Edit { old_string, new_string, replace_all } => {
            let c = chars_of(before);
            let o = chars_of(old_string.as_str());
            let n = chars_of(new_string.as_str());
            match edit_text(&c, &o, &n, *replace_all) {
                Some(out) => string_of(&out),
                None => string_from(before),
            }
        }
    }
}

/// Undoes one touch from `after` (see [`unapply_one`]).
fn unapply_touch(after: &str, kind: &TouchKind) -> (r: String)
    ensures
        r@ == unapply_one(after@, *kind),
{
    match kind {
        TouchKind::Write { .. } => String::new(),
        TouchKind::Edit { old_string, new_string, replace_all } => {
            let c = chars_of(after);
            let o = chars_of(old_string.as_str());
            let n = chars_of(new_string.as_str());
            match edit_text(&c, &n, &o, *replace_all) {
                Some(out) => string_of(&out),
                None => string_from(after),
            }
        }
    }
}

/// A file touch by the views of what it holds.
pub enum KindView {
    Edit { old_string: Seq<char>, new_string: Seq<char>, replace_all: bool },
    Write { content: Seq<char> },
}

/// The view of a touch kind.
pub open spec fn kind_view(k: TouchKind) -> KindView {
    match k {
        TouchKind::Edit { old_string, new_string, replace_all } => KindView::Edit {
            old_string: old_string@,
            new_string: new_string@,
            replace_all,
        },
        TouchKind::Write { content } => KindView::Write { content: content@ },
    }
}

/// The view of a touch: its path and kind.
pub open spec fn touch_view(t: FileTouch) -> (Seq<char>, KindView) {
    (t.path@, kind_view(t.kind))
}

/// The touch one successful tool call made: a `write` with a path and
/// content, or an `edit` with a path, old and new strings (`replace_all`
/// is `false` unless given as `true`); nothing for any other tool or a
/// call missing a required field.
pub open spec fn touch_from_args(tool: Seq<char>, args: ToolArgs) -> Option<(Seq<char>, KindView)> {
    match args.path {
        None => None,
        Some(path) => if tool == "write"@ {
            match args.content {
                Some(c) => Some((path@, KindView::Write { content: c@ })),
                None => None,
            }
        } else if tool == "edit"@ {
            match (args.old_string, args.new_string) {
                (Some(o), Some(n)) => Some((path@, KindView::Edit {
                    old_string: o@,
                    new_string: n@,
                    replace_all: args.replace_all == Some(true),
                })),
                _ => None,
            }
        } else {
            None
        },
    }
}

/// Reads one successful `edit`/`write` call's arguments as a file touch
/// (see [`touch_from_args`]).
pub fn file_touch_from_args(tool: &str, args: &ToolArgs) -> (r: Option<FileTouch>)
    ensures
        match touch_from_args(tool@, *args) {
            Some(tv) => r matches Some(t) && touch_view(t) == tv,
            None => r is None,
        },
{
    proof {
        reveal_strlit("write");
        reveal_strlit("edit");
        assert("write"@ != "edit"@) by {
            assert("write"@[0] != "edit"@[0]);
        }
    }
    let path = match &args.path {
        Some(p) => clone_string(p),
        None => return None,
    };
    if str_eq(tool, "write") {
        match &args.content {
            Some(c) => Some(FileTouch { path, kind: TouchKind::Write { content: clone_string(c) } }),
            None => None,
        }
    } else if str_eq(tool, "edit") {
        match (&args.old_string, &args.new_string) {
            (Some(o), Some(n)) => {
                let replace_all = match args.replace_all {
                    Some(b) => b,
                    None => false,
                };
                Some(FileTouch {
                    path,
                    kind: TouchKind::Edit { old_string: clone_string(o), new_string: clone_string(n), replace_all },
                })
            }
            _ => None,
        }
    } else {
        None
    }
}

// ---------------------------------------------------------------------
// The cumulative per-path diff
// ---------------------------------------------------------------------

/// The distinct paths of `ts`, in the order each was first touched.
pub open spec fn first_paths(ts: Seq<FileTouch>) -> Seq<Seq<char>>
    decreases ts.len(),
{
    if ts.len() == 0 {
        Seq::empty()
    } else {
        let earlier = first_paths(ts.drop_last());
        if earlier.contains(ts.last().path@) {
            earlier
        } else {
            earlier.push(ts.last().path@)
        }
    }
}

/// The touches of `ts` against `path`, in call order.
pub open spec fn kinds_for(ts: Seq<FileTouch>, path: Seq<char>) -> Seq<TouchKind>
    decreases ts.len(),
{
    if ts.len() == 0 {
        Seq::empty()
    } else {
        let earlier = kinds_for(ts.drop_last(), path);
        if ts.last().path@ == path {
            earlier.push(ts.last().kind)
        } else {
            earlier
        }
    }
}

/// The content `path` is diffed against: the recorded baseline where there
/// is one, else what the file holds now (empty when it could not be read)
/// with the path's touches undone, newest first.
pub open spec fn baseline(ts: Seq<FileTouch>, known: Seq<(String, String)>, on_disk: Seq<(String, String)>, path: Seq<char>) -> Seq<char> {
    match lookup(known, path) {
        Some(b) => b,
        None => unapply_all(
            match lookup(on_disk, path) {
                Some(c) => c,
                None => Seq::empty(),
            },
            kinds_for(ts, path),
        ),
    }
}

/// The diff of one path: its baseline against the baseline with the path's
/// touches folded on in order.
pub open spec fn path_diff(ts: Seq<FileTouch>, known: Seq<(String, String)>, on_disk: Seq<(String, String)>, path: Seq<char>) -> Seq<char> {
    let base = baseline(ts, known, on_disk, path);
    unified(path, path, base, apply_all(base, kinds_for(ts, path)))
}

/// `(path, diff)` for each of `paths` whose diff is non-empty, in order.
pub open spec fn diffs_over(ts: Seq<FileTouch>, known: Seq<(String, String)>, on_disk: Seq<(String, String)>, paths: Seq<Seq<char>>) -> Seq<(Seq<char>, Seq<char>)>
    decreases paths.len(),
{
    if paths.len() == 0 {
        Seq::empty()
    } else {
        let earlier = diffs_over(ts, known, on_disk, paths.drop_last());
        let d = path_diff(ts, known, on_disk, paths.last());
        if d.len() == 0 {
            earlier
        } else {
            earlier.push((paths.last(), d))
        }
    }
}

/// The cumulative diff: one entry per touched path with a non-empty diff,
/// in the order the paths were first touched.
pub open spec fn cumulative(ts: Seq<FileTouch>, known: Seq<(String, String)>, on_disk: Seq<(String, String)>) -> Seq<(Seq<char>, Seq<char>)> {
    diffs_over(ts, known, on_disk, first_paths(ts))
}

/// The views of a list of strings.
pub open spec fn views(v: Seq<String>) -> Seq<Seq<char>> {
    v.map_values(|x: String| x@)
}

/// The views of a list of string pairs.
pub open spec fn pair_views(v: Seq<(String, String)>) -> Seq<(Seq<char>, Seq<char>)> {
    v.map_values(|x: (String, String)| (x.0@, x.1@))
}

/// Whether `key` is one of `v`.
fn contains_str(v: &Vec<String>, key: &str) -> (b: bool)
    ensures
        b == views(v@).contains(key@),
{
    let mut i: usize = 0;
    while i < v.len()
        invariant
            i <= v.len(),
            forall|k: int| 0 <= k < i ==> views(v@)[k] != key@,
        decreases v.len() - i,
    {
        if str_eq(v[i].as_str(), key) {
            assert(views(v@)[i as int] == key@);
            return true;
        }
        i = i + 1;
    }
    false
}

/// The distinct touched paths, in first-touch order.
fn touched_paths(touches: &[FileTouch]) -> (order: Vec<String>)
    ensures
        views(order@) == first_paths(touches@),
{
    let mut order: Vec<String> = Vec::new();
    let mut i: usize = 0;
    while i < touches.len()
        invariant
            i <= touches.len(),
            views(order@) == first_paths(touches@.take(i as int)),
        decreases touches.len() - i,
    {
        let ghost ts = touches@.take(i as int + 1);
        assert(ts.drop_last() =~= touches@.take(i as int));
        if !contains_str(&order, touches[i].path.as_str()) {
            order.push(clone_string(&touches[i].path));
            assert(views(order@) =~= first_paths(ts));
        }
        i = i + 1;
    }
    assert(touches@.take(touches.len() as int) =~= touches@);
    order
}

/// Folds `path`'s touches, in order, onto `base`.
fn fold_forward(touches: &[FileTouch], path: &str, base: &str) -> (r: String)
    ensures
        r@ == apply_all(base@, kinds_for(touches@, path@)),
{
    let mut current = string_from(base);
    let mut j: usize = 0;
    while j < touches.len()
        invariant
            j <= touches.len(),
            current@ == apply_all(base@, kinds_for(touches@.take(j as int), path@)),
        decreases touches.len() - j,
    {
        let ghost before = kinds_for(touches@.take(j as int), path@);
        assert(touches@.take(j as int + 1).drop_last() =~= touches@.take(j as int));
        assert(touches@.take(j as int + 1).last() == touches@[j as int]);
        if str_eq(touches[j].path.as_str(), path) {
            assert(before.push(touches@[j as int].kind).drop_last() =~= before);
            current = apply_touch(current.as_str(), &touches[j].kind);
        }
        j = j + 1;
    }
    assert(touches@.take(touches.len() as int) =~= touches@);
    current
}

/// Undoes `path`'s touches, newest first, from `current`.
fn walk_back(touches: &[FileTouch], path: &str, current: &str) -> (r: String)
    ensures
        r@ == unapply_all(current@, kinds_for(touches@, path@)),
{
    let mut content = string_from(current);
    let mut j: usize = touches.len();
    assert(touches@.take(touches.len() as int) =~= touches@);
    while j > 0
        invariant
            j <= touches.len(),
            unapply_all(content@, kinds_for(touches@.take(j as int), path@))
                == unapply_all(current@, kinds_for(touches@, path@)),
        decreases j,
    {
        j = j - 1;
        let ghost before = kinds_for(touches@.take(j as int), path@);
        assert(touches@.take(j as int + 1).drop_last() =~= touches@.take(j as int));
        assert(touches@.take(j as int + 1).last() == touches@[j as int]);
        if str_eq(touches[j].path.as_str(), path) {
            assert(before.push(touches@[j as int].kind).drop_last() =~= before);
            content = unapply_touch(content.as_str(), &touches[j].kind);
        }
    }
    content
}

/// The cumulative diff of a session's file touches: for every touched path
/// with a non-empty diff, in first-touch order, `(path, unified diff)`
/// against the content it held when the session first touched it.
///
/// `known_baselines` holds the content observed before the first touch,
/// where the caller has it; for any other path the baseline is rebuilt by
/// undoing the path's touches from its current content in `on_disk`
/// (a path missing there counts as empty). Where a key occurs more than
/// once in either list, its first entry counts.
pub fn cumulative_diffs(touches: &[FileTouch], known_baselines: &[(String, String)], on_disk: &[(String, String)]) -> (r: Vec<(String, String)>)
    ensures
        pair_views(r@) == cumulative(touches@, known_baselines@, on_disk@),
{
    let order = touched_paths(touches);
    let mut out: Vec<(String, String)> = Vec::new();
    let mut k: usize = 0;
    while k < order.len()
        invariant
            k <= order.len(),
            views(order@) == first_paths(touches@),
            pair_views(out@) == diffs_over(touches@, known_baselines@, on_disk@, views(order@).take(k as int)),
        decreases order.len() - k,
    {
        let path = order[k].as_str();
        let base = match find_value(known_baselines, path) {
            Some(b) => b,
            None => {
                let now = match find_value(on_disk, path) {
                    Some(c) => c,
                    None => String::new(),
                };
                walk_back(touches, path, now.as_str())
            }
        };
        let current = fold_forward(touches, path, base.as_str());
        let d = unified_diff(path, path, base.as_str(), current.as_str());
        let ghost paths = views(order@).take(k as int + 1);
        assert(paths.drop_last() =~= views(order@).take(k as int));
        assert(paths.last() == order@[k as int]@);
        if !d.as_str().is_empty() {
            out.push((clone_string(&order[k]), d));
            assert(pair_views(out@) =~= diffs_over(touches@, known_baselines@, on_disk@, paths));
        } else {
            assert(d@.len() == 0);
        }
        k = k + 1;
    }
    assert(views(order@).take(order.len() as int) =~= views(order@));
    out
}

/// Where the first occurrence of a non-empty `p` in `s` starts, if any.
pub open spec fn first_occ(s: Seq<char>, p: Seq<char>) -> Option<int>
    decreases s.len(),
{
    if p.len() == 0 {
        Some(0)
    } else if s.len() < p.len() {
        None
    } else if occurs_at(s, p, 0) {
        Some(0)
    } else {
        match first_occ(s.skip(1), p) {
            Some(i) => Some(i + 1),
            None => None,
        }
    }
}

proof fn lemma_occurs_shift(s: Seq<char>, p: Seq<char>, j: int)
    requires
        s.len() > 0,
        0 <= j,
    ensures
        occurs_at(s, p, j + 1) == occurs_at(s.skip(1), p, j),
{
    if j + 1 + p.len() <= s.len() {
        assert(s.skip(1).subrange(j, j + p.len()) =~= s.subrange(j + 1, j + 1 + p.len()));
    }
}

proof fn lemma_first_occ(s: Seq<char>, p: Seq<char>)
    requires
        p.len() > 0,
    ensures
        first_occ(s, p) matches Some(i) ==> 0 <= i && occurs_at(s, p, i)
            && forall|j: int| 0 <= j < i ==> !occurs_at(s, p, j),
        first_occ(s, p) is None ==> forall|j: int| !occurs_at(s, p, j),
    decreases s.len(),
{
    if s.len() < p.len() {
    } else if occurs_at(s, p, 0) {
    } else {
        lemma_first_occ(s.skip(1), p);
        assert forall|j: int| 0 <= j && occurs_at(s, p, j + 1) implies occurs_at(s.skip(1), p, j) by {
            lemma_occurs_shift(s, p, j);
        }
        assert forall|j: int| 0 <= j && occurs_at(s.skip(1), p, j) implies occurs_at(s, p, j + 1) by {
            lemma_occurs_shift(s, p, j);
        }
        if let Some(i) = first_occ(s.skip(1), p) {
            assert forall|j: int| 0 <= j < i + 1 implies !occurs_at(s, p, j) by {
                if j > 0 {
                    lemma_occurs_shift(s, p, j - 1);
                }
            }
        } else {
            assert forall|j: int| !occurs_at(s, p, j) by {
                if j > 0 {
                    lemma_occurs_shift(s, p, j - 1);
                }
            }
        }
    }
}

proof fn lemma_replace_first_at(s: Seq<char>, p: Seq<char>, r: Seq<char>, i: int)
    requires
        p.len() > 0,
        first_occ(s, p) == Some(i),
    ensures
        replace_first(s, p, r) == s.take(i) + r + s.skip(i + p.len()),
    decreases s.len(),
{
    if occurs_at(s, p, 0) {
        assert(s.take(0) + r + s.skip(p.len() as int) =~= r + s.skip(p.len() as int));
    } else {
        lemma_first_occ(s, p);
        lemma_replace_first_at(s.skip(1), p, r, i - 1);
        assert(seq![s[0]] + s.skip(1).take(i - 1) =~= s.take(i));
        assert(s.skip(1).skip(i - 1 + p.len()) =~= s.skip(i + p.len()));
        assert(seq![s[0]] + (s.skip(1).take(i - 1) + r + s.skip(1).skip(i - 1 + p.len()))
            =~= s.take(i) + r + s.skip(i + p.len()));
    }
}

proof fn lemma_count_from_first(s: Seq<char>, p: Seq<char>, i: int)
    requires
        p.len() > 0,
        first_occ(s, p) == Some(i),
    ensures
        count_matches(s, p) == 1 + count_matches(s.skip(i + p.len()), p),
    decreases s.len(),
{
    if !occurs_at(s, p, 0) {
        lemma_first_occ(s, p);
        lemma_count_from_first(s.skip(1), p, i - 1);
        assert(s.skip(1).skip(i - 1 + p.len()) =~= s.skip(i + p.len()));
    }
}

proof fn lemma_count_none(s: Seq<char>, p: Seq<char>)
    requires
        p.len() > 0,
        first_occ(s, p) is None,
    ensures
        count_matches(s, p) == 0,
    decreases s.len(),
{
    if s.len() >= p.len() {
        lemma_count_none(s.skip(1), p);
    }
}

/// An edit of a single occurrence is undone exactly when its replacement
/// text occurs just once in the result: walking it back (what rebuilds a
/// diff's baseline) gives the content from before the edit.
pub proof fn law_a_single_edit_is_undone(before: Seq<char>, kind: TouchKind)
    requires
        kind matches TouchKind::Edit { old_string, new_string, replace_all }
            && !replace_all && old_string@ != new_string@ && count_matches(before, old_string@) == 1,
        ({
            let after = apply(before, kind);
            kind matches TouchKind::Edit { new_string, .. }
                && forall|j: int, k: int| occurs_at(after, new_string@, j) && occurs_at(after, new_string@, k) ==> j == k
        }),
    ensures
        unapply_one(apply(before, kind), kind) == before,
{
    if let TouchKind::Edit { old_string, new_string, replace_all } = kind {
        let o = old_string@;
        let n = new_string@;
        let after = apply(before, kind);
        assert(edit_outcome(before, o, n, false) == Some((replace_first(before, o, n), 1nat)));
        assert(after == replace_first(before, o, n));
        let i: int = if o.len() == 0 {
            0
        } else {
            lemma_first_occ(before, o);
            if first_occ(before, o) is None {
                lemma_count_none(before, o);
            }
            first_occ(before, o)->0
        };
        if o.len() > 0 {
            lemma_replace_first_at(before, o, n, i);
        } else {
            assert(after =~= before.take(0) + n + before.skip(0));
        }
        assert(after =~= before.take(i) + n + before.skip(i + o.len()));
        assert(occurs_at(after, n, i)) by {
            assert(after.subrange(i, i + n.len()) =~= n);
        }
        if n.len() == 0 {
            assert(occurs_at(after, n, after.len() as int)) by {
                assert(after.subrange(after.len() as int, after.len() as int) =~= n);
            }
            assert(occurs_at(after, n, 0)) by {
                assert(after.subrange(0, 0) =~= n);
            }
            assert(after.len() == i);
            assert(i == 0);
            assert(count_matches(after, n) == 1);
            assert(replace_first(after, n, o) =~= o + after);
            assert(before.len() == i + o.len());
            assert(before =~= before.take(i) + o);
            assert(after =~= before.take(i));
        } else {
            lemma_first_occ(after, n);
            assert(first_occ(after, n) == Some(i)) by {
                if let Some(f) = first_occ(after, n) {
                    assert(f == i);
                } else {
                    assert(!occurs_at(after, n, i));
                }
            }
            lemma_count_from_first(after, n, i);
            let rest = after.skip(i + n.len());
            lemma_first_occ(rest, n);
            if let Some(f) = first_occ(rest, n) {
                assert(occurs_at(after, n, i + n.len() + f)) by {
                    assert(after.subrange(i + n.len() + f, i + n.len() + f + n.len()) =~= rest.subrange(f, f + n.len()));
                }
            }
            lemma_count_none(rest, n);
            assert(count_matches(after, n) == 1);
            lemma_replace_first_at(after, n, o, i);
            assert(after.take(i) =~= before.take(i));
            assert(after.skip(i + n.len()) =~= before.skip(i + o.len()));
            if o.len() > 0 {
                lemma_first_occ(before, o);
                assert(before.subrange(i, i + o.len()) =~= o);
            }
            assert(before =~= before.take(i) + o + before.skip(i + o.len()));
        }
        assert(unapply_one(after, kind) == replace_first(after, n, o));
    }
}

} // verus!
