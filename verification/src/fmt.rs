//! Shared rendering helpers for the listing subcommands: a left-aligned
//! table, an ASCII tree, and small id/timestamp formatters.
use vstd::prelude::*;
use crate::text::{chars_of, pad_right, push_char, push_chars, push_padded, slice_range, string_of};
use crate::diff::views;

verus! {

/// A cell longer than this many characters is cut short with a trailing `…`.
pub const MAX_CELL_CHARS: usize = 48;

/// A cell as the table shows it: at most [`MAX_CELL_CHARS`] characters,
/// the last of them `…` when the cell was cut.
pub open spec fn truncated(s: Seq<char>) -> Seq<char> {
    if s.len() > MAX_CELL_CHARS {
        s.take(MAX_CELL_CHARS - 1).push('…')
    } else {
        s
    }
}

/// The views of a list of string slices.
pub open spec fn str_views(v: Seq<&str>) -> Seq<Seq<char>> {
    v.map_values(|s: &str| s@)
}

/// The views of one row of cells.
pub open spec fn row_view(r: Seq<String>) -> Seq<Seq<char>> {
    r.map_values(|s: String| s@)
}

/// The views of a list of rows.
pub open spec fn rows_view(rs: Seq<Vec<String>>) -> Seq<Seq<Seq<char>>> {
    rs.map_values(|r: Vec<String>| row_view(r@))
}

/// Every cell of a row, truncated.
pub open spec fn trunc_row(r: Seq<Seq<char>>) -> Seq<Seq<char>> {
    r.map_values(|c: Seq<char>| truncated(c))
}

/// The width of column `i`: its widest truncated cell, header included.
/// Cells past the header's columns do not count.
pub open spec fn col_width(hs: Seq<Seq<char>>, rows: Seq<Seq<Seq<char>>>, i: int) -> nat
    decreases rows.len(),
{
    if rows.len() == 0 {
        truncated(hs[i]).len()
    } else {
        let m = col_width(hs, rows.drop_last(), i);
        let last = rows.last();
        if i < last.len() && truncated(last[i]).len() > m {
            truncated(last[i]).len()
        } else {
            m
        }
    }
}

/// The width of every header column.
pub open spec fn widths(hs: Seq<Seq<char>>, rows: Seq<Seq<Seq<char>>>) -> Seq<nat> {
    Seq::new(hs.len(), |i: int| col_width(hs, rows, i))
}

/// One table line from cell `i` on: every cell but the last padded to its
/// column width (zero past the known columns) and followed by a two-space
/// gutter; the last cell unpadded and ending the line. A row with no cells
/// writes nothing.
pub open spec fn line_from(cells: Seq<Seq<char>>, ws: Seq<nat>, i: int) -> Seq<char>
    decreases cells.len() - i,
{
    if i < 0 || i >= cells.len() {
        Seq::empty()
    } else if i == cells.len() - 1 {
        cells[i].push('\n')
    } else {
        pad_right(cells[i], if i < ws.len() { ws[i] } else { 0 }) + seq![' ', ' '] + line_from(cells, ws, i + 1)
    }
}

/// The lines of every row, in order.
pub open spec fn rows_text(rows: Seq<Seq<Seq<char>>>, ws: Seq<nat>) -> Seq<char>
    decreases rows.len(),
{
    if rows.len() == 0 {
        Seq::empty()
    } else {
        rows_text(rows.drop_last(), ws) + line_from(trunc_row(rows.last()), ws, 0)
    }
}

/// The whole table: the header line, then one line per row.
pub open spec fn table_text(hs: Seq<Seq<char>>, rows: Seq<Seq<Seq<char>>>) -> Seq<char> {
    let ws = widths(hs, rows);
    line_from(trunc_row(hs), ws, 0) + rows_text(rows, ws)
}

fn truncate_chars(s: &[char]) -> (r: Vec<char>)
    ensures
        r@ == truncated(s@),
{
    if s.len() > MAX_CELL_CHARS {
        let mut v = slice_range(s, 0, MAX_CELL_CHARS - 1);
        v.push('…');
        assert(s@.subrange(0, MAX_CELL_CHARS - 1) =~= s@.take(MAX_CELL_CHARS - 1));
        v
    } else {
        let v = slice_range(s, 0, s.len());
        assert(s@.subrange(0, s.len() as int) =~= s@);
        v
    }
}

/// `s` as a table cell (see [`truncated`]).
pub fn truncate_cell(s: &str) -> (r: String)
    ensures
        r@ == truncated(s@),
{
    let cs = chars_of(s);
    let t = truncate_chars(&cs);
    string_of(&t)
}

/// The views of a list of character vectors.
pub open spec fn char_rows(v: Seq<Vec<char>>) -> Seq<Seq<char>> {
    v.map_values(|c: Vec<char>| c@)
}

/// The numbers of a list of widths.
pub open spec fn nat_widths(v: Seq<usize>) -> Seq<nat> {
    v.map_values(|w: usize| w as nat)
}

/// Writes one table line (see [`line_from`]).
fn push_row(out: &mut String, cells: &Vec<Vec<char>>, widths: &Vec<usize>)
    ensures
        final(out)@ == old(out)@ + line_from(char_rows(cells@), nat_widths(widths@), 0),
{
    let ghost cs = char_rows(cells@);
    let ghost ws = nat_widths(widths@);
    let ghost start = out@;
    let n = cells.len();
    if n == 0 {
        assert(start + line_from(cs, ws, 0) =~= start);
        return;
    }
    let mut i: usize = 0;
    while i < n - 1
        invariant
            n == cells.len(),
            n > 0,
            i <= n - 1,
            cs == char_rows(cells@),
            ws == nat_widths(widths@),
            start + line_from(cs, ws, 0) == out@ + line_from(cs, ws, i as int),
        decreases n - 1 - i,
    {
        let w: usize = if i < widths.len() { widths[i] } else { 0 };
        let ghost before = out@;
        push_padded(out, cells[i].as_slice(), w);
        push_char(out, ' ');
        push_char(out, ' ');
        proof {
            assert(cs[i as int] == cells@[i as int]@);
            assert(w as nat == (if i < ws.len() { ws[i as int] } else { 0 }));
            assert(line_from(cs, ws, i as int) == pad_right(cs[i as int], w as nat) + seq![' ', ' ']
                + line_from(cs, ws, i + 1));
            assert(out@ =~= before + (pad_right(cs[i as int], w as nat) + seq![' ', ' ']));
            assert(out@ + line_from(cs, ws, i + 1) =~= before + line_from(cs, ws, i as int));
        }
        i = i + 1;
    }
    let ghost before = out@;
    push_chars(out, cells[i].as_slice());
    push_char(out, '\n');
    proof {
        assert(cs[i as int] == cells@[i as int]@);
        assert(line_from(cs, ws, i as int) == cs[i as int].push('\n'));
        assert(out@ =~= before + line_from(cs, ws, i as int));
    }
}

/// Renders a left-aligned table: a two-space gutter between columns, each
/// column as wide as its widest (truncated) cell, header included. The
/// header line is always written, even with no rows.
pub fn table(headers: &[&str], rows: Vec<Vec<String>>) -> (r: String)
    ensures
        r@ == table_text(str_views(headers@), rows_view(rows@)),
{
    let ghost hs = str_views(headers@);
    let ghost rv = rows_view(rows@);
    let ncols = headers.len();
    let mut hcells: Vec<Vec<char>> = Vec::new();
    let mut i: usize = 0;
    while i < ncols
        invariant
            ncols == headers.len(),
            i <= ncols,
            hs == str_views(headers@),
            hcells@.len() == i,
            forall|k: int| 0 <= k < i ==> #[trigger] hcells@[k]@ == truncated(hs[k]),
        decreases ncols - i,
    {
        let cs = chars_of(headers[i]);
        hcells.push(truncate_chars(&cs));
        i = i + 1;
    }
    assert(char_rows(hcells@) =~= trunc_row(hs));

    let mut trows: Vec<Vec<Vec<char>>> = Vec::new();
    let mut r: usize = 0;
    while r < rows.len()
        invariant
            r <= rows.len(),
            rv == rows_view(rows@),
            trows@.len() == r,
            forall|k: int| 0 <= k < r ==> #[trigger] char_rows(trows@[k]@) == trunc_row(rv[k]),
        decreases rows.len() - r,
    {
        let row = &rows[r];
        let mut cells: Vec<Vec<char>> = Vec::new();
        let mut c: usize = 0;
        while c < row.len()
            invariant
                c <= row.len(),
                *row == rows@[r as int],
                rv == rows_view(rows@),
                r < rows.len(),
                cells@.len() == c,
                forall|k: int| 0 <= k < c ==> #[trigger] cells@[k]@ == truncated(rv[r as int][k]),
            decreases row.len() - c,
        {
            let cs = chars_of(row[c].as_str());
            cells.push(truncate_chars(&cs));
            c = c + 1;
        }
        assert(char_rows(cells@) =~= trunc_row(rv[r as int]));
        trows.push(cells);
        r = r + 1;
    }

    let mut ws: Vec<usize> = Vec::new();
    let mut i: usize = 0;
    while i < ncols
        invariant
            ncols == headers.len(),
            i <= ncols,
            hcells@.len() == ncols,
            hs == str_views(headers@),
            forall|k: int| 0 <= k < ncols ==> #[trigger] hcells@[k]@ == truncated(hs[k]),
            ws@.len() == i,
            forall|k: int| 0 <= k < i ==> #[trigger] ws@[k] == col_width(hs, rv.take(0), k),
        decreases ncols - i,
    {
        ws.push(hcells[i].len());
        i = i + 1;
    }
    let mut r: usize = 0;
    while r < rows.len()
        invariant
            r <= rows.len(),
            ncols == headers.len(),
            hs == str_views(headers@),
            rv == rows_view(rows@),
            trows@.len() == rows.len(),
            forall|k: int| 0 <= k < rows.len() ==> #[trigger] char_rows(trows@[k]@) == trunc_row(rv[k]),
            ws@.len() == ncols,
            forall|k: int| 0 <= k < ncols ==> #[trigger] ws@[k] == col_width(hs, rv.take(r as int), k),
        decreases rows.len() - r,
    {
        let row = &trows[r];
        assert(char_rows(row@) == trunc_row(rv[r as int]));
        assert(row@.len() == char_rows(row@).len());
        let ghost next = rv.take(r as int + 1);
        assert(next.drop_last() =~= rv.take(r as int));
        assert(next.last() == rv[r as int]);
        let mut c: usize = 0;
        while c < ncols && c < row.len()
            invariant
                c <= ncols,
                ws@.len() == ncols,
                char_rows(row@) == trunc_row(rv[r as int]),
                row@.len() == rv[r as int].len(),
                r < rows.len(),
                rv == rows_view(rows@),
                next == rv.take(r as int + 1),
                next.drop_last() == rv.take(r as int),
                next.last() == rv[r as int],
                forall|k: int| 0 <= k < c ==> #[trigger] ws@[k] == col_width(hs, next, k),
                forall|k: int| c <= k < ncols ==> #[trigger] ws@[k] == col_width(hs, rv.take(r as int), k),
            decreases ncols - c,
        {
            let len = row[c].len();
            assert(row@[c as int]@ == char_rows(row@)[c as int]);
            assert(trunc_row(rv[r as int])[c as int] == truncated(rv[r as int][c as int]));
            assert(len == truncated(rv[r as int][c as int]).len());
            let ghost m = col_width(hs, rv.take(r as int), c as int);
            if len > ws[c] {
                ws.set(c, len);
            }
            proof {
                assert(next.len() > 0);
                assert(col_width(hs, next, c as int) == (if c < next.last().len()
                    && truncated(next.last()[c as int]).len() > m {
                    truncated(next.last()[c as int]).len()
                } else {
                    m
                }));
            }
            c = c + 1;
        }
        assert forall|k: int| c <= k < ncols implies #[trigger] ws@[k] == col_width(hs, next, k) by {
            assert(k >= rv[r as int].len());
        }
        r = r + 1;
    }
    assert(rv.take(rows.len() as int) =~= rv);
    assert(nat_widths(ws@) =~= widths(hs, rv));

    let mut out = String::new();
    push_row(&mut out, &hcells, &ws);
    let mut r: usize = 0;
    while r < trows.len()
        invariant
            r <= trows.len(),
            trows@.len() == rows.len(),
            rv == rows_view(rows@),
            forall|k: int| 0 <= k < rows.len() ==> #[trigger] char_rows(trows@[k]@) == trunc_row(rv[k]),
            nat_widths(ws@) == widths(hs, rv),
            out@ == line_from(trunc_row(hs), widths(hs, rv), 0) + rows_text(rv.take(r as int), widths(hs, rv)),
        decreases trows.len() - r,
    {
        let ghost before = out@;
        push_row(&mut out, &trows[r], &ws);
        proof {
            let next = rv.take(r as int + 1);
            assert(next.drop_last() =~= rv.take(r as int));
            assert(char_rows(trows@[r as int]@) == trunc_row(rv[r as int]));
            assert(out@ =~= line_from(trunc_row(hs), widths(hs, rv), 0) + rows_text(next, widths(hs, rv)));
        }
        r = r + 1;
    }
    assert(rv.take(rows.len() as int) =~= rv);
    out
}

/// A node of a tree to be drawn: its label and its children, in order.
pub struct TreeNode {
    pub label: String,
    pub children: Vec<TreeNode>,
}

/// The branch glyph in front of a child: `└─ ` for the last child at its
/// depth, `├─ ` for any other.
pub open spec fn branch(is_last: bool) -> Seq<char> {
    if is_last {
        seq!['└', '─', ' ']
    } else {
        seq!['├', '─', ' ']
    }
}

/// What a child hands down to its own subtree's prefix: blank under the
/// last child, a `│` rail under any other.
pub open spec fn carry(is_last: bool) -> Seq<char> {
    if is_last {
        seq![' ', ' ', ' ']
    } else {
        seq!['│', ' ', ' ']
    }
}

/// The lines drawn for `nodes[i..]` (and their subtrees) under `prefix`.
pub open spec fn render_from(nodes: Seq<TreeNode>, prefix: Seq<char>, i: int) -> Seq<Seq<char>>
    decreases nodes, nodes.len() - i,
{
    if i < 0 || i >= nodes.len() {
        Seq::empty()
    } else {
        let last = i == nodes.len() - 1;
        seq![prefix + branch(last) + nodes[i].label@]
            + render_from(nodes[i].children@, prefix + carry(last), 0)
            + render_from(nodes, prefix, i + 1)
    }
}

/// The lines of a whole tree: the root's label, then its descendants.
pub open spec fn tree_text(root: TreeNode) -> Seq<Seq<char>> {
    seq![root.label@] + render_from(root.children@, Seq::empty(), 0)
}

fn push_all(v: &mut Vec<char>, cs: &[char])
    ensures
        final(v)@ == old(v)@ + cs@,
{
    let ghost start = v@;
    let mut i: usize = 0;
    while i < cs.len()
        invariant
            i <= cs.len(),
            v@ == start + cs@.take(i as int),
        decreases cs.len() - i,
    {
        v.push(cs[i]);
        i = i + 1;
        assert(v@ =~= start + cs@.take(i as int));
    }
    assert(cs@.take(cs.len() as int) =~= cs@);
}

fn glyphs(is_last: bool, first: bool) -> (r: Vec<char>)
    ensures
        first ==> r@ == branch(is_last),
        !first ==> r@ == carry(is_last),
{
    let mut v: Vec<char> = Vec::new();
    if first {
        v.push(if is_last { '└' } else { '├' });
        v.push('─');
    } else {
        v.push(if is_last { ' ' } else { '│' });
        v.push(' ');
    }
    v.push(' ');
    assert(first ==> v@ =~= branch(is_last));
    assert(!first ==> v@ =~= carry(is_last));
    v
}

/// Appends the lines for `nodes` (and their subtrees) under `prefix`.
fn render_children(nodes: &Vec<TreeNode>, prefix: &Vec<char>, out: &mut Vec<String>)
    ensures
        views(final(out)@) == views(old(out)@) + render_from(nodes@, prefix@, 0),
    decreases nodes@,
{
    let ghost start = views(out@);
    let n = nodes.len();
    let mut i: usize = 0;
    while i < n
        invariant
            n == nodes.len(),
            i <= n,
            start + render_from(nodes@, prefix@, 0) == views(out@) + render_from(nodes@, prefix@, i as int),
        decreases n - i,
    {
        let is_last = i == n - 1;
        let node = &nodes[i];
        let mut line: Vec<char> = Vec::new();
        push_all(&mut line, prefix.as_slice());
        let b = glyphs(is_last, true);
        push_all(&mut line, b.as_slice());
        let label = chars_of(node.label.as_str());
        push_all(&mut line, label.as_slice());
        let ghost before = views(out@);
        out.push(string_of(&line));
        assert(views(out@) =~= before.push(prefix@ + branch(is_last) + node.label@));
        let mut child_prefix: Vec<char> = Vec::new();
        push_all(&mut child_prefix, prefix.as_slice());
        let c = glyphs(is_last, false);
        push_all(&mut child_prefix, c.as_slice());
        proof {
            assert(decreases_to!(nodes@ => nodes@[i as int]));
            assert(decreases_to!(nodes@[i as int] => nodes@[i as int].children));
            assert(decreases_to!(nodes@[i as int].children => nodes@[i as int].children@));
        }
        let ghost mid = views(out@);
        render_children(&node.children, &child_prefix, out);
        proof {
            let here = render_from(nodes@, prefix@, i as int);
            assert(here == seq![prefix@ + branch(is_last) + node.label@]
                + render_from(node.children@, prefix@ + carry(is_last), 0)
                + render_from(nodes@, prefix@, i + 1));
            assert(child_prefix@ =~= prefix@ + carry(is_last));
            assert(views(out@) + render_from(nodes@, prefix@, i + 1) =~= before + here);
        }
        i = i + 1;
    }
    assert(views(out@) + Seq::<Seq<char>>::empty() =~= views(out@));
}

/// Draws `root` and its descendants as an ASCII tree: the root's label,
/// then each child on its own line behind `├─ ` (or `└─ ` for the last
/// child at that depth), its subtree indented under a `│  ` rail (or blank
/// under the last child).
pub fn tree_lines(root: &TreeNode) -> (r: Vec<String>)
    ensures
        views(r@) == tree_text(*root),
{
    let mut out: Vec<String> = Vec::new();
    out.push(string_of(&chars_of(root.label.as_str())));
    assert(views(out@) =~= seq![root.label@]);
    let empty: Vec<char> = Vec::new();
    render_children(&root.children, &empty, &mut out);
    assert(empty@ =~= Seq::<char>::empty());
    out
}

/// The first eight characters of `id` (all of it when shorter) -- a fixed
/// width cut, not a short form that tells ids apart.
pub open spec fn short_id(id: Seq<char>) -> Seq<char> {
    if id.len() <= 8 {
        id
    } else {
        id.take(8)
    }
}

/// The first eight characters of `id` (see [`short_id`]).
pub fn id_short(id: &str) -> (r: String)
    ensures
        r@ == short_id(id@),
{
    let cs = chars_of(id);
    let n = if cs.len() <= 8 { cs.len() } else { 8 };
    let t = slice_range(&cs, 0, n);
    assert(cs@.subrange(0, n as int) =~= short_id(id@));
    string_of(&t)
}

/// What `chrono` renders for the UTC instant `secs` seconds after the Unix
/// epoch, as RFC 3339 with whole seconds and a `Z` suffix; `None` where the
/// instant is outside the range `chrono` represents.
pub uninterp spec fn rfc3339_utc(secs: i64) -> Option<Seq<char>>;

/// RFC 3339, seconds precision, `Z`-suffixed UTC: builds
/// `chrono::DateTime::<Utc>::from_timestamp(secs, 0)` and renders it with
/// `to_rfc3339_opts(SecondsFormat::Secs, true)`. The contract only ties the
/// result to [`rfc3339_utc`] of `unix_secs`; the calendar arithmetic is
/// `chrono`'s and is not restated here.
#[verifier::external_body]
pub fn ts(unix_secs: i64) -> (r: Option<String>)
    ensures
        match r {
            Some(s) => rfc3339_utc(unix_secs) == Some(s@),
            None => rfc3339_utc(unix_secs) is None,
        },
{
    match chrono::DateTime::from_timestamp(unix_secs, 0) {
        Some(dt) => Some(dt.to_rfc3339_opts(chrono::SecondsFormat::Secs, true)),
        None => None,
    }
}


proof fn lemma_col_width_covers(hs: Seq<Seq<char>>, rows: Seq<Seq<Seq<char>>>, i: int)
    ensures
        col_width(hs, rows, i) >= truncated(hs[i]).len(),
        forall|r: int| 0 <= r < rows.len() && i < rows[r].len() ==> col_width(hs, rows, i) >= truncated(#[trigger] rows[r][i]).len(),
    decreases rows.len(),
{
    if rows.len() > 0 {
        lemma_col_width_covers(hs, rows.drop_last(), i);
        assert forall|r: int| 0 <= r < rows.len() && i < rows[r].len()
            implies col_width(hs, rows, i) >= truncated(#[trigger] rows[r][i]).len() by {
            if r < rows.len() - 1 {
                assert(rows.drop_last()[r] == rows[r]);
            }
        }
    }
}

/// Every column is as wide as its header and as every cell under it (each
/// as the table shows it), so a cell in any column but the last starts at
/// the same offset as its header.
pub proof fn law_columns_fit_header_and_cells(hs: Seq<Seq<char>>, rows: Seq<Seq<Seq<char>>>, i: int)
    requires
        0 <= i < hs.len(),
    ensures
        widths(hs, rows)[i] >= truncated(hs[i]).len(),
        forall|r: int| 0 <= r < rows.len() && i < rows[r].len() ==> widths(hs, rows)[i] >= truncated(#[trigger] rows[r][i]).len(),
{
    lemma_col_width_covers(hs, rows, i);
}

} // verus!
