//! `conway memory list|forget`: the order remembered items are listed in
//! and the rows that list them.
use vstd::prelude::*;
use crate::text::{chars_of, push_char, push_str, string_from};
use crate::fmt::{table, table_text, ts, rows_view, str_views};
use crate::exit::ExitCode;
use crate::session_ref::{SessionId, id_text, parse_sid, sid_of};
use crate::sessions::{created_text, lemma_id_text_is};
use crate::diff::views;

verus! {

/// The subcommand's arguments.
pub struct MemoryArgs {
    pub action: MemoryAction,
}

/// `conway memory ...` actions.
pub enum MemoryAction {
    /// List everything remembered; `json` prints every field as JSON.
    List { json: bool },
    /// Forget one remembered item by id.
    Forget { id: String },
}

/// A remembered item's identity: a 128-bit ULID.
#[derive(Clone, Copy, Debug, PartialEq, Eq, Structural)]
pub struct MemoryId {
    pub value: u128,
}

/// One remembered item. Its creation instant is whole seconds since the
/// Unix epoch (rounded down) plus the nanoseconds past them.
pub struct Memory {
    pub id: MemoryId,
    pub text: String,
    pub created_secs: i64,
    pub created_nanos: u32,
    /// The session it was remembered in, if recorded.
    pub session: Option<SessionId>,
}

/// Whether `a` is listed before `b`: older first, then by id.
pub open spec fn listed_before(a: Memory, b: Memory) -> bool {
    ||| a.created_secs < b.created_secs
    ||| (a.created_secs == b.created_secs && a.created_nanos < b.created_nanos)
    ||| (a.created_secs == b.created_secs && a.created_nanos == b.created_nanos && a.id.value < b.id.value)
}

/// Whether `a` may be listed before `b` (it is not listed after it).
pub open spec fn not_after(a: Memory, b: Memory) -> bool {
    !listed_before(b, a)
}

/// Whether `ms` is in listing order.
pub open spec fn in_listing_order(ms: Seq<Memory>) -> bool {
    forall|i: int, j: int| 0 <= i < j < ms.len() ==> not_after(#[trigger] ms[i], #[trigger] ms[j])
}

fn before(a: &Memory, b: &Memory) -> (r: bool)
    ensures
        r == listed_before(*a, *b),
{
    a.created_secs < b.created_secs
        || (a.created_secs == b.created_secs && a.created_nanos < b.created_nanos)
        || (a.created_secs == b.created_secs && a.created_nanos == b.created_nanos && a.id.value < b.id.value)
}

/// `memories` in listing order, oldest first with the id breaking ties:
/// the same items, each as often as given.
pub fn sorted(memories: Vec<Memory>) -> (r: Vec<Memory>)
    ensures
        in_listing_order(r@),
        r@.to_multiset() == memories@.to_multiset(),
{
    let mut rest = memories;
    let ghost orig = rest@;
    let mut out: Vec<Memory> = Vec::new();
    proof {
        broadcast use vstd::multiset::group_multiset_axioms;
        vstd::seq_lib::to_multiset_len(out@);
        vstd::multiset::lemma_multiset_empty_len(out@.to_multiset());
        assert(out@.to_multiset().add(rest@.to_multiset()) =~= orig.to_multiset());
    }
    while rest.len() > 0
        invariant
            in_listing_order(out@),
            out@.to_multiset().add(rest@.to_multiset()) == orig.to_multiset(),
        decreases rest.len(),
    {
        let ghost rest0 = rest@;
        let ghost out0 = out@;
        let m = rest.remove(0);
        let mut p: usize = out.len();
        while p > 0 && before(&m, &out[p - 1])
            invariant
                p <= out@.len(),
                out@ == out0,
                forall|k: int| p <= k < out@.len() ==> listed_before(m, #[trigger] out@[k]),
            decreases p,
        {
            p = p - 1;
        }
        proof {
            assert forall|k: int| 0 <= k < p implies not_after(#[trigger] out0[k], m) by {
                if p > 0 {
                    assert(!listed_before(m, out0[p - 1]));
                    if k < p - 1 {
                        assert(not_after(out0[k], out0[p - 1]));
                    }
                }
            }
        }
        out.insert(p, m);
        proof {
            let o = out@;
            assert(o == out0.insert(p as int, m));
            assert forall|i: int, j: int| 0 <= i < j < o.len() implies not_after(#[trigger] o[i], #[trigger] o[j]) by {
                if j < p {
                    assert(o[i] == out0[i] && o[j] == out0[j]);
                } else if j == p {
                    assert(o[i] == out0[i] && o[j] == m);
                } else if i < p {
                    assert(o[i] == out0[i] && o[j] == out0[j - 1]);
                    assert(listed_before(m, out0[j - 1]));
                } else if i == p {
                    assert(o[i] == m && o[j] == out0[j - 1]);
                } else {
                    assert(o[i] == out0[i - 1] && o[j] == out0[j - 1]);
                }
            }
            broadcast use vstd::multiset::group_multiset_axioms;
            vstd::seq_lib::to_multiset_remove(rest0, 0);
            vstd::seq_lib::to_multiset_insert(out0, p as int, m);
            vstd::seq_lib::to_multiset_contains(rest0, m);
            assert(rest@ == rest0.remove(0));
            assert(rest0[0] == m);
            assert(rest0.to_multiset().count(m) > 0);
            assert(o.to_multiset().add(rest@.to_multiset()) =~= out0.to_multiset().add(rest0.to_multiset()));
        }
    }
    proof {
        broadcast use vstd::multiset::group_multiset_axioms;
        vstd::seq_lib::to_multiset_len(rest@);
        vstd::multiset::lemma_multiset_empty_len(rest@.to_multiset());
        assert(out@.to_multiset().add(rest@.to_multiset()) =~= out@.to_multiset());
    }
    out
}

/// `text` with every line break turned into a space, so that it fits on
/// one table row.
pub open spec fn one_line(text: Seq<char>) -> Seq<char> {
    Seq::new(text.len(), |i: int| if text[i] == '\n' { ' ' } else { text[i] })
}

/// The cells of one `memory list` row: the id, the creation instant (empty
/// where it cannot be represented), the session it was remembered in (or
/// empty), and the text on one line.
pub open spec fn memory_cells(m: Memory) -> Seq<Seq<char>> {
    memory_cells_at(m, created_text(m.created_secs))
}

/// The cells of one `memory list` row, given its creation cell.
pub open spec fn memory_cells_at(m: Memory, created: Seq<char>) -> Seq<Seq<char>> {
    seq![
        id_text(m.id.value as nat),
        created,
        match m.session { Some(s) => id_text(s.value as nat), None => Seq::empty() },
        one_line(m.text@),
    ]
}

/// The display form of a memory id: its 26 Crockford digits.
pub fn memory_id_text(id: MemoryId) -> (r: String)
    ensures
        r@ == id_text(id.value as nat),
{
    let t = SessionId { value: id.value }.to_string();
    proof {
        lemma_id_text_is(t@, id.value as nat);
    }
    t
}

fn flatten_lines(text: &str) -> (r: String)
    ensures
        r@ == one_line(text@),
{
    let cs = chars_of(text);
    let mut out = String::new();
    let mut i: usize = 0;
    while i < cs.len()
        invariant
            i <= cs@.len(),
            cs@ == text@,
            out@ == one_line(text@).subrange(0, i as int),
        decreases cs@.len() - i,
    {
        let c = if cs[i] == '\n' { ' ' } else { cs[i] };
        push_char(&mut out, c);
        assert(one_line(text@).subrange(0, i + 1) =~= one_line(text@).subrange(0, i as int).push(c));
        i = i + 1;
    }
    assert(one_line(text@).subrange(0, cs@.len() as int) =~= one_line(text@));
    out
}

/// One `memory list` row (see [`memory_cells`]).
pub fn memory_row(m: &Memory) -> (r: Vec<String>)
    ensures
        views(r@) == memory_cells(*m),
{
    let created = match ts(m.created_secs) {
        Some(t) => t,
        None => String::new(),
    };
    memory_row_at(m, created.as_str())
}

/// One `memory list` row with `created` as its creation cell (see
/// [`memory_cells_at`]).
pub fn memory_row_at(m: &Memory, created: &str) -> (r: Vec<String>)
    ensures
        views(r@) == memory_cells_at(*m, created@),
{
    let id = memory_id_text(m.id);
    let session = match m.session {
        Some(s) => memory_id_text(MemoryId { value: s.value }),
        None => String::new(),
    };
    let text = flatten_lines(m.text.as_str());
    let mut row: Vec<String> = Vec::new();
    row.push(id);
    row.push(string_from(created));
    row.push(session);
    row.push(text);
    assert(views(row@) =~= memory_cells_at(*m, created@));
    row
}

/// Parses the id given to `memory forget`: the 26 Crockford digits of a
/// ULID, as `memory list` shows them.
pub fn parse_memory_id(s: &str) -> (r: Option<MemoryId>)
    ensures
        match sid_of(s@) {
            Some(v) => r == Some(MemoryId { value: v as u128 }),
            None => r is None,
        },
{
    match parse_sid(s) {
        Ok(id) => Some(MemoryId { value: id.value }),
        Err(_) => None,
    }
}

/// What the store answered a request to remove a memory.
pub enum RemoveOutcome {
    Removed,
    NotFound,
    /// Any other failure, with the store's description of it.
    Failed { reason: String },
}

/// What `memory forget` reports for the outcome of removing `id`: the exit
/// code and the line (on standard output where it completed, on standard
/// error otherwise).
pub open spec fn forget_report_spec(id: MemoryId, outcome: RemoveOutcome) -> (ExitCode, Seq<char>) {
    match outcome {
        RemoveOutcome::Removed => (ExitCode::Completed, "forgot memory "@ + id_text(id.value as nat)),
        RemoveOutcome::NotFound => (ExitCode::Usage, "no such memory: "@ + id_text(id.value as nat)),
        RemoveOutcome::Failed { reason } => (
            ExitCode::Usage,
            "could not forget "@ + id_text(id.value as nat) + ": "@ + reason@,
        ),
    }
}

/// The report of `memory forget` (see [`forget_report_spec`]).
pub fn forget_report(id: MemoryId, outcome: &RemoveOutcome) -> (r: (ExitCode, String))
    ensures
        r.0 == forget_report_spec(id, *outcome).0,
        r.1@ == forget_report_spec(id, *outcome).1,
{
    let t = memory_id_text(id);
    match outcome {
        RemoveOutcome::Removed => {
            let mut s = string_from("forgot memory ");
            push_str(&mut s, t.as_str());
            (ExitCode::Completed, s)
        },
        RemoveOutcome::NotFound => {
            let mut s = string_from("no such memory: ");
            push_str(&mut s, t.as_str());
            (ExitCode::Usage, s)
        },
        RemoveOutcome::Failed { reason } => {
            let mut s = string_from("could not forget ");
            push_str(&mut s, t.as_str());
            push_str(&mut s, ": ");
            push_str(&mut s, reason.as_str());
            (ExitCode::Usage, s)
        },
    }
}

/// The column headings of `memory list`.
pub open spec fn memory_headers() -> Seq<Seq<char>> {
    seq!["ID"@, "CREATED"@, "SESSION"@, "TEXT"@]
}

/// What `memory list` prints for `ms`, already in listing order: one line
/// saying nothing is stored, or the table of their rows.
pub open spec fn listing_text(ms: Seq<Memory>) -> Seq<char> {
    if ms.len() == 0 {
        "no memories stored\n"@
    } else {
        table_text(memory_headers(), ms.map_values(|m: Memory| memory_cells(m)))
    }
}

/// What `memory list` prints (see [`listing_text`]).
pub fn memory_listing(memories: &Vec<Memory>) -> (r: String)
    ensures
        r@ == listing_text(memories@),
{
    if memories.len() == 0 {
        return string_from("no memories stored\n");
    }
    let mut rows: Vec<Vec<String>> = Vec::new();
    let mut i: usize = 0;
    while i < memories.len()
        invariant
            i <= memories@.len(),
            rows@.len() == i,
            forall|j: int| 0 <= j < i ==> views(#[trigger] rows@[j]@) == memory_cells(memories@[j]),
        decreases memories@.len() - i,
    {
        rows.push(memory_row(&memories[i]));
        i = i + 1;
    }
    let hs: Vec<&str> = vec!["ID", "CREATED", "SESSION", "TEXT"];
    assert(str_views(hs@) =~= memory_headers());
    assert(rows_view(rows@) =~= memories@.map_values(|m: Memory| memory_cells(m)));
    table(hs.as_slice(), rows)
}

} // verus!
