//! `conway sessions ...`: the rows, titles and trees the listing
//! subcommands print, and the file touches a session's log records.
use vstd::prelude::*;
use crate::text::{chars_of, clone_string, push_decimal, push_str, slice_range, string_from, string_of, trim, trim_chars, decimal};
use crate::fmt::{id_short, short_id, rfc3339_utc, rows_view, str_views, table, table_text, ts, TreeNode};
use crate::session_ref::{SessionId, LogSeq, id_text, is_id_text};
use crate::session_names::{name_error_text, resolve_error_text, NameError, NamesStore, ResolveError};
use crate::exit::ExitCode;
use crate::diag::{one, Reply, replies_view};
use crate::diff::{pair_views, FileTouch, KindView, ToolArgs, file_touch_from_args, touch_from_args, touch_view, views};

verus! {

/// The subcommand's arguments.
pub struct SessionsArgs {
    pub action: SessionsAction,
}

/// `conway sessions ...` actions.
pub enum SessionsAction {
    /// List known sessions.
    List { limit: Option<usize>, label: Option<String>, json: bool },
    /// Show one session's transcript (or, with `diff`, its cumulative diff).
    Show { id: String, json: bool, diff: bool },
    /// Print a session's fork tree.
    Tree { id: String },
    /// Export a session's transcript as JSONL, to `out` or stdout.
    Export { id: String, out: Option<String> },
    /// Bind a name to a session.
    Name { id: String, name: String },
    /// Remove a session's name.
    Unname { id: String },
    /// Attach a label to a session.
    Label { id: String, label: String },
    /// Remove a label from a session.
    Unlabel { id: String, label: String },
}

/// How a child session was created from its parent.
#[derive(Clone, Copy, Debug, PartialEq, Eq, Structural)]
pub enum SubagentMode {
    Fork,
    Spawn,
}

/// Where a child session came from.
#[derive(Clone, Copy, Debug, PartialEq, Eq, Structural)]
pub struct SessionOrigin {
    pub parent: SessionId,
    pub at_seq: LogSeq,
    pub mode: SubagentMode,
}

/// What the listing reads of a session's header.
pub struct SessionMeta {
    pub id: SessionId,
    /// Creation instant, in seconds since the Unix epoch.
    pub created_unix_secs: i64,
    pub role: Option<String>,
    pub origin: Option<SessionOrigin>,
    pub ephemeral: bool,
}

/// The name of a creation mode.
pub open spec fn mode_text(m: SubagentMode) -> Seq<char> {
    match m {
        SubagentMode::Fork => "fork"@,
        SubagentMode::Spawn => "spawn"@,
    }
}

/// The name of a creation mode (see [`mode_text`]).
pub fn mode_str(mode: SubagentMode) -> (r: &'static str)
    ensures
        r@ == mode_text(mode),
{
    match mode {
        SubagentMode::Fork => "fork",
        SubagentMode::Spawn => "spawn",
    }
}

/// The longest auto title, in characters.
pub const AUTO_TITLE_MAX_CHARS: usize = 60;

/// `text` cut to at most `budget` characters: whole when it fits, else
/// its first `budget - 1` characters and `…` (nothing at all for a zero
/// budget).
pub open spec fn ellipsized(text: Seq<char>, budget: nat) -> Seq<char> {
    if text.len() <= budget {
        text
    } else if budget == 0 {
        Seq::empty()
    } else {
        text.take(budget - 1).push('…')
    }
}

/// `text` cut to at most `budget` characters (see [`ellipsized`]).
pub fn truncate_chars_with_ellipsis(text: &str, budget: usize) -> (r: String)
    ensures
        r@ == ellipsized(text@, budget as nat),
{
    let cs = chars_of(text);
    if cs.len() <= budget {
        return string_from(text);
    }
    if budget == 0 {
        return String::new();
    }
    let mut t = slice_range(&cs, 0, budget - 1);
    t.push('…');
    assert(cs@.subrange(0, budget - 1) =~= text@.take(budget - 1));
    string_of(&t)
}

/// The first line of `s`: everything before the first `\n` (all of `s`
/// when there is none).
pub open spec fn first_line(s: Seq<char>) -> Seq<char> {
    if exists|i: int| 0 <= i < s.len() && s[i] == '\n' {
        s.take(choose|i: int| 0 <= i < s.len() && s[i] == '\n' && forall|j: int| 0 <= j < i ==> s[j] != '\n')
    } else {
        s
    }
}

/// The display title derived from a session's first prompt: its first
/// line, trimmed, cut to [`AUTO_TITLE_MAX_CHARS`] characters. (A `\r`
/// ending that line is whitespace, so trimming removes it.)
pub open spec fn auto_title_of(text: Seq<char>) -> Seq<char> {
    ellipsized(trim(first_line(text)), AUTO_TITLE_MAX_CHARS as nat)
}

/// The display title derived from a session's first prompt (see
/// [`auto_title_of`]).
pub fn auto_title(first_user_turn_text: &str) -> (r: String)
    ensures
        r@ == auto_title_of(first_user_turn_text@),
{
    let cs = chars_of(first_user_turn_text);
    let mut i: usize = 0;
    while i < cs.len() && cs[i] != '\n'
        invariant
            i <= cs.len(),
            forall|j: int| 0 <= j < i ==> cs@[j] != '\n',
        decreases cs.len() - i,
    {
        i = i + 1;
    }
    proof {
        if i < cs.len() {
            let j = choose|j: int| 0 <= j < cs@.len() && cs@[j] == '\n' && forall|k: int| 0 <= k < j ==> cs@[k] != '\n';
            assert(cs@[i as int] == '\n');
            if j < i {
            } else if j > i {
            }
            assert(first_line(cs@) == cs@.take(i as int));
        } else {
            assert(!(exists|k: int| 0 <= k < cs@.len() && cs@[k] == '\n'));
            assert(cs@.take(i as int) =~= cs@);
        }
    }
    let line = slice_range(&cs, 0, i);
    assert(line@ =~= cs@.take(i as int));
    let t = trim_chars(&line);
    let s = string_of(&t);
    truncate_chars_with_ellipsis(s.as_str(), AUTO_TITLE_MAX_CHARS)
}

/// The `ORIGIN` cell of a session: `mode@seq parent-prefix`, or empty
/// for a root session.
pub open spec fn origin_text(origin: Option<SessionOrigin>) -> Seq<char> {
    match origin {
        Some(o) => mode_text(o.mode) + "@"@ + decimal(o.at_seq.0 as nat) + " "@ + short_id(id_text(o.parent.value as nat)),
        None => Seq::empty(),
    }
}

/// The display form of an id is the one text that spells it.
pub proof fn lemma_id_text_is(t: Seq<char>, v: nat)
    requires
        is_id_text(t, v),
    ensures
        id_text(v) == t,
{
    let u = id_text(v);
    assert(is_id_text(u, v));
    assert forall|i: int| 0 <= i < t.len() implies t[i] == u[i] by {
        assert(t[i] as int == u[i] as int);
    }
    assert(t =~= u);
}

/// The `ORIGIN` cell of a session (see [`origin_text`]).
pub fn origin_cell(meta: &SessionMeta) -> (r: String)
    ensures
        r@ == origin_text(meta.origin),
{
    match meta.origin {
        Some(o) => {
            let mut s = string_from(mode_str(o.mode));
            push_str(&mut s, "@");
            push_decimal(&mut s, o.at_seq.0);
            push_str(&mut s, " ");
            let parent = o.parent.to_string();
            proof {
                lemma_id_text_is(parent@, o.parent.value as nat);
            }
            let short = id_short(parent.as_str());
            push_str(&mut s, short.as_str());
            s
        }
        None => String::new(),
    }
}

/// The `CREATED` cell: the RFC 3339 instant, or empty where it cannot be
/// represented.
pub open spec fn created_text(secs: i64) -> Seq<char> {
    match rfc3339_utc(secs) {
        Some(t) => t,
        None => Seq::empty(),
    }
}

/// One `sessions list` row: the full id, the title (or empty), the
/// creation instant, the role (or empty), and the origin.
pub open spec fn row_cells(meta: SessionMeta, title: Option<Seq<char>>) -> Seq<Seq<char>> {
    row_cells_at(meta, title, created_text(meta.created_unix_secs))
}

/// One `sessions list` row, given its `CREATED` cell.
pub open spec fn row_cells_at(meta: SessionMeta, title: Option<Seq<char>>, created: Seq<char>) -> Seq<Seq<char>> {
    seq![
        id_text(meta.id.value as nat),
        match title { Some(t) => t, None => Seq::empty() },
        created,
        match meta.role { Some(r) => r@, None => Seq::empty() },
        origin_text(meta.origin),
    ]
}

/// One `sessions list` row (see [`row_cells`]).
pub fn session_row(meta: &SessionMeta, title: Option<&str>) -> (r: Vec<String>)
    ensures
        views(r@) == row_cells(*meta, match title {
            Some(t) => Some(t@),
            None => None,
        }),
{
    let created = match ts(meta.created_unix_secs) {
        Some(t) => t,
        None => String::new(),
    };
    session_row_at(meta, title, created.as_str())
}

/// One `sessions list` row with `created` as its `CREATED` cell (see
/// [`row_cells_at`]).
pub fn session_row_at(meta: &SessionMeta, title: Option<&str>, created: &str) -> (r: Vec<String>)
    ensures
        views(r@) == row_cells_at(*meta, match title {
            Some(t) => Some(t@),
            None => None,
        }, created@),
{
    let id = meta.id.to_string();
    proof {
        lemma_id_text_is(id@, meta.id.value as nat);
    }
    let title_cell = match title {
        Some(t) => string_from(t),
        None => String::new(),
    };
    let role = match &meta.role {
        Some(r) => clone_string(r),
        None => String::new(),
    };
    let origin = origin_cell(meta);
    let mut row: Vec<String> = Vec::new();
    row.push(id);
    row.push(title_cell);
    row.push(string_from(created));
    row.push(role);
    row.push(origin);
    assert(views(row@) =~= row_cells_at(*meta, match title {
        Some(t) => Some(t@),
        None => None,
    }, created@));
    row
}

/// The column headers of `sessions list`.
pub open spec fn session_headers() -> Seq<Seq<char>> {
    seq!["ID"@, "NAME"@, "CREATED"@, "ROLE"@, "ORIGIN"@]
}

/// A title as a plain value.
pub open spec fn title_view(t: Option<String>) -> Option<Seq<char>> {
    match t {
        Some(s) => Some(s@),
        None => None,
    }
}

/// What `sessions list` prints for `listed`, each session with its title:
/// the table of their rows (its header alone when there are none).
pub open spec fn session_listing_text(listed: Seq<(SessionMeta, Option<String>)>) -> Seq<char> {
    table_text(session_headers(), listed.map_values(|e: (SessionMeta, Option<String>)| row_cells(e.0, title_view(e.1))))
}

/// What `sessions list` prints (see [`session_listing_text`]).
pub fn session_listing(listed: &Vec<(SessionMeta, Option<String>)>) -> (r: String)
    ensures
        r@ == session_listing_text(listed@),
{
    let mut rows: Vec<Vec<String>> = Vec::new();
    let mut i: usize = 0;
    while i < listed.len()
        invariant
            i <= listed@.len(),
            rows@.len() == i,
            forall|j: int| 0 <= j < i ==> views(#[trigger] rows@[j]@) == row_cells(listed@[j].0, title_view(listed@[j].1)),
        decreases listed@.len() - i,
    {
        let title = match &listed[i].1 {
            Some(t) => Some(t.as_str()),
            None => None,
        };
        rows.push(session_row(&listed[i].0, title));
        i = i + 1;
    }
    let hs: Vec<&str> = vec!["ID", "NAME", "CREATED", "ROLE", "ORIGIN"];
    assert(str_views(hs@) =~= session_headers());
    assert(rows_view(rows@) =~= listed@.map_values(|e: (SessionMeta, Option<String>)| row_cells(e.0, title_view(e.1))));
    table(hs.as_slice(), rows)
}

/// The first session in `metas` with the id `v`.
pub open spec fn find_session_spec(metas: Seq<SessionMeta>, v: u128) -> Option<int>
    decreases metas.len(),
{
    if metas.len() == 0 {
        None
    } else {
        match find_session_spec(metas.drop_last(), v) {
            Some(i) => Some(i),
            None => if metas.last().id.value == v { Some(metas.len() - 1) } else { None },
        }
    }
}

/// The index of the first session in `metas` with the id `id`.
pub fn find_session(metas: &[SessionMeta], id: SessionId) -> (r: Option<usize>)
    ensures
        match find_session_spec(metas@, id.value) {
            Some(i) => r matches Some(j) && j as int == i,
            None => r is None,
        },
{
    let mut k: usize = 0;
    while k < metas.len()
        invariant
            k <= metas.len(),
            find_session_spec(metas@.take(k as int), id.value) is None,
        decreases metas.len() - k,
    {
        assert(metas@.take(k as int + 1).drop_last() =~= metas@.take(k as int));
        if metas[k].id.value == id.value {
            proof {
                let mut m = k as int + 1;
                assert(find_session_spec(metas@.take(m), id.value) == Some(k as int));
                lemma_find_prefix(metas@, m, k as int, id.value);
            }
            return Some(k);
        }
        k = k + 1;
    }
    assert(metas@.take(metas.len() as int) =~= metas@);
    None
}

proof fn lemma_find_prefix(metas: Seq<SessionMeta>, m: int, k: int, v: u128)
    requires
        0 <= m <= metas.len(),
        find_session_spec(metas.take(m), v) == Some(k),
    ensures
        find_session_spec(metas, v) == Some(k),
    decreases metas.len() - m,
{
    if m < metas.len() {
        assert(metas.take(m + 1).drop_last() =~= metas.take(m));
        lemma_find_prefix(metas, m + 1, k, v);
    } else {
        assert(metas.take(m) =~= metas);
    }
}

/// A session's label in the fork tree: its full id and its role (`-`
/// when it has none).
pub open spec fn tree_label(m: SessionMeta) -> Seq<char> {
    id_text(m.id.value as nat) + "  role="@ + match m.role {
        Some(r) => r@,
        None => "-"@,
    }
}

/// Whether `m` is shown as a child of the session `parent`: it names
/// `parent` as its origin and is not ephemeral.
pub open spec fn is_child_of(m: SessionMeta, parent: u128) -> bool {
    !m.ephemeral && (m.origin matches Some(o) && o.parent.value == parent)
}

/// The indices of `parent`'s children in `metas`, in list order.
pub open spec fn child_indices(metas: Seq<SessionMeta>, parent: u128) -> Seq<int>
    decreases metas.len(),
{
    if metas.len() == 0 {
        Seq::empty()
    } else if is_child_of(metas.last(), parent) {
        child_indices(metas.drop_last(), parent).push(metas.len() - 1)
    } else {
        child_indices(metas.drop_last(), parent)
    }
}

/// Whether `n` is the fork tree of session `i` of `metas`, unfolded at
/// most `depth` levels below it.
pub open spec fn is_session_tree(n: TreeNode, metas: Seq<SessionMeta>, i: int, depth: nat) -> bool
    decreases depth,
{
    &&& n.label@ == tree_label(metas[i])
    &&& if depth == 0 {
        n.children@.len() == 0
    } else {
        let cs = child_indices(metas, metas[i].id.value);
        &&& n.children@.len() == cs.len()
        &&& forall|k: int| 0 <= k < cs.len() ==> is_session_tree(#[trigger] n.children@[k], metas, cs[k], (depth - 1) as nat)
    }
}

proof fn lemma_child_indices_prefix(metas: Seq<SessionMeta>, j: int, parent: u128)
    requires
        0 <= j < metas.len(),
    ensures
        child_indices(metas.take(j + 1), parent) == if is_child_of(metas[j], parent) {
            child_indices(metas.take(j), parent).push(j)
        } else {
            child_indices(metas.take(j), parent)
        },
{
    assert(metas.take(j + 1).drop_last() =~= metas.take(j));
}

fn tree_label_of(m: &SessionMeta) -> (r: String)
    ensures
        r@ == tree_label(*m),
{
    let id = m.id.to_string();
    proof {
        lemma_id_text_is(id@, m.id.value as nat);
    }
    let mut s = string_from(id.as_str());
    push_str(&mut s, "  role=");
    match &m.role {
        Some(r) => push_str(&mut s, r.as_str()),
        None => push_str(&mut s, "-"),
    }
    s
}

fn build_tree(metas: &[SessionMeta], i: usize, depth: usize) -> (r: TreeNode)
    requires
        i < metas.len(),
    ensures
        is_session_tree(r, metas@, i as int, depth as nat),
    decreases depth,
{
    let label = tree_label_of(&metas[i]);
    let mut children: Vec<TreeNode> = Vec::new();
    if depth == 0 {
        return TreeNode { label, children };
    }
    let parent = metas[i].id.value;
    let mut j: usize = 0;
    while j < metas.len()
        invariant
            j <= metas.len(),
            depth > 0,
            children@.len() == child_indices(metas@.take(j as int), parent).len(),
            forall|k: int| 0 <= k < children@.len() ==> is_session_tree(#[trigger] children@[k], metas@,
                child_indices(metas@.take(j as int), parent)[k], (depth - 1) as nat),
        decreases metas.len() - j,
    {
        proof {
            lemma_child_indices_prefix(metas@, j as int, parent);
        }
        let m = &metas[j];
        let is_child = !m.ephemeral && match m.origin {
            Some(o) => o.parent.value == parent,
            None => false,
        };
        if is_child {
            let child = build_tree(metas, j, depth - 1);
            children.push(child);
        }
        j = j + 1;
    }
    assert(metas@.take(metas.len() as int) =~= metas@);
    TreeNode { label, children }
}

/// The fork tree of session `root` of `metas`: each session labelled by
/// [`tree_label`], its children the non-ephemeral sessions that name it
/// as their origin, in list order. The tree is unfolded at most
/// `metas.len()` levels deep, which only ever cuts short an origin cycle.
pub fn session_tree(metas: &[SessionMeta], root: usize) -> (r: TreeNode)
    requires
        root < metas.len(),
    ensures
        is_session_tree(r, metas@, root as int, metas@.len()),
{
    build_tree(metas, root, metas.len())
}

/// One block of an assistant message, as far as file touches read it.
pub enum ContentBlock {
    /// A tool call: its id, the tool's name, and its arguments.
    ToolUse { call_id: String, name: String, arguments: ToolArgs },
    /// Any other block.
    Other,
}

/// One record of a session's log, as far as file touches read it.
pub enum LogRecord {
    /// An assistant message.
    Assistant { content: Vec<ContentBlock> },
    /// The result of the tool call `call_id`.
    ToolResult { call_id: String, is_error: bool },
    /// Any other record.
    Other,
}

/// A tool call still waiting for its result: its id, tool name and
/// arguments.
pub type PendingCall = (Seq<char>, Seq<char>, ToolArgs);

/// The position of call `k` among the waiting calls, if it is one.
pub open spec fn pending_index(p: Seq<PendingCall>, k: Seq<char>) -> Option<int>
    decreases p.len(),
{
    if p.len() == 0 {
        None
    } else {
        match pending_index(p.drop_last(), k) {
            Some(i) => Some(i),
            None => if p.last().0 == k { Some(p.len() - 1) } else { None },
        }
    }
}

/// Records call `k`, replacing an earlier call with the same id.
pub open spec fn pending_insert(p: Seq<PendingCall>, c: PendingCall) -> Seq<PendingCall> {
    match pending_index(p, c.0) {
        Some(i) => p.update(i, c),
        None => p.push(c),
    }
}

/// Forgets call `k`.
pub open spec fn pending_remove(p: Seq<PendingCall>, k: Seq<char>) -> Seq<PendingCall> {
    match pending_index(p, k) {
        Some(i) => p.remove(i),
        None => p,
    }
}

/// Records every tool call among `blocks`, in order.
pub open spec fn note_calls(p: Seq<PendingCall>, blocks: Seq<ContentBlock>) -> Seq<PendingCall>
    decreases blocks.len(),
{
    if blocks.len() == 0 {
        p
    } else {
        let q = note_calls(p, blocks.drop_last());
        match blocks.last() {
            ContentBlock::ToolUse { call_id, name, arguments } => pending_insert(q, (call_id@, name@, arguments)),
            ContentBlock::Other => q,
        }
    }
}

/// The waiting calls and the touches so far after replaying `records`: a
/// tool call waits for its result; a successful result turns its call
/// into a touch (when the call is an `edit`/`write` with its fields); any
/// result ends the wait.
pub open spec fn replay(records: Seq<LogRecord>) -> (Seq<PendingCall>, Seq<(Seq<char>, KindView)>)
    decreases records.len(),
{
    if records.len() == 0 {
        (Seq::empty(), Seq::empty())
    } else {
        let (p, ts) = replay(records.drop_last());
        match records.last() {
            LogRecord::Assistant { content } => (note_calls(p, content@), ts),
            LogRecord::ToolResult { call_id, is_error } => {
                let found = match pending_index(p, call_id@) {
                    Some(i) if !is_error => touch_from_args(p[i].1, p[i].2),
                    _ => None,
                };
                (pending_remove(p, call_id@), match found {
                    Some(t) => ts.push(t),
                    None => ts,
                })
            },
            LogRecord::Other => (p, ts),
        }
    }
}

/// The views of waiting calls.
pub open spec fn pending_views(v: Seq<(String, String, ToolArgs)>) -> Seq<PendingCall> {
    v.map_values(|c: (String, String, ToolArgs)| (c.0@, c.1@, c.2))
}

fn clone_opt(o: &Option<String>) -> (r: Option<String>)
    ensures
        r == *o,
{
    match o {
        Some(s) => Some(s.clone()),
        None => None,
    }
}

fn clone_args(a: &ToolArgs) -> (r: ToolArgs)
    ensures
        r == *a,
{
    ToolArgs {
        path: clone_opt(&a.path),
        content: clone_opt(&a.content),
        old_string: clone_opt(&a.old_string),
        new_string: clone_opt(&a.new_string),
        replace_all: a.replace_all,
    }
}

fn find_pending(p: &Vec<(String, String, ToolArgs)>, k: &str) -> (r: Option<usize>)
    ensures
        match pending_index(pending_views(p@), k@) {
            Some(i) => r matches Some(j) && j as int == i,
            None => r is None,
        },
{
    let ghost pv = pending_views(p@);
    let mut i: usize = 0;
    while i < p.len()
        invariant
            i <= p.len(),
            pv == pending_views(p@),
            pending_index(pv.take(i as int), k@) is None,
        decreases p.len() - i,
    {
        assert(pv.take(i as int + 1).drop_last() =~= pv.take(i as int));
        if crate::text::str_eq(p[i].0.as_str(), k) {
            proof {
                assert(pending_index(pv.take(i as int + 1), k@) == Some(i as int));
                lemma_pending_prefix(pv, i as int + 1, i as int, k@);
            }
            return Some(i);
        }
        i = i + 1;
    }
    assert(pv.take(p.len() as int) =~= pv);
    None
}

proof fn lemma_pending_prefix(p: Seq<PendingCall>, m: int, i: int, k: Seq<char>)
    requires
        0 <= m <= p.len(),
        pending_index(p.take(m), k) == Some(i),
    ensures
        pending_index(p, k) == Some(i),
    decreases p.len() - m,
{
    if m < p.len() {
        assert(p.take(m + 1).drop_last() =~= p.take(m));
        lemma_pending_prefix(p, m + 1, i, k);
    } else {
        assert(p.take(m) =~= p);
    }
}

proof fn lemma_pending_index_bound(p: Seq<PendingCall>, k: Seq<char>)
    ensures
        pending_index(p, k) matches Some(i) ==> 0 <= i < p.len() && p[i].0 == k,
    decreases p.len(),
{
    if p.len() > 0 {
        lemma_pending_index_bound(p.drop_last(), k);
    }
}

/// Pairs each successful `edit`/`write` call in `records` with its result
/// and reads the file touch it made, in result order (see [`replay`]). A
/// call whose result never arrives, or failed, touched nothing.
pub fn diff_touches_from_records(records: &[LogRecord]) -> (r: Vec<FileTouch>)
    ensures
        r@.map_values(|t: FileTouch| touch_view(t)) == replay(records@).1,
{
    let mut pending: Vec<(String, String, ToolArgs)> = Vec::new();
    let mut touches: Vec<FileTouch> = Vec::new();
    let mut k: usize = 0;
    assert(pending_views(pending@) =~= Seq::<PendingCall>::empty());
    assert(touches@.map_values(|t: FileTouch| touch_view(t)) =~= Seq::<(Seq<char>, KindView)>::empty());
    while k < records.len()
        invariant
            k <= records.len(),
            pending_views(pending@) == replay(records@.take(k as int)).0,
            touches@.map_values(|t: FileTouch| touch_view(t)) == replay(records@.take(k as int)).1,
        decreases records.len() - k,
    {
        assert(records@.take(k as int + 1).drop_last() =~= records@.take(k as int));
        assert(records@.take(k as int + 1).last() == records@[k as int]);
        match &records[k] {
            LogRecord::Assistant { content } => {
                let ghost start = pending_views(pending@);
                let mut b: usize = 0;
                while b < content.len()
                    invariant
                        b <= content.len(),
                        pending_views(pending@) == note_calls(start, content@.take(b as int)),
                    decreases content.len() - b,
                {
                    assert(content@.take(b as int + 1).drop_last() =~= content@.take(b as int));
                    assert(content@.take(b as int + 1).last() == content@[b as int]);
                    match &content[b] {
                        ContentBlock::ToolUse { call_id, name, arguments } => {
                            let ghost before = pending_views(pending@);
                            let entry = (clone_string(call_id), clone_string(name), clone_args(arguments));
                            match find_pending(&pending, call_id.as_str()) {
                                Some(i) => {
                                    proof {
                                        lemma_pending_index_bound(before, call_id@);
                                    }
                                    pending.set(i, entry);
                                    assert(pending_views(pending@) =~= before.update(i as int, (call_id@, name@, *arguments)));

                                }
                                None => {
                                    pending.push(entry);
                                    assert(pending_views(pending@) =~= before.push((call_id@, name@, *arguments)));

                                }
                            }
                            assert(pending_views(pending@) == pending_insert(before, (call_id@, name@, *arguments)));
                            assert(content@[b as int] == ContentBlock::ToolUse { call_id: *call_id, name: *name, arguments: *arguments });
                        }
                        ContentBlock::Other => {}
                    }
                    b = b + 1;
                }
                assert(content@.take(content.len() as int) =~= content@);
                assert(replay(records@.take(k as int + 1)).0 == note_calls(replay(records@.take(k as int)).0, content@));
            }
            LogRecord::ToolResult { call_id, is_error } => {
                let ghost before = pending_views(pending@);
                proof {
                    lemma_pending_index_bound(before, call_id@);
                }
                match find_pending(&pending, call_id.as_str()) {
                    Some(i) => {
                        if !*is_error {
                            let ghost old_touches = touches@.map_values(|t: FileTouch| touch_view(t));
                            match file_touch_from_args(pending[i].1.as_str(), &pending[i].2) {
                                Some(t) => {
                                    touches.push(t);
                                    assert(touches@.map_values(|t: FileTouch| touch_view(t))
                                        =~= old_touches.push(touch_view(t)));
                                }
                                None => {}
                            }
                        }
                        pending.remove(i);
                        assert(pending_views(pending@) =~= before.remove(i as int));
                    }
                    None => {}
                }
            }
            LogRecord::Other => {}
        }
        k = k + 1;
    }
    assert(records@.take(records.len() as int) =~= records@);
    touches
}

/// The title `sessions list` shows for a session: the name bound to it,
/// else the title derived from its first prompt, else none.
pub open spec fn display_title_of(name: Option<Seq<char>>, first_user_turn: Option<Seq<char>>) -> Option<Seq<char>> {
    match name {
        Some(n) => Some(n),
        None => match first_user_turn {
            Some(t) => Some(auto_title_of(t)),
            None => None,
        },
    }
}

/// The title `sessions list` shows for session `id` (see
/// [`display_title_of`]), given the text of its first prompt where it has
/// one.
pub fn display_title(names: &NamesStore, id: SessionId, first_user_turn: Option<&str>) -> (r: Option<String>)
    ensures
        ({
            let got = match r { Some(s) => Some(s@), None => None };
            got == display_title_of(names.name_of_spec(id.value), match first_user_turn {
                Some(t) => Some(t@),
                None => None,
            })
        }),
{
    match names.name_of(id) {
        Some(n) => Some(string_from(n)),
        None => match first_user_turn {
            Some(t) => Some(auto_title(t)),
            None => None,
        },
    }
}

/// The sections of a cumulative diff: each path under a `## ` heading,
/// followed by its diff.
pub open spec fn diff_sections(ds: Seq<(Seq<char>, Seq<char>)>) -> Seq<char>
    decreases ds.len(),
{
    if ds.len() == 0 {
        Seq::empty()
    } else {
        diff_sections(ds.drop_last()) + "## "@ + ds.last().0 + "\n"@ + ds.last().1
    }
}

/// What `sessions show --diff` prints for a session's cumulative diff:
/// one honest line where nothing was touched, else every section.
pub open spec fn diff_snapshot(ds: Seq<(Seq<char>, Seq<char>)>) -> Seq<char> {
    if ds.len() == 0 {
        "no files edited or written yet in this session\n"@
    } else {
        diff_sections(ds)
    }
}

/// What `sessions show --diff` prints (see [`diff_snapshot`]).
pub fn diff_snapshot_text(diffs: &Vec<(String, String)>) -> (r: String)
    ensures
        r@ == diff_snapshot(pair_views(diffs@)),
{
    if diffs.len() == 0 {
        return string_from("no files edited or written yet in this session\n");
    }
    let ghost ds = pair_views(diffs@);
    let mut out = String::new();
    let mut i: usize = 0;
    while i < diffs.len()
        invariant
            i <= diffs@.len(),
            ds == pair_views(diffs@),
            out@ == diff_sections(ds.take(i as int)),
        decreases diffs@.len() - i,
    {
        let mut sec = string_from("## ");
        push_str(&mut sec, diffs[i].0.as_str());
        push_str(&mut sec, "\n");
        push_str(&mut sec, diffs[i].1.as_str());
        push_str(&mut out, sec.as_str());
        proof {
            assert(ds.take(i + 1).drop_last() =~= ds.take(i as int));
            assert(ds.take(i + 1).last() == ds[i as int]);
        }
        i = i + 1;
    }
    assert(ds.take(diffs@.len() as int) =~= ds);
    out
}

/// How a `sessions` subcommand aimed at one session (`show`, `tree`,
/// `export`, `name`, `unname`, `label`, `unlabel`) ended.
pub enum TargetOutcome {
    /// The names sidecar could not be read.
    NamesUnreadable { error: NameError },
    /// The reference is neither a session id nor a bound name.
    Unresolved { error: ResolveError },
    /// No session has the resolved id; the lookup's error text, for the
    /// subcommands that show it.
    UnknownSession { detail: Option<String> },
    /// Binding or removing the name was refused.
    NameRefused { error: NameError },
    /// The session `sid` now carries `tag`, a name or a label.
    Bound { sid: SessionId, tag: String },
    /// The subcommand did its work with nothing to report (`unname`,
    /// `unlabel`, or `show`/`tree`/`export` once their output is written).
    Done,
}

/// The exit code and lines of a subcommand aimed at the session `id`
/// names: every refusal is a usage error on stderr; a binding prints the
/// session id and what it now carries.
pub open spec fn target_report_of(id: Seq<char>, o: TargetOutcome) -> (ExitCode, Seq<(bool, Seq<char>)>) {
    match o {
        TargetOutcome::NamesUnreadable { error } => (ExitCode::Usage, seq![(true, name_error_text(error))]),
        TargetOutcome::Unresolved { error } => (ExitCode::Usage, seq![(true, resolve_error_text(error.0@))]),
        TargetOutcome::UnknownSession { detail } => (ExitCode::Usage, seq![(true, "unknown session "@ + id + match detail {
            Some(d) => ": "@ + d@,
            None => Seq::empty(),
        })]),
        TargetOutcome::NameRefused { error } => (ExitCode::Usage, seq![(true, name_error_text(error))]),
        TargetOutcome::Bound { sid, tag } => (ExitCode::Completed, seq![(false, id_text(sid.value as nat) + "  "@ + tag@)]),
        TargetOutcome::Done => (ExitCode::Completed, Seq::empty()),
    }
}

/// What a subcommand aimed at the session `id` names reports for its
/// outcome (see [`target_report_of`]).
pub fn target_report(id: &str, outcome: &TargetOutcome) -> (r: (ExitCode, Vec<Reply>))
    ensures
        r.0 == target_report_of(id@, *outcome).0,
        replies_view(r.1@) == target_report_of(id@, *outcome).1,
{
    let (code, v) = match outcome {
        TargetOutcome::NamesUnreadable { error } => (ExitCode::Usage, one(Reply::Stderr(error.message()))),
        TargetOutcome::Unresolved { error } => (ExitCode::Usage, one(Reply::Stderr(error.message()))),
        TargetOutcome::UnknownSession { detail } => {
            let mut s = string_from("unknown session ");
            push_str(&mut s, id);
            let ghost head = s@;
            match detail {
                Some(d) => {
                    push_str(&mut s, ": ");
                    push_str(&mut s, d.as_str());
                    assert(s@ =~= head + (": "@ + d@));
                }
                None => {
                    assert(s@ =~= head + Seq::<char>::empty());
                }
            }
            (ExitCode::Usage, one(Reply::Stderr(s)))
        }
        TargetOutcome::NameRefused { error } => (ExitCode::Usage, one(Reply::Stderr(error.message()))),
        TargetOutcome::Bound { sid, tag } => {
            let mut s = sid.to_string();
            proof {
                lemma_id_text_is(s@, sid.value as nat);
            }
            push_str(&mut s, "  ");
            push_str(&mut s, tag.as_str());
            assert(s@ == id_text(sid.value as nat) + "  "@ + tag@);
            (ExitCode::Completed, one(Reply::Stdout(s)))
        }
        TargetOutcome::Done => {
            let v: Vec<Reply> = Vec::new();
            assert(replies_view(v@) =~= Seq::empty());
            (ExitCode::Completed, v)
        }
    };
    (code, v)
}

/// A refused `sessions` request -- an unreadable names file, a reference
/// that names nothing, an unknown session, a refused binding -- exits with
/// the usage code and prints nothing on stdout: the agent never starts.
pub proof fn law_a_refused_target_is_a_usage_error_with_empty_stdout(id: Seq<char>, o: TargetOutcome)
    requires
        !(o is Bound || o is Done),
    ensures
        target_report_of(id, o).0 == ExitCode::Usage,
        forall|k: int| 0 <= k < target_report_of(id, o).1.len() ==> (#[trigger] target_report_of(id, o).1[k]).0,
{
}

/// A title never runs past its bound: whatever the first prompt, the
/// derived title has at most [`AUTO_TITLE_MAX_CHARS`] characters, and one
/// cut short ends with `…`.
pub proof fn law_auto_title_is_bounded(text: Seq<char>)
    ensures
        auto_title_of(text).len() <= AUTO_TITLE_MAX_CHARS,
        trim(first_line(text)).len() > AUTO_TITLE_MAX_CHARS ==> auto_title_of(text).last() == '…'
            && auto_title_of(text).len() == AUTO_TITLE_MAX_CHARS,
{
}

} // verus!
