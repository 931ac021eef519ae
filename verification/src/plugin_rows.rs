//! The `/plugin` listing's row model and the builders that turn each
//! plugin source's already-loaded data into rows: compiled-in plugins,
//! subprocess plugins, MCP servers, and compat plugin directories.
use vstd::prelude::*;
use crate::text::{clone_string, decimal, join, push_decimal, push_joined, push_str, string_from};
use crate::routes::string_views;

verus! {

/// Where a plugin comes from.
#[derive(Clone, Copy, Debug, PartialEq, Eq, Structural)]
pub enum PluginOrigin {
    /// Compiled into this binary, selected via `[plugins].install`.
    CompiledIn,
    /// `[plugins].subprocess[]`: a command speaking conway's wire protocol.
    Subprocess,
    /// `[plugins].mcp[]`: a command speaking MCP.
    Mcp,
    /// `[plugins].claude_compat[]`: a compat plugin directory.
    ClaudeCompat,
}

/// The label an origin is shown with.
pub open spec fn origin_label(o: PluginOrigin) -> Seq<char> {
    match o {
        PluginOrigin::CompiledIn => "compiled-in"@,
        PluginOrigin::Subprocess => "subprocess"@,
        PluginOrigin::Mcp => "mcp"@,
        PluginOrigin::ClaudeCompat => "compat"@,
    }
}

impl PluginOrigin {
    /// The label this origin is shown with (see [`origin_label`]).
    pub fn label(self) -> (r: &'static str)
        ensures
            r@ == origin_label(self),
    {
        match self {
            PluginOrigin::CompiledIn => "compiled-in",
            PluginOrigin::Subprocess => "subprocess",
            PluginOrigin::Mcp => "mcp",
            PluginOrigin::ClaudeCompat => "compat",
        }
    }
}

/// What a plugin says it gives, takes away and costs.
#[derive(Debug, PartialEq, Eq)]
pub struct PluginDescription {
    pub summary: String,
    pub you_get: String,
    pub you_lose: String,
    pub costs: String,
}

/// Whether a row responds to a toggle, and if not, why.
#[derive(Debug, PartialEq, Eq)]
pub enum PluginToggle {
    /// A compiled-in plugin's `[plugins].install` membership.
    Toggleable { installed: bool },
    /// No control exists for this row; `reason` says why.
    ReadOnly { reason: &'static str },
}

/// One row of the plugin listing.
#[derive(Debug, PartialEq, Eq)]
pub struct PluginRow {
    pub id: String,
    pub origin: PluginOrigin,
    /// What the plugin contributes, in one line.
    pub contributes: String,
    /// Whether the plugin runs in this process.
    pub active: bool,
    pub toggle: PluginToggle,
    /// The full breakdown, where one exists.
    pub description: Option<PluginDescription>,
}

/// A compiled-in plugin this binary links.
pub struct PluginBrowserEntry {
    pub id: String,
    pub version: String,
    pub installed: bool,
    pub description: PluginDescription,
}

/// A `[plugins].subprocess`/`[plugins].mcp` entry.
pub struct ConfiguredPluginEntry {
    pub id: String,
}

/// A compat plugin directory, as translated at startup.
pub struct ClaudeCompatPluginEntry {
    pub id: String,
    /// The directory's displayed path.
    pub source_dir: String,
    pub mcp_server_count: usize,
    pub mapped_hook_count: usize,
    pub deny_capable_hook_count: usize,
    pub unmapped_hook_names: Vec<String>,
    pub unsupported_names: Vec<String>,
}

/// Why a subprocess row has no toggle.
pub const READ_ONLY_SUBPROCESS_REASON: &'static str = "installed unconditionally from [plugins].subprocess in settings.json -- no per-entry control here; edit settings.json to remove it";

/// Why an MCP row has no toggle.
pub const READ_ONLY_MCP_REASON: &'static str = "installed unconditionally from [plugins].mcp in settings.json -- no per-entry control here; edit settings.json to remove it";

/// Why a compat directory row has no toggle.
pub const READ_ONLY_CLAUDE_COMPAT_REASON: &'static str = "read-at-runtime from a directory named in [plugins].claude_compat in settings.json -- no per-entry control here; run `/plugin uninstall <id>` (or edit settings.json directly) to remove it";

/// What a subprocess plugin may contribute.
pub const SUBPROCESS_CONTRIBUTES: &'static str = "tools, permission policy, observation, status (the wire points a subprocess plugin may bridge)";

/// What an MCP plugin contributes.
pub const MCP_CONTRIBUTES: &'static str = "tools only";

/// The most names a row lists before a `+N more` tail.
pub const MAX_NAMED_ITEMS: usize = 4;

/// `value`, or `fallback` when `value` is empty.
pub open spec fn non_empty_or_spec(value: Seq<char>, fallback: Seq<char>) -> Seq<char> {
    if value.len() == 0 { fallback } else { value }
}

/// `value`, or `fallback` when `value` is empty.
pub fn non_empty_or<'a>(value: &'a str, fallback: &'a str) -> (r: &'a str)
    ensures
        r@ == non_empty_or_spec(value@, fallback@),
{
    if value.is_empty() {
        fallback
    } else {
        value
    }
}

/// A row's view: id, origin, contributes, active, toggle (`None` for a
/// toggleable row's `installed` flag kept in `Ok`), and the description's
/// four texts, if any.
pub open spec fn toggle_view(t: PluginToggle) -> Result<bool, Seq<char>> {
    match t {
        PluginToggle::Toggleable { installed } => Ok(installed),
        PluginToggle::ReadOnly { reason } => Err(reason@),
    }
}

/// The four texts of a description.
pub open spec fn description_view(d: PluginDescription) -> (Seq<char>, Seq<char>, Seq<char>, Seq<char>) {
    (d.summary@, d.you_get@, d.you_lose@, d.costs@)
}

/// Whether `row` is the row of compiled-in plugin `e`: its summary (or
/// `(no description)`) as what it contributes, active and toggleable as it
/// is installed, with its full description.
pub open spec fn is_browser_row(row: PluginRow, e: PluginBrowserEntry) -> bool {
    &&& row.id@ == e.id@
    &&& row.origin == PluginOrigin::CompiledIn
    &&& row.contributes@ == non_empty_or_spec(e.description.summary@, "(no description)"@)
    &&& row.active == e.installed
    &&& toggle_view(row.toggle) == Ok::<bool, Seq<char>>(e.installed)
    &&& row.description matches Some(d) && description_view(d) == description_view(e.description)
}

fn clone_description(d: &PluginDescription) -> (r: PluginDescription)
    ensures
        description_view(r) == description_view(*d),
{
    PluginDescription {
        summary: clone_string(&d.summary),
        you_get: clone_string(&d.you_get),
        you_lose: clone_string(&d.you_lose),
        costs: clone_string(&d.costs),
    }
}

/// One row per compiled-in plugin, in order (see [`is_browser_row`]).
pub fn rows_from_plugin_browser(entries: &[PluginBrowserEntry]) -> (r: Vec<PluginRow>)
    ensures
        r@.len() == entries@.len(),
        forall|i: int| 0 <= i < entries@.len() ==> is_browser_row(#[trigger] r@[i], entries@[i]),
{
    let mut rows: Vec<PluginRow> = Vec::new();
    let mut i: usize = 0;
    while i < entries.len()
        invariant
            i <= entries.len(),
            rows@.len() == i,
            forall|k: int| 0 <= k < i ==> is_browser_row(#[trigger] rows@[k], entries@[k]),
        decreases entries.len() - i,
    {
        let e = &entries[i];
        let contributes = string_from(non_empty_or(e.description.summary.as_str(), "(no description)"));
        rows.push(PluginRow {
            id: clone_string(&e.id),
            origin: PluginOrigin::CompiledIn,
            contributes,
            active: e.installed,
            toggle: PluginToggle::Toggleable { installed: e.installed },
            description: Some(clone_description(&e.description)),
        });
        i = i + 1;
    }
    rows
}

/// Whether `row` is the read-only, always-active row of configured entry
/// `e` from `origin`, contributing `contributes`, with no description.
pub open spec fn is_configured_row(row: PluginRow, e: ConfiguredPluginEntry, origin: PluginOrigin,
    contributes: Seq<char>, reason: Seq<char>) -> bool
{
    &&& row.id@ == e.id@
    &&& row.origin == origin
    &&& row.contributes@ == contributes
    &&& row.active
    &&& toggle_view(row.toggle) == Err::<bool, Seq<char>>(reason)
    &&& row.description is None
}

fn configured_rows(entries: &[ConfiguredPluginEntry], origin: PluginOrigin, contributes: &'static str,
    reason: &'static str) -> (r: Vec<PluginRow>)
    ensures
        r@.len() == entries@.len(),
        forall|i: int| 0 <= i < entries@.len() ==> is_configured_row(#[trigger] r@[i], entries@[i], origin,
            contributes@, reason@),
{
    let mut rows: Vec<PluginRow> = Vec::new();
    let mut i: usize = 0;
    while i < entries.len()
        invariant
            i <= entries.len(),
            rows@.len() == i,
            forall|k: int| 0 <= k < i ==> is_configured_row(#[trigger] rows@[k], entries@[k], origin,
                contributes@, reason@),
        decreases entries.len() - i,
    {
        rows.push(PluginRow {
            id: clone_string(&entries[i].id),
            origin,
            contributes: string_from(contributes),
            active: true,
            toggle: PluginToggle::ReadOnly { reason },
            description: None,
        });
        i = i + 1;
    }
    rows
}

/// One row per subprocess plugin, in order.
pub fn rows_from_subprocess(entries: &[ConfiguredPluginEntry]) -> (r: Vec<PluginRow>)
    ensures
        r@.len() == entries@.len(),
        forall|i: int| 0 <= i < entries@.len() ==> is_configured_row(#[trigger] r@[i], entries@[i],
            PluginOrigin::Subprocess, SUBPROCESS_CONTRIBUTES@, READ_ONLY_SUBPROCESS_REASON@),
{
    configured_rows(entries, PluginOrigin::Subprocess, SUBPROCESS_CONTRIBUTES, READ_ONLY_SUBPROCESS_REASON)
}

/// One row per MCP plugin, in order.
pub fn rows_from_mcp(entries: &[ConfiguredPluginEntry]) -> (r: Vec<PluginRow>)
    ensures
        r@.len() == entries@.len(),
        forall|i: int| 0 <= i < entries@.len() ==> is_configured_row(#[trigger] r@[i], entries@[i],
            PluginOrigin::Mcp, MCP_CONTRIBUTES@, READ_ONLY_MCP_REASON@),
{
    configured_rows(entries, PluginOrigin::Mcp, MCP_CONTRIBUTES, READ_ONLY_MCP_REASON)
}

/// Up to [`MAX_NAMED_ITEMS`] names joined with `, `, then `, +N more` for
/// the rest.
pub open spec fn bounded_names(names: Seq<Seq<char>>) -> Seq<char> {
    if names.len() <= MAX_NAMED_ITEMS {
        join(names, ", "@)
    } else {
        join(names.take(MAX_NAMED_ITEMS as int), ", "@) + ", +"@ + decimal((names.len() - MAX_NAMED_ITEMS) as nat)
            + " more"@
    }
}

/// Names, bounded (see [`bounded_names`]).
pub fn bounded_name_list(names: &Vec<String>) -> (r: String)
    ensures
        r@ == bounded_names(string_views(names@)),
{
    let mut s = String::new();
    if names.len() <= MAX_NAMED_ITEMS {
        push_joined(&mut s, names, ", ");
        assert(s@ =~= join(string_views(names@), ", "@));
        return s;
    }
    let mut head: Vec<String> = Vec::new();
    let mut i: usize = 0;
    while i < MAX_NAMED_ITEMS
        invariant
            i <= MAX_NAMED_ITEMS,
            names@.len() > MAX_NAMED_ITEMS,
            head@.len() == i,
            forall|k: int| 0 <= k < i ==> #[trigger] head@[k]@ == names@[k]@,
        decreases MAX_NAMED_ITEMS - i,
    {
        head.push(clone_string(&names[i]));
        i = i + 1;
    }
    assert(string_views(head@) =~= string_views(names@).take(MAX_NAMED_ITEMS as int));
    push_joined(&mut s, &head, ", ");
    push_str(&mut s, ", +");
    push_decimal(&mut s, (names.len() - MAX_NAMED_ITEMS) as u64);
    push_str(&mut s, " more");
    assert(s@ =~= bounded_names(string_views(names@)));
    s
}

/// The hooks part of a directory row's one-line summary: mapped of total,
/// and how many of the mapped can deny.
pub open spec fn hooks_text(e: ClaudeCompatPluginEntry) -> Seq<char> {
    let total = e.mapped_hook_count + e.unmapped_hook_names@.len();
    if total > 0 {
        "; hooks "@ + decimal(e.mapped_hook_count as nat) + "/"@ + decimal(total as nat)
            + " mapped and dispatching ("@ + decimal(e.deny_capable_hook_count as nat) + " deny-capable, "@
            + decimal((e.mapped_hook_count - e.deny_capable_hook_count) as nat) + " observation-only)"@
    } else {
        Seq::empty()
    }
}

/// A directory row's one-line summary: servers translated, hooks mapped,
/// and what was left out (each name list bounded).
pub open spec fn compat_contributes(e: ClaudeCompatPluginEntry) -> Seq<char> {
    decimal(e.mcp_server_count as nat) + " mcp server(s) translated (tools only)"@ + hooks_text(e)
        + (if e.unmapped_hook_names@.len() > 0 {
            "; unmapped hooks: "@ + bounded_names(string_views(e.unmapped_hook_names@))
        } else {
            Seq::empty()
        })
        + (if e.unsupported_names@.len() > 0 {
            "; not imported: "@ + bounded_names(string_views(e.unsupported_names@))
        } else {
            Seq::empty()
        })
}

/// What a directory gives: its translated servers, or that none were
/// found.
pub open spec fn compat_you_get(e: ClaudeCompatPluginEntry) -> Seq<char> {
    if e.mcp_server_count == 0 {
        "no .mcp.json server declarations found -- nothing translated"@
    } else {
        decimal(e.mcp_server_count as nat) + " mcp server(s) translated into real, running plugins (tools only)"@
    }
}

/// What a directory loses: every hook event with no counterpart and every
/// item not imported, named in full.
pub open spec fn compat_you_lose(e: ClaudeCompatPluginEntry) -> Seq<char> {
    let unmapped = e.unmapped_hook_names@.len() > 0;
    let unsupported = e.unsupported_names@.len() > 0;
    let a = "hook event(s) with no conway counterpart: "@ + join(string_views(e.unmapped_hook_names@), ", "@);
    let b = "not imported: "@ + join(string_views(e.unsupported_names@), ", "@);
    if !unmapped && !unsupported {
        "nothing else found in this directory"@
    } else if unmapped && unsupported {
        a + "; "@ + b
    } else if unmapped {
        a
    } else {
        b
    }
}

/// What a directory costs: it runs with the operator's own privileges.
pub open spec fn compat_costs(e: ClaudeCompatPluginEntry) -> Seq<char> {
    "everything under "@ + e.source_dir@
        + " runs/reads with your own privileges, unsandboxed (same trust footing as [plugins].mcp/[plugins].subprocess)"@
}

/// Whether `row` is the read-only, always-active row of directory `e`.
pub open spec fn is_compat_row(row: PluginRow, e: ClaudeCompatPluginEntry) -> bool {
    &&& row.id@ == e.id@
    &&& row.origin == PluginOrigin::ClaudeCompat
    &&& row.contributes@ == compat_contributes(e)
    &&& row.active
    &&& toggle_view(row.toggle) == Err::<bool, Seq<char>>(READ_ONLY_CLAUDE_COMPAT_REASON@)
    &&& row.description matches Some(d) && description_view(d) == (
        "compat plugin directory: "@ + e.source_dir@,
        compat_you_get(e),
        compat_you_lose(e),
        compat_costs(e),
    )
}

/// Whether a directory's counts are consistent: no more deny-capable hooks
/// than mapped ones, and a hook total that fits in `usize`.
pub open spec fn compat_counts_ok(e: ClaudeCompatPluginEntry) -> bool {
    &&& e.deny_capable_hook_count <= e.mapped_hook_count
    &&& e.mapped_hook_count + e.unmapped_hook_names@.len() <= usize::MAX
}

fn compat_row(e: &ClaudeCompatPluginEntry) -> (r: PluginRow)
    requires
        compat_counts_ok(*e),
    ensures
        is_compat_row(r, *e),
{
    let total = e.mapped_hook_count + e.unmapped_hook_names.len();
    let mut contributes = String::new();
    push_decimal(&mut contributes, e.mcp_server_count as u64);
    push_str(&mut contributes, " mcp server(s) translated (tools only)");
    let ghost c0 = contributes@;
    if total > 0 {
        let mut h = string_from("; hooks ");
        push_decimal(&mut h, e.mapped_hook_count as u64);
        push_str(&mut h, "/");
        push_decimal(&mut h, total as u64);
        push_str(&mut h, " mapped and dispatching (");
        push_decimal(&mut h, e.deny_capable_hook_count as u64);
        push_str(&mut h, " deny-capable, ");
        push_decimal(&mut h, (e.mapped_hook_count - e.deny_capable_hook_count) as u64);
        push_str(&mut h, " observation-only)");
        push_str(&mut contributes, h.as_str());
    } else {
        assert(contributes@ =~= c0 + Seq::<char>::empty());
    }
    let ghost c1 = contributes@;
    if e.unmapped_hook_names.len() > 0 {
        let mut u = string_from("; unmapped hooks: ");
        push_str(&mut u, bounded_name_list(&e.unmapped_hook_names).as_str());
        push_str(&mut contributes, u.as_str());
    } else {
        assert(contributes@ =~= c1 + Seq::<char>::empty());
    }
    let ghost c2 = contributes@;
    if e.unsupported_names.len() > 0 {
        let mut u = string_from("; not imported: ");
        push_str(&mut u, bounded_name_list(&e.unsupported_names).as_str());
        push_str(&mut contributes, u.as_str());
    } else {
        assert(contributes@ =~= c2 + Seq::<char>::empty());
    }
    let you_get = if e.mcp_server_count == 0 {
        string_from("no .mcp.json server declarations found -- nothing translated")
    } else {
        let mut g = String::new();
        push_decimal(&mut g, e.mcp_server_count as u64);
        push_str(&mut g, " mcp server(s) translated into real, running plugins (tools only)");
        g
    };
    let unmapped = e.unmapped_hook_names.len() > 0;
    let unsupported = e.unsupported_names.len() > 0;
    let you_lose = if !unmapped && !unsupported {
        string_from("nothing else found in this directory")
    } else {
        let mut a = string_from("hook event(s) with no conway counterpart: ");
        push_joined(&mut a, &e.unmapped_hook_names, ", ");
        let mut b = string_from("not imported: ");
        push_joined(&mut b, &e.unsupported_names, ", ");
        if unmapped && unsupported {
            push_str(&mut a, "; ");
            push_str(&mut a, b.as_str());
            a
        } else if unmapped {
            a
        } else {
            b
        }
    };
    let mut costs = string_from("everything under ");
    push_str(&mut costs, e.source_dir.as_str());
    push_str(&mut costs, " runs/reads with your own privileges, unsandboxed (same trust footing as [plugins].mcp/[plugins].subprocess)");
    let mut summary = string_from("compat plugin directory: ");
    push_str(&mut summary, e.source_dir.as_str());
    PluginRow {
        id: clone_string(&e.id),
        origin: PluginOrigin::ClaudeCompat,
        contributes,
        active: true,
        toggle: PluginToggle::ReadOnly { reason: READ_ONLY_CLAUDE_COMPAT_REASON },
        description: Some(PluginDescription { summary, you_get, you_lose, costs }),
    }
}

/// One row per compat plugin directory, in order (see
/// [`is_compat_row`]).
pub fn rows_from_claude_compat(entries: &[ClaudeCompatPluginEntry]) -> (r: Vec<PluginRow>)
    requires
        forall|i: int| 0 <= i < entries@.len() ==> compat_counts_ok(#[trigger] entries@[i]),
    ensures
        r@.len() == entries@.len(),
        forall|i: int| 0 <= i < entries@.len() ==> is_compat_row(#[trigger] r@[i], entries@[i]),
{
    let mut rows: Vec<PluginRow> = Vec::new();
    let mut i: usize = 0;
    while i < entries.len()
        invariant
            i <= entries.len(),
            rows@.len() == i,
            forall|k: int| 0 <= k < entries@.len() ==> compat_counts_ok(#[trigger] entries@[k]),
            forall|k: int| 0 <= k < i ==> is_compat_row(#[trigger] rows@[k], entries@[k]),
        decreases entries.len() - i,
    {
        rows.push(compat_row(&entries[i]));
        i = i + 1;
    }
    rows
}

/// Every plugin row from every source: compiled-in, subprocess, MCP, then
/// compat directories, each source in its own order.
pub fn all_plugin_rows(plugin_browser: &[PluginBrowserEntry], subprocess_plugins: &[ConfiguredPluginEntry],
    mcp_plugins: &[ConfiguredPluginEntry], claude_compat_plugins: &[ClaudeCompatPluginEntry]) -> (r: Vec<PluginRow>)
    requires
        forall|i: int| 0 <= i < claude_compat_plugins@.len() ==> compat_counts_ok(#[trigger] claude_compat_plugins@[i]),
    ensures
        ({
            let a = plugin_browser@.len();
            let b = subprocess_plugins@.len();
            let c = mcp_plugins@.len();
            &&& r@.len() == a + b + c + claude_compat_plugins@.len()
            &&& forall|i: int| 0 <= i < a ==> is_browser_row(#[trigger] r@[i], plugin_browser@[i])
            &&& forall|i: int| a <= i < a + b ==> is_configured_row(#[trigger] r@[i], subprocess_plugins@[i - a],
                PluginOrigin::Subprocess, SUBPROCESS_CONTRIBUTES@, READ_ONLY_SUBPROCESS_REASON@)
            &&& forall|i: int| a + b <= i < a + b + c ==> is_configured_row(#[trigger] r@[i], mcp_plugins@[i - a - b],
                PluginOrigin::Mcp, MCP_CONTRIBUTES@, READ_ONLY_MCP_REASON@)
            &&& forall|i: int| a + b + c <= i < r@.len() ==> is_compat_row(#[trigger] r@[i],
                claude_compat_plugins@[i - a - b - c])
        }),
{
    let mut rows = rows_from_plugin_browser(plugin_browser);
    let ghost r1 = rows@;
    let mut sub = rows_from_subprocess(subprocess_plugins);
    rows.append(&mut sub);
    let ghost r2 = rows@;
    let mut mcp = rows_from_mcp(mcp_plugins);
    rows.append(&mut mcp);
    let ghost r3 = rows@;
    let mut cc = rows_from_claude_compat(claude_compat_plugins);
    rows.append(&mut cc);
    proof {
        let a = plugin_browser@.len() as int;
        let b = subprocess_plugins@.len() as int;
        let c = mcp_plugins@.len() as int;
        assert forall|i: int| 0 <= i < a implies is_browser_row(#[trigger] rows@[i], plugin_browser@[i]) by {
            assert(rows@[i] == r1[i]);
        }
        assert forall|i: int| a <= i < a + b implies is_configured_row(#[trigger] rows@[i], subprocess_plugins@[i - a],
            PluginOrigin::Subprocess, SUBPROCESS_CONTRIBUTES@, READ_ONLY_SUBPROCESS_REASON@) by {
            assert(rows@[i] == r2[i]);
        }
        assert forall|i: int| a + b <= i < a + b + c implies is_configured_row(#[trigger] rows@[i], mcp_plugins@[i - a - b],
            PluginOrigin::Mcp, MCP_CONTRIBUTES@, READ_ONLY_MCP_REASON@) by {
            assert(rows@[i] == r3[i]);
        }
    }
    rows
}

} // verus!
