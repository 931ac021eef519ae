//! `conway plugin list|install|remove`: the text of the plugin listing
//! and the checks an install or removal makes before writing anything.
use vstd::prelude::*;
use crate::text::{clone_string, join, push_joined, push_str, str_eq, string_from};
use crate::routes::string_views;
use crate::exit::ExitCode;
use crate::diag::{one, Reply, replies_view, reply_view};
use crate::session_ref::{SessionId, id_text};
use crate::sessions::lemma_id_text_is;
use crate::text::{decimal, push_decimal};
use crate::plugin_rows::{PluginBrowserEntry, PluginRow, non_empty_or, non_empty_or_spec};

verus! {

/// The subcommand's arguments.
pub struct PluginArgs {
    pub action: PluginAction,
}

/// `conway plugin ...` actions.
pub enum PluginAction {
    /// List every compiled-in plugin, or only `id`'s full breakdown.
    List { id: Option<String>, verbose: bool },
    /// Turn plugin ids on, or the default opinion set with `defaults`.
    Install { ids: Vec<String>, defaults: bool },
    /// Turn plugin ids off.
    Remove { ids: Vec<String> },
}

/// A hook event a plugin declares: its name and what it is for.
pub struct EventDecl {
    pub name: String,
    pub summary: String,
}

/// A plugin's `[plugins.config."<id>"]` value, each JSON value already
/// rendered as text.
pub enum ConfigValue {
    /// A table: its keys and rendered values, in order.
    Table(Vec<(String, String)>),
    /// Any other JSON value, rendered.
    Scalar(String),
}

/// The ids of the linked plugins, in order.
pub open spec fn entry_ids(entries: Seq<PluginBrowserEntry>) -> Seq<Seq<char>> {
    entries.map_values(|e: PluginBrowserEntry| e.id@)
}

/// The refusal of an id this binary does not link, naming every id it
/// does.
pub open spec fn unknown_id_text(id: Seq<char>, entries: Seq<PluginBrowserEntry>) -> Seq<char> {
    "plugin id '"@ + id + "' is not among this binary's linked plugins: ["@ + join(entry_ids(entries), ", "@)
        + "] -- see `conway plugin list`"@
}

/// The refusal of an id this binary does not link (see
/// [`unknown_id_text`]).
pub fn unknown_id_message(id: &str, entries: &[PluginBrowserEntry]) -> (r: String)
    ensures
        r@ == unknown_id_text(id@, entries@),
{
    let mut known: Vec<String> = Vec::new();
    let mut i: usize = 0;
    while i < entries.len()
        invariant
            i <= entries.len(),
            known@.len() == i,
            forall|k: int| 0 <= k < i ==> #[trigger] known@[k]@ == entries@[k].id@,
        decreases entries.len() - i,
    {
        known.push(clone_string(&entries[i].id));
        i = i + 1;
    }
    assert(string_views(known@) =~= entry_ids(entries@));
    let mut s = string_from("plugin id '");
    push_str(&mut s, id);
    push_str(&mut s, "' is not among this binary's linked plugins: [");
    push_joined(&mut s, &known, ", ");
    push_str(&mut s, "] -- see `conway plugin list`");
    s
}

/// `key = value` for each table entry.
pub open spec fn table_parts(t: Seq<(String, String)>) -> Seq<Seq<char>> {
    t.map_values(|e: (String, String)| e.0@ + " = "@ + e.1@)
}

/// Where a plugin's configuration comes from: the defaults when there is
/// no table for it, else what the table sets (or that it is empty).
pub open spec fn config_text(id: Seq<char>, config: Option<ConfigValue>) -> Seq<char> {
    match config {
        None => "defaults -- no [plugins.config.\""@ + id + "\"] entry in settings.json"@,
        Some(v) => {
            let rendered = match v {
                ConfigValue::Table(t) => if t@.len() == 0 {
                    "(empty table)"@
                } else {
                    join(table_parts(t@), ", "@)
                },
                ConfigValue::Scalar(s) => s@,
            };
            rendered + " -- from [plugins.config.\""@ + id + "\"] in settings.json"@
        },
    }
}

/// Where a plugin's configuration comes from (see [`config_text`]).
pub fn config_line(id: &str, config: Option<&ConfigValue>) -> (r: String)
    ensures
        r@ == config_text(id@, match config {
            Some(c) => Some(*c),
            None => None,
        }),
{
    match config {
        None => {
            let mut s = string_from("defaults -- no [plugins.config.\"");
            push_str(&mut s, id);
            push_str(&mut s, "\"] entry in settings.json");
            s
        }
        Some(v) => {
            let mut s = match v {
                ConfigValue::Table(t) => {
                    if t.len() == 0 {
                        string_from("(empty table)")
                    } else {
                        let mut parts: Vec<String> = Vec::new();
                        let mut i: usize = 0;
                        while i < t.len()
                            invariant
                                i <= t.len(),
                                parts@.len() == i,
                                forall|k: int| 0 <= k < i ==> #[trigger] parts@[k]@ == t@[k].0@ + " = "@ + t@[k].1@,
                            decreases t.len() - i,
                        {
                            let mut p = string_from(t[i].0.as_str());
                            push_str(&mut p, " = ");
                            push_str(&mut p, t[i].1.as_str());
                            parts.push(p);
                            i = i + 1;
                        }
                        assert(string_views(parts@) =~= table_parts(t@));
                        let mut s = String::new();
                        push_joined(&mut s, &parts, ", ");
                        assert(s@ =~= join(table_parts(t@), ", "@));
                        s
                    }
                }
                ConfigValue::Scalar(x) => string_from(x.as_str()),
            };
            push_str(&mut s, " -- from [plugins.config.\"");
            push_str(&mut s, id);
            push_str(&mut s, "\"] in settings.json");
            s
        }
    }
}

/// The lines naming a plugin's declared hook events.
pub open spec fn event_lines(events: Seq<EventDecl>) -> Seq<char>
    decreases events.len(),
{
    if events.len() == 0 {
        Seq::empty()
    } else {
        event_lines(events.drop_last()) + "      "@ + events.last().name@ + " -- "@ + events.last().summary@ + "\n"@
    }
}

/// One plugin's lines in `conway plugin list`: `[x]` or `[ ]`, id and
/// what it contributes; with `verbose`, the description's breakdown and
/// the configuration line, then its declared events when it has any.
pub open spec fn row_text(row: PluginRow, verbose: bool, events: Seq<EventDecl>, config: Option<ConfigValue>) -> Seq<char> {
    "["@ + (if row.active { "x"@ } else { " "@ }) + "] "@ + row.id@ + " -- "@ + row.contributes@ + "\n"@
        + if !verbose {
            Seq::empty()
        } else {
            (match row.description {
                Some(d) => "    you get   "@ + non_empty_or_spec(d.you_get@, "(none given)"@) + "\n"@
                    + "    you lose  "@ + non_empty_or_spec(d.you_lose@, "(none given)"@) + "\n"@
                    + "    costs     "@ + non_empty_or_spec(d.costs@, "none"@) + "\n"@
                    + "    config    "@ + config_text(row.id@, config) + "\n"@,
                None => Seq::empty(),
            }) + if events.len() == 0 {
                Seq::empty()
            } else {
                "    events\n"@ + event_lines(events)
            }
        }
}

/// One plugin's lines in `conway plugin list` (see [`row_text`]).
pub fn plugin_row_text(row: &PluginRow, verbose: bool, events: &[EventDecl], config: Option<&ConfigValue>) -> (r: String)
    ensures
        r@ == row_text(*row, verbose, events@, match config {
            Some(c) => Some(*c),
            None => None,
        }),
{
    let ghost cfg = match config {
        Some(c) => Some(*c),
        None => None,
    };
    let mut s = string_from("[");
    push_str(&mut s, if row.active { "x" } else { " " });
    push_str(&mut s, "] ");
    push_str(&mut s, row.id.as_str());
    push_str(&mut s, " -- ");
    push_str(&mut s, row.contributes.as_str());
    push_str(&mut s, "\n");
    let ghost head = s@;
    if !verbose {
        assert(s@ =~= head + Seq::<char>::empty());
        return s;
    }
    let mut detail = String::new();
    match &row.description {
        Some(d) => {
            push_str(&mut detail, "    you get   ");
            push_str(&mut detail, non_empty_or(d.you_get.as_str(), "(none given)"));
            push_str(&mut detail, "\n");
            push_str(&mut detail, "    you lose  ");
            push_str(&mut detail, non_empty_or(d.you_lose.as_str(), "(none given)"));
            push_str(&mut detail, "\n");
            push_str(&mut detail, "    costs     ");
            push_str(&mut detail, non_empty_or(d.costs.as_str(), "none"));
            push_str(&mut detail, "\n");
            push_str(&mut detail, "    config    ");
            let c = config_line(row.id.as_str(), config);
            push_str(&mut detail, c.as_str());
            push_str(&mut detail, "\n");
        }
        None => {}
    }
    let ghost d1 = detail@;
    if events.len() == 0 {
        assert(detail@ =~= d1 + Seq::<char>::empty());
    } else {
        let mut ev = string_from("    events\n");
        let ghost e0 = ev@;
        let mut i: usize = 0;
        while i < events.len()
            invariant
                i <= events.len(),
                ev@ == e0 + event_lines(events@.take(i as int)),
            decreases events.len() - i,
        {
            assert(events@.take(i as int + 1).drop_last() =~= events@.take(i as int));
            let mut line = string_from("      ");
            push_str(&mut line, events[i].name.as_str());
            push_str(&mut line, " -- ");
            push_str(&mut line, events[i].summary.as_str());
            push_str(&mut line, "\n");
            push_str(&mut ev, line.as_str());
            assert(ev@ =~= e0 + event_lines(events@.take(i as int + 1)));
            i = i + 1;
        }
        assert(events@.take(events.len() as int) =~= events@);
        push_str(&mut detail, ev.as_str());
    }
    push_str(&mut s, detail.as_str());
    assert(s@ =~= row_text(*row, verbose, events@, cfg));
    s
}

/// The first of `ids` that names none of `entries`, if any.
pub open spec fn first_unknown(ids: Seq<String>, entries: Seq<PluginBrowserEntry>) -> Option<int>
    decreases ids.len(),
{
    if ids.len() == 0 {
        None
    } else {
        match first_unknown(ids.drop_last(), entries) {
            Some(i) => Some(i),
            None => if entry_ids(entries).contains(ids.last()@) {
                None
            } else {
                Some(ids.len() - 1)
            },
        }
    }
}

fn is_known(id: &str, entries: &[PluginBrowserEntry]) -> (b: bool)
    ensures
        b == entry_ids(entries@).contains(id@),
{
    let mut i: usize = 0;
    while i < entries.len()
        invariant
            i <= entries.len(),
            forall|k: int| 0 <= k < i ==> #[trigger] entry_ids(entries@)[k] != id@,
        decreases entries.len() - i,
    {
        if str_eq(entries[i].id.as_str(), id) {
            assert(entry_ids(entries@)[i as int] == id@);
            return true;
        }
        i = i + 1;
    }
    false
}

/// The position of the first of `ids` this binary does not link (see
/// [`first_unknown`]); an install or removal refuses it, naming it with
/// [`unknown_id_message`], before writing anything.
pub fn first_unknown_id(ids: &[String], entries: &[PluginBrowserEntry]) -> (r: Option<usize>)
    ensures
        match first_unknown(ids@, entries@) {
            Some(i) => r matches Some(j) && j as int == i,
            None => r is None,
        },
{
    let mut k: usize = 0;
    while k < ids.len()
        invariant
            k <= ids.len(),
            first_unknown(ids@.take(k as int), entries@) is None,
        decreases ids.len() - k,
    {
        assert(ids@.take(k as int + 1).drop_last() =~= ids@.take(k as int));
        if !is_known(ids[k].as_str(), entries) {
            proof {
                lemma_first_unknown_prefix(ids@, entries@, k as int + 1, k as int);
            }
            return Some(k);
        }
        k = k + 1;
    }
    assert(ids@.take(ids.len() as int) =~= ids@);
    None
}

proof fn lemma_first_unknown_prefix(ids: Seq<String>, entries: Seq<PluginBrowserEntry>, m: int, k: int)
    requires
        0 <= m <= ids.len(),
        first_unknown(ids.take(m), entries) == Some(k),
    ensures
        first_unknown(ids, entries) == Some(k),
    decreases ids.len() - m,
{
    if m < ids.len() {
        assert(ids.take(m + 1).drop_last() =~= ids.take(m));
        lemma_first_unknown_prefix(ids, entries, m + 1, k);
    } else {
        assert(ids.take(m) =~= ids);
    }
}

/// The ids an install names: the default opinion set with `defaults`,
/// else the ids given; naming none is a usage error.
pub open spec fn install_targets_of(ids: Seq<Seq<char>>, defaults: bool, default_set: Seq<Seq<char>>) -> Result<Seq<Seq<char>>, Seq<char>> {
    let targets = if defaults { default_set } else { ids };
    if targets.len() == 0 {
        Err("conway plugin install: name at least one <id>, or pass --defaults"@)
    } else {
        Ok(targets)
    }
}

fn clone_strings(v: &Vec<String>) -> (r: Vec<String>)
    ensures
        string_views(r@) == string_views(v@),
{
    let mut out: Vec<String> = Vec::new();
    let mut i: usize = 0;
    while i < v.len()
        invariant
            i <= v@.len(),
            out@.len() == i,
            forall|j: int| 0 <= j < i ==> (#[trigger] out@[j])@ == v@[j]@,
        decreases v@.len() - i,
    {
        out.push(clone_string(&v[i]));
        i = i + 1;
    }
    assert(string_views(out@) =~= string_views(v@));
    out
}

/// The ids an install names (see [`install_targets_of`]), given the
/// default opinion set.
pub fn install_targets(ids: &Vec<String>, defaults: bool, default_set: &Vec<String>) -> (r: Result<Vec<String>, String>)
    ensures
        match install_targets_of(string_views(ids@), defaults, string_views(default_set@)) {
            Ok(t) => r matches Ok(v) && string_views(v@) == t,
            Err(m) => r matches Err(e) && e@ == m,
        },
{
    let targets = if defaults { clone_strings(default_set) } else { clone_strings(ids) };
    if targets.len() == 0 {
        assert(string_views(targets@).len() == 0);
        Err(string_from("conway plugin install: name at least one <id>, or pass --defaults"))
    } else {
        Ok(targets)
    }
}

/// The refusal of a removal that names no id.
pub const REMOVE_NEEDS_AN_ID: &'static str = "conway plugin remove: name at least one <id>";

/// What an install (`installing`) or removal reports for `id` once the
/// settings file at `path` was written: whether it changed anything, or
/// the write's error (a usage error, ending the command).
pub open spec fn write_report_text(id: Seq<char>, installing: bool, path: Seq<char>, result: Result<bool, Seq<char>>) -> (bool, Seq<char>) {
    match result {
        Ok(true) => (false, id + (if installing { ": installed -- written to "@ } else { ": removed -- written to "@ })
            + path + " (restart to apply; a currently running conway process is unaffected until then)"@),
        Ok(false) => (false, id + (if installing { ": already installed"@ } else { ": was not installed"@ })),
        Err(e) => (true, id + ": "@ + e),
    }
}

/// What an install or removal reports for one id (see
/// [`write_report_text`]).
pub fn write_report(id: &str, installing: bool, path: &str, result: Result<bool, &str>) -> (r: Reply)
    ensures
        reply_view(r) == write_report_text(id@, installing, path@, match result {
            Ok(b) => Ok(b),
            Err(e) => Err(e@),
        }),
{
    let mut s = string_from(id);
    match result {
        Ok(true) => {
            if installing {
                push_str(&mut s, ": installed -- written to ");
            } else {
                push_str(&mut s, ": removed -- written to ");
            }
            push_str(&mut s, path);
            push_str(&mut s, " (restart to apply; a currently running conway process is unaffected until then)");
            Reply::Stdout(s)
        },
        Ok(false) => {
            if installing {
                push_str(&mut s, ": already installed");
            } else {
                push_str(&mut s, ": was not installed");
            }
            Reply::Stdout(s)
        },
        Err(e) => {
            push_str(&mut s, ": ");
            push_str(&mut s, e);
            Reply::Stderr(s)
        },
    }
}

/// How a plugin command invoked as `conway <id>.<command> [args...]`
/// splits: the command's full name, and everything after it joined with
/// single spaces; no words at all is a usage error.
pub open spec fn external_call_of(words: Seq<Seq<char>>) -> Result<(Seq<char>, Seq<char>), Seq<char>> {
    if words.len() == 0 {
        Err("no subcommand given"@)
    } else {
        Ok((words[0], join(words.drop_first(), " "@)))
    }
}

/// How a plugin command invocation splits (see [`external_call_of`]).
pub fn external_call(words: &Vec<String>) -> (r: Result<(String, String), String>)
    ensures
        match external_call_of(string_views(words@)) {
            Ok((n, rest)) => r matches Ok((a, b)) && a@ == n && b@ == rest,
            Err(m) => r matches Err(e) && e@ == m,
        },
{
    if words.len() == 0 {
        return Err(string_from("no subcommand given"));
    }
    let mut rest_words: Vec<String> = Vec::new();
    let mut i: usize = 1;
    while i < words.len()
        invariant
            1 <= i <= words@.len(),
            rest_words@.len() == i - 1,
            forall|j: int| 0 <= j < i - 1 ==> (#[trigger] rest_words@[j])@ == words@[j + 1]@,
        decreases words@.len() - i,
    {
        rest_words.push(clone_string(&words[i]));
        i = i + 1;
    }
    assert(string_views(rest_words@) =~= string_views(words@).drop_first());
    let mut rest = String::new();
    push_joined(&mut rest, &rest_words, " ");
    Ok((clone_string(&words[0]), rest))
}

/// The refusal of a name no installed plugin declares.
pub open spec fn unknown_subcommand_text(name: Seq<char>) -> Seq<char> {
    "unknown subcommand `"@ + name + "`: not a built-in subcommand (`sessions`, `routes`, `tools`), and no installed plugin declares it"@
}

/// The refusal of a name no installed plugin declares (see
/// [`unknown_subcommand_text`]).
pub fn unknown_subcommand_message(name: &str) -> (r: String)
    ensures
        r@ == unknown_subcommand_text(name@),
{
    let mut s = string_from("unknown subcommand `");
    push_str(&mut s, name);
    push_str(&mut s, "`: not a built-in subcommand (`sessions`, `routes`, `tools`), and no installed plugin declares it");
    s
}

/// What a plugin command did, with the result of whatever its outcome
/// asked of the session store afterwards.
pub enum CommandResult {
    /// Lines to print.
    Output { lines: Vec<String> },
    /// The command's own failure message.
    Failed { message: String },
    /// A fork at `at_seq` of the session the command ran in: the child, or
    /// the fork's error.
    Forked { at_seq: u64, child: Result<SessionId, String> },
    /// Masking (or, not `excluded`, un-masking) record `target_seq`.
    Masked { target_seq: u64, excluded: bool, result: Result<(), String> },
    /// Checking out `target`: the error reading its head, or its head and
    /// then the child forked there (or the fork's error).
    CheckedOut { target: SessionId, outcome: Result<(u64, Result<SessionId, String>), String> },
    /// Submitting a prompt to the session the command ran in.
    Submitted { result: Result<(), String> },
}

/// What `conway <name> ...` reports for a command's result, run in the
/// session `session`: its exit code and lines.
pub open spec fn command_report_of(name: Seq<char>, session: nat, r: CommandResult) -> (ExitCode, Seq<(bool, Seq<char>)>) {
    match r {
        CommandResult::Output { lines } => (ExitCode::Completed, lines@.map_values(|l: String| (false, l@))),
        CommandResult::Failed { message } => (ExitCode::AgentFailed, seq![(true, name + ": "@ + message@)]),
        CommandResult::Forked { at_seq, child } => match child {
            Ok(c) => (ExitCode::Completed, seq![(false, name + ": forked session "@ + id_text(c.value as nat) + " at seq "@
                + decimal(at_seq as nat) + " -- `conway sessions show "@ + id_text(c.value as nat)
                + "` to inspect it, or `conway -p --resume "@ + id_text(c.value as nat) + "` to continue it"@)]),
            Err(e) => (ExitCode::AgentFailed, seq![(true, name + ": fork failed: "@ + e@)]),
        },
        CommandResult::Masked { target_seq, excluded, result } => match result {
            Ok(_) => (ExitCode::Completed, seq![(false, name + ": "@ + (if excluded { "masked"@ } else { "un-masked"@ })
                + " seq "@ + decimal(target_seq as nat) + " on session "@ + id_text(session))]),
            Err(e) => (ExitCode::AgentFailed, seq![(true, name + ": mask failed: "@ + e@)]),
        },
        CommandResult::CheckedOut { target, outcome } => match outcome {
            Err(e) => (ExitCode::AgentFailed, seq![(true, name + ": checkout failed: "@ + e@)]),
            Ok((h, child)) => match child {
                Ok(c) => (ExitCode::Completed, seq![(false, name + ": checked out session "@ + id_text(target.value as nat)
                    + " at seq "@ + decimal(h as nat) + " into new session "@ + id_text(c.value as nat)
                    + " -- `conway sessions show "@ + id_text(c.value as nat) + "` to inspect it, or `conway -p --resume "@
                    + id_text(c.value as nat) + "` to continue it ("@ + id_text(target.value as nat) + " is untouched)"@)]),
                Err(e) => (ExitCode::AgentFailed, seq![(true, name + ": checkout failed: "@ + e@)]),
            },
        },
        CommandResult::Submitted { result } => match result {
            Ok(_) => (ExitCode::Completed, seq![(false, name + ": submitted a prompt to session "@ + id_text(session)
                + " -- `conway -p --resume "@ + id_text(session) + " ...` to see the response"@)]),
            Err(e) => (ExitCode::AgentFailed, seq![(true, name + ": could not submit prompt: "@ + e@)]),
        },
    }
}

fn id_string(id: SessionId) -> (r: String)
    ensures
        r@ == id_text(id.value as nat),
{
    let t = id.to_string();
    proof {
        lemma_id_text_is(t@, id.value as nat);
    }
    t
}

fn prefixed(name: &str, mid: &str, tail: &str) -> (r: String)
    ensures
        r@ == name@ + mid@ + tail@,
{
    let mut s = string_from(name);
    push_str(&mut s, mid);
    push_str(&mut s, tail);
    s
}

/// What `conway <name> ...` reports (see [`command_report_of`]); `session`
/// is the session the command ran in.
pub fn command_report(name: &str, session: SessionId, result: &CommandResult) -> (r: (ExitCode, Vec<Reply>))
    ensures
        r.0 == command_report_of(name@, session.value as nat, *result).0,
        replies_view(r.1@) == command_report_of(name@, session.value as nat, *result).1,
{
    match result {
        CommandResult::Output { lines } => {
            let mut out: Vec<Reply> = Vec::new();
            let mut i: usize = 0;
            while i < lines.len()
                invariant
                    i <= lines@.len(),
                    out@.len() == i,
                    forall|j: int| 0 <= j < i ==> reply_view(#[trigger] out@[j]) == (false, lines@[j]@),
                decreases lines@.len() - i,
            {
                out.push(Reply::Stdout(clone_string(&lines[i])));
                i = i + 1;
            }
            assert(replies_view(out@) =~= lines@.map_values(|l: String| (false, l@)));
            (ExitCode::Completed, out)
        },
        CommandResult::Failed { message } => (ExitCode::AgentFailed, one(Reply::Stderr(prefixed(name, ": ", message.as_str())))),
        CommandResult::Forked { at_seq, child } => match child {
            Ok(c) => {
                let ct = id_string(*c);
                let mut s = string_from(name);
                push_str(&mut s, ": forked session ");
                push_str(&mut s, ct.as_str());
                push_str(&mut s, " at seq ");
                push_decimal(&mut s, *at_seq);
                push_str(&mut s, " -- `conway sessions show ");
                push_str(&mut s, ct.as_str());
                push_str(&mut s, "` to inspect it, or `conway -p --resume ");
                push_str(&mut s, ct.as_str());
                push_str(&mut s, "` to continue it");
                (ExitCode::Completed, one(Reply::Stdout(s)))
            },
            Err(e) => (ExitCode::AgentFailed, one(Reply::Stderr(prefixed(name, ": fork failed: ", e.as_str())))),
        },
        CommandResult::Masked { target_seq, excluded, result } => match result {
            Ok(_) => {
                let mut s = string_from(name);
                push_str(&mut s, ": ");
                push_str(&mut s, if *excluded { "masked" } else { "un-masked" });
                push_str(&mut s, " seq ");
                push_decimal(&mut s, *target_seq);
                push_str(&mut s, " on session ");
                let st = id_string(session);
                push_str(&mut s, st.as_str());
                (ExitCode::Completed, one(Reply::Stdout(s)))
            },
            Err(e) => (ExitCode::AgentFailed, one(Reply::Stderr(prefixed(name, ": mask failed: ", e.as_str())))),
        },
        CommandResult::CheckedOut { target, outcome } => match outcome {
            Err(e) => (ExitCode::AgentFailed, one(Reply::Stderr(prefixed(name, ": checkout failed: ", e.as_str())))),
            Ok((h, child)) => match child {
                Ok(c) => {
                    let ct = id_string(*c);
                    let tt = id_string(*target);
                    let mut s = string_from(name);
                    push_str(&mut s, ": checked out session ");
                    push_str(&mut s, tt.as_str());
                    push_str(&mut s, " at seq ");
                    push_decimal(&mut s, *h);
                    push_str(&mut s, " into new session ");
                    push_str(&mut s, ct.as_str());
                    push_str(&mut s, " -- `conway sessions show ");
                    push_str(&mut s, ct.as_str());
                    push_str(&mut s, "` to inspect it, or `conway -p --resume ");
                    push_str(&mut s, ct.as_str());
                    push_str(&mut s, "` to continue it (");
                    push_str(&mut s, tt.as_str());
                    push_str(&mut s, " is untouched)");
                    (ExitCode::Completed, one(Reply::Stdout(s)))
                },
                Err(e) => (ExitCode::AgentFailed, one(Reply::Stderr(prefixed(name, ": checkout failed: ", e.as_str())))),
            },
        },
        CommandResult::Submitted { result } => match result {
            Ok(_) => {
                let st = id_string(session);
                let mut s = string_from(name);
                push_str(&mut s, ": submitted a prompt to session ");
                push_str(&mut s, st.as_str());
                push_str(&mut s, " -- `conway -p --resume ");
                push_str(&mut s, st.as_str());
                push_str(&mut s, " ...` to see the response");
                (ExitCode::Completed, one(Reply::Stdout(s)))
            },
            Err(e) => (ExitCode::AgentFailed, one(Reply::Stderr(prefixed(name, ": could not submit prompt: ", e.as_str())))),
        },
    }
}

} // verus!
