//! `-p`/`--print` one-shot mode: which flags combine, which session a run
//! drives, the prompt and system prompt it sends, the budget and tool gate
//! it runs under, and how its event loop ends and maps onto an exit code.
//!
//! Every refusal here is a usage error: no agent has started yet.
use vstd::prelude::*;
use crate::cli::{Cli, PermissionMode};
use crate::exit::{AgentResult, ExitCode, result_code};
use crate::session_ref::{SessionId, LogSeq, parse_sid, parse_fork_ref, sid_of, fork_ref_of,
    parse_error_text, NOT_A_SESSION_ID, id_text};
use crate::sessions::lemma_id_text_is;
use crate::text::{chars_of, char_is_ws, is_ws, push_decimal, push_str, string_from, clone_string, decimal};

verus! {

/// `--system-prompt`/`--append-system-prompt` with a continued session.
pub const SYSTEM_PROMPT_NOT_CONTINUABLE: &'static str = "--system-prompt/--append-system-prompt are not supported with --resume or --fork-from: a continued session's system prompt is fixed by the session it continues, not by this invocation";

/// A budget flag with a continued session.
pub const BUDGET_NOT_CONTINUABLE: &'static str = "--max-turns/--max-tokens/--max-seconds are not supported with --resume or --fork-from in this release: neither facade path accepts a caller-supplied budget override yet";

/// `--output-schema` with a continued session.
pub const SCHEMA_NOT_CONTINUABLE: &'static str = "--output-schema is not supported with --resume or --fork-from in this release: neither facade path accepts a caller-supplied result-contract override yet";

/// `--agent` with `--resume`.
pub const AGENT_NOT_RESUMABLE: &'static str = "--agent is not supported with --resume: a resumed session's agent definition is fixed by the session it continues";

/// `--cwd` with `--fork-from`.
pub const CWD_NOT_FORKABLE: &'static str = "--cwd is not supported with --fork-from: the forked child always inherits the parent session's cwd";

/// More than one of the continuity flags.
pub const CONTINUITY_EXCLUSIVE: &'static str = "--session, --resume, and --fork-from are mutually exclusive";

/// No prompt, with a terminal on stdin.
pub const NO_PROMPT_TTY: &'static str = "no prompt provided: pass -p \"<prompt>\" or pipe text on stdin";

/// No prompt, with stdin piped but blank.
pub const NO_PROMPT_EMPTY: &'static str = "no prompt provided: stdin was empty";

/// The lead of the instruction appended for `--output-schema`, before the
/// schema itself.
pub const SCHEMA_INSTRUCTION_LEAD: &'static str = "Before finishing, call the `report` tool with its `structured` argument set to a JSON value that satisfies the following JSON Schema exactly -- no prose, no code fence, no other tool call may substitute for it. If your first attempt does not satisfy the schema, you will be told exactly what failed and get exactly one more turn to correct it; a second failure ends the run without a usable result.\n\n";

/// Whether the run continues an existing session.
pub open spec fn continuing(cli: Cli) -> bool {
    cli.resume is Some || cli.fork_from is Some
}

/// The first flag combination a run refuses before anything is loaded:
/// system-prompt, budget and schema flags with a continued session, and
/// `--agent` with `--resume`.
pub open spec fn preflight_spec(cli: Cli) -> Option<Seq<char>> {
    if (cli.system_prompt is Some || cli.append_system_prompt is Some) && continuing(cli) {
        Some(SYSTEM_PROMPT_NOT_CONTINUABLE@)
    } else if (cli.max_turns is Some || cli.max_tokens is Some || cli.max_seconds is Some) && continuing(cli) {
        Some(BUDGET_NOT_CONTINUABLE@)
    } else if cli.output_schema is Some && continuing(cli) {
        Some(SCHEMA_NOT_CONTINUABLE@)
    } else if cli.agent is Some && cli.resume is Some {
        Some(AGENT_NOT_RESUMABLE@)
    } else {
        None
    }
}

/// The usage error for the first refused flag combination, if any (see
/// [`preflight_spec`]).
pub fn preflight(cli: &Cli) -> (r: Option<String>)
    ensures
        match preflight_spec(*cli) {
            Some(m) => r matches Some(s) && s@ == m,
            None => r is None,
        },
{
    let cont = cli.resume.is_some() || cli.fork_from.is_some();
    if (cli.system_prompt.is_some() || cli.append_system_prompt.is_some()) && cont {
        Some(string_from(SYSTEM_PROMPT_NOT_CONTINUABLE))
    } else if (cli.max_turns.is_some() || cli.max_tokens.is_some() || cli.max_seconds.is_some()) && cont {
        Some(string_from(BUDGET_NOT_CONTINUABLE))
    } else if cli.output_schema.is_some() && cont {
        Some(string_from(SCHEMA_NOT_CONTINUABLE))
    } else if cli.agent.is_some() && cli.resume.is_some() {
        Some(string_from(AGENT_NOT_RESUMABLE))
    } else {
        None
    }
}

/// Which session a run drives.
pub enum SessionTarget {
    /// A new session with a fresh id.
    Fresh,
    /// A new session with exactly this id (`--session`).
    Named { id: SessionId },
    /// The persisted session to continue (`--resume`).
    Resume { id: SessionId },
    /// A new branch of `parent`, at `at` or at its current head
    /// (`--fork-from`).
    Fork { parent: SessionId, at: Option<LogSeq> },
}

/// A session target as plain values.
pub enum TargetView {
    Fresh,
    Named(nat),
    Resume(nat),
    Fork(nat, Option<nat>),
}

pub open spec fn target_view(t: SessionTarget) -> TargetView {
    match t {
        SessionTarget::Fresh => TargetView::Fresh,
        SessionTarget::Named { id } => TargetView::Named(id.value as nat),
        SessionTarget::Resume { id } => TargetView::Resume(id.value as nat),
        SessionTarget::Fork { parent, at } => TargetView::Fork(parent.value as nat, match at {
            Some(s) => Some(s.0 as nat),
            None => None,
        }),
    }
}

/// The session a run's continuity flags name, or the usage error that
/// refuses them: a malformed id or reference, `--cwd` with `--fork-from`,
/// or more than one of the three flags.
pub open spec fn target_of(cli: Cli) -> Result<TargetView, Seq<char>> {
    match (cli.session, cli.resume, cli.fork_from) {
        (None, None, None) => Ok(TargetView::Fresh),
        (Some(id), None, None) => match sid_of(id@) {
            Some(v) => Ok(TargetView::Named(v)),
            None => Err(parse_error_text(id@, NOT_A_SESSION_ID@)),
        },
        (None, Some(id), None) => match sid_of(id@) {
            Some(v) => Ok(TargetView::Resume(v)),
            None => Err(parse_error_text(id@, NOT_A_SESSION_ID@)),
        },
        (None, None, Some(r)) => if cli.cwd is Some {
            Err(CWD_NOT_FORKABLE@)
        } else {
            match fork_ref_of(r@) {
                Ok((v, at)) => Ok(TargetView::Fork(v, at)),
                Err(reason) => Err(parse_error_text(r@, reason)),
            }
        },
        _ => Err(CONTINUITY_EXCLUSIVE@),
    }
}

/// The session a run drives (see [`target_of`]).
pub fn session_target(cli: &Cli) -> (r: Result<SessionTarget, String>)
    ensures
        match target_of(*cli) {
            Ok(v) => r matches Ok(t) && target_view(t) == v,
            Err(m) => r matches Err(e) && e@ == m,
        },
{
    match (&cli.session, &cli.resume, &cli.fork_from) {
        (None, None, None) => Ok(SessionTarget::Fresh),
        (Some(id), None, None) => match parse_sid(id.as_str()) {
            Ok(sid) => Ok(SessionTarget::Named { id: sid }),
            Err(e) => Err(e.message()),
        },
        (None, Some(id), None) => match parse_sid(id.as_str()) {
            Ok(sid) => Ok(SessionTarget::Resume { id: sid }),
            Err(e) => Err(e.message()),
        },
        (None, None, Some(r)) => {
            if cli.cwd.is_some() {
                return Err(string_from(CWD_NOT_FORKABLE));
            }
            match parse_fork_ref(r.as_str()) {
                Ok((parent, at)) => Ok(SessionTarget::Fork { parent, at }),
                Err(e) => Err(e.message()),
            }
        },
        _ => Err(string_from(CONTINUITY_EXCLUSIVE)),
    }
}

/// The usage error for `--session` naming a session that already exists.
pub open spec fn session_exists_text(v: nat) -> Seq<char> {
    "--session "@ + id_text(v) + ": session already exists; pass --resume "@ + id_text(v) + " to continue it instead"@
}

/// The usage error for `--session` naming a session that already exists
/// (see [`session_exists_text`]).
pub fn session_exists_message(id: SessionId) -> (r: String)
    ensures
        r@ == session_exists_text(id.value as nat),
{
    let t = id.to_string();
    proof {
        lemma_id_text_is(t@, id.value as nat);
    }
    let mut s = string_from("--session ");
    push_str(&mut s, t.as_str());
    push_str(&mut s, ": session already exists; pass --resume ");
    push_str(&mut s, t.as_str());
    push_str(&mut s, " to continue it instead");
    s
}

/// The instruction appended for `--output-schema`, given the schema
/// rendered as pretty JSON.
pub open spec fn schema_instruction_text(pretty: Seq<char>) -> Seq<char> {
    SCHEMA_INSTRUCTION_LEAD@ + pretty
}

/// The instruction appended for `--output-schema` (see
/// [`schema_instruction_text`]).
pub fn schema_instruction(pretty: &str) -> (r: String)
    ensures
        r@ == schema_instruction_text(pretty@),
{
    let mut s = string_from(SCHEMA_INSTRUCTION_LEAD);
    push_str(&mut s, pretty);
    s
}

pub open spec fn opt_view(o: Option<String>) -> Option<Seq<char>> {
    match o {
        Some(s) => Some(s@),
        None => None,
    }
}

pub open spec fn opt_str_view(o: Option<&str>) -> Option<Seq<char>> {
    match o {
        Some(s) => Some(s@),
        None => None,
    }
}

/// The system prompt a run's flags ask for, if any. `--system-prompt`
/// (or else the agent definition's own prompt) is the base;
/// `--append-system-prompt` follows it after a blank line, or stands alone;
/// the `--output-schema` instruction always comes last. `None` where none
/// of the three flags was given, or where all of it is empty.
pub open spec fn system_prompt_of(
    system_prompt: Option<Seq<char>>,
    append: Option<Seq<char>>,
    agent_prompt: Option<Seq<char>>,
    schema_pretty: Option<Seq<char>>,
) -> Option<Seq<char>> {
    if system_prompt is None && append is None && schema_pretty is None {
        None
    } else {
        let base = match system_prompt {
            Some(b) => Some(b),
            None => agent_prompt,
        };
        let text = match (base, append) {
            (Some(b), Some(a)) => b + "\n\n"@ + a,
            (Some(b), None) => b,
            (None, Some(a)) => a,
            (None, None) => Seq::empty(),
        };
        let full = match schema_pretty {
            Some(p) => if text.len() > 0 {
                text + "\n\n"@ + schema_instruction_text(p)
            } else {
                schema_instruction_text(p)
            },
            None => text,
        };
        if full.len() == 0 { None } else { Some(full) }
    }
}

/// The system prompt override of a run (see [`system_prompt_of`]), given
/// the `--agent` definition's own prompt and the `--output-schema` schema
/// rendered as pretty JSON, where there are any.
pub fn resolve_system_prompt_override(cli: &Cli, agent_prompt: Option<&str>, schema_pretty: Option<&str>) -> (r: Option<String>)
    ensures
        opt_view(r) == system_prompt_of(
            opt_view(cli.system_prompt),
            opt_view(cli.append_system_prompt),
            opt_str_view(agent_prompt),
            opt_str_view(schema_pretty),
        ),
{
    if cli.system_prompt.is_none() && cli.append_system_prompt.is_none() && schema_pretty.is_none() {
        return None;
    }
    let base: Option<String> = match &cli.system_prompt {
        Some(b) => Some(clone_string(b)),
        None => match agent_prompt {
            Some(p) => Some(string_from(p)),
            None => None,
        },
    };
    let mut text = match (base, &cli.append_system_prompt) {
        (Some(b), Some(a)) => {
            let mut t = b;
            push_str(&mut t, "\n\n");
            push_str(&mut t, a.as_str());
            t
        },
        (Some(b), None) => b,
        (None, Some(a)) => clone_string(a),
        (None, None) => String::new(),
    };
    if let Some(p) = schema_pretty {
        let n = chars_of(text.as_str()).len();
        if n > 0 {
            push_str(&mut text, "\n\n");
        }
        let ins = schema_instruction(p);
        push_str(&mut text, ins.as_str());
    }
    let n = chars_of(text.as_str()).len();
    if n == 0 {
        None
    } else {
        Some(text)
    }
}

/// The result contract a run enforces: `--output-schema`'s when given,
/// else the agent definition's own, else none. The call site always wins.
pub fn resolve_result_contract<T>(output_schema: Option<T>, agent_contract: Option<T>) -> (r: Option<T>)
    ensures
        r == (match output_schema {
            Some(s) => Some(s),
            None => agent_contract,
        }),
{
    match output_schema {
        Some(s) => Some(s),
        None => agent_contract,
    }
}

/// The configured `[limits]`; `0` means unset for the deadline, tokens
/// and tool calls.
#[derive(Clone, Copy, Debug, PartialEq, Eq, Structural)]
pub struct Limits {
    pub max_steps: u32,
    pub deadline_secs: u64,
    pub max_tokens: u32,
    pub max_tool_calls: u32,
}

/// A run's budget, with the deadline as seconds from the start of the run.
#[derive(Clone, Copy, Debug, PartialEq, Eq, Structural)]
pub struct BudgetPlan {
    pub max_steps: u32,
    pub deadline_secs: Option<u64>,
    pub max_tokens: Option<u32>,
    pub max_tool_calls: Option<u32>,
}

pub open spec fn unset_if_zero_u64(v: u64) -> Option<u64> {
    if v == 0 { None } else { Some(v) }
}

pub open spec fn unset_if_zero_u32(v: u32) -> Option<u32> {
    if v == 0 { None } else { Some(v) }
}

/// The budget a run's flags ask for: `None` without any budget flag (the
/// configured default applies); otherwise the configured limits with each
/// flag given overriding its own dimension only.
pub open spec fn budget_of(cli: Cli, limits: Limits) -> Option<BudgetPlan> {
    if cli.max_turns is None && cli.max_tokens is None && cli.max_seconds is None {
        None
    } else {
        Some(BudgetPlan {
            max_steps: match cli.max_turns { Some(t) => t, None => limits.max_steps },
            deadline_secs: match cli.max_seconds {
                Some(s) => Some(s),
                None => unset_if_zero_u64(limits.deadline_secs),
            },
            max_tokens: match cli.max_tokens {
                Some(t) => Some(t),
                None => unset_if_zero_u32(limits.max_tokens),
            },
            max_tool_calls: unset_if_zero_u32(limits.max_tool_calls),
        })
    }
}

/// The budget of a run (see [`budget_of`]).
pub fn resolve_budget(cli: &Cli, limits: Limits) -> (r: Option<BudgetPlan>)
    ensures
        r == budget_of(*cli, limits),
{
    if cli.max_turns.is_none() && cli.max_tokens.is_none() && cli.max_seconds.is_none() {
        return None;
    }
    let mut budget = BudgetPlan {
        max_steps: limits.max_steps,
        deadline_secs: if limits.deadline_secs == 0 { None } else { Some(limits.deadline_secs) },
        max_tokens: if limits.max_tokens == 0 { None } else { Some(limits.max_tokens) },
        max_tool_calls: if limits.max_tool_calls == 0 { None } else { Some(limits.max_tool_calls) },
    };
    if let Some(turns) = cli.max_turns {
        budget.max_steps = turns;
    }
    if let Some(tokens) = cli.max_tokens {
        budget.max_tokens = Some(tokens);
    }
    if let Some(secs) = cli.max_seconds {
        budget.deadline_secs = Some(secs);
    }
    Some(budget)
}

/// Whether `s` holds nothing but whitespace.
pub open spec fn blank(s: Seq<char>) -> bool {
    forall|i: int| 0 <= i < s.len() ==> is_ws(#[trigger] s[i])
}

fn is_blank(s: &str) -> (r: bool)
    ensures
        r == blank(s@),
{
    let cs = chars_of(s);
    let mut i: usize = 0;
    while i < cs.len()
        invariant
            i <= cs@.len(),
            cs@ == s@,
            forall|j: int| 0 <= j < i ==> is_ws(#[trigger] s@[j]),
        decreases cs@.len() - i,
    {
        if !char_is_ws(cs[i]) {
            return false;
        }
        i = i + 1;
    }
    true
}

/// The prompt a run sends, or the usage error for having none. `print` is
/// `--print`'s text, the directive (empty text counts as none); `piped` is
/// what was read from stdin where it is not a terminal, the data (blank
/// text counts as none). Both present: the directive, a blank line, the
/// data.
pub open spec fn prompt_of(print: Option<Seq<char>>, stdin_is_tty: bool, piped: Option<Seq<char>>) -> Result<Seq<char>, Seq<char>> {
    let directive = match print {
        Some(t) => if t.len() > 0 { Some(t) } else { None },
        None => None,
    };
    let data = if stdin_is_tty {
        None
    } else {
        match piped {
            Some(b) => if blank(b) { None } else { Some(b) },
            None => None,
        }
    };
    match (directive, data) {
        (Some(d), Some(p)) => Ok(d + "\n\n"@ + p),
        (Some(d), None) => Ok(d),
        (None, Some(p)) => Ok(p),
        (None, None) => if stdin_is_tty { Err(NO_PROMPT_TTY@) } else { Err(NO_PROMPT_EMPTY@) },
    }
}

/// The prompt of a run (see [`prompt_of`]).
pub fn compose_prompt(print: Option<&str>, stdin_is_tty: bool, piped: Option<&str>) -> (r: Result<String, String>)
    ensures
        match prompt_of(opt_str_view(print), stdin_is_tty, opt_str_view(piped)) {
            Ok(t) => r matches Ok(s) && s@ == t,
            Err(m) => r matches Err(e) && e@ == m,
        },
{
    let directive: Option<&str> = match print {
        Some(t) => if chars_of(t).len() > 0 { Some(t) } else { None },
        None => None,
    };
    let data: Option<&str> = if stdin_is_tty {
        None
    } else {
        match piped {
            Some(b) => if is_blank(b) { None } else { Some(b) },
            None => None,
        }
    };
    match (directive, data) {
        (Some(d), Some(p)) => {
            let mut s = string_from(d);
            push_str(&mut s, "\n\n");
            push_str(&mut s, p);
            Ok(s)
        },
        (Some(d), None) => Ok(string_from(d)),
        (None, Some(p)) => Ok(string_from(p)),
        (None, None) => if stdin_is_tty {
            Err(string_from(NO_PROMPT_TTY))
        } else {
            Err(string_from(NO_PROMPT_EMPTY))
        },
    }
}

/// One-shot mode's tool gate: a tool call is allowed only if its tool is
/// named in `allowed` and not in `denied`. One-shot mode cannot ask, so it
/// fails closed.
pub struct Gate {
    pub allowed: Vec<String>,
    pub denied: Vec<String>,
}

pub open spec fn names(v: Seq<String>) -> Seq<Seq<char>> {
    v.map_values(|s: String| s@)
}

/// Whether `gate` lets a call of `tool` through.
pub open spec fn gate_allows(allowed: Seq<Seq<char>>, denied: Seq<Seq<char>>, tool: Seq<char>) -> bool {
    allowed.contains(tool) && !denied.contains(tool)
}

fn clone_all(v: &Vec<String>) -> (r: Vec<String>)
    ensures
        names(r@) == names(v@),
{
    let mut out: Vec<String> = Vec::new();
    let mut i: usize = 0;
    while i < v.len()
        invariant
            i <= v@.len(),
            out@.len() == i,
            forall|j: int| 0 <= j < i ==> (#[trigger] out@[j])@ == v@[j]@,
        decreases v@.len() - i,
    {
        let c = clone_string(&v[i]);
        out.push(c);
        i = i + 1;
    }
    assert(names(out@) =~= names(v@));
    out
}

/// The tool permissions of a run: `deny` allows no tool; `allowlist`
/// allows `--allowed-tools` less `--deny-tools`.
pub fn build_gate(cli: &Cli) -> (r: Gate)
    ensures
        cli.permission_mode == PermissionMode::Deny ==> r.allowed@.len() == 0 && r.denied@.len() == 0,
        cli.permission_mode == PermissionMode::Allowlist ==> names(r.allowed@) == names(cli.allowed_tools@)
            && names(r.denied@) == names(cli.deny_tools@),
{
    match cli.permission_mode {
        PermissionMode::Deny => Gate { allowed: Vec::new(), denied: Vec::new() },
        PermissionMode::Allowlist => Gate {
            allowed: clone_all(&cli.allowed_tools),
            denied: clone_all(&cli.deny_tools),
        },
    }
}

fn listed(v: &Vec<String>, name: &str) -> (r: bool)
    ensures
        r == names(v@).contains(name@),
{
    let mut i: usize = 0;
    while i < v.len()
        invariant
            i <= v@.len(),
            forall|j: int| 0 <= j < i ==> names(v@)[j] != name@,
        decreases v@.len() - i,
    {
        if crate::text::str_eq(v[i].as_str(), name) {
            assert(names(v@)[i as int] == name@);
            return true;
        }
        i = i + 1;
    }
    false
}

impl Gate {
    /// Whether a call of `tool` is let through (see [`gate_allows`]).
    pub fn allows(&self, tool: &str) -> (r: bool)
        ensures
            r == gate_allows(names(self.allowed@), names(self.denied@), tool@),
    {
        listed(&self.allowed, tool) && !listed(&self.denied, tool)
    }
}

/// With no `--allowed-tools`, one-shot mode denies every tool, whatever
/// `--deny-tools` says; in `deny` mode it denies every tool outright.
pub proof fn law_gate_fails_closed(cli: Cli, g: Gate, tool: Seq<char>)
    requires
        cli.permission_mode == PermissionMode::Deny ==> g.allowed@.len() == 0 && g.denied@.len() == 0,
        cli.permission_mode == PermissionMode::Allowlist ==> names(g.allowed@) == names(cli.allowed_tools@)
            && names(g.denied@) == names(cli.deny_tools@),
        cli.permission_mode == PermissionMode::Deny || cli.allowed_tools@.len() == 0,
    ensures
        !gate_allows(names(g.allowed@), names(g.denied@), tool),
{
    assert(names(g.allowed@).len() == 0);
}

/// A tool named in `--deny-tools` is denied, whatever `--allowed-tools`
/// says: denial always wins.
pub proof fn law_denial_wins(allowed: Seq<Seq<char>>, denied: Seq<Seq<char>>, tool: Seq<char>)
    requires
        denied.contains(tool),
    ensures
        !gate_allows(allowed, denied, tool),
{
}

/// The event loop of a run: its root agent, and whether the SIGINT grace
/// window is running.
pub struct RunLoop {
    pub root: u128,
    pub grace_armed: bool,
}

/// What the loop sees next.
pub enum LoopEvent {
    /// An envelope from `agent`; `lagged` where it reports dropped events,
    /// `finished` where it is an agent's finish.
    Envelope { agent: u128, lagged: Option<u64>, finished: bool },
    /// The stream closed.
    Closed,
    Sigint,
    /// The grace window ran out.
    GraceExpired,
}

/// What the loop does about it.
pub enum LoopAction {
    /// Warn on stderr and go on, never showing the envelope to a renderer.
    Warn { text: String },
    /// Hand the envelope to the renderer and go on.
    Render,
    /// Hand the envelope to the renderer; it carries the run's result, and
    /// the loop ends.
    RenderFinal,
    /// Cancel the root and start the grace window.
    CancelAndWait,
    /// Warn on stderr and end the loop without a result.
    GiveUp { text: String },
    /// End the loop without a result.
    Stop,
    /// Nothing to do.
    Ignore,
}

/// The warning for a lagged stream.
pub open spec fn lagged_text(skipped: u64) -> Seq<char> {
    "event stream lagged: "@ + decimal(skipped as nat) + " event(s) dropped"@
}

/// The warning when the grace window runs out.
pub const GRACE_EXPIRED: &'static str = "no terminal result within the SIGINT grace window; exiting";

/// What the loop does about `ev`: a lagged envelope is only a warning; the
/// root's finish is rendered and ends the loop; a SIGINT cancels the root
/// and starts the grace window once; the window running out ends the loop.
pub open spec fn loop_step_spec(st: RunLoop, ev: LoopEvent) -> (RunLoop, LoopActionView) {
    match ev {
        LoopEvent::Envelope { agent, lagged, finished } => match lagged {
            Some(k) => (st, LoopActionView::Warn(lagged_text(k))),
            None => if finished && agent == st.root {
                (st, LoopActionView::RenderFinal)
            } else {
                (st, LoopActionView::Render)
            },
        },
        LoopEvent::Closed => (st, LoopActionView::Stop),
        LoopEvent::Sigint => if st.grace_armed {
            (st, LoopActionView::Ignore)
        } else {
            (RunLoop { root: st.root, grace_armed: true }, LoopActionView::CancelAndWait)
        },
        LoopEvent::GraceExpired => if st.grace_armed {
            (st, LoopActionView::GiveUp(GRACE_EXPIRED@))
        } else {
            (st, LoopActionView::Ignore)
        },
    }
}

/// A loop action as plain values.
pub enum LoopActionView {
    Warn(Seq<char>),
    Render,
    RenderFinal,
    CancelAndWait,
    GiveUp(Seq<char>),
    Stop,
    Ignore,
}

pub open spec fn action_view(a: LoopAction) -> LoopActionView {
    match a {
        LoopAction::Warn { text } => LoopActionView::Warn(text@),
        LoopAction::Render => LoopActionView::Render,
        LoopAction::RenderFinal => LoopActionView::RenderFinal,
        LoopAction::CancelAndWait => LoopActionView::CancelAndWait,
        LoopAction::GiveUp { text } => LoopActionView::GiveUp(text@),
        LoopAction::Stop => LoopActionView::Stop,
        LoopAction::Ignore => LoopActionView::Ignore,
    }
}

impl RunLoop {
    /// The loop of a run whose root is `root`, before any SIGINT.
    pub fn new(root: u128) -> (r: RunLoop)
        ensures
            r.root == root,
            !r.grace_armed,
    {
        RunLoop { root, grace_armed: false }
    }

    /// One step of the loop (see [`loop_step_spec`]).
    pub fn step(&mut self, ev: &LoopEvent) -> (r: LoopAction)
        ensures
            (*final(self), action_view(r)) == loop_step_spec(*old(self), *ev),
    {
        match ev {
            LoopEvent::Envelope { agent, lagged, finished } => match lagged {
                Some(k) => {
                    let mut t = string_from("event stream lagged: ");
                    push_decimal(&mut t, *k);
                    push_str(&mut t, " event(s) dropped");
                    LoopAction::Warn { text: t }
                },
                None => if *finished && *agent == self.root {
                    LoopAction::RenderFinal
                } else {
                    LoopAction::Render
                },
            },
            LoopEvent::Closed => LoopAction::Stop,
            LoopEvent::Sigint => if self.grace_armed {
                LoopAction::Ignore
            } else {
                self.grace_armed = true;
                LoopAction::CancelAndWait
            },
            LoopEvent::GraceExpired => if self.grace_armed {
                LoopAction::GiveUp { text: string_from(GRACE_EXPIRED) }
            } else {
                LoopAction::Ignore
            },
        }
    }
}

/// The exit code of a run once its loop ended: from its result (a
/// cancellation seen with a SIGINT is an interruption); without one,
/// interrupted after a SIGINT and an agent failure otherwise.
pub open spec fn run_exit_code(result: Option<AgentResult>, sigint_seen: bool) -> ExitCode {
    match result {
        Some(r) => if sigint_seen && r.status is Cancelled { ExitCode::Interrupted } else { result_code(r.status) },
        None => if sigint_seen { ExitCode::Interrupted } else { ExitCode::AgentFailed },
    }
}

/// The exit code of a run (see [`run_exit_code`]).
pub fn exit_code_after(result: Option<&AgentResult>, sigint_seen: bool) -> (c: ExitCode)
    ensures
        c == run_exit_code(match result {
            Some(r) => Some(*r),
            None => None,
        }, sigint_seen),
{
    match result {
        Some(r) => ExitCode::from_result_with_sigint(r, sigint_seen),
        None => if sigint_seen { ExitCode::Interrupted } else { ExitCode::AgentFailed },
    }
}

} // verus!
