//! One-shot mode's streaming renderers: what each `--output-format` writes
//! to stdout for each event of a run, and which diagnostic it reports on
//! stderr instead.
//!
//! A renderer here decides; the caller writes. Each step returns the bytes
//! for stdout, whether to flush them, and at most one diagnostic.
use vstd::prelude::*;
use crate::text::{chars_of, decimal, push_decimal, push_str, string_from, clone_string};

verus! {

/// The level of a diagnostic line.
#[derive(Clone, Copy, Debug, PartialEq, Eq, Structural)]
pub enum NoteLevel {
    Error,
    Warn,
    /// Shown only with `--verbose`.
    Info,
}

/// One diagnostic line for stderr.
pub struct Note {
    pub level: NoteLevel,
    pub text: String,
}

/// What one step of a renderer asks the caller to do.
pub struct Rendered {
    /// Bytes for stdout, verbatim.
    pub stdout: String,
    /// Whether stdout is to be flushed after writing them.
    pub flush: bool,
    pub note: Option<Note>,
}

/// The events of a run's stream, as far as the renderers read them.
pub enum StreamEvent {
    TextDelta { text: String },
    ThinkingDelta { text: String },
    /// A mid-stream failure discarded this attempt's partial output.
    StreamRestarted { attempt: u32 },
    ToolCallProposed { call_id: String, tool: String },
    ToolCallStarted { call_id: String },
    ToolCallFinished { call_id: String, is_error: bool },
    /// A permission decision; `denied` for either denial variant.
    PermissionResolved { call_id: String, denied: bool },
    ModelDecision { role: String, chosen: String },
    BackendDegraded { endpoint: String },
    /// An error event, with its display text.
    Error { message: String, fatal: bool },
    TurnAborted { limit: String },
    AgentFinished,
    AgentProgress { note: String },
    BudgetWarning { text: String },
    /// Any other event: nothing to render.
    Other,
}

/// A note as plain values.
pub open spec fn note_view(n: Option<Note>) -> Option<(NoteLevel, Seq<char>)> {
    match n {
        Some(n) => Some((n.level, n.text@)),
        None => None,
    }
}

/// The stderr diagnostic the text renderer gives for `ev`, if any: the
/// routine tool-call lifecycle and routing decisions are `Info`; failures,
/// denials, degradations, restarts and notices are warnings; a fatal error
/// is an error.
pub open spec fn text_note(ev: StreamEvent) -> Option<(NoteLevel, Seq<char>)> {
    match ev {
        StreamEvent::StreamRestarted { attempt } => Some((NoteLevel::Warn,
            "stream restarted (attempt "@ + decimal(attempt as nat) + "); partial output above discarded"@)),
        StreamEvent::ToolCallProposed { call_id, tool } => Some((NoteLevel::Info,
            "tool call proposed: "@ + tool@ + " ("@ + call_id@ + ")"@)),
        StreamEvent::ToolCallStarted { call_id } => Some((NoteLevel::Info,
            "tool call started ("@ + call_id@ + ")"@)),
        StreamEvent::ToolCallFinished { call_id, is_error } => if is_error {
            Some((NoteLevel::Warn, "tool call failed ("@ + call_id@ + ")"@))
        } else {
            Some((NoteLevel::Info, "tool call finished ("@ + call_id@ + "): ok"@))
        },
        StreamEvent::PermissionResolved { call_id, denied } => if denied {
            Some((NoteLevel::Warn, "permission denied for call "@ + call_id@))
        } else {
            None
        },
        StreamEvent::ModelDecision { role, chosen } => Some((NoteLevel::Info,
            "routed role '"@ + role@ + "' to "@ + chosen@)),
        StreamEvent::BackendDegraded { endpoint } => Some((NoteLevel::Warn,
            "backend degraded: "@ + endpoint@)),
        StreamEvent::Error { message, fatal } => if fatal {
            Some((NoteLevel::Error, message@))
        } else {
            None
        },
        StreamEvent::TurnAborted { limit } => Some((NoteLevel::Warn, "turn ended: "@ + limit@ + " reached"@)),
        StreamEvent::AgentProgress { note } => Some((NoteLevel::Warn, note@)),
        StreamEvent::BudgetWarning { text } => Some((NoteLevel::Warn, text@)),
        _ => None,
    }
}

/// `--output-format text`: stdout carries only the assistant's text,
/// verbatim, a newline where a restarted stream discarded partial output,
/// and a final newline where the text did not end with one.
pub struct TextRenderer {
    /// Whether the last byte written ended a line; `None` before any
    /// write.
    pub ends_with_newline: Option<bool>,
    /// The run's root agent, once known: only its finish is terminal.
    pub root: Option<u128>,
}

/// Whether a finish of `agent` is the run's terminal one: the root's, or
/// any while the root is unknown.
pub open spec fn is_terminal(root: Option<u128>, agent: u128) -> bool {
    match root {
        Some(r) => r == agent,
        None => true,
    }
}

/// The newline that closes the output: only where something was written
/// and it did not end with a newline.
pub open spec fn closing_newline(ends: Option<bool>) -> Seq<char> {
    if ends == Some(false) { "\n"@ } else { Seq::empty() }
}

/// What the text renderer writes to stdout for `ev` from `agent`.
pub open spec fn text_stdout(st: TextRenderer, agent: u128, ev: StreamEvent) -> Seq<char> {
    match ev {
        StreamEvent::TextDelta { text } => text@,
        StreamEvent::StreamRestarted { .. } => "\n"@,
        StreamEvent::AgentFinished => if is_terminal(st.root, agent) {
            closing_newline(st.ends_with_newline)
        } else {
            Seq::empty()
        },
        _ => Seq::empty(),
    }
}

/// Whether the text renderer flushes stdout after `ev`: after every
/// non-empty delta and after a restart boundary.
pub open spec fn text_flush(ev: StreamEvent) -> bool {
    match ev {
        StreamEvent::TextDelta { text } => text@.len() > 0,
        StreamEvent::StreamRestarted { .. } => true,
        _ => false,
    }
}

/// Whether the text renderer's output ends a line after writing `w` on
/// top of what `ends` recorded.
pub open spec fn ends_after(ends: Option<bool>, w: Seq<char>) -> Option<bool> {
    if w.len() == 0 { ends } else { Some(w.last() == '\n') }
}

/// The text renderer's state after `ev` from `agent`.
pub open spec fn text_next(st: TextRenderer, agent: u128, ev: StreamEvent) -> TextRenderer {
    TextRenderer {
        ends_with_newline: ends_after(st.ends_with_newline, text_stdout(st, agent, ev)),
        root: st.root,
    }
}

/// Whether `st` describes `out`, everything written so far: nothing was
/// written exactly when `st` says so, and otherwise it records whether
/// `out` ends with a newline.
pub open spec fn describes(st: TextRenderer, out: Seq<char>) -> bool {
    match st.ends_with_newline {
        None => out.len() == 0,
        Some(b) => out.len() > 0 && (out.last() == '\n') == b,
    }
}

/// The text renderer after each of `evs` (agent and event) in turn, with
/// everything it wrote to stdout.
pub open spec fn run_text(st: TextRenderer, evs: Seq<(u128, StreamEvent)>) -> (TextRenderer, Seq<char>)
    decreases evs.len(),
{
    if evs.len() == 0 {
        (st, Seq::empty())
    } else {
        let (agent, ev) = evs[0];
        let w = text_stdout(st, agent, ev);
        let rest = run_text(text_next(st, agent, ev), evs.drop_first());
        (rest.0, w + rest.1)
    }
}

fn note(level: NoteLevel, text: String) -> (r: Option<Note>)
    ensures
        note_view(r) == Some((level, text@)),
{
    Some(Note { level, text })
}

impl TextRenderer {
    /// A renderer that has written nothing and knows no root.
    pub fn new() -> (r: TextRenderer)
        ensures
            r.ends_with_newline is None,
            r.root is None,
    {
        TextRenderer { ends_with_newline: None, root: None }
    }

    /// Names the run's root agent.
    pub fn set_root(&mut self, root: u128)
        ensures
            final(self).root == Some(root),
            final(self).ends_with_newline == old(self).ends_with_newline,
    {
        self.root = Some(root);
    }

    /// Renders one event of the stream, from `agent`.
    pub fn on_event(&mut self, agent: u128, ev: &StreamEvent) -> (r: Rendered)
        ensures
            r.stdout@ == text_stdout(*old(self), agent, *ev),
            r.flush == text_flush(*ev),
            note_view(r.note) == text_note(*ev),
            *final(self) == text_next(*old(self), agent, *ev),
    {
        match ev {
            StreamEvent::TextDelta { text } => {
                let cs = chars_of(text.as_str());
                if cs.len() > 0 {
                    self.ends_with_newline = Some(cs[cs.len() - 1] == '\n');
                }
                Rendered { stdout: clone_string(text), flush: cs.len() > 0, note: None }
            },
            StreamEvent::ThinkingDelta { .. } => Rendered { stdout: String::new(), flush: false, note: None },
            StreamEvent::StreamRestarted { attempt } => {
                self.ends_with_newline = Some(true);
                let mut t = string_from("stream restarted (attempt ");
                push_decimal(&mut t, *attempt as u64);
                push_str(&mut t, "); partial output above discarded");
                let s = string_from("\n");
                proof {
                    reveal_strlit("\n");
                }
                Rendered { stdout: s, flush: true, note: note(NoteLevel::Warn, t) }
            },
            StreamEvent::ToolCallProposed { call_id, tool } => {
                let mut t = string_from("tool call proposed: ");
                push_str(&mut t, tool.as_str());
                push_str(&mut t, " (");
                push_str(&mut t, call_id.as_str());
                push_str(&mut t, ")");
                Rendered { stdout: String::new(), flush: false, note: note(NoteLevel::Info, t) }
            },
            StreamEvent::ToolCallStarted { call_id } => {
                let mut t = string_from("tool call started (");
                push_str(&mut t, call_id.as_str());
                push_str(&mut t, ")");
                Rendered { stdout: String::new(), flush: false, note: note(NoteLevel::Info, t) }
            },
            StreamEvent::ToolCallFinished { call_id, is_error } => {
                if *is_error {
                    let mut t = string_from("tool call failed (");
                    push_str(&mut t, call_id.as_str());
                    push_str(&mut t, ")");
                    Rendered { stdout: String::new(), flush: false, note: note(NoteLevel::Warn, t) }
                } else {
                    let mut t = string_from("tool call finished (");
                    push_str(&mut t, call_id.as_str());
                    push_str(&mut t, "): ok");
                    Rendered { stdout: String::new(), flush: false, note: note(NoteLevel::Info, t) }
                }
            },
            StreamEvent::PermissionResolved { call_id, denied } => {
                if *denied {
                    let mut t = string_from("permission denied for call ");
                    push_str(&mut t, call_id.as_str());
                    Rendered { stdout: String::new(), flush: false, note: note(NoteLevel::Warn, t) }
                } else {
                    Rendered { stdout: String::new(), flush: false, note: None }
                }
            },
            StreamEvent::ModelDecision { role, chosen } => {
                let mut t = string_from("routed role '");
                push_str(&mut t, role.as_str());
                push_str(&mut t, "' to ");
                push_str(&mut t, chosen.as_str());
                Rendered { stdout: String::new(), flush: false, note: note(NoteLevel::Info, t) }
            },
            StreamEvent::BackendDegraded { endpoint } => {
                let mut t = string_from("backend degraded: ");
                push_str(&mut t, endpoint.as_str());
                Rendered { stdout: String::new(), flush: false, note: note(NoteLevel::Warn, t) }
            },
            StreamEvent::Error { message, fatal } => {
                if *fatal {
                    Rendered { stdout: String::new(), flush: false, note: note(NoteLevel::Error, clone_string(message)) }
                } else {
                    Rendered { stdout: String::new(), flush: false, note: None }
                }
            },
            StreamEvent::TurnAborted { limit } => {
                let mut t = string_from("turn ended: ");
                push_str(&mut t, limit.as_str());
                push_str(&mut t, " reached");
                Rendered { stdout: String::new(), flush: false, note: note(NoteLevel::Warn, t) }
            },
            StreamEvent::AgentFinished => {
                let terminal = match self.root {
                    Some(r) => r == agent,
                    None => true,
                };
                if terminal {
                    let s = self.ensure_trailing_newline();
                    Rendered { stdout: s, flush: false, note: None }
                } else {
                    Rendered { stdout: String::new(), flush: false, note: None }
                }
            },
            StreamEvent::AgentProgress { note: n } => {
                Rendered { stdout: String::new(), flush: false, note: note(NoteLevel::Warn, clone_string(n)) }
            },
            StreamEvent::BudgetWarning { text } => {
                Rendered { stdout: String::new(), flush: false, note: note(NoteLevel::Warn, clone_string(text)) }
            },
            StreamEvent::Other => Rendered { stdout: String::new(), flush: false, note: None },
        }
    }

    /// The closing newline, if one is owed; afterwards none is.
    fn ensure_trailing_newline(&mut self) -> (r: String)
        ensures
            r@ == closing_newline(old(self).ends_with_newline),
            final(self).ends_with_newline == ends_after(old(self).ends_with_newline, r@),
            final(self).root == old(self).root,
    {
        proof {
            reveal_strlit("\n");
        }
        match self.ends_with_newline {
            Some(false) => {
                self.ends_with_newline = Some(true);
                string_from("\n")
            },
            _ => String::new(),
        }
    }

    /// Ends the run: the closing newline if one is owed, then a flush.
    pub fn finish(&mut self) -> (r: Rendered)
        ensures
            r.stdout@ == closing_newline(old(self).ends_with_newline),
            r.flush,
            r.note is None,
            final(self).ends_with_newline == ends_after(old(self).ends_with_newline, r.stdout@),
            final(self).root == old(self).root,
    {
        let s = self.ensure_trailing_newline();
        Rendered { stdout: s, flush: true, note: None }
    }
}

/// Each step keeps the renderer's record of its own output true.
pub proof fn lemma_step_describes(st: TextRenderer, out: Seq<char>, agent: u128, ev: StreamEvent)
    requires
        describes(st, out),
    ensures
        describes(text_next(st, agent, ev), out + text_stdout(st, agent, ev)),
{
    let w = text_stdout(st, agent, ev);
    if w.len() > 0 {
        assert((out + w).last() == w.last());
    } else {
        assert(out + w =~= out);
    }
}

/// [`lemma_step_describes`] over a whole run.
pub proof fn lemma_run_describes(st: TextRenderer, evs: Seq<(u128, StreamEvent)>)
    requires
        describes(st, Seq::empty()),
    ensures
        describes(run_text(st, evs).0, run_text(st, evs).1),
{
    lemma_run_describes_from(st, Seq::empty(), evs);
    assert(Seq::<char>::empty() + run_text(st, evs).1 =~= run_text(st, evs).1);
}

proof fn lemma_run_describes_from(st: TextRenderer, out: Seq<char>, evs: Seq<(u128, StreamEvent)>)
    requires
        describes(st, out),
    ensures
        describes(run_text(st, evs).0, out + run_text(st, evs).1),
    decreases evs.len(),
{
    if evs.len() == 0 {
        assert(out + Seq::<char>::empty() =~= out);
    } else {
        let (agent, ev) = evs[0];
        let w = text_stdout(st, agent, ev);
        lemma_step_describes(st, out, agent, ev);
        lemma_run_describes_from(text_next(st, agent, ev), out + w, evs.drop_first());
        let rest = run_text(text_next(st, agent, ev), evs.drop_first());
        assert(out + w + rest.1 =~= out + (w + rest.1));
    }
}

/// Whatever a text-mode run streams, once it is finished its stdout is
/// either empty (an empty run writes nothing, not even a newline) or ends
/// with exactly the newline the text itself or the renderer supplied.
pub proof fn law_text_output_ends_a_line(root: Option<u128>, evs: Seq<(u128, StreamEvent)>)
    ensures
        ({
            let st0 = TextRenderer { ends_with_newline: None, root };
            let (st, out) = run_text(st0, evs);
            let all = out + closing_newline(st.ends_with_newline);
            all.len() == 0 || all.last() == '\n'
        }),
{
    let st0 = TextRenderer { ends_with_newline: None, root };
    lemma_run_describes(st0, evs);
    let (st, out) = run_text(st0, evs);
    reveal_strlit("\n");
    let all = out + closing_newline(st.ends_with_newline);
    if st.ends_with_newline == Some(false) {
        assert(all.last() == '\n');
    } else {
        assert(all =~= out);
    }
}

/// Finishing twice writes the closing newline at most once: the terminal
/// finish and the final `finish` of the same run never double it.
pub proof fn law_closing_newline_is_written_once(ends: Option<bool>)
    ensures
        closing_newline(ends_after(ends, closing_newline(ends))).len() == 0,
{
    reveal_strlit("\n");
    if ends == Some(false) {
        assert(closing_newline(ends).last() == '\n');
    }
}

/// Only assistant text, a restart boundary and the closing newline ever
/// reach stdout in text mode: every other event writes nothing there.
pub proof fn law_text_stdout_is_text_only(st: TextRenderer, agent: u128, ev: StreamEvent)
    requires
        !(ev is TextDelta),
        !(ev is StreamRestarted),
        !(ev is AgentFinished),
    ensures
        text_stdout(st, agent, ev).len() == 0,
{
}

/// `--output-format json`: nothing on stdout until the run finishes, then
/// the terminal result as one JSON document on a line of its own.
pub struct JsonRenderer {}

/// The stderr diagnostic the JSON renderer gives for `ev`: only progress
/// and budget notices, as warnings.
pub open spec fn json_note(ev: StreamEvent) -> Option<(NoteLevel, Seq<char>)> {
    match ev {
        StreamEvent::AgentProgress { note } => Some((NoteLevel::Warn, note@)),
        StreamEvent::BudgetWarning { text } => Some((NoteLevel::Warn, text@)),
        _ => None,
    }
}

impl JsonRenderer {
    pub fn new() -> (r: JsonRenderer) {
        JsonRenderer {}
    }

    /// Renders one event: never anything on stdout.
    pub fn on_event(&self, ev: &StreamEvent) -> (r: Rendered)
        ensures
            r.stdout@.len() == 0,
            !r.flush,
            note_view(r.note) == json_note(*ev),
    {
        match ev {
            StreamEvent::AgentProgress { note: n } => {
                Rendered { stdout: String::new(), flush: false, note: note(NoteLevel::Warn, clone_string(n)) }
            },
            StreamEvent::BudgetWarning { text } => {
                Rendered { stdout: String::new(), flush: false, note: note(NoteLevel::Warn, clone_string(text)) }
            },
            _ => Rendered { stdout: String::new(), flush: false, note: None },
        }
    }

    /// Ends the run, given the terminal result serialized as JSON (`None`
    /// where the run produced none): that document and a newline, flushed;
    /// nothing at all without a result.
    pub fn finish(&self, result_json: Option<&str>) -> (r: Rendered)
        ensures
            match result_json {
                Some(j) => r.stdout@ == j@ + "\n"@ && r.flush,
                None => r.stdout@.len() == 0 && !r.flush,
            },
            r.note is None,
    {
        match result_json {
            Some(j) => {
                let mut s = string_from(j);
                push_str(&mut s, "\n");
                Rendered { stdout: s, flush: true, note: None }
            },
            None => Rendered { stdout: String::new(), flush: false, note: None },
        }
    }
}

/// `--output-format jsonl`: every event as one JSON line, unfiltered.
pub struct JsonlRenderer {}

impl JsonlRenderer {
    pub fn new() -> (r: JsonlRenderer) {
        JsonlRenderer {}
    }

    /// Renders one event, given its envelope serialized as JSON: that line,
    /// flushed.
    pub fn on_event(&self, envelope_json: &str) -> (r: Rendered)
        ensures
            r.stdout@ == envelope_json@ + "\n"@,
            r.flush,
            r.note is None,
    {
        let mut s = string_from(envelope_json);
        push_str(&mut s, "\n");
        Rendered { stdout: s, flush: true, note: None }
    }

    /// Ends the run: every line was already written, so only a flush.
    pub fn finish(&self) -> (r: Rendered)
        ensures
            r.stdout@.len() == 0,
            r.flush,
            r.note is None,
    {
        Rendered { stdout: String::new(), flush: true, note: None }
    }
}

} // verus!
