use conway_cli::render::{JsonRenderer, JsonlRenderer, NoteLevel, Rendered, StreamEvent, TextRenderer};

/// What a renderer's caller writes: the bytes on stdout and how many
/// times it flushed.
#[derive(Default)]
struct Sink {
    out: String,
    flushes: usize,
    notes: Vec<(NoteLevel, String)>,
}

impl Sink {
    fn take(&mut self, r: Rendered) {
        self.out.push_str(&r.stdout);
        if r.flush {
            self.flushes += 1;
        }
        if let Some(n) = r.note {
            self.notes.push((n.level, n.text));
        }
    }
}

const ROOT: u128 = 1;
const CHILD: u128 = 2;

fn delta(t: &str) -> StreamEvent {
    StreamEvent::TextDelta { text: t.to_string() }
}

#[test]
fn hello_world_exactly_and_flush_count_matches_delta_count() {
    let mut sink = Sink::default();
    let mut r = TextRenderer::new();
    sink.take(r.on_event(ROOT, &delta("he")));
    sink.take(r.on_event(ROOT, &delta("llo")));
    sink.take(r.on_event(ROOT, &StreamEvent::Other));
    sink.take(r.on_event(ROOT, &StreamEvent::AgentFinished));
    assert_eq!(sink.out, "hello\n");
    assert_eq!(sink.flushes, 2, "flush must be called exactly once per TextDelta, no more");
}

#[test]
fn thinking_delta_is_suppressed() {
    let mut sink = Sink::default();
    let mut r = TextRenderer::new();
    sink.take(r.on_event(ROOT, &StreamEvent::ThinkingDelta { text: "pondering".to_string() }));
    assert_eq!(sink.out, "");
    assert_eq!(sink.flushes, 0);
}

#[test]
fn stream_restarted_writes_a_newline_to_stdout() {
    let mut sink = Sink::default();
    let mut r = TextRenderer::new();
    sink.take(r.on_event(ROOT, &delta("partial")));
    sink.take(r.on_event(ROOT, &StreamEvent::StreamRestarted { attempt: 2 }));
    sink.take(r.on_event(ROOT, &delta("retried")));
    assert_eq!(sink.out, "partial\nretried");
    assert_eq!(
        sink.notes,
        vec![(NoteLevel::Warn, "stream restarted (attempt 2); partial output above discarded".to_string())]
    );
}

#[test]
fn finish_after_on_event_agent_finished_does_not_double_newline() {
    let mut sink = Sink::default();
    let mut r = TextRenderer::new();
    sink.take(r.on_event(ROOT, &delta("hi")));
    sink.take(r.on_event(ROOT, &StreamEvent::AgentFinished));
    sink.take(r.finish());
    assert_eq!(sink.out, "hi\n");
}

#[test]
fn subagent_finish_does_not_flush_newline_into_root_stream() {
    let mut sink = Sink::default();
    let mut r = TextRenderer::new();
    r.set_root(ROOT);
    sink.take(r.on_event(ROOT, &delta("partial")));
    sink.take(r.on_event(CHILD, &StreamEvent::AgentFinished));
    assert_eq!(sink.out, "partial", "a subagent's finish must not append a newline to the root's stream");
    sink.take(r.on_event(ROOT, &StreamEvent::AgentFinished));
    assert_eq!(sink.out, "partial\n");
}

#[test]
fn empty_run_finish_writes_nothing() {
    let mut sink = Sink::default();
    let mut r = TextRenderer::new();
    sink.take(r.finish());
    assert_eq!(sink.out, "");
}

#[test]
fn agent_progress_and_budget_warning_never_touch_stdout() {
    let mut sink = Sink::default();
    let mut r = TextRenderer::new();
    sink.take(r.on_event(ROOT, &StreamEvent::AgentProgress {
        note: "the model exhausted its output token budget (stop: max_tokens) while still reasoning, and produced no visible answer -- no text, no tool call.".to_string(),
    }));
    sink.take(r.on_event(ROOT, &StreamEvent::BudgetWarning {
        text: "runway: 4 of 5 max_steps used this session (max_steps=5). Wrap up or report now.".to_string(),
    }));
    assert_eq!(sink.out, "", "neither notice may write anything to this renderer's stdout handle");
    assert_eq!(sink.flushes, 0);
    assert_eq!(sink.notes.len(), 2);
    assert!(sink.notes.iter().all(|(l, _)| *l == NoteLevel::Warn));
}

#[test]
fn text_that_already_ends_a_line_gets_no_second_newline() {
    let mut sink = Sink::default();
    let mut r = TextRenderer::new();
    sink.take(r.on_event(ROOT, &delta("done\n")));
    sink.take(r.on_event(ROOT, &StreamEvent::AgentFinished));
    sink.take(r.finish());
    assert_eq!(sink.out, "done\n");
}

#[test]
fn routine_tool_activity_is_info_and_failures_are_warnings() {
    let mut sink = Sink::default();
    let mut r = TextRenderer::new();
    sink.take(r.on_event(ROOT, &StreamEvent::ToolCallProposed { call_id: "tc_1".into(), tool: "read".into() }));
    sink.take(r.on_event(ROOT, &StreamEvent::ToolCallFinished { call_id: "tc_1".into(), is_error: true }));
    sink.take(r.on_event(ROOT, &StreamEvent::PermissionResolved { call_id: "tc_2".into(), denied: true }));
    sink.take(r.on_event(ROOT, &StreamEvent::PermissionResolved { call_id: "tc_3".into(), denied: false }));
    sink.take(r.on_event(ROOT, &StreamEvent::ModelDecision { role: "coder".into(), chosen: "a/b".into() }));
    sink.take(r.on_event(ROOT, &StreamEvent::Error { message: "boom".into(), fatal: true }));
    sink.take(r.on_event(ROOT, &StreamEvent::Error { message: "meh".into(), fatal: false }));
    assert_eq!(sink.out, "");
    assert_eq!(
        sink.notes,
        vec![
            (NoteLevel::Info, "tool call proposed: read (tc_1)".to_string()),
            (NoteLevel::Warn, "tool call failed (tc_1)".to_string()),
            (NoteLevel::Warn, "permission denied for call tc_2".to_string()),
            (NoteLevel::Info, "routed role 'coder' to a/b".to_string()),
            (NoteLevel::Error, "boom".to_string()),
        ]
    );
}

#[test]
fn writes_nothing_on_non_terminal_events() {
    let mut sink = Sink::default();
    let r = JsonRenderer::new();
    sink.take(r.on_event(&delta("hi")));
    sink.take(r.on_event(&StreamEvent::AgentProgress { note: "working".to_string() }));
    assert_eq!(sink.out, "");
    assert_eq!(sink.notes, vec![(NoteLevel::Warn, "working".to_string())]);
}

#[test]
fn finish_writes_exactly_one_json_object() {
    let mut sink = Sink::default();
    let r = JsonRenderer::new();
    let mut status = serde_json::Map::new();
    status.insert("status".to_string(), serde_json::Value::from("completed"));
    let mut result = serde_json::Map::new();
    result.insert("status".to_string(), serde_json::Value::Object(status));
    result.insert("summary".to_string(), serde_json::Value::from("done"));
    let doc = serde_json::to_string(&serde_json::Value::Object(result)).unwrap();
    sink.take(r.finish(Some(&doc)));
    let value: serde_json::Value = serde_json::from_str(sink.out.trim_end()).unwrap();
    assert!(value.is_object());
    assert_eq!(value["status"]["status"], "completed");
    assert_eq!(sink.out.matches('\n').count(), 1);
}

#[test]
fn finish_with_no_result_writes_nothing() {
    let mut sink = Sink::default();
    let r = JsonRenderer::new();
    sink.take(r.finish(None));
    assert_eq!(sink.out, "");
}

#[test]
fn one_parseable_line_per_envelope_with_required_keys_and_no_esc_byte() {
    let mut sink = Sink::default();
    let r = JsonlRenderer::new();
    let events = ["hi", "hmm", "working"];
    for (i, text) in events.iter().enumerate() {
        let env = serde_json::to_string(&serde_json::Value::Object({
            let mut m = serde_json::Map::new();
            m.insert("seq".to_string(), serde_json::Value::from(i as u64));
            m.insert("ts".to_string(), serde_json::Value::from("1970-01-01T00:00:00Z"));
            m.insert("session".to_string(), serde_json::Value::from("s"));
            m.insert("agent".to_string(), serde_json::Value::from("a"));
            m.insert("event".to_string(), serde_json::Value::from(*text));
            m
        }))
        .unwrap();
        sink.take(r.on_event(&env));
    }
    assert!(!sink.out.contains('\u{1b}'), "no ESC byte anywhere in jsonl output");
    let lines: Vec<&str> = sink.out.lines().collect();
    assert_eq!(lines.len(), 3);
    for (i, line) in lines.iter().enumerate() {
        let value: serde_json::Value = serde_json::from_str(line).unwrap();
        assert_eq!(value["seq"], i);
        assert!(value.get("ts").is_some());
        assert!(value.get("session").is_some());
        assert!(value.get("agent").is_some());
        assert!(value.get("event").is_some());
    }
    assert_eq!(sink.flushes, 3);
}

#[test]
fn finish_writes_no_additional_line() {
    let mut sink = Sink::default();
    let r = JsonlRenderer::new();
    sink.take(r.on_event("{\"seq\":0}"));
    let before = sink.out.clone();
    sink.take(r.finish());
    assert_eq!(sink.out, before);
}
