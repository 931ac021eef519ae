use conway_cli::diff::ToolArgs;
use conway_cli::fmt::id_short;
use conway_cli::session_ref::{parse_sid, LogSeq, SessionId};
use conway_cli::sessions::{
    auto_title, diff_touches_from_records, find_session, origin_cell, session_row, session_row_at, session_tree,
    truncate_chars_with_ellipsis, ContentBlock, LogRecord, SessionMeta, SessionOrigin, SubagentMode,
    AUTO_TITLE_MAX_CHARS,
};
use conway_cli::fmt::tree_lines;
use conway_cli::session_names::NamesStore;
use conway_cli::sessions::{diff_snapshot_text, display_title, session_listing, target_report, TargetOutcome};
use conway_cli::session_names::{NameError, ResolveError};
use conway_cli::diag::Reply;
use conway_cli::exit::ExitCode;

fn args(path: Option<&str>, old: Option<&str>, new: Option<&str>) -> ToolArgs {
    ToolArgs {
        path: path.map(|s| s.to_string()),
        content: None,
        old_string: old.map(|s| s.to_string()),
        new_string: new.map(|s| s.to_string()),
        replace_all: None,
    }
}

fn tool_use_record(call_id: &str, tool: &str, arguments: ToolArgs) -> LogRecord {
    LogRecord::Assistant {
        content: vec![ContentBlock::ToolUse {
            call_id: call_id.to_string(),
            name: tool.to_string(),
            arguments,
        }],
    }
}

fn tool_result_record(call_id: &str, is_error: bool) -> LogRecord {
    LogRecord::ToolResult { call_id: call_id.to_string(), is_error }
}

#[test]
fn diff_touches_from_records_extracts_successful_calls_only() {
    let records = vec![
        tool_use_record("tc_1", "edit", args(Some("f.txt"), Some("a"), Some("b"))),
        tool_result_record("tc_1", false),
        tool_use_record("tc_2", "edit", args(Some("f.txt"), Some("x"), Some("y"))),
        tool_result_record("tc_2", true),
    ];
    let touches = diff_touches_from_records(&records);
    assert_eq!(touches.len(), 1);
    assert_eq!(touches[0].path, "f.txt");
}

#[test]
fn diff_touches_from_records_ignores_non_file_tools() {
    let records = vec![
        tool_use_record("tc_1", "bash", args(None, None, None)),
        tool_result_record("tc_1", false),
    ];
    assert!(diff_touches_from_records(&records).is_empty());
}

#[test]
fn diff_touches_wait_for_the_result_of_their_own_call() {
    let records = vec![
        tool_use_record("tc_1", "edit", args(Some("a.txt"), Some("a"), Some("b"))),
        tool_use_record("tc_2", "edit", args(Some("b.txt"), Some("c"), Some("d"))),
        tool_result_record("tc_2", false),
    ];
    let touches = diff_touches_from_records(&records);
    assert_eq!(touches.len(), 1);
    assert_eq!(touches[0].path, "b.txt");
}

const SHARED_PREFIX_ID_A: &str = "01ARZ3NDEKTSV4RRFFQ69G5FAV";
const SHARED_PREFIX_ID_B: &str = "01ARZ3NDEKTSV4RRFFQ69G5FAW";

fn sid(s: &str) -> SessionId {
    match parse_sid(s) {
        Ok(id) => id,
        Err(e) => panic!("{}", e.message()),
    }
}

fn meta_with_id(id: &str) -> SessionMeta {
    SessionMeta { id: sid(id), created_unix_secs: 0, role: None, origin: None, ephemeral: false }
}

#[test]
fn two_sessions_sharing_a_ulid_prefix_get_distinguishable_id_cells() {
    let row_a = session_row(&meta_with_id(SHARED_PREFIX_ID_A), None);
    let row_b = session_row(&meta_with_id(SHARED_PREFIX_ID_B), None);
    assert_eq!(id_short(SHARED_PREFIX_ID_A), id_short(SHARED_PREFIX_ID_B));
    assert_ne!(row_a[0], row_b[0], "two sessions from the same second must render distinct ID cells: {row_a:?} vs {row_b:?}");
}

#[test]
fn a_session_row_has_every_cell() {
    let mut meta = meta_with_id(SHARED_PREFIX_ID_A);
    meta.role = Some("coder".to_string());
    let row = session_row(&meta, Some("Fix it"));
    assert_eq!(
        row,
        vec![
            SHARED_PREFIX_ID_A.to_string(),
            "Fix it".to_string(),
            "1970-01-01T00:00:00Z".to_string(),
            "coder".to_string(),
            String::new(),
        ]
    );
}

#[test]
fn a_child_sessions_origin_cell_names_mode_seq_and_short_parent() {
    let mut meta = meta_with_id(SHARED_PREFIX_ID_B);
    meta.origin = Some(SessionOrigin { parent: sid(SHARED_PREFIX_ID_A), at_seq: LogSeq(7), mode: SubagentMode::Fork });
    assert_eq!(origin_cell(&meta), "fork@7 01ARZ3ND");
}

#[test]
fn session_tree_nests_children_under_their_parent() {
    let root = meta_with_id(SHARED_PREFIX_ID_A);
    let mut child = meta_with_id(SHARED_PREFIX_ID_B);
    child.origin = Some(SessionOrigin { parent: sid(SHARED_PREFIX_ID_A), at_seq: LogSeq(3), mode: SubagentMode::Spawn });
    let metas = vec![root, child];
    let at = find_session(&metas, sid(SHARED_PREFIX_ID_A)).unwrap();
    assert_eq!(at, 0);
    let lines = tree_lines(&session_tree(&metas, at));
    assert_eq!(lines.len(), 2);
    assert!(lines[0].starts_with(SHARED_PREFIX_ID_A), "{lines:?}");
    assert!(lines[1].starts_with("└─ "), "{lines:?}");
    assert!(lines[1].contains(SHARED_PREFIX_ID_B), "{lines:?}");
}

#[test]
fn auto_title_takes_only_the_first_line_of_a_multi_line_prompt() {
    let title = auto_title("Fix the login bug\n\nSteps to reproduce:\n1. ...");
    assert_eq!(title, "Fix the login bug");
}

#[test]
fn auto_title_trims_the_first_line() {
    assert_eq!(auto_title("  hello world  \nmore text"), "hello world");
}

#[test]
fn auto_title_bounds_a_long_single_line() {
    let long_line = "x".repeat(AUTO_TITLE_MAX_CHARS + 20);
    let title = auto_title(&long_line);
    assert_eq!(title.chars().count(), AUTO_TITLE_MAX_CHARS);
    assert!(title.ends_with('…'));
}

#[test]
fn auto_title_bounds_on_a_char_boundary_not_mid_multibyte_char() {
    let prefix = "x".repeat(AUTO_TITLE_MAX_CHARS - 1);
    let first_line = format!("{prefix}—rest of a much longer prompt that keeps going well past the bound");
    assert!(
        first_line.len() > AUTO_TITLE_MAX_CHARS,
        "byte length must exceed the char bound for this to actually exercise the hazard"
    );
    let title = auto_title(&first_line);
    assert_eq!(title.chars().count(), AUTO_TITLE_MAX_CHARS);
    assert!(title.ends_with('…'));
}

#[test]
fn truncate_chars_with_ellipsis_counts_chars_not_bytes() {
    let text = "—".repeat(10);
    let truncated = truncate_chars_with_ellipsis(&text, 5);
    assert_eq!(truncated.chars().count(), 5, "4 kept chars + 1 sentinel");
    assert!(truncated.ends_with('…'));
}

#[test]
fn truncate_keeps_text_within_the_budget_whole() {
    assert_eq!(truncate_chars_with_ellipsis("abc", 3), "abc");
}

#[test]
fn a_bound_name_wins_over_the_derived_title() {
    let mut names = NamesStore::new();
    let a = sid(SHARED_PREFIX_ID_A);
    assert_eq!(display_title(&names, a, Some("Fix it\nplease")), Some("Fix it".to_string()));
    assert_eq!(display_title(&names, a, None), None);
    assert!(names.set("daily", a).is_ok());
    assert_eq!(display_title(&names, a, Some("Fix it")), Some("daily".to_string()));
}

#[test]
fn a_diff_snapshot_heads_each_path() {
    assert_eq!(diff_snapshot_text(&Vec::new()), "no files edited or written yet in this session\n");
    let diffs = vec![("a.txt".to_string(), "-x\n+y\n".to_string()), ("b.txt".to_string(), "+z\n".to_string())];
    assert_eq!(diff_snapshot_text(&diffs), "## a.txt\n-x\n+y\n## b.txt\n+z\n");
}

#[test]
fn a_session_row_takes_its_created_cell_as_given() {
    let row = session_row_at(&meta_with_id(SHARED_PREFIX_ID_A), Some("t"), "then");
    assert_eq!(row, vec![SHARED_PREFIX_ID_A.to_string(), "t".to_string(), "then".to_string(), String::new(), String::new()]);
}

fn stdout_and_stderr(v: &[Reply]) -> (Vec<String>, Vec<String>) {
    let mut out = Vec::new();
    let mut err = Vec::new();
    for r in v {
        match r {
            Reply::Stdout(s) => out.push(s.clone()),
            Reply::Stderr(s) => err.push(s.clone()),
        }
    }
    (out, err)
}

#[test]
fn an_unknown_session_exits_two_with_empty_stdout() {
    let (code, replies) = target_report("nope", &TargetOutcome::UnknownSession { detail: Some("not found".to_string()) });
    assert_eq!(code, ExitCode::Usage);
    assert_eq!(code.code(), 2);
    let (out, err) = stdout_and_stderr(&replies);
    assert!(out.is_empty());
    assert_eq!(err, vec!["unknown session nope: not found".to_string()]);
    let (_, replies) = target_report("nope", &TargetOutcome::UnknownSession { detail: None });
    assert_eq!(stdout_and_stderr(&replies).1, vec!["unknown session nope".to_string()]);
}

#[test]
fn every_refusal_of_a_targeted_subcommand_is_a_usage_error_on_stderr() {
    let cases = vec![
        TargetOutcome::NamesUnreadable { error: NameError::Io("bad json".to_string()) },
        TargetOutcome::Unresolved { error: ResolveError("daily".to_string()) },
        TargetOutcome::NameRefused { error: NameError::Unknown("daily".to_string()) },
    ];
    let expected = vec![
        "session names file: bad json".to_string(),
        "invalid session reference \"daily\": not a valid session id (ULID) and no session is named that".to_string(),
        "no name bound to \"daily\"".to_string(),
    ];
    for (case, want) in cases.iter().zip(expected) {
        let (code, replies) = target_report("daily", case);
        assert_eq!(code, ExitCode::Usage);
        let (out, err) = stdout_and_stderr(&replies);
        assert!(out.is_empty());
        assert_eq!(err, vec![want]);
    }
}

#[test]
fn a_binding_prints_the_session_and_what_it_now_carries() {
    let sid = parse_sid(SHARED_PREFIX_ID_A).ok().unwrap();
    let (code, replies) = target_report("x", &TargetOutcome::Bound { sid, tag: "daily".to_string() });
    assert_eq!(code, ExitCode::Completed);
    assert_eq!(stdout_and_stderr(&replies), (vec![format!("{SHARED_PREFIX_ID_A}  daily")], Vec::new()));
    let (code, replies) = target_report("x", &TargetOutcome::Done);
    assert_eq!(code, ExitCode::Completed);
    assert!(replies.is_empty());
}

#[test]
fn a_session_listing_is_a_table_of_rows_under_its_header() {
    assert_eq!(session_listing(&Vec::new()), "ID  NAME  CREATED  ROLE  ORIGIN\n");
    let listed = vec![(meta_with_id(SHARED_PREFIX_ID_A), Some("first".to_string())), (meta_with_id(SHARED_PREFIX_ID_B), None)];
    let expected = conway_cli::fmt::table(
        &["ID", "NAME", "CREATED", "ROLE", "ORIGIN"],
        vec![session_row(&meta_with_id(SHARED_PREFIX_ID_A), Some("first")), session_row(&meta_with_id(SHARED_PREFIX_ID_B), None)],
    );
    assert_eq!(session_listing(&listed), expected);
    assert!(expected.lines().nth(1).unwrap().starts_with(SHARED_PREFIX_ID_A));
}
