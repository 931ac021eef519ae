use conway_cli::cli::{Cli, OutputFormat, PermissionMode};
use conway_cli::exit::{AgentResult, ExitCode, ResultStatus};
use conway_cli::oneshot::{
    build_gate, compose_prompt, exit_code_after, preflight, resolve_budget, resolve_result_contract,
    resolve_system_prompt_override, schema_instruction, session_exists_message, session_target, Limits,
    LoopAction, LoopEvent, RunLoop, SessionTarget, SCHEMA_INSTRUCTION_LEAD,
};
use conway_cli::session_ref::parse_sid;

const SID: &str = "01ARZ3NDEKTSV4RRFFQ69G5FAV";

fn cli_with(mode: PermissionMode, allowed: Vec<String>, denied: Vec<String>) -> Cli {
    Cli {
        print: Some("hi".into()),
        output_format: OutputFormat::Text,
        allowed_tools: allowed,
        deny_tools: denied,
        permission_mode: mode,
        role_override: None,
        model: None,
        agent: None,
        system_prompt: None,
        append_system_prompt: None,
        max_turns: None,
        max_tokens: None,
        max_seconds: None,
        output_schema: None,
        session: None,
        resume: None,
        fork_from: None,
        config: None,
        cwd: None,
        root: None,
        verbose: 0,
        command: None,
    }
}

fn plain() -> Cli {
    cli_with(PermissionMode::Allowlist, Vec::new(), Vec::new())
}

#[test]
fn allowlist_explicit_denies_unlisted_allows_listed() {
    let cli = cli_with(PermissionMode::Allowlist, vec!["read".into(), "glob".into()], Vec::new());
    let gate = build_gate(&cli);
    assert!(!gate.allows("bash"));
    assert!(gate.allows("read"));
}

#[test]
fn no_allow_list_denies_everything_fail_closed() {
    let cli = cli_with(PermissionMode::Allowlist, Vec::new(), vec!["bash".into()]);
    let gate = build_gate(&cli);
    assert!(!gate.allows("bash"));
    assert!(!gate.allows("read"), "fail-closed: with no explicit --allowed-tools, every tool is denied");
}

#[test]
fn deny_mode_denies_every_tool_with_feedback_never_hard_deny() {
    let cli = cli_with(PermissionMode::Deny, vec!["bash".into()], Vec::new());
    let gate = build_gate(&cli);
    for tool in ["bash", "read", "anything"] {
        assert!(!gate.allows(tool));
    }
}

#[test]
fn denial_wins_over_the_allow_list() {
    let cli = cli_with(PermissionMode::Allowlist, vec!["bash".into()], vec!["bash".into()]);
    assert!(!build_gate(&cli).allows("bash"));
}

#[test]
fn conflicting_continuity_flags_are_a_usage_error() {
    let pairs: [(&str, &str); 3] = [("--session", "--resume"), ("--session", "--fork-from"), ("--resume", "--fork-from")];
    for (a, b) in pairs {
        let mut cli = plain();
        for flag in [a, b] {
            match flag {
                "--session" => cli.session = Some(SID.into()),
                "--resume" => cli.resume = Some(SID.into()),
                _ => cli.fork_from = Some(SID.into()),
            }
        }
        let err = session_target(&cli).err().unwrap_or_else(|| panic!("{a} and {b} must conflict"));
        assert!(err.contains(a), "error should name the conflicting flag {a}: {err}");
        assert!(err.contains(b), "error should name the conflicting flag {b}: {err}");
    }
}

#[test]
fn no_continuity_flag_is_a_fresh_session() {
    assert!(matches!(session_target(&plain()), Ok(SessionTarget::Fresh)));
}

#[test]
fn each_continuity_flag_names_its_session() {
    let id = parse_sid(SID).ok().unwrap();
    let mut cli = plain();
    cli.session = Some(SID.into());
    assert!(matches!(session_target(&cli), Ok(SessionTarget::Named { id: got }) if got == id));
    let mut cli = plain();
    cli.resume = Some(SID.into());
    assert!(matches!(session_target(&cli), Ok(SessionTarget::Resume { id: got }) if got == id));
    let mut cli = plain();
    cli.fork_from = Some(format!("{SID}@4"));
    match session_target(&cli) {
        Ok(SessionTarget::Fork { parent, at }) => {
            assert_eq!(parent, id);
            assert_eq!(at.map(|s| s.0), Some(4));
        }
        _ => panic!("a fork target"),
    }
}

#[test]
fn a_malformed_session_id_is_a_usage_error_naming_it() {
    let mut cli = plain();
    cli.resume = Some("garbage".into());
    let err = session_target(&cli).err().unwrap();
    assert!(err.contains("\"garbage\""), "{err}");
}

#[test]
fn cwd_with_fork_from_is_refused() {
    let mut cli = plain();
    cli.fork_from = Some(SID.into());
    cli.cwd = Some("/tmp".into());
    let err = session_target(&cli).err().unwrap();
    assert!(err.starts_with("--cwd is not supported with --fork-from"), "{err}");
}

#[test]
fn preflight_refuses_flags_a_continued_session_cannot_take() {
    let mut cli = plain();
    cli.resume = Some(SID.into());
    cli.system_prompt = Some("x".into());
    assert!(preflight(&cli).unwrap().starts_with("--system-prompt/--append-system-prompt"));
    let mut cli = plain();
    cli.fork_from = Some(SID.into());
    cli.max_turns = Some(3);
    assert!(preflight(&cli).unwrap().starts_with("--max-turns/--max-tokens/--max-seconds"));
    let mut cli = plain();
    cli.fork_from = Some(SID.into());
    cli.output_schema = Some("s.json".into());
    assert!(preflight(&cli).unwrap().starts_with("--output-schema"));
    let mut cli = plain();
    cli.resume = Some(SID.into());
    cli.agent = Some("auditor".into());
    assert!(preflight(&cli).unwrap().starts_with("--agent is not supported with --resume"));
    let mut cli = plain();
    cli.fork_from = Some(SID.into());
    cli.agent = Some("auditor".into());
    assert_eq!(preflight(&cli), None);
    assert_eq!(preflight(&plain()), None);
}

#[test]
fn session_exists_message_names_resume() {
    let id = parse_sid(SID).ok().unwrap();
    assert_eq!(
        session_exists_message(id),
        format!("--session {SID}: session already exists; pass --resume {SID} to continue it instead")
    );
}

#[test]
fn a_directive_and_piped_data_are_joined_directive_first() {
    assert_eq!(compose_prompt(Some("what broke?"), false, Some("log line\n")), Ok("what broke?\n\nlog line\n".to_string()));
}

#[test]
fn a_directive_alone_is_sent_verbatim() {
    assert_eq!(compose_prompt(Some("hi"), true, None), Ok("hi".to_string()));
    assert_eq!(compose_prompt(Some("hi"), false, Some("  \n")), Ok("hi".to_string()));
}

#[test]
fn piped_data_alone_is_the_prompt() {
    assert_eq!(compose_prompt(Some(""), false, Some("data")), Ok("data".to_string()));
}

#[test]
fn no_prompt_is_a_usage_error_with_a_distinct_reason() {
    assert_eq!(
        compose_prompt(Some(""), true, None),
        Err("no prompt provided: pass -p \"<prompt>\" or pipe text on stdin".to_string())
    );
    assert_eq!(compose_prompt(None, false, Some(" \t\n")), Err("no prompt provided: stdin was empty".to_string()));
}

#[test]
fn system_prompt_flags_combine_in_order() {
    let mut cli = plain();
    assert_eq!(resolve_system_prompt_override(&cli, Some("agent"), None), None);
    cli.append_system_prompt = Some("more".into());
    assert_eq!(resolve_system_prompt_override(&cli, Some("agent"), None), Some("agent\n\nmore".to_string()));
    assert_eq!(resolve_system_prompt_override(&cli, None, None), Some("more".to_string()));
    cli.system_prompt = Some("base".into());
    assert_eq!(resolve_system_prompt_override(&cli, Some("agent"), None), Some("base\n\nmore".to_string()));
    let with_schema = resolve_system_prompt_override(&cli, None, Some("{}")).unwrap();
    assert_eq!(with_schema, format!("base\n\nmore\n\n{SCHEMA_INSTRUCTION_LEAD}{{}}"));
}

#[test]
fn a_schema_alone_is_the_whole_system_prompt() {
    let got = resolve_system_prompt_override(&plain(), None, Some("{\"type\":\"object\"}")).unwrap();
    assert_eq!(got, schema_instruction("{\"type\":\"object\"}"));
    assert!(got.starts_with("Before finishing, call the `report` tool"));
}

#[test]
fn an_empty_system_prompt_is_no_override() {
    let mut cli = plain();
    cli.system_prompt = Some(String::new());
    assert_eq!(resolve_system_prompt_override(&cli, None, None), None);
}

#[test]
fn the_call_site_contract_wins() {
    assert_eq!(resolve_result_contract(Some(1), Some(2)), Some(1));
    assert_eq!(resolve_result_contract(None, Some(2)), Some(2));
    assert_eq!(resolve_result_contract::<u8>(None, None), None);
}

#[test]
fn budget_flags_override_only_their_own_dimension() {
    let limits = Limits { max_steps: 40, deadline_secs: 0, max_tokens: 1000, max_tool_calls: 0 };
    assert_eq!(resolve_budget(&plain(), limits), None);
    let mut cli = plain();
    cli.max_turns = Some(5);
    let b = resolve_budget(&cli, limits).unwrap();
    assert_eq!(b.max_steps, 5);
    assert_eq!(b.max_tokens, Some(1000));
    assert_eq!(b.deadline_secs, None);
    assert_eq!(b.max_tool_calls, None);
    cli.max_seconds = Some(30);
    cli.max_tokens = Some(7);
    let b = resolve_budget(&cli, limits).unwrap();
    assert_eq!(b.deadline_secs, Some(30));
    assert_eq!(b.max_tokens, Some(7));
}

#[test]
fn the_run_loop_ends_only_at_the_roots_finish() {
    let mut l = RunLoop::new(1);
    assert!(matches!(l.step(&LoopEvent::Envelope { agent: 2, lagged: None, finished: true }), LoopAction::Render));
    assert!(matches!(l.step(&LoopEvent::Envelope { agent: 1, lagged: None, finished: false }), LoopAction::Render));
    assert!(matches!(l.step(&LoopEvent::Envelope { agent: 1, lagged: None, finished: true }), LoopAction::RenderFinal));
}

#[test]
fn a_lagged_stream_is_only_a_warning() {
    let mut l = RunLoop::new(1);
    match l.step(&LoopEvent::Envelope { agent: 1, lagged: Some(3), finished: false }) {
        LoopAction::Warn { text } => assert_eq!(text, "event stream lagged: 3 event(s) dropped"),
        _ => panic!("a warning"),
    }
}

#[test]
fn sigint_cancels_once_then_the_grace_window_gives_up() {
    let mut l = RunLoop::new(1);
    assert!(matches!(l.step(&LoopEvent::GraceExpired), LoopAction::Ignore));
    assert!(matches!(l.step(&LoopEvent::Sigint), LoopAction::CancelAndWait));
    assert!(matches!(l.step(&LoopEvent::Sigint), LoopAction::Ignore));
    match l.step(&LoopEvent::GraceExpired) {
        LoopAction::GiveUp { text } => assert_eq!(text, "no terminal result within the SIGINT grace window; exiting"),
        _ => panic!("give up"),
    }
}

#[test]
fn exit_code_after_a_run() {
    let cancelled = AgentResult { status: ResultStatus::Cancelled { reason: "sigint".into() } };
    assert_eq!(exit_code_after(Some(&cancelled), true), ExitCode::Interrupted);
    assert_eq!(exit_code_after(Some(&cancelled), false), ExitCode::AgentFailed);
    assert_eq!(exit_code_after(None, true), ExitCode::Interrupted);
    assert_eq!(exit_code_after(None, false), ExitCode::AgentFailed);
    let done = AgentResult { status: ResultStatus::Completed };
    assert_eq!(exit_code_after(Some(&done), true), ExitCode::Completed);
}
