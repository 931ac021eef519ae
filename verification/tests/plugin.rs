use conway_cli::diag::Reply;
use conway_cli::exit::ExitCode;
use conway_cli::plugin::{
    command_report, external_call, first_unknown_id, install_targets, plugin_row_text, unknown_subcommand_message, write_report,
    CommandResult, ConfigValue, EventDecl,
};
use conway_cli::plugin_rows::{PluginBrowserEntry, PluginDescription, PluginOrigin, PluginRow, PluginToggle};
use conway_cli::session_ref::parse_sid;

const SID: &str = "01ARZ3NDEKTSV4RRFFQ69G5FAV";
const CHILD: &str = "01BX5ZZKBKACTAV9WEVGEMMVRZ";

fn texts(v: &[Reply]) -> Vec<(bool, String)> {
    v.iter()
        .map(|r| match r {
            Reply::Stdout(s) => (false, s.clone()),
            Reply::Stderr(s) => (true, s.clone()),
        })
        .collect()
}

#[test]
fn an_external_call_splits_name_and_arguments() {
    let words = vec!["acme.greet".to_string(), "hello".to_string(), "world".to_string()];
    assert_eq!(external_call(&words), Ok(("acme.greet".to_string(), "hello world".to_string())));
    assert_eq!(external_call(&vec!["x".to_string()]), Ok(("x".to_string(), String::new())));
    assert_eq!(external_call(&Vec::new()), Err("no subcommand given".to_string()));
}

#[test]
fn an_unknown_subcommand_names_the_built_ins() {
    assert_eq!(
        unknown_subcommand_message("nope"),
        "unknown subcommand `nope`: not a built-in subcommand (`sessions`, `routes`, `tools`), and no installed plugin declares it"
    );
}

#[test]
fn install_needs_an_id_or_the_defaults() {
    let defaults = vec!["conway.idiom".to_string()];
    assert!(install_targets(&Vec::new(), false, &defaults).is_err());
    assert_eq!(install_targets(&Vec::new(), true, &defaults), Ok(defaults.clone()));
    assert_eq!(install_targets(&vec!["a".to_string()], false, &defaults), Ok(vec!["a".to_string()]));
}

#[test]
fn write_reports_say_what_changed() {
    assert!(matches!(write_report("x", true, "/s.json", Ok(false)), Reply::Stdout(ref s) if s == "x: already installed"));
    assert!(matches!(write_report("x", false, "/s.json", Ok(false)), Reply::Stdout(ref s) if s == "x: was not installed"));
    assert!(matches!(write_report("x", true, "/s.json", Ok(true)), Reply::Stdout(ref s)
        if s == "x: installed -- written to /s.json (restart to apply; a currently running conway process is unaffected until then)"));
    assert!(matches!(write_report("x", false, "/s.json", Err("denied")), Reply::Stderr(ref s) if s == "x: denied"));
}

#[test]
fn command_results_map_to_exit_codes_and_lines() {
    let sid = parse_sid(SID).ok().unwrap();
    let child = parse_sid(CHILD).ok().unwrap();
    let (code, lines) = command_report("a.b", sid, &CommandResult::Output { lines: vec!["one".into(), "two".into()] });
    assert_eq!(code, ExitCode::Completed);
    assert_eq!(texts(&lines), vec![(false, "one".to_string()), (false, "two".to_string())]);
    let (code, lines) = command_report("a.b", sid, &CommandResult::Failed { message: "bad".into() });
    assert_eq!((code, texts(&lines)), (ExitCode::AgentFailed, vec![(true, "a.b: bad".to_string())]));
    let (code, lines) = command_report("a.b", sid, &CommandResult::Forked { at_seq: 4, child: Ok(child) });
    assert_eq!(code, ExitCode::Completed);
    assert_eq!(
        texts(&lines)[0].1,
        format!("a.b: forked session {CHILD} at seq 4 -- `conway sessions show {CHILD}` to inspect it, or `conway -p --resume {CHILD}` to continue it")
    );
    let (code, lines) = command_report("a.b", sid, &CommandResult::Masked { target_seq: 2, excluded: false, result: Ok(()) });
    assert_eq!((code, texts(&lines)[0].1.clone()), (ExitCode::Completed, format!("a.b: un-masked seq 2 on session {SID}")));
    let (code, lines) = command_report("a.b", sid, &CommandResult::CheckedOut { target: sid, outcome: Err("gone".into()) });
    assert_eq!((code, texts(&lines)), (ExitCode::AgentFailed, vec![(true, "a.b: checkout failed: gone".to_string())]));
    let (code, lines) = command_report("a.b", sid, &CommandResult::CheckedOut { target: sid, outcome: Ok((9, Ok(child))) });
    assert_eq!(code, ExitCode::Completed);
    assert!(texts(&lines)[0].1.ends_with(&format!("({SID} is untouched)")));
    let (code, lines) = command_report("a.b", sid, &CommandResult::Submitted { result: Err("busy".into()) });
    assert_eq!((code, texts(&lines)), (ExitCode::AgentFailed, vec![(true, "a.b: could not submit prompt: busy".to_string())]));
}

fn description(get: &str, lose: &str, costs: &str) -> PluginDescription {
    PluginDescription { summary: "s".to_string(), you_get: get.to_string(), you_lose: lose.to_string(), costs: costs.to_string() }
}

fn row(active: bool, d: Option<PluginDescription>) -> PluginRow {
    PluginRow {
        id: "conway.memory".to_string(),
        origin: PluginOrigin::CompiledIn,
        contributes: "remembers".to_string(),
        active,
        toggle: PluginToggle::Toggleable { installed: active },
        description: d,
    }
}

#[test]
fn a_plugin_row_is_one_line_unless_verbose() {
    assert_eq!(plugin_row_text(&row(true, None), false, &[], None), "[x] conway.memory -- remembers\n");
    assert_eq!(plugin_row_text(&row(false, None), false, &[], None), "[ ] conway.memory -- remembers\n");
}

#[test]
fn a_verbose_plugin_row_breaks_down_its_description_config_and_events() {
    let events = vec![EventDecl { name: "pre_tool_use".to_string(), summary: "before a tool runs".to_string() }];
    let config = ConfigValue::Scalar("7".to_string());
    let text = plugin_row_text(&row(true, Some(description("recall", "", ""))), true, &events, Some(&config));
    assert_eq!(
        text,
        "[x] conway.memory -- remembers\n\
         \x20   you get   recall\n\
         \x20   you lose  (none given)\n\
         \x20   costs     none\n\
         \x20   config    7 -- from [plugins.config.\"conway.memory\"] in settings.json\n\
         \x20   events\n\
         \x20     pre_tool_use -- before a tool runs\n"
    );
}

fn entry(id: &str) -> PluginBrowserEntry {
    PluginBrowserEntry { id: id.to_string(), version: "1".to_string(), installed: false, description: description("", "", "") }
}

#[test]
fn the_first_unlinked_id_is_the_one_refused() {
    let entries = vec![entry("conway.memory"), entry("conway.trim")];
    let ids = vec!["conway.trim".to_string(), "acme.x".to_string(), "acme.y".to_string()];
    assert_eq!(first_unknown_id(&ids, &entries), Some(1));
    assert_eq!(first_unknown_id(&ids[..1], &entries), None);
    assert_eq!(first_unknown_id(&[], &entries), None);
}
