use conway_cli::exit::ExitCode;
use conway_cli::trust::{
    absolute_path, list_lines, nothing_recorded_message, revoked_line, run, settings_gate, settings_recorded,
    settings_review, trust_step, TrustAction, TrustArgs, TrustEntry, TrustEvent, TrustPhase, TrustStatus, TrustStep,
};
use conway_cli::diag::Reply;

#[test]
fn review_shows_the_whole_file_between_rules() {
    let (lines, record) = settings_review("/p/.conway/settings.json", "{\n  \"a\": 1\r\n}\n", TrustStatus::New, "/home/u/trust.json");
    assert!(record);
    assert_eq!(lines, vec!["/p/.conway/settings.json", "----", "  {", "    \"a\": 1", "  }", "----"]);
}

#[test]
fn review_of_unchanged_bytes_writes_nothing() {
    let (lines, record) = settings_review("/p/s.json", "x", TrustStatus::Unchanged, "/t.json");
    assert!(!record);
    assert_eq!(
        lines.last().unwrap(),
        "already trusted -- these exact bytes are already a recorded decision in /t.json; nothing written."
    );
}

#[test]
fn review_of_an_edited_file_says_so() {
    let (lines, record) = settings_review("/p/s.json", "", TrustStatus::Changed, "/t.json");
    assert!(record);
    assert_eq!(lines.len(), 4);
    assert!(lines[3].contains("EDITED"), "{lines:?}");
}

#[test]
fn review_keeps_blank_lines_and_a_trailing_bare_cr() {
    let (lines, _) = settings_review("t", "a\n\nb\r", TrustStatus::New, "l");
    assert_eq!(lines, vec!["t", "----", "  a", "  ", "  b\r", "----"]);
}

#[test]
fn recording_reports_what_was_trusted() {
    let got = settings_recorded("/p/s.json", TrustStatus::New, "/t.json", None).ok().unwrap();
    assert_eq!(got[0], "trusted /p/s.json -- recorded in /t.json.");
    assert!(got[1].contains("`conway trust revoke /p/s.json` withdraws it."), "{got:?}");
    let unchanged = settings_recorded("/p/s.json", TrustStatus::Unchanged, "/t.json", None).ok().unwrap();
    assert_eq!(unchanged.len(), 1);
    let failed = settings_recorded("/p/s.json", TrustStatus::New, "/t.json", Some("denied")).err().unwrap();
    assert_eq!(failed, "could not record a trust decision for /p/s.json: denied");
}

#[test]
fn the_gate_is_rechecked_only_for_a_discovered_file() {
    assert!(matches!(settings_gate("/p", true, None), (ExitCode::Completed, None)));
    match settings_gate("/p", false, None) {
        (ExitCode::Completed, Some(Reply::Stdout(s))) => assert_eq!(s, "conway will now start in /p."),
        _ => panic!("a start line"),
    }
    match settings_gate("/p", false, Some("still untrusted")) {
        (ExitCode::AgentFailed, Some(Reply::Stderr(s))) => {
            assert_eq!(s, "the decision was recorded, but the settings guard still blocks start-up: still untrusted")
        }
        _ => panic!("a refusal"),
    }
}

#[test]
fn list_names_the_store_and_each_decision() {
    assert_eq!(list_lines("/t.json", &[]), vec!["no trust decisions recorded (/t.json)"]);
    let entries = vec![
        TrustEntry { kind: "settings".into(), path: "/p/s.json".into(), status: Some(TrustStatus::Unchanged), trusted_at: "2024-01-01 00:00:00 UTC".into() },
        TrustEntry { kind: "permissions".into(), path: "/q".into(), status: None, trusted_at: "t".into() },
    ];
    assert_eq!(
        list_lines("/t.json", &entries),
        vec![
            "/t.json".to_string(),
            "settings     /p/s.json  [ok]  (trusted 2024-01-01 00:00:00 UTC)".to_string(),
            "permissions  /q  [unreadable or gone]  (trusted t)".to_string(),
        ]
    );
}

#[test]
fn revoke_makes_a_relative_path_absolute() {
    assert_eq!(absolute_path("/home/u", "a/b"), "/home/u/a/b");
    assert_eq!(absolute_path("/home/u/", "a"), "/home/u/a");
    assert_eq!(absolute_path("/home/u", "/etc/x"), "/etc/x");
}

#[test]
fn revoke_reports() {
    assert_eq!(
        nothing_recorded_message("/x"),
        "nothing is recorded for /x -- `conway trust list` shows every decision this trust.json holds"
    );
    assert_eq!(revoked_line("/x", &vec!["settings".to_string(), "permissions".to_string()]), "revoked /x (settings, permissions)");
}

fn said(replies: &[Reply]) -> Vec<(bool, String)> {
    replies
        .iter()
        .map(|r| match r {
            Reply::Stdout(s) => (false, s.clone()),
            Reply::Stderr(s) => (true, s.clone()),
        })
        .collect()
}

const TARGET: &str = "/proj/.conway/settings.json";
const STORE: &str = "/home/u/.conway/trust.json";

#[test]
fn trusting_a_new_file_reviews_records_the_same_bytes_and_asks_the_gate() {
    let (st, step) = run(&TrustArgs { action: TrustAction::Settings { path: None } }, "/proj");
    assert!(matches!(step, TrustStep::ResolveTarget { explicit: None }));
    let (st, replies, step) = trust_step(&st, TrustEvent::Resolved { target: Ok(TARGET.to_string()) });
    assert!(replies.is_empty());
    assert!(matches!(&step, TrustStep::ReadFile { target } if target == TARGET));
    let (st, _, step) = trust_step(&st, TrustEvent::Read { contents: Ok("{}\n".to_string()) });
    assert!(matches!(&step, TrustStep::CheckStatus { contents, .. } if contents == "{}\n"));
    let (st, replies, step) = trust_step(&st, TrustEvent::Checked { status: TrustStatus::New, label: STORE.to_string() });
    assert_eq!(said(&replies), vec![(false, TARGET.to_string()), (false, "----".to_string()), (false, "  {}".to_string()), (false, "----".to_string())]);
    assert!(matches!(&step, TrustStep::Record { target, contents } if target == TARGET && contents == "{}\n"));
    let (st, replies, step) = trust_step(&st, TrustEvent::Recorded { error: None });
    assert_eq!(said(&replies)[0], (false, format!("trusted {TARGET} -- recorded in {STORE}.")));
    assert!(matches!(step, TrustStep::CheckGate));
    let (st, replies, step) = trust_step(&st, TrustEvent::Gated { error: None });
    assert_eq!(said(&replies), vec![(false, "conway will now start in /proj.".to_string())]);
    assert!(matches!(step, TrustStep::Exit { code: ExitCode::Completed }));
    assert!(matches!(st.phase, TrustPhase::Done));
}

#[test]
fn an_already_trusted_file_is_not_recorded_again_and_an_explicit_one_is_not_gated() {
    let (st, _) = run(&TrustArgs { action: TrustAction::Settings { path: Some("/elsewhere/s.json".to_string()) } }, "/proj");
    assert!(st.explicit);
    let st = conway_cli::trust::TrustState {
        phase: TrustPhase::Checking { target: "/elsewhere/s.json".to_string(), contents: "x".to_string() },
        cwd: st.cwd,
        explicit: st.explicit,
    };
    let (_, replies, step) = trust_step(&st, TrustEvent::Checked { status: TrustStatus::Unchanged, label: STORE.to_string() });
    let lines = said(&replies);
    assert!(lines.iter().any(|(_, l)| l.starts_with("already trusted")), "{lines:?}");
    assert!(lines.iter().all(|(_, l)| !l.starts_with("trusted ")), "{lines:?}");
    assert!(matches!(step, TrustStep::Exit { code: ExitCode::Completed }));
}

#[test]
fn an_unreadable_file_or_a_failed_record_ends_on_stderr() {
    let st = conway_cli::trust::TrustState { phase: TrustPhase::Reading { target: TARGET.to_string() }, cwd: "/proj".to_string(), explicit: false };
    let (_, replies, step) = trust_step(&st, TrustEvent::Read { contents: Err("denied".to_string()) });
    assert_eq!(said(&replies), vec![(true, format!("cannot read {TARGET}: denied"))]);
    assert!(matches!(step, TrustStep::Exit { code: ExitCode::Usage }));
    let st = conway_cli::trust::TrustState {
        phase: TrustPhase::Recording { target: TARGET.to_string(), status: TrustStatus::New, label: STORE.to_string() },
        cwd: "/proj".to_string(),
        explicit: false,
    };
    let (_, replies, step) = trust_step(&st, TrustEvent::Recorded { error: Some("disk full".to_string()) });
    assert_eq!(said(&replies), vec![(true, format!("could not record a trust decision for {TARGET}: disk full"))]);
    assert!(matches!(step, TrustStep::Exit { code: ExitCode::AgentFailed }));
}

#[test]
fn a_revoke_withdraws_each_matching_path_and_refuses_when_none_matches() {
    let (st, step) = run(&TrustArgs { action: TrustAction::Revoke { path: ".conway/settings.json".to_string() } }, "/proj");
    assert!(matches!(&step, TrustStep::LoadRecorded { absolute } if absolute == TARGET));
    let recorded = vec![(TARGET.to_string(), TARGET.to_string()), ("/other".to_string(), "/other".to_string())];
    let (st2, replies, step) = trust_step(&st, TrustEvent::Matched { wanted: TARGET.to_string(), recorded });
    assert!(replies.is_empty());
    assert!(matches!(&step, TrustStep::Revoke { key } if key == TARGET));
    let (_, replies, step) = trust_step(&st2, TrustEvent::Revoked { result: Ok(vec!["settings".to_string()]) });
    assert_eq!(said(&replies), vec![(false, format!("revoked {TARGET} (settings)"))]);
    assert!(matches!(step, TrustStep::Exit { code: ExitCode::Completed }));
    let (_, replies, step) = trust_step(&st, TrustEvent::Matched { wanted: TARGET.to_string(), recorded: Vec::new() });
    assert_eq!(said(&replies), vec![(true, nothing_recorded_message(TARGET))]);
    assert!(matches!(step, TrustStep::Exit { code: ExitCode::Usage }));
}

#[test]
fn a_list_prints_every_decision_or_that_there_are_none() {
    let (st, step) = run(&TrustArgs { action: TrustAction::List }, "/proj");
    assert!(matches!(step, TrustStep::LoadEntries));
    let (_, replies, step) = trust_step(&st, TrustEvent::Listed { label: STORE.to_string(), entries: Vec::new() });
    assert_eq!(said(&replies), vec![(false, format!("no trust decisions recorded ({STORE})"))]);
    assert!(matches!(step, TrustStep::Exit { code: ExitCode::Completed }));
}
