use conway_cli::claude_compat::{classify_hook_registrations, hook_report, HookRegistration};

fn reg(id: &str, event: &str) -> HookRegistration {
    HookRegistration { id: id.to_string(), event: event.to_string() }
}

#[test]
fn a_translated_user_prompt_submit_registration_reaches_the_unconditional_channel() {
    let registrations = vec![reg("claude_compat:acme-tools:prompt_submitted:0", "prompt_submitted")];
    let (deny_capable, observation_only) = classify_hook_registrations(&registrations);
    assert_eq!(
        deny_capable,
        vec!["claude_compat:acme-tools:prompt_submitted:0"],
        "a translated prompt_submitted rule must be classified deny-capable, not observation-only"
    );
    assert!(observation_only.is_empty(), "must not also appear in the gated bucket: {observation_only:?}");
}

#[test]
fn a_translated_pre_tool_use_registration_still_reaches_the_unconditional_channel() {
    let registrations = vec![reg("claude_compat:acme-tools:pre_tool_use:0", "pre_tool_use")];
    let (deny_capable, observation_only) = classify_hook_registrations(&registrations);
    assert_eq!(deny_capable, vec!["claude_compat:acme-tools:pre_tool_use:0"]);
    assert!(observation_only.is_empty());
}

#[test]
fn a_translated_session_starting_registration_is_observation_only() {
    let registrations = vec![reg("claude_compat:acme-tools:session_starting:0", "session_starting")];
    let (deny_capable, observation_only) = classify_hook_registrations(&registrations);
    assert!(deny_capable.is_empty());
    assert_eq!(observation_only, vec!["claude_compat:acme-tools:session_starting:0"]);
}

#[test]
fn no_registrations_report_nothing() {
    assert_eq!(hook_report("acme", &[]), (None, None));
}

#[test]
fn a_mixed_directory_reports_both_kinds() {
    let regs = vec![reg("d", "pre_tool_use"), reg("o", "session_starting")];
    let (warn, note) = hook_report("acme", &regs);
    assert!(warn.unwrap().contains("acme"));
    assert!(note.unwrap().contains("acme"));
}
