use conway_cli::first_run::{
    chain_entry, context_window_setup_notice, decline_or_keep, hosted_choices, non_interactive_guidance,
    opinion_set_transcript, resolve_credential_plan, validate_context_window_input, validate_credential_input,
    CredentialPlan, GuidedSetupOutcome, ProviderChoice, GUIDED_SETUP_MARKER,
};

fn env_with(pairs: &[(&str, &str)]) -> Vec<(String, String)> {
    pairs.iter().map(|(k, v)| (k.to_string(), v.to_string())).collect()
}

fn choice(id: &str) -> ProviderChoice {
    hosted_choices().into_iter().find(|c| c.id == id).expect("one of the shipped choices")
}

#[test]
fn context_window_setup_notice_names_the_key_window_and_the_file_it_was_saved_to() {
    let msg = context_window_setup_notice("ollama/glm-5.2", 1_048_576, "/home/op/.conway/models.json");
    assert!(msg.contains("ollama/glm-5.2"));
    assert!(msg.contains("1048576"));
    assert!(
        msg.contains("/home/op/.conway/models.json"),
        "must name the exact file the value was actually written to: {msg}"
    );
}

#[test]
fn validate_context_window_input_treats_a_blank_answer_as_skip_not_an_error() {
    assert_eq!(validate_context_window_input(""), Ok(None));
    assert_eq!(validate_context_window_input("   "), Ok(None));
}

#[test]
fn validate_context_window_input_accepts_a_plausible_number() {
    assert_eq!(validate_context_window_input("131072"), Ok(Some(131_072)));
    assert_eq!(validate_context_window_input("  1048576  "), Ok(Some(1_048_576)));
}

#[test]
fn validate_context_window_input_rejects_zero_non_numeric_and_implausibly_large() {
    assert!(validate_context_window_input("0").is_err());
    assert!(validate_context_window_input("not a number").is_err());
    assert!(validate_context_window_input("-5").is_err());
    assert!(validate_context_window_input("999999999999").is_err());
}

#[test]
fn validate_context_window_input_takes_the_largest_plausible_window() {
    assert_eq!(validate_context_window_input("4000000"), Ok(Some(4_000_000)));
    assert!(validate_context_window_input("4000001").is_err());
    assert_eq!(validate_context_window_input("+12"), Ok(Some(12)));
}

#[test]
fn opinion_set_transcript_lists_every_row_and_exactly_one_removal_sentence() {
    let rows = vec![
        ("conway.idiom".to_string(), "a short harness primer".to_string()),
        ("conway.stepguard".to_string(), "notices repeated tool calls".to_string()),
    ];
    let transcript = opinion_set_transcript(&rows, "/home/op/.conway/settings.json");
    for (id, summary) in &rows {
        assert!(transcript.contains(id.as_str()), "transcript must name every installed id: {transcript}");
        assert!(transcript.contains(summary.as_str()), "transcript must carry every id's own summary: {transcript}");
    }
    assert_eq!(
        transcript.matches("conway plugin remove").count(),
        1,
        "exactly one removal sentence naming the subcommand route: {transcript}"
    );
    assert_eq!(
        transcript.matches("plugins.install").count(),
        1,
        "exactly one removal sentence naming the hand-edit route: {transcript}"
    );
    assert!(
        transcript.contains("/home/op/.conway/settings.json"),
        "the removal sentence must name the actual settings path: {transcript}"
    );
}

#[test]
fn chain_entry_formats_backend_slash_model() {
    assert_eq!(chain_entry("local", "qwen3:4b"), "local/qwen3:4b");
    assert_eq!(chain_entry("anthropic", "sonnet-4-6"), "anthropic/sonnet-4-6");
}

#[test]
fn decline_or_keep_declines_outright_when_nothing_was_ever_configured() {
    assert_eq!(decline_or_keep(&[]).0, GuidedSetupOutcome::Declined);
}

#[test]
fn decline_or_keep_reports_configured_when_a_provider_already_succeeded() {
    assert_eq!(decline_or_keep(&["local/qwen3:4b".to_string()]).0, GuidedSetupOutcome::Configured);
    assert_eq!(
        decline_or_keep(&["local/qwen3:4b".to_string(), "ollama_cloud/glm-5.2".to_string()]).0,
        GuidedSetupOutcome::Configured
    );
}

#[test]
fn decline_or_keep_counts_what_is_kept() {
    let (_, text) = decline_or_keep(&["a/b".to_string(), "c/d".to_string()]);
    assert_eq!(text, "\nContinuing with what's already configured (2 providers).\n");
    let (_, one) = decline_or_keep(&["a/b".to_string()]);
    assert_eq!(one, "\nContinuing with what's already configured (1 provider).\n");
}

#[test]
fn reuses_an_already_set_env_var_rather_than_prompting() {
    let choice = &hosted_choices()[0];
    let env = env_with(&[(choice.credential_env, "sk-real-value")]);
    assert_eq!(resolve_credential_plan(choice, &env), CredentialPlan::ReuseEnvVar);
}

#[test]
fn ollama_cloud_reuses_ollama_api_key_when_already_set() {
    let choice = choice("ollama_cloud");
    let env = env_with(&[("OLLAMA_API_KEY", "sk-real-value")]);
    assert_eq!(resolve_credential_plan(&choice, &env), CredentialPlan::ReuseEnvVar);
}

#[test]
fn ollama_cloud_prompts_for_a_literal_when_ollama_api_key_is_unset() {
    let choice = choice("ollama_cloud");
    assert_eq!(resolve_credential_plan(&choice, &[]), CredentialPlan::PromptForLiteral);
}

#[test]
fn an_unset_env_var_prompts_for_a_literal() {
    let choice = &hosted_choices()[0];
    assert_eq!(resolve_credential_plan(choice, &[]), CredentialPlan::PromptForLiteral);
}

#[test]
fn a_whitespace_only_env_var_counts_as_unset() {
    let choice = &hosted_choices()[0];
    let env = env_with(&[(choice.credential_env, "   ")]);
    assert_eq!(resolve_credential_plan(choice, &env), CredentialPlan::PromptForLiteral);
}

#[test]
fn an_empty_credential_is_rejected_not_panicked_on() {
    assert!(validate_credential_input("").is_err());
    assert!(validate_credential_input("   \n  ").is_err());
}

#[test]
fn an_implausibly_long_credential_is_rejected() {
    let huge = "x".repeat(5000);
    assert!(validate_credential_input(&huge).is_err());
}

#[test]
fn a_credential_containing_json_metacharacters_is_accepted_and_trimmed() {
    let got = validate_credential_input("  sk-\"weird\\value\"  \n").expect("valid");
    assert_eq!(got, "sk-\"weird\\value\"");
}

#[test]
fn a_credential_of_exactly_the_limit_is_accepted() {
    let max = "k".repeat(4096);
    assert_eq!(validate_credential_input(&max), Ok(max.clone()));
}

#[test]
fn hosted_choices_offers_exactly_three_entries_anthropic_openai_ollama_cloud() {
    let ids: Vec<&str> = hosted_choices().iter().map(|c| c.id).collect();
    assert_eq!(ids, vec!["anthropic", "openai", "ollama_cloud"]);
}

#[test]
fn the_openai_choice_carries_its_own_dialect_and_base_url() {
    let c = choice("openai");
    assert_eq!(c.kind, "openai-compat");
    assert_eq!(c.dialect, Some("openai"));
    assert_eq!(c.base_url, Some("https://api.openai.com/v1"));
}

#[test]
fn non_interactive_guidance_names_the_path_and_a_pasteable_snippet() {
    let msg = non_interactive_guidance("/home/alice/.conway/settings.json");
    assert!(msg.starts_with(GUIDED_SETUP_MARKER));
    assert!(msg.contains("/home/alice/.conway/settings.json"));
    let start = msg.find('{').expect("snippet has an opening brace");
    let end = msg.rfind('}').expect("snippet has a closing brace");
    let snippet = &msg[start..=end];
    let parsed: serde_json::Value =
        serde_json::from_str(snippet).expect("the printed snippet must itself be valid JSON");
    assert!(parsed["backends"]["anthropic"]["api_key_env"].is_string());
}
