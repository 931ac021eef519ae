use conway_cli::first_run::{
    setup_step, CredentialSource, GuidedSetupOutcome, LocalOffer, SetupAction, SetupEvent, SetupKey, SetupPhase, SetupState,
    ADD_ANOTHER, SETUP_INTRO, SETUP_MENU,
};
use conway_cli::provider_save::{save_step, SaveAction, SaveEvent, SavePhase, SaveState};
use conway_cli::shell_offer::{offer_step, OfferAction, OfferEvent, OfferPhase};
use conway_cli::window_setup::{window_step, WindowAction, WindowEvent, WindowPhase};

const PATH: &str = "/home/op/.conway/settings.json";

fn state(phase: SavePhase, chain_len: usize, choice: Option<usize>) -> SaveState {
    SaveState { phase, chain_len, choice }
}

#[test]
fn a_saved_and_verified_provider_is_configured() {
    let (st, text, action) = save_step(state(SavePhase::Saving, 0, Some(0)), SaveEvent::Saved { error: None }, PATH);
    assert_eq!(text, format!("Saved to {PATH}.\nVerifying with a real request... "));
    assert!(matches!(action, SaveAction::Verify));
    let (st, _, action) = save_step(st, SaveEvent::Verified { failure: None }, PATH);
    assert!(matches!(action, SaveAction::PersistChain));
    let (st, text, action) = save_step(st, SaveEvent::Persisted { error: None }, PATH);
    assert_eq!(text, "it works.\n");
    assert!(matches!(action, SaveAction::End { outcome: GuidedSetupOutcome::Configured, chain_len: 1 }));
    assert_eq!(st.phase, SavePhase::Done);
}

#[test]
fn a_failed_verification_offers_a_retry_with_a_new_key() {
    let st = state(SavePhase::Verifying, 0, Some(1));
    let (st, text, action) = save_step(st, SaveEvent::Verified { failure: Some("401 unauthorized".into()) }, PATH);
    assert_eq!(text, "that didn't work:\n  401 unauthorized\nTry again with a different key? [y/N]\n");
    assert!(matches!(action, SaveAction::ReadKey));
    let (st, text, action) = save_step(st, SaveEvent::Key { key: Some(SetupKey::Char('y')) }, PATH);
    assert_eq!(text, "Paste your OpenAI key: ");
    assert!(matches!(action, SaveAction::DropAndReadKey));
    let (st, _, action) = save_step(st, SaveEvent::Pasted { line: Some("  sk-new \n".into()) }, PATH);
    match action {
        SaveAction::SaveWithKey { key } => assert_eq!(key, "sk-new"),
        _ => panic!("a save with the new key"),
    }
    assert_eq!(st.phase, SavePhase::Saving);
}

#[test]
fn declining_the_retry_keeps_what_was_configured() {
    let st = state(SavePhase::AskingRetry, 2, Some(0));
    let (_, text, action) = save_step(st, SaveEvent::Key { key: Some(SetupKey::Enter) }, PATH);
    assert_eq!(text, "\nContinuing with what's already configured (2 providers).\n");
    assert!(matches!(action, SaveAction::DropAndEnd { outcome: GuidedSetupOutcome::Configured }));
}

#[test]
fn the_local_server_has_no_key_to_retry() {
    let st = state(SavePhase::AskingRetry, 0, None);
    let (_, _, action) = save_step(st, SaveEvent::Key { key: Some(SetupKey::Char('Y')) }, PATH);
    assert!(matches!(action, SaveAction::DropAndEnd { outcome: GuidedSetupOutcome::Declined }));
}

#[test]
fn a_save_that_cannot_be_written_says_where() {
    let st = state(SavePhase::Saving, 0, Some(0));
    let (_, text, action) = save_step(st, SaveEvent::Saved { error: Some("read-only".into()) }, PATH);
    assert!(text.starts_with(&format!("Could not save this provider to {PATH}: read-only\n")), "{text}");
    assert!(matches!(action, SaveAction::End { outcome: GuidedSetupOutcome::Declined, chain_len: 0 }));
}

#[test]
fn the_confined_shell_is_offered_first_and_on_by_default() {
    let rows = vec![("conway.idiom".to_string(), "a short harness primer".to_string())];
    let (p, text, action) = offer_step(OfferPhase::Start, OfferEvent::Installed { rows: Ok(rows), primitive: Some("/usr/bin/bwrap".into()) }, PATH);
    assert!(text.contains("conway.idiom"), "{text}");
    assert!(text.contains("(/usr/bin/bwrap)"), "{text}");
    assert!(text.ends_with("[Y/n]\n"), "{text}");
    assert_eq!((p, action), (OfferPhase::ConfineAsked, OfferAction::ReadKey));
    let (p, _, action) = offer_step(p, OfferEvent::Key { key: Some(SetupKey::Enter) }, PATH);
    assert_eq!((p, action), (OfferPhase::EnablingConfine, OfferAction::EnableConfine));
    let (p, text, action) = offer_step(p, OfferEvent::Enabled { error: None }, PATH);
    assert_eq!(text, format!("Enabled. Disable it later by removing \"conway.confine\" from plugins.install in {PATH}.\n"));
    assert_eq!((p, action), (OfferPhase::Done, OfferAction::End));
}

#[test]
fn declining_the_confined_shell_falls_back_to_the_bash_question() {
    let (p, text, action) = offer_step(OfferPhase::ConfineAsked, OfferEvent::Key { key: Some(SetupKey::Char('n')) }, PATH);
    assert!(text.starts_with("\nEnable the bash shell tool? [y/N]\n"), "{text}");
    assert!(text.contains("NOT confined by --root"), "{text}");
    assert_eq!((p, action), (OfferPhase::ShellAsked, OfferAction::ReadKey));
    let (p, text, action) = offer_step(p, OfferEvent::Key { key: Some(SetupKey::Esc) }, PATH);
    assert!(text.starts_with("Skipped."), "{text}");
    assert_eq!((p, action), (OfferPhase::Done, OfferAction::End));
}

#[test]
fn bash_is_enabled_on_yes() {
    let (p, _, action) = offer_step(OfferPhase::ShellAsked, OfferEvent::Key { key: Some(SetupKey::Char('Y')) }, PATH);
    assert_eq!((p, action), (OfferPhase::EnablingShell, OfferAction::EnableShell));
    let (_, text, _) = offer_step(p, OfferEvent::Enabled { error: Some("denied".into()) }, PATH);
    assert_eq!(text, "Could not enable the shell tool: denied\n");
}

#[test]
fn an_opinion_set_failure_is_reported_and_the_offer_goes_on() {
    let (p, text, _) = offer_step(OfferPhase::Start, OfferEvent::Installed { rows: Err("locked".into()), primitive: None }, PATH);
    assert!(text.starts_with("\nCould not install conway's own opinion set: locked\n"), "{text}");
    assert_eq!(p, OfferPhase::ShellAsked);
}

#[test]
fn a_discovered_window_is_saved_and_announced() {
    let (p, _, action) = window_step(WindowPhase::Discovering, WindowEvent::Discovered { window: Some(131_072), verified: false }, "local/m");
    assert_eq!(action, WindowAction::Save { window: 131_072 });
    let (p, text, action) = window_step(p, WindowEvent::Saved { result: Ok("/p/models.json".into()) }, "local/m");
    assert_eq!(text, "\nconway recorded a 131072-token context window for local/m in /p/models.json -- routing and admission now reflect it.\n");
    assert_eq!((p, action), (WindowPhase::Done, WindowAction::End));
}

#[test]
fn a_verified_figure_is_not_asked_about() {
    let (p, text, action) = window_step(WindowPhase::Discovering, WindowEvent::Discovered { window: None, verified: true }, "anthropic/x");
    assert_eq!((p, text.as_str(), action), (WindowPhase::Done, "", WindowAction::End));
}

#[test]
fn an_undiscovered_window_is_asked_for_and_a_blank_answer_skips() {
    let (p, text, action) = window_step(WindowPhase::Discovering, WindowEvent::Discovered { window: None, verified: false }, "ollama/m");
    assert!(text.ends_with("> "), "{text}");
    assert_eq!(action, WindowAction::ReadLine);
    let (_, text, action) = window_step(p, WindowEvent::Typed { line: None }, "ollama/m");
    assert!(text.starts_with("Skipped -- ollama/m's context window remains unverified"), "{text}");
    assert_eq!(action, WindowAction::End);
}

#[test]
fn a_refused_answer_leaves_the_window_unverified() {
    let (_, text, _) = window_step(WindowPhase::Asking, WindowEvent::Typed { line: Some("0".into()) }, "ollama/m");
    assert!(text.ends_with(" -- ollama/m's context window remains unverified.\n"), "{text}");
    let (p, _, action) = window_step(WindowPhase::Asking, WindowEvent::Typed { line: Some("4096".into()) }, "ollama/m");
    assert_eq!((p, action), (WindowPhase::SavingTyped { window: 4096 }, WindowAction::Save { window: 4096 }));
    let (_, text, _) = window_step(p, WindowEvent::Saved { result: Err("disk full".into()) }, "ollama/m");
    assert_eq!(text, "Could not save ollama/m's context window: disk full\n");
}

fn setup(phase: SetupPhase, chain_len: usize) -> SetupState {
    SetupState { phase, chain_len }
}

#[test]
fn setup_begins_by_probing_for_a_local_server() {
    let (next, text, action) = setup_step(&setup(SetupPhase::Start, 0), SetupEvent::Begin, &[], PATH);
    assert!(matches!(next.phase, SetupPhase::Probing));
    assert_eq!(text, SETUP_INTRO);
    assert!(matches!(action, SetupAction::ProbeLocal));
}

#[test]
fn setup_with_no_local_server_shows_the_menu_and_esc_declines() {
    let (next, text, action) = setup_step(&setup(SetupPhase::Probing, 0), SetupEvent::Probed { offer: None }, &[], PATH);
    assert!(matches!(next.phase, SetupPhase::Menu));
    assert_eq!(text, format!("none found.\n{SETUP_MENU}"));
    assert!(matches!(action, SetupAction::ReadKey));
    let (next, text, action) = setup_step(&next, SetupEvent::Key { key: Some(SetupKey::Esc) }, &[], PATH);
    assert!(matches!(next.phase, SetupPhase::Done));
    assert!(text.contains("Skipping setup."), "{text}");
    assert!(matches!(action, SetupAction::End { outcome: GuidedSetupOutcome::Declined }));
}

#[test]
fn setup_offers_a_found_local_server_and_enter_takes_it() {
    let offer = LocalOffer { base_url: "http://127.0.0.1:11434/v1".to_string(), model: "qwen3".to_string() };
    let (next, text, _) = setup_step(&setup(SetupPhase::Probing, 0), SetupEvent::Probed { offer: Some(offer) }, &[], PATH);
    assert!(text.starts_with("found one, model \"qwen3\"."), "{text}");
    let (next, text, action) = setup_step(&next, SetupEvent::Key { key: Some(SetupKey::Enter) }, &[], PATH);
    assert!(matches!(next.phase, SetupPhase::Finishing));
    assert_eq!(text, "");
    match action {
        SetupAction::FinishLocal { offer } => assert_eq!(offer.model, "qwen3"),
        _ => panic!("expected FinishLocal"),
    }
}

#[test]
fn setup_reuses_a_set_credential_variable_by_name() {
    let env = vec![("OPENAI_API_KEY".to_string(), "sk-x".to_string())];
    let (next, text, action) = setup_step(&setup(SetupPhase::Menu, 0), SetupEvent::Key { key: Some(SetupKey::Char('2')) }, &env, PATH);
    assert!(matches!(next.phase, SetupPhase::Finishing));
    assert_eq!(text, "Found OPENAI_API_KEY already set -- using it.\n");
    match action {
        SetupAction::FinishHosted { choice: 1, credential: CredentialSource::EnvVar(name) } => assert_eq!(name, "OPENAI_API_KEY"),
        _ => panic!("expected FinishHosted with the variable's name"),
    }
}

#[test]
fn setup_asks_for_a_key_when_none_is_set_and_a_pasted_key_finishes() {
    let (next, text, action) = setup_step(&setup(SetupPhase::Menu, 0), SetupEvent::Key { key: Some(SetupKey::Char('1')) }, &[], PATH);
    assert!(matches!(next.phase, SetupPhase::AwaitingSecret { choice: 0 }));
    assert!(text.contains(PATH) && text.contains("backends.anthropic.api_key"), "{text}");
    assert!(matches!(action, SetupAction::ReadSecret));
    let (next, _, action) = setup_step(&next, SetupEvent::Secret { line: Some("  sk-ant  ".to_string()) }, &[], PATH);
    assert!(matches!(next.phase, SetupPhase::Finishing));
    match action {
        SetupAction::FinishHosted { choice: 0, credential: CredentialSource::Literal(k) } => assert_eq!(k, "sk-ant"),
        _ => panic!("expected FinishHosted with the pasted key"),
    }
}

#[test]
fn setup_asks_about_another_provider_after_a_configured_one() {
    let (next, text, _) = setup_step(
        &setup(SetupPhase::Finishing, 0),
        SetupEvent::Finished { outcome: GuidedSetupOutcome::Configured, chain_len: 1 },
        &[],
        PATH,
    );
    assert!(matches!(next.phase, SetupPhase::AskingAnother));
    assert_eq!(next.chain_len, 1);
    assert_eq!(text, ADD_ANOTHER);
    let (next, _, action) = setup_step(&next, SetupEvent::Key { key: Some(SetupKey::Char('n')) }, &[], PATH);
    assert!(matches!(next.phase, SetupPhase::Done));
    assert!(matches!(action, SetupAction::End { outcome: GuidedSetupOutcome::Configured }));
}
