use conway_cli::exit::{classify_runtime_or_routing, AgentResult, ConwayError, ExitCode, ResultStatus};

fn result(status: ResultStatus) -> AgentResult {
    AgentResult { status }
}

const NO_CANDIDATE: &str = "routing failed: no candidate for role `coder` (0 considered)";
const UNKNOWN_ROLE: &str = "routing failed: unknown role alias `doesnotexist`";
const TOO_LARGE: &str = "routing failed: context rejected: role `default` needs 34000 tokens, mock/tiny holds 1024";

#[test]
fn completed_is_zero() {
    assert_eq!(ExitCode::from_result(&result(ResultStatus::Completed)).code(), 0);
}

#[test]
fn failed_unclassified_cause_is_one() {
    let r = result(ResultStatus::Failed { error: "boom".into() });
    assert_eq!(ExitCode::from_result(&r).code(), 1);
}

#[test]
fn failed_no_candidate_is_four() {
    let r = result(ResultStatus::Failed { error: NO_CANDIDATE.into() });
    assert_eq!(ExitCode::from_result(&r).code(), 4);
}

#[test]
fn failed_unknown_role_is_four() {
    let r = result(ResultStatus::Failed { error: UNKNOWN_ROLE.into() });
    assert_eq!(ExitCode::from_result(&r).code(), 4);
}

#[test]
fn failed_context_too_large_is_four() {
    let r = result(ResultStatus::Failed { error: TOO_LARGE.into() });
    assert_eq!(ExitCode::from_result(&r).code(), 4);
}

#[test]
fn rejected_is_one() {
    let r = result(ResultStatus::Rejected { missing: vec!["fact".into()] });
    assert_eq!(ExitCode::from_result(&r).code(), 1);
}

#[test]
fn config_load_error_is_two() {
    assert_eq!(ExitCode::from_error(&ConwayError::Config).code(), 2);
}

#[test]
fn unknown_role_agent_def_error_is_two() {
    assert_eq!(ExitCode::from_error(&ConwayError::AgentDef).code(), 2);
}

#[test]
fn no_candidate_via_bare_routing_variant_is_four() {
    let e = ConwayError::Routing { display: NO_CANDIDATE.into() };
    assert_eq!(ExitCode::from_error(&e).code(), 4);
}

#[test]
fn no_candidate_via_fallback_chain_exhaustion_is_four() {
    let e = ConwayError::Runtime { display: NO_CANDIDATE.into() };
    assert_eq!(ExitCode::from_error(&e).code(), 4);
}

#[test]
fn unknown_role_via_routing_variant_is_four() {
    let e = ConwayError::Routing { display: UNKNOWN_ROLE.into() };
    assert_eq!(ExitCode::from_error(&e).code(), 4);
}

#[test]
fn budget_exceeded_is_five() {
    let r = result(ResultStatus::BudgetExceeded { limit: "max_steps".into() });
    assert_eq!(ExitCode::from_result(&r).code(), 5);
}

#[test]
fn cancelled_with_sigint_is_130() {
    let r = result(ResultStatus::Cancelled { reason: "sigint".into() });
    assert_eq!(ExitCode::from_result_with_sigint(&r, true).code(), 130);
}

#[test]
fn cancelled_without_sigint_is_one() {
    let r = result(ResultStatus::Cancelled { reason: "sigint".into() });
    assert_eq!(ExitCode::from_result_with_sigint(&r, false).code(), 1);
    assert_eq!(ExitCode::from_result(&r).code(), 1);
}

#[test]
fn discriminants_match_the_contract() {
    assert_eq!(ExitCode::Completed.code(), 0);
    assert_eq!(ExitCode::AgentFailed.code(), 1);
    assert_eq!(ExitCode::Usage.code(), 2);
    assert_eq!(ExitCode::NoHealthyBackend.code(), 4);
    assert_eq!(ExitCode::BudgetExceeded.code(), 5);
    assert_eq!(ExitCode::Interrupted.code(), 130);
}

#[test]
fn other_error_kinds_are_agent_failures() {
    assert_eq!(ExitCode::from_error(&ConwayError::Io), ExitCode::AgentFailed);
    assert_eq!(ExitCode::from_error(&ConwayError::Build), ExitCode::Usage);
    assert_eq!(ExitCode::from_error(&ConwayError::Runtime { display: "disk full".into() }), ExitCode::AgentFailed);
}

#[test]
fn a_sigint_does_not_turn_a_completed_run_into_an_interruption() {
    let r = result(ResultStatus::Completed);
    assert_eq!(ExitCode::from_result_with_sigint(&r, true), ExitCode::Completed);
}

#[test]
fn classification_needs_the_whole_needle() {
    assert_eq!(classify_runtime_or_routing("no candidate"), ExitCode::AgentFailed);
    assert_eq!(classify_runtime_or_routing("context rejected:"), ExitCode::NoHealthyBackend);
}
