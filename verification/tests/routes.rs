use conway_cli::routes::{
    breaker_state_tag, fixed_cost_over_half_window, render_breaker_state, render_cache_reporting,
    render_context_window_source, render_fixed_cost, render_reason, render_role_params,
    render_explain, render_token_fidelity, render_window, AttemptFailure, EntryOutcome, ExplainEntry, ExplainReport, BreakerKind, BreakerState, CacheReporting,
    ContextTokensSource, InstallFootprint, RoutingReason, TokenCountFidelity,
};

#[test]
fn every_known_reason_renders_a_specific_non_debug_string() {
    let model = "backend/model".to_string();
    let cases: Vec<(RoutingReason, &str)> = vec![
        (RoutingReason::PinnedByApi, "pinned by API"),
        (RoutingReason::PinnedByAgentDef, "pinned by agent definition"),
        (RoutingReason::AliasPrimary { alias: "coder".to_string() }, "primary for role `coder`"),
    ];
    for (reason, expected) in cases {
        assert_eq!(render_reason(&reason), expected);
    }

    let cap_skip = RoutingReason::CapabilitySkip {
        skipped: model.clone(),
        missing: vec!["tool_calling".to_string()],
    };
    assert_eq!(render_reason(&cap_skip), "skipped `backend/model`: missing tool_calling");

    let health_skip = RoutingReason::HealthSkip { skipped: model.clone(), breaker: BreakerKind::Transport };
    assert_eq!(render_reason(&health_skip), "skipped `backend/model`: transport breaker open");

    let fallback = RoutingReason::Fallback {
        position: 2,
        after: vec![AttemptFailure { model: model.clone(), error: "connection refused".to_string() }],
    };
    assert_eq!(render_reason(&fallback), "fallback #2 after: backend/model: connection refused");
}

#[test]
fn breaker_state_renders_without_debug_fallback() {
    assert_eq!(render_breaker_state(&BreakerState::Closed), "closed");
    assert_eq!(render_breaker_state(&BreakerState::HalfOpen), "half-open");
    assert_eq!(breaker_state_tag(&BreakerState::Closed), "closed");
    assert_eq!(breaker_state_tag(&BreakerState::HalfOpen), "half_open");
}

#[test]
fn token_fidelity_renders_every_declared_variant_and_none_as_unknown() {
    assert_eq!(render_token_fidelity(Some(TokenCountFidelity::Exact)), "exact");
    assert_eq!(render_token_fidelity(Some(TokenCountFidelity::Calibrated)), "calibrated");
    assert_eq!(render_token_fidelity(Some(TokenCountFidelity::Heuristic)), "heuristic");
    assert_eq!(render_token_fidelity(None), "unknown");
}

#[test]
fn render_context_window_source_names_every_declared_variant_distinctly() {
    assert_eq!(render_context_window_source(Some(ContextTokensSource::Override)), "models.json");
    assert_eq!(render_context_window_source(Some(ContextTokensSource::Metadata)), "verified");
    assert_eq!(render_context_window_source(Some(ContextTokensSource::Probed)), "probed");
    assert_eq!(render_context_window_source(Some(ContextTokensSource::DialectDefaultFloor)), "verified");
    assert_eq!(render_context_window_source(Some(ContextTokensSource::Unverified)), "floor (assumed)");
    assert_eq!(render_context_window_source(None), "unknown");
    assert_ne!(
        render_context_window_source(Some(ContextTokensSource::Unverified)),
        render_context_window_source(Some(ContextTokensSource::Metadata)),
    );
    assert_ne!(
        render_context_window_source(Some(ContextTokensSource::Unverified)),
        render_context_window_source(Some(ContextTokensSource::Override)),
    );
}

#[test]
fn render_window_shows_the_number_or_names_that_none_was_indexed() {
    assert_eq!(render_window(Some(1_048_576)), "1048576");
    assert_eq!(render_window(None), "not indexed");
}

#[test]
fn render_cache_reporting_names_every_declared_variant_distinctly() {
    assert_eq!(render_cache_reporting(Some(CacheReporting::Reported)), "reported");
    assert_eq!(render_cache_reporting(Some(CacheReporting::NotReported)), "not reported");
    assert_eq!(render_cache_reporting(None), "unknown");
    assert_ne!(
        render_cache_reporting(Some(CacheReporting::NotReported)),
        render_cache_reporting(Some(CacheReporting::Reported)),
    );
    assert_ne!(render_cache_reporting(None), render_cache_reporting(Some(CacheReporting::NotReported)));
}

#[test]
fn render_role_params_shows_configured_temperature_and_extra_key() {
    let parts = vec!["temperature=0.4".to_string(), "reasoning_budget_tokens=8192".to_string()];
    let rendered = render_role_params(&parts);
    assert!(rendered.contains("temperature=0.4"), "{rendered}");
    assert!(rendered.contains("reasoning_budget_tokens=8192"), "{rendered}");
    assert_ne!(rendered, "default");
}

#[test]
fn render_role_params_with_nothing_configured_shows_default() {
    assert_eq!(render_role_params(&Vec::new()), "default");
}

fn fixture_footprint() -> InstallFootprint {
    InstallFootprint {
        tool_schema_tokens_est: 9_500,
        instruction_fragment_tokens_est: 500,
        command_prompt_allowance_tokens_est: 14_000,
    }
}

#[test]
fn render_fixed_cost_flags_over_half_window_on_a_small_window() {
    let footprint = fixture_footprint();
    let rendered = render_fixed_cost(&footprint, "ollama/glm-5.2", Some(32_768));
    assert!(rendered.contains("24000/32768"), "{rendered}");
    assert!(rendered.contains("73%"), "{rendered}");
    assert!(rendered.contains("over half"), "{rendered}");
    assert_eq!(fixed_cost_over_half_window(&footprint, "ollama/glm-5.2", Some(32_768)), Some(true));
}

#[test]
fn render_fixed_cost_stays_under_threshold_on_a_large_window_identical_fixture() {
    let footprint = fixture_footprint();
    let rendered = render_fixed_cost(&footprint, "anthropic/haiku-4-5", Some(200_000));
    assert!(rendered.contains("24000/200000"), "{rendered}");
    assert!(rendered.contains("12%"), "{rendered}");
    assert!(!rendered.contains("over half"), "{rendered}");
    assert_eq!(
        fixed_cost_over_half_window(&footprint, "anthropic/haiku-4-5", Some(200_000)),
        Some(false)
    );
}

#[test]
fn render_fixed_cost_with_no_indexed_window_reads_unknown() {
    let footprint = fixture_footprint();
    assert_eq!(render_fixed_cost(&footprint, "local/m1", None), "unknown");
    assert_eq!(fixed_cost_over_half_window(&footprint, "local/m1", None), None);
}

#[test]
fn exactly_half_the_window_is_not_over_half() {
    let footprint = InstallFootprint {
        tool_schema_tokens_est: 500,
        instruction_fragment_tokens_est: 0,
        command_prompt_allowance_tokens_est: 0,
    };
    assert_eq!(fixed_cost_over_half_window(&footprint, "m", Some(1000)), Some(false));
    assert_eq!(fixed_cost_over_half_window(&footprint, "m", Some(999)), Some(true));
}

#[test]
fn footprint_total_saturates() {
    let footprint = InstallFootprint {
        tool_schema_tokens_est: u32::MAX,
        instruction_fragment_tokens_est: 7,
        command_prompt_allowance_tokens_est: 1,
    };
    assert_eq!(footprint.total_tokens_est(), u32::MAX);
}

#[test]
fn an_open_breaker_names_when_it_reopens() {
    let rendered = render_breaker_state(&BreakerState::Open { until_unix_secs: 0 });
    assert!(rendered.contains("1970-01-01T00:00:00Z"), "{rendered}");
}

#[test]
fn an_explain_report_pads_every_model_to_two_past_the_widest() {
    let footprint = InstallFootprint { tool_schema_tokens_est: 0, instruction_fragment_tokens_est: 0, command_prompt_allowance_tokens_est: 0 };
    let entry = |pos: Option<u64>, model: &str, outcome: EntryOutcome| ExplainEntry {
        chain_position: pos,
        model_ref: model.to_string(),
        outcome,
        breaker: BreakerState::Closed,
        token_fidelity: None,
        window: None,
        context_window_source: None,
        cache_reporting: None,
    };
    let report = ExplainReport {
        role: "coder".to_string(),
        est_tokens: 12,
        headroom_tokens: 34,
        entries: vec![
            entry(Some(1), "a/long-model", EntryOutcome::Selected { reason: RoutingReason::PinnedByApi }),
            entry(None, "b/m", EntryOutcome::Skipped { reason: RoutingReason::PinnedByApi }),
        ],
    };
    let tail = format!(
        "  (breaker: {}, tokens: {}, window: {} [{}], cache: {}, fixed_cost: {})\n",
        render_breaker_state(&BreakerState::Closed),
        render_token_fidelity(None),
        render_window(None),
        render_context_window_source(None),
        render_cache_reporting(None),
        render_fixed_cost(&footprint, "", None),
    );
    let expected = format!(
        "role: coder  (est_tokens=12, headroom_tokens=34)\nparams: temp=0.2\n  [1] a/long-model  SELECTED pinned by API{tail}  [pin] b/m           SKIPPED  pinned by API{tail}"
    );
    assert_eq!(render_explain(&report, "temp=0.2", &footprint), expected);
}
