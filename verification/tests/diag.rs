use conway_cli::diag::{error_line, info_line, progress_line, set_verbosity, tracing_directive, warn_line, Verbosity};

#[test]
fn diagnostic_lines_carry_their_prefix() {
    assert_eq!(error_line("boom"), "conway: error: boom\n");
    assert_eq!(warn_line("careful"), "conway: warning: careful\n");
    assert_eq!(progress_line("still working"), "conway: still working\n");
}

#[test]
fn info_needs_verbose() {
    let mut v = Verbosity::new();
    assert_eq!(info_line(v, "routed"), None);
    set_verbosity(&mut v, 1);
    assert_eq!(info_line(v, "routed"), Some("conway: routed\n".to_string()));
}

#[test]
fn tracing_is_off_without_verbose_and_scoped_to_the_workspace() {
    assert_eq!(tracing_directive(0), None);
    assert_eq!(
        tracing_directive(1),
        Some("warn,conway=info,conway_core=info,conway_plugin_backends=info,conway_plugin_routing=info,conway_tools=info,conway_session=info,conway_runtime=info,conway_cli=info".to_string())
    );
    let vv = tracing_directive(2).unwrap();
    assert!(vv.contains("conway_plugin_routing=trace"), "{vv}");
    assert!(!vv.contains("=info"), "{vv}");
}
