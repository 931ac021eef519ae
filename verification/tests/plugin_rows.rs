use conway_cli::plugin_rows::{
    all_plugin_rows, bounded_name_list, rows_from_claude_compat, rows_from_mcp, rows_from_plugin_browser,
    ClaudeCompatPluginEntry, ConfiguredPluginEntry, PluginBrowserEntry, PluginDescription, PluginOrigin, PluginToggle,
};

fn compiled_in(id: &str, installed: bool, summary: &str) -> PluginBrowserEntry {
    PluginBrowserEntry {
        id: id.to_string(),
        version: "0.9.0".to_string(),
        installed,
        description: PluginDescription {
            summary: summary.to_string(),
            you_get: "you-get-text".to_string(),
            you_lose: "you-lose-text".to_string(),
            costs: "costs-text".to_string(),
        },
    }
}

#[test]
fn rows_from_plugin_browser_alone_needs_no_app_state() {
    let entries = vec![compiled_in("conway.memory", true, "notes"), compiled_in("conway.skills", false, "skill index")];
    let rows = rows_from_plugin_browser(&entries);
    assert_eq!(rows.len(), 2);
    assert_eq!(rows[0].id, "conway.memory");
    assert!(rows[0].active);
    assert_eq!(rows[0].toggle, PluginToggle::Toggleable { installed: true });
    assert!(!rows[1].active);
    assert_eq!(rows[1].contributes, "skill index");
}

#[test]
fn all_plugin_rows_with_empty_other_sources_matches_plugin_browser_alone() {
    let entries = vec![compiled_in("conway.memory", true, "notes")];
    let via_all = all_plugin_rows(&entries, &[], &[], &[]);
    let via_direct = rows_from_plugin_browser(&entries);
    assert_eq!(via_all, via_direct);
}

#[test]
fn an_mcp_entry_is_an_active_read_only_row() {
    let rows = rows_from_mcp(&[ConfiguredPluginEntry { id: "acme-mcp".to_string() }]);
    assert_eq!(rows.len(), 1);
    assert_eq!(rows[0].origin, PluginOrigin::Mcp);
    assert!(rows[0].active);
    assert_eq!(rows[0].contributes, "tools only");
    assert!(matches!(rows[0].toggle, PluginToggle::ReadOnly { .. }));
}

#[test]
fn bounded_name_list_names_at_most_four() {
    let names: Vec<String> = ["a", "b", "c", "d", "e", "f"].iter().map(|s| s.to_string()).collect();
    assert_eq!(bounded_name_list(&names), "a, b, c, d, +2 more");
    let few: Vec<String> = ["a", "b"].iter().map(|s| s.to_string()).collect();
    assert_eq!(bounded_name_list(&few), "a, b");
}

#[test]
fn all_plugin_rows_keeps_source_order() {
    let entries = vec![compiled_in("conway.memory", true, "notes")];
    let sub = vec![ConfiguredPluginEntry { id: "sub".to_string() }];
    let mcp = vec![ConfiguredPluginEntry { id: "mcp".to_string() }];
    let compat = vec![ClaudeCompatPluginEntry {
        id: "acme".to_string(),
        source_dir: "/plugins/acme".to_string(),
        mcp_server_count: 1,
        mapped_hook_count: 0,
        deny_capable_hook_count: 0,
        unmapped_hook_names: vec![],
        unsupported_names: vec![],
    }];
    let rows = all_plugin_rows(&entries, &sub, &mcp, &compat);
    let ids: Vec<&str> = rows.iter().map(|r| r.id.as_str()).collect();
    assert_eq!(ids, vec!["conway.memory", "sub", "mcp", "acme"]);
    assert_eq!(rows_from_claude_compat(&compat).len(), 1);
}
