use conway_cli::tools::{category_str, first_sentence, permission_str, tool_listing_text, PermissionClass, ToolCategory, ToolSpec};

#[test]
fn every_declared_category_and_permission_renders_a_specific_string() {
    assert_eq!(category_str(ToolCategory::Read), "read");
    assert_eq!(category_str(ToolCategory::Edit), "edit");
    assert_eq!(category_str(ToolCategory::Delete), "delete");
    assert_eq!(category_str(ToolCategory::Move), "move");
    assert_eq!(category_str(ToolCategory::Search), "search");
    assert_eq!(category_str(ToolCategory::Execute), "execute");
    assert_eq!(category_str(ToolCategory::Think), "think");
    assert_eq!(category_str(ToolCategory::Fetch), "fetch");
    assert_eq!(category_str(ToolCategory::Delegate), "delegate");

    assert_eq!(permission_str(PermissionClass::Safe), "safe");
    assert_eq!(permission_str(PermissionClass::RequiresApproval), "requires_approval");
    assert_eq!(permission_str(PermissionClass::Dangerous), "dangerous");
}

#[test]
fn first_sentence_splits_a_genuinely_multi_sentence_description() {
    let desc = "Execute a shell command with bash -c. If a confinement \
                 root is set, the working directory is checked against it.";
    assert_eq!(first_sentence(desc), "Execute a shell command with bash -c.");
}

#[test]
fn first_sentence_returns_a_single_clause_description_whole() {
    let desc = "Find files matching a glob pattern, gitignore-aware";
    assert_eq!(first_sentence(desc), desc);
}

#[test]
fn tool_listing_names_each_tool() {
    let specs = vec![ToolSpec {
        name: "read".to_string(),
        description: "Read a file. Returns its text.".to_string(),
        category: ToolCategory::Read,
        permission: PermissionClass::Safe,
        path_confinable: true,
    }];
    let out = tool_listing_text(&specs, 1, None);
    assert!(out.contains("read"), "{out}");
    assert!(out.contains("Read a file."), "{out}");
    assert!(!out.contains("Returns its text."), "{out}");
}
