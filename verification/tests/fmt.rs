use conway_cli::fmt::{id_short, table, tree_lines, truncate_cell, ts, TreeNode, MAX_CELL_CHARS};

fn node(label: &str, children: Vec<TreeNode>) -> TreeNode {
    TreeNode { label: label.to_string(), children }
}

#[test]
fn table_with_no_rows_prints_header_only() {
    let out = table(&["ID", "STATUS"], Vec::new());
    assert_eq!(out, "ID  STATUS\n");
}

#[test]
fn table_pads_columns_to_widest_cell() {
    let out = table(
        &["ID", "STATUS"],
        vec![
            vec!["abcdef12".to_string(), "active".to_string()],
            vec!["z".to_string(), "done".to_string()],
        ],
    );
    let lines: Vec<&str> = out.lines().collect();
    assert_eq!(lines[0], "ID        STATUS");
    assert_eq!(lines[1], "abcdef12  active");
    assert_eq!(lines[2], "z         done");
}

#[test]
fn table_truncates_overlong_cells() {
    let long = "x".repeat(60);
    let out = table(&["COL"], vec![vec![long]]);
    let data_line = out.lines().nth(1).unwrap();
    assert_eq!(data_line.chars().count(), MAX_CELL_CHARS);
    assert!(data_line.ends_with('…'));
}

#[test]
fn tree_lines_uses_ascii_branch_glyphs() {
    let root = node("root", vec![node("a", vec![node("c", vec![])]), node("b", vec![])]);
    let lines = tree_lines(&root);
    assert_eq!(
        lines,
        vec![
            "root".to_string(),
            "├─ a".to_string(),
            "│  └─ c".to_string(),
            "└─ b".to_string(),
        ]
    );
}

#[test]
fn id_short_takes_first_eight_chars() {
    assert_eq!(id_short("01J9ZZZZZZZZZZZZZZZZZZZZZZ"), "01J9ZZZZ");
}

#[test]
fn id_short_does_not_distinguish_two_ids_from_the_same_second() {
    let a = "01J9ZZZZAAAAAAAAAAAAAAAAAA";
    let b = "01J9ZZZZBBBBBBBBBBBBBBBBBB";
    assert_eq!(id_short(a), id_short(b));
}

#[test]
fn id_short_keeps_a_short_id_whole() {
    assert_eq!(id_short("abc"), "abc");
}

#[test]
fn table_cell_of_exactly_the_limit_is_kept_whole() {
    let cell = "y".repeat(MAX_CELL_CHARS);
    let out = table(&["C"], vec![vec![cell.clone()]]);
    assert_eq!(out.lines().nth(1).unwrap(), cell);
}

#[test]
fn table_last_column_is_not_padded() {
    let out = table(&["A", "B"], vec![vec!["long-a".to_string(), "b".to_string()]]);
    assert_eq!(out, "A       B\nlong-a  b\n");
}

#[test]
fn tree_of_a_single_node_is_its_label() {
    assert_eq!(tree_lines(&node("only", vec![])), vec!["only".to_string()]);
}

#[test]
fn ts_renders_rfc3339_utc_whole_seconds() {
    assert_eq!(ts(0), Some("1970-01-01T00:00:00Z".to_string()));
    assert_eq!(ts(86_400 + 61), Some("1970-01-02T00:01:01Z".to_string()));
}

#[test]
fn ts_refuses_an_unrepresentable_instant() {
    assert_eq!(ts(i64::MAX), None);
}

#[test]
fn a_cell_over_the_bound_is_cut_to_it_with_an_ellipsis() {
    let long: String = "é".repeat(MAX_CELL_CHARS + 1);
    let cut = truncate_cell(&long);
    assert_eq!(cut.chars().count(), MAX_CELL_CHARS);
    assert!(cut.ends_with('…'));
    assert_eq!(truncate_cell(&"é".repeat(MAX_CELL_CHARS)), "é".repeat(MAX_CELL_CHARS));
}
