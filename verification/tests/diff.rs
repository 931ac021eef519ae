use conway_cli::diff::{apply_touch, cumulative_diffs, file_touch_from_args, simulate_edit, unified_diff, FileTouch, ToolArgs, TouchKind};

fn edit(path: &str, old: &str, new: &str) -> FileTouch {
    FileTouch {
        path: path.to_string(),
        kind: TouchKind::Edit { old_string: old.to_string(), new_string: new.to_string(), replace_all: false },
    }
}

fn write(path: &str, content: &str) -> FileTouch {
    FileTouch { path: path.to_string(), kind: TouchKind::Write { content: content.to_string() } }
}

fn pairs(v: &[(&str, &str)]) -> Vec<(String, String)> {
    v.iter().map(|(a, b)| (a.to_string(), b.to_string())).collect()
}

#[test]
fn identical_text_produces_no_diff() {
    assert_eq!(unified_diff("a", "a", "same\ntext", "same\ntext"), "");
}

#[test]
fn a_single_changed_line_shows_a_minus_and_a_plus() {
    let out = unified_diff("f", "f", "one\ntwo\nthree", "one\nTWO\nthree");
    assert!(out.contains("-two"), "{out}");
    assert!(out.contains("+TWO"), "{out}");
    assert!(out.contains(" one"), "{out}");
    assert!(out.contains(" three"), "{out}");
}

#[test]
fn a_two_line_changed_run_shows_both_minus_lines_and_both_plus_lines() {
    let out = unified_diff("f", "f", "a\nb\nc\nd", "a\nB\nC\nd");
    assert!(out.contains("-b"), "{out}");
    assert!(out.contains("-c"), "{out}");
    assert!(out.contains("+B"), "{out}");
    assert!(out.contains("+C"), "{out}");
}

#[test]
fn a_diff_beyond_the_cell_bound_falls_back_to_a_coarse_honest_summary() {
    let old_text: String = (0..3000).map(|n| format!("old-{n}\n")).collect();
    let new_text: String = (0..3000).map(|n| format!("new-{n}\n")).collect();
    let out = unified_diff("f", "f", &old_text, &new_text);
    assert!(out.contains("diff omitted"), "{out}");
}

#[test]
fn a_unified_diff_has_its_headers_and_hunk() {
    let out = unified_diff("a/f", "b/f", "one\ntwo\nthree", "one\nTWO\nthree");
    assert_eq!(out, "--- a/f\n+++ b/f\n@@ -1,3 +1,3 @@\n one\n-two\n+TWO\n three\n");
}

#[test]
fn simulate_edit_matches_the_real_tools_single_replacement_semantics() {
    let (out, n) = simulate_edit("one two three", "two", "TWO", false).expect("one match");
    assert_eq!(out, "one TWO three");
    assert_eq!(n, 1);
}

#[test]
fn simulate_edit_refuses_an_ambiguous_match_without_replace_all() {
    assert_eq!(simulate_edit("a a a", "a", "b", false), None);
}

#[test]
fn simulate_edit_replace_all_replaces_every_occurrence() {
    let (out, n) = simulate_edit("a a a", "a", "b", true).expect("replace_all");
    assert_eq!(out, "b b b");
    assert_eq!(n, 3);
}

#[test]
fn simulate_edit_refuses_identical_old_and_new() {
    assert_eq!(simulate_edit("x", "x", "x", false), None);
}

#[test]
fn simulate_edit_refuses_an_empty_or_missing_match() {
    assert_eq!(simulate_edit("abc", "", "x", false), None);
    assert_eq!(simulate_edit("abc", "z", "x", true), None);
}

#[test]
fn file_touch_from_args_extracts_edit_fields() {
    let args = ToolArgs {
        path: Some("f.txt".to_string()),
        content: None,
        old_string: Some("a".to_string()),
        new_string: Some("b".to_string()),
        replace_all: None,
    };
    let touch = file_touch_from_args("edit", &args).expect("edit touch");
    assert_eq!(touch.path, "f.txt");
    assert_eq!(
        touch.kind,
        TouchKind::Edit { old_string: "a".to_string(), new_string: "b".to_string(), replace_all: false }
    );
}

#[test]
fn file_touch_from_args_extracts_write_fields() {
    let args = ToolArgs {
        path: Some("f.txt".to_string()),
        content: Some("hello".to_string()),
        old_string: None,
        new_string: None,
        replace_all: None,
    };
    let touch = file_touch_from_args("write", &args).expect("write touch");
    assert_eq!(touch.path, "f.txt");
    assert_eq!(touch.kind, TouchKind::Write { content: "hello".to_string() });
}

#[test]
fn file_touch_from_args_ignores_other_tools() {
    let args = ToolArgs { path: None, content: None, old_string: None, new_string: None, replace_all: None };
    assert_eq!(file_touch_from_args("bash", &args), None);
}

#[test]
fn apply_touch_leaves_a_refused_edit_unchanged() {
    let k = TouchKind::Edit { old_string: "a".to_string(), new_string: "b".to_string(), replace_all: false };
    assert_eq!(apply_touch("a a", &k), "a a");
    assert_eq!(apply_touch("xa", &k), "xb");
}

#[test]
fn cumulative_diffs_folds_two_edits_to_one_path_into_one_diff_against_first_touch() {
    let touches = vec![edit("f.txt", "one", "ONE"), edit("f.txt", "three", "THREE")];
    let diffs = cumulative_diffs(&touches, &[], &pairs(&[("f.txt", "ONE\ntwo\nTHREE\n")]));
    assert_eq!(diffs.len(), 1, "one path touched: {diffs:?}");
    let (got_path, diff_text) = &diffs[0];
    assert_eq!(got_path, "f.txt");
    assert!(diff_text.contains("-one"), "{diff_text}");
    assert!(diff_text.contains("+ONE"), "{diff_text}");
    assert!(diff_text.contains("-three"), "{diff_text}");
    assert!(diff_text.contains("+THREE"), "{diff_text}");
}

#[test]
fn cumulative_diffs_covers_multiple_paths_independently() {
    let touches = vec![edit("a.txt", "alpha", "ALPHA"), write("b.txt", "BETA\n")];
    let diffs = cumulative_diffs(&touches, &[], &pairs(&[("a.txt", "ALPHA\n"), ("b.txt", "BETA\n")]));
    assert_eq!(diffs.len(), 2, "{diffs:?}");
    assert_eq!(diffs[0].0, "a.txt");
    assert_eq!(diffs[1].0, "b.txt");
}

#[test]
fn cumulative_diffs_is_empty_when_no_touches() {
    assert_eq!(cumulative_diffs(&[], &[], &[]), Vec::new());
}

#[test]
fn cumulative_diffs_reconstructs_an_empty_baseline_for_a_write_created_file() {
    let touches = vec![write("new.txt", "hello\nworld\n")];
    let diffs = cumulative_diffs(&touches, &[], &pairs(&[("new.txt", "hello\nworld\n")]));
    assert_eq!(diffs.len(), 1, "{diffs:?}");
    assert!(diffs[0].1.contains("+hello"), "{}", diffs[0].1);
    assert!(diffs[0].1.contains("+world"), "{}", diffs[0].1);
}

#[test]
fn cumulative_diffs_does_not_report_a_concurrent_edit_it_did_not_make() {
    let touches = vec![edit("f.txt", "two", "TWO")];
    let diffs = cumulative_diffs(&touches, &[], &pairs(&[("f.txt", "one\nTWO\nthree\nOPERATOR\n")]));
    assert_eq!(diffs.len(), 1, "{diffs:?}");
    let text = &diffs[0].1;
    assert!(text.contains("-two"), "{text}");
    assert!(text.contains("+TWO"), "{text}");
    assert!(!text.contains("+OPERATOR"), "an edit conway did not make must not be reported: {text}");
}

#[test]
fn cumulative_diffs_prefers_a_supplied_baseline_over_reconstruction() {
    let touches = vec![write("f.txt", "replacement\n")];
    let diffs = cumulative_diffs(&touches, &pairs(&[("f.txt", "displaced\n")]), &pairs(&[("f.txt", "replacement\n")]));
    assert_eq!(diffs.len(), 1, "{diffs:?}");
    let text = &diffs[0].1;
    assert!(text.contains("-displaced"), "{text}");
    assert!(text.contains("+replacement"), "{text}");
}

#[test]
fn cumulative_diffs_mixes_a_supplied_baseline_with_a_reconstructed_one() {
    let touches = vec![write("known.txt", "after\n"), edit("unknown.txt", "unseen", "UNSEEN")];
    let diffs = cumulative_diffs(
        &touches,
        &pairs(&[("known.txt", "before\n")]),
        &pairs(&[("known.txt", "after\n"), ("unknown.txt", "UNSEEN\n")]),
    );
    assert_eq!(diffs.len(), 2, "{diffs:?}");
    assert_eq!(diffs[0].0, "known.txt", "first-touch order is preserved");
    assert!(diffs[0].1.contains("-before"), "{}", diffs[0].1);
    assert_eq!(diffs[1].0, "unknown.txt");
    assert!(diffs[1].1.contains("-unseen"), "{}", diffs[1].1);
    assert!(diffs[1].1.contains("+UNSEEN"), "{}", diffs[1].1);
}

#[test]
fn an_edit_undone_by_a_later_edit_leaves_no_diff() {
    let touches = vec![edit("f.txt", "a", "b"), edit("f.txt", "b", "a")];
    let diffs = cumulative_diffs(&touches, &[], &pairs(&[("f.txt", "a\n")]));
    assert!(diffs.is_empty(), "{diffs:?}");
}

#[test]
fn a_single_edit_walked_back_gives_the_content_from_before_it() {
    let before = "one two three";
    let forward = TouchKind::Edit { old_string: "two".to_string(), new_string: "TWO".to_string(), replace_all: false };
    let back = TouchKind::Edit { old_string: "TWO".to_string(), new_string: "two".to_string(), replace_all: false };
    let after = apply_touch(before, &forward);
    assert_eq!(after, "one TWO three");
    assert_eq!(apply_touch(&after, &back), before);
}
