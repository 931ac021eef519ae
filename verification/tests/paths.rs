use conway_cli::paths::{path_eq, path_less};
use conway_cli::trust::revoke_keys;

fn recs(v: &[(&str, &str)]) -> Vec<(String, String)> {
    v.iter().map(|(a, b)| (a.to_string(), b.to_string())).collect()
}

#[test]
fn spellings_of_one_path_compare_equal() {
    assert!(path_eq("/a//b/", "/a/b"));
    assert!(path_eq("/a/./b", "/a/b"));
    assert!(path_eq("a/b", "a//b/."));
    assert!(!path_eq("./a", "a"));
    assert!(!path_eq("/a/../b", "/b"));
    assert!(!path_eq("/a", "a"));
}

#[test]
fn paths_order_by_component_not_by_text() {
    assert!(path_less("/a/b", "/a-b"));
    assert!(!path_less("/a-b", "/a/b"));
    assert!(path_less("/a", "/a/b"));
    assert!(path_less("/x", "x"));
    assert!(!path_less("/a/b", "/a//b"));
}

#[test]
fn revoke_keys_match_either_spelling_dedup_and_sort_by_path() {
    let recorded = recs(&[
        ("/p/a-b", "/real/target"),
        ("/p/a/b", "/real/target"),
        ("/p/a//b", "/elsewhere"),
        ("/q/other", "/q/other"),
    ]);
    let keys = revoke_keys("/p/a/b", "/real/target", &recorded);
    assert_eq!(keys, vec!["/p/a/b".to_string(), "/p/a-b".to_string()]);
}

#[test]
fn revoke_keys_keep_the_first_recorded_spelling() {
    let recorded = recs(&[("/x//y", "/x/y"), ("/x/y", "/x/y")]);
    assert_eq!(revoke_keys("/x/y", "/x/y", &recorded), vec!["/x//y".to_string()]);
}

#[test]
fn revoke_keys_of_an_unrecorded_path_are_empty() {
    let recorded = recs(&[("/a", "/a")]);
    assert!(revoke_keys("/b", "/b", &recorded).is_empty());
}
