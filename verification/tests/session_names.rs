use conway_cli::session_names::{resolve, resolve_fork_ref, unresolved_message, NameError, NamesStore};
use conway_cli::session_ref::{parse_sid, LogSeq, SessionId};

const SID_A: &str = "01ARZ3NDEKTSV4RRFFQ69G5FAV";
const SID_B: &str = "01BX5ZZKBKACTAV9WEVGEMMVRZ";

fn sid(s: &str) -> SessionId {
    parse_sid(s).ok().expect("valid ULID literal")
}

fn store() -> NamesStore {
    NamesStore::new()
}

#[test]
fn fresh_store_has_no_names() {
    let names = store();
    assert_eq!(names.resolve("daily"), None);
}

#[test]
fn set_then_resolve_round_trips() {
    let mut names = store();
    let a = sid(SID_A);
    assert!(names.set("daily", a).is_ok(), "set");
    assert_eq!(names.resolve("daily"), Some(a));
    assert_eq!(names.name_of(a), Some("daily"));
}

#[test]
fn set_persists_across_reload() {
    let a = sid(SID_A);
    let mut names = store();
    assert!(names.set("daily", a).is_ok(), "set");
    let saved: Vec<(String, SessionId)> = names.bindings().clone();
    let reloaded = NamesStore::from_entries(saved);
    assert_eq!(reloaded.resolve("daily"), Some(a));
}

#[test]
fn ulid_shaped_name_is_refused_at_naming_time() {
    let mut names = store();
    let err = names.set(SID_B, sid(SID_A)).err().expect("ULID-shaped name refused");
    assert!(matches!(err, NameError::LooksLikeUlid(ref n) if n == SID_B));
}

#[test]
fn name_already_bound_to_another_session_is_refused() {
    let mut names = store();
    let a = sid(SID_A);
    let b = sid(SID_B);
    assert!(names.set("daily", a).is_ok(), "first bind");
    let err = names.set("daily", b).err().expect("collision refused");
    match err {
        NameError::AlreadyBound { name, existing } => {
            assert_eq!(name, "daily");
            assert_eq!(existing, a);
        }
        other => panic!("expected AlreadyBound, got {}", other.message()),
    }
    assert_eq!(names.resolve("daily"), Some(a));
}

#[test]
fn re_setting_the_same_name_to_the_same_session_is_idempotent() {
    let mut names = store();
    let a = sid(SID_A);
    assert!(names.set("daily", a).is_ok(), "first bind");
    assert!(names.set("daily", a).is_ok(), "idempotent re-bind");
    assert_eq!(names.resolve("daily"), Some(a));
}

#[test]
fn renaming_moves_the_one_name_a_session_carries() {
    let mut names = store();
    let a = sid(SID_A);
    assert!(names.set("daily", a).is_ok(), "first bind");
    assert!(names.set("standup", a).is_ok(), "rename");
    assert_eq!(names.resolve("daily"), None);
    assert_eq!(names.resolve("standup"), Some(a));
    assert_eq!(names.name_of(a), Some("standup"));
}

#[test]
fn unset_by_name_removes_the_binding() {
    let mut names = store();
    let a = sid(SID_A);
    assert!(names.set("daily", a).is_ok(), "bind");
    assert!(names.unset("daily").is_ok(), "unset");
    assert_eq!(names.resolve("daily"), None);
}

#[test]
fn unset_by_id_removes_the_binding() {
    let mut names = store();
    let a = sid(SID_A);
    assert!(names.set("daily", a).is_ok(), "bind");
    assert!(names.unset(SID_A).is_ok(), "unset by id");
    assert_eq!(names.resolve("daily"), None);
}

#[test]
fn unset_unknown_name_is_an_error() {
    let mut names = store();
    let err = names.unset("nope").err().expect("unknown name refused");
    assert!(matches!(err, NameError::Unknown(ref n) if n == "nope"));
}

#[test]
fn resolve_prefers_ulid_over_a_same_named_entry() {
    let names = store();
    let got = resolve(SID_A, &names).ok().expect("bare ULID resolves without any names lookup");
    assert_eq!(got, sid(SID_A));
}

#[test]
fn resolve_unknown_name_is_an_error() {
    let names = store();
    let err = resolve("nope", &names).err().expect("unknown name refused");
    assert!(err.message().contains("not a valid session id"));
}

#[test]
fn resolve_fork_ref_resolves_a_name_with_seq() {
    let mut names = store();
    let a = sid(SID_A);
    assert!(names.set("daily", a).is_ok(), "bind");
    let (got, seq) = resolve_fork_ref("daily@3", &names).ok().expect("resolves");
    assert_eq!(got, a);
    assert_eq!(seq, Some(LogSeq(3)));
}

#[test]
fn resolve_fork_ref_resolves_a_bare_ulid_with_no_seq() {
    let names = store();
    let (got, seq) = resolve_fork_ref(SID_A, &names).ok().expect("resolves");
    assert_eq!(got, sid(SID_A));
    assert_eq!(seq, None);
}

#[test]
fn bindings_stay_in_name_order() {
    let mut names = store();
    assert!(names.set("zeta", sid(SID_A)).is_ok());
    assert!(names.set("alpha", sid(SID_B)).is_ok());
    let order: Vec<&str> = names.bindings().iter().map(|(n, _)| n.as_str()).collect();
    assert_eq!(order, vec!["alpha", "zeta"]);
}

#[test]
fn an_already_bound_refusal_names_the_holder() {
    let mut names = store();
    assert!(names.set("daily", sid(SID_A)).is_ok());
    let err = names.set("daily", sid(SID_B)).err().unwrap();
    assert!(err.message().contains(SID_A), "{}", err.message());
}

#[test]
fn a_naming_refusal_quotes_its_subject_as_given() {
    let e = NameError::Unknown("x".to_string());
    assert_eq!(e.subject(), "x");
    assert_eq!(e.message_quoting("<x>"), "no name bound to <x>");
    assert_eq!(e.message(), "no name bound to \"x\"");
    assert_eq!(
        unresolved_message("<q>"),
        "invalid session reference <q>: not a valid session id (ULID) and no session is named that"
    );
}
