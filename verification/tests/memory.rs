use conway_cli::exit::ExitCode;
use conway_cli::memory::{memory_listing, forget_report, memory_id_text, memory_row, memory_row_at, parse_memory_id, sorted, Memory, MemoryId, RemoveOutcome};
use conway_cli::session_ref::parse_sid;

const ID_A: &str = "01ARZ3NDEKTSV4RRFFQ69G5FAV";
const ID_B: &str = "01BX5ZZKBKACTAV9WEVGEMMVRZ";

fn memory(id: u128, text: &str, offset_secs: i64) -> Memory {
    Memory { id: MemoryId { value: id }, text: text.to_string(), created_secs: offset_secs, created_nanos: 0, session: None }
}

#[test]
fn sorted_is_oldest_first_with_id_tiebreak() {
    let a = memory(7, "newer", 100);
    let b = memory(9, "older", 1);
    let out = sorted(vec![a, b]);
    assert_eq!(out[0].id, MemoryId { value: 9 });
    assert_eq!(out[1].id, MemoryId { value: 7 });
}

#[test]
fn sorted_breaks_a_same_instant_tie_by_id() {
    let out = sorted(vec![memory(5, "x", 10), memory(2, "y", 10), memory(3, "z", 9)]);
    let ids: Vec<u128> = out.iter().map(|m| m.id.value).collect();
    assert_eq!(ids, vec![3, 2, 5]);
}

#[test]
fn sorted_orders_by_nanoseconds_within_a_second() {
    let mut late = memory(1, "late", 10);
    late.created_nanos = 500;
    let early = memory(2, "early", 10);
    let out = sorted(vec![late, early]);
    assert_eq!(out[0].text, "early");
}

#[test]
fn a_memory_row_shows_id_instant_session_and_one_line_text() {
    let mut m = memory(parse_sid(ID_A).ok().unwrap().value, "line one\nline two", 0);
    m.session = Some(parse_sid(ID_B).ok().unwrap());
    assert_eq!(
        memory_row(&m),
        vec![ID_A.to_string(), "1970-01-01T00:00:00Z".to_string(), ID_B.to_string(), "line one line two".to_string()]
    );
}

#[test]
fn a_memory_without_a_session_has_an_empty_session_cell() {
    let m = memory(1, "t", 0);
    assert_eq!(memory_row(&m)[2], "");
}

#[test]
fn forget_a_malformed_id_is_refused() {
    assert_eq!(parse_memory_id("not-a-memory-id"), None);
}

#[test]
fn forget_reports_each_outcome() {
    let id = MemoryId { value: parse_sid(ID_A).ok().unwrap().value };
    assert_eq!(parse_memory_id(ID_A), Some(id));
    assert_eq!(memory_id_text(id), ID_A);
    assert_eq!(forget_report(id, &RemoveOutcome::Removed), (ExitCode::Completed, format!("forgot memory {ID_A}")));
    assert_eq!(forget_report(id, &RemoveOutcome::NotFound), (ExitCode::Usage, format!("no such memory: {ID_A}")));
    assert_eq!(
        forget_report(id, &RemoveOutcome::Failed { reason: "disk full".to_string() }),
        (ExitCode::Usage, format!("could not forget {ID_A}: disk full"))
    );
}

#[test]
fn an_empty_listing_says_so() {
    assert_eq!(memory_listing(&Vec::new()), "no memories stored\n");
}

#[test]
fn a_listing_is_a_table_with_the_four_columns() {
    let out = memory_listing(&vec![memory(1, "t", 0)]);
    let lines: Vec<&str> = out.lines().collect();
    assert!(lines[0].starts_with("ID"), "{out}");
    assert!(lines[0].ends_with("TEXT"), "{out}");
    assert_eq!(lines.len(), 2);
}

#[test]
fn a_memory_row_takes_its_creation_cell_as_given() {
    let m = memory(parse_sid(ID_A).ok().unwrap().value, "a\nb", 0);
    assert_eq!(
        memory_row_at(&m, "yesterday"),
        vec![ID_A.to_string(), "yesterday".to_string(), String::new(), "a b".to_string()]
    );
}
