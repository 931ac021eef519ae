use conway_cli::session_ref::{parse_fork_ref, parse_sid, split_fork_ref, LogSeq};

const SID: &str = "01ARZ3NDEKTSV4RRFFQ69G5FAV";

#[test]
fn bare_session_id() {
    let (sid, seq) = parse_fork_ref(SID).ok().expect("valid bare sid");
    assert_eq!(sid.to_string(), SID);
    assert_eq!(seq, None);
}

#[test]
fn session_id_with_seq() {
    let (sid, seq) = parse_fork_ref(&format!("{SID}@142")).ok().expect("valid sid@seq");
    assert_eq!(sid.to_string(), SID);
    assert_eq!(seq, Some(LogSeq(142)));
}

#[test]
fn empty_seq_suffix_is_an_error() {
    let err = parse_fork_ref(&format!("{SID}@")).err().expect("empty @seq must be rejected");
    assert!(err.message().contains("<session-id>[@<seq>]"));
}

#[test]
fn missing_session_id_is_an_error() {
    let err = parse_fork_ref("@142").err().expect("missing sid half must be rejected");
    assert!(err.message().contains("<session-id>[@<seq>]"));
}

#[test]
fn non_numeric_seq_is_an_error() {
    let err = parse_fork_ref(&format!("{SID}@abc")).err().expect("non-numeric seq must be rejected");
    assert!(err.message().contains("<session-id>[@<seq>]"));
}

#[test]
fn invalid_ulid_is_an_error() {
    let err = parse_fork_ref("not-a-ulid").err().expect("garbage sid must be rejected");
    assert!(err.message().contains("<session-id>[@<seq>]"));
}

#[test]
fn invalid_ulid_with_seq_is_an_error() {
    let err = parse_fork_ref("not-a-ulid@1").err().expect("garbage sid must be rejected");
    assert!(err.message().contains("<session-id>[@<seq>]"));
}

#[test]
fn parse_sid_rejects_non_ulid() {
    assert!(parse_sid("garbage").is_err());
}

#[test]
fn parse_sid_accepts_a_valid_ulid() {
    assert_eq!(parse_sid(SID).ok().unwrap().to_string(), SID);
}

#[test]
fn parse_sid_accepts_lower_case_and_refuses_letters_outside_the_alphabet() {
    assert_eq!(parse_sid("01arz3ndektsv4rrffq69g5fav").ok().unwrap().to_string(), SID);
    assert!(parse_sid("0UARZ3NDEKTSV4RRFFQ69G5FAV").is_err());
}

#[test]
fn parse_sid_rejects_a_value_beyond_128_bits() {
    assert!(parse_sid("8ZZZZZZZZZZZZZZZZZZZZZZZZZ").is_err());
    assert!(parse_sid("7ZZZZZZZZZZZZZZZZZZZZZZZZZ").is_ok());
}

#[test]
fn a_refusal_quotes_the_whole_input_and_names_the_reason() {
    let err = parse_fork_ref(&format!("{SID}@")).err().unwrap();
    assert_eq!(
        err.message(),
        format!("invalid session reference \"{SID}@\": expected `<session-id>[@<seq>]` (empty `@<seq>` suffix)")
    );
}

#[test]
fn a_seq_beyond_u64_is_refused() {
    assert!(parse_fork_ref(&format!("{SID}@18446744073709551616")).is_err());
    let (_, seq) = parse_fork_ref(&format!("{SID}@18446744073709551615")).ok().unwrap();
    assert_eq!(seq, Some(LogSeq(u64::MAX)));
}

#[test]
fn split_fork_ref_keeps_the_reference_before_the_first_at() {
    let (head, seq) = split_fork_ref("daily@3").ok().unwrap();
    assert_eq!(head, "daily");
    assert_eq!(seq, Some(LogSeq(3)));
    let (head, seq) = split_fork_ref("daily").ok().unwrap();
    assert_eq!(head, "daily");
    assert_eq!(seq, None);
}

#[test]
fn a_refused_reference_is_quoted_and_escaped_in_the_message() {
    let err = parse_sid("a\"b").err().expect("not a ulid");
    assert!(err.message().starts_with("invalid session reference \"a\\\"b\": "), "{}", err.message());
    let err = parse_sid("plain").err().expect("not a ulid");
    assert!(err.message().starts_with("invalid session reference \"plain\": "), "{}", err.message());
}

#[test]
fn a_refusal_message_carries_the_quoted_value_as_given() {
    let err = parse_sid("zz").err().expect("not a ulid");
    let msg = err.message_quoting("<zz>");
    assert!(msg.starts_with("invalid session reference <zz>: expected `<session-id>[@<seq>]` ("), "{msg}");
    assert!(msg.ends_with(")"), "{msg}");
}
