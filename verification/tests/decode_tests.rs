use clipz_core::decode::decode_line;
use clipz_core::model::{BackendMessage, EntryKind};

#[test]
fn decodes_entries_snapshot_with_defaults() {
    let line = r#"{"type":"entries","data":[{"id":1,"content":"hello","timestamp":1000,"isCurrent":true},{"id":2,"content":"world","timestamp":2000,"type":"image"}]}"#;
    match decode_line(line) {
        Some(BackendMessage::Entries(data)) => {
            assert_eq!(data.len(), 2);
            assert_eq!(data[0].id, 1);
            assert_eq!(data[0].content, "hello");
            assert_eq!(data[0].timestamp, 1000);
            assert_eq!(data[0].kind, EntryKind::Text);
            assert!(data[0].is_current);
            assert_eq!(data[1].id, 2);
            assert_eq!(data[1].content, "world");
            assert_eq!(data[1].kind, EntryKind::Image);
            assert!(!data[1].is_current);
        }
        other => panic!("expected entries, got {:?}", other),
    }
}

#[test]
fn decodes_ready() {
    assert!(matches!(decode_line(r#"{"type":"ready"}"#), Some(BackendMessage::Ready)));
}

#[test]
fn decodes_select_and_remove_success() {
    assert!(matches!(
        decode_line(r#"{"type":"select-success","index":3}"#),
        Some(BackendMessage::SelectSuccess(3))
    ));
    assert!(matches!(
        decode_line(r#"{"type":"remove-success","index":0}"#),
        Some(BackendMessage::RemoveSuccess(0))
    ));
}

#[test]
fn decodes_success_message() {
    match decode_line(r#"{"type":"success","message":"cleared"}"#) {
        Some(BackendMessage::Success(m)) => assert_eq!(m, "cleared"),
        other => panic!("expected success, got {:?}", other),
    }
}

#[test]
fn unrecognized_tag_is_unknown_not_fatal() {
    assert!(matches!(decode_line(r#"{"type":"bogus"}"#), Some(BackendMessage::Unknown)));
}

#[test]
fn bogus_line_then_ready_still_observed() {
    // A stream of lines is decoded line by line: a bogus tag or a garbage
    // line never aborts decoding of the next line.
    let lines = [r#"{"type":"bogus"}"#, "not json at all", r#"{"type":"ready"}"#];
    let mut seen_ready = false;
    for l in lines {
        match decode_line(l) {
            Some(BackendMessage::Ready) => seen_ready = true,
            Some(BackendMessage::Unknown) => {}
            None => {}
            other => panic!("unexpected {:?}", other),
        }
    }
    assert!(seen_ready);
}

#[test]
fn malformed_lines_decode_to_nothing() {
    assert!(decode_line("").is_none());
    assert!(decode_line("   ").is_none());
    assert!(decode_line("[1,2]").is_none());
    assert!(decode_line(r#"{"type":"ready"} trailing"#).is_none());
    assert!(decode_line(r#"{"type":5}"#).is_none());
    assert!(decode_line(r#"{"notype":1}"#).is_none());
    // duplicate tag
    assert!(decode_line(r#"{"type":"ready","type":"ready"}"#).is_none());
    // unclosed object
    assert!(decode_line(r#"{"type":"ready""#).is_none());
}

#[test]
fn entry_field_errors_drop_the_line() {
    // negative id
    assert!(decode_line(
        r#"{"type":"entries","data":[{"id":-1,"content":"a","timestamp":0}]}"#
    )
    .is_none());
    // missing required field
    assert!(decode_line(r#"{"type":"entries","data":[{"id":1,"content":"a"}]}"#).is_none());
    // duplicate known field in an entry
    assert!(decode_line(
        r#"{"type":"entries","data":[{"id":1,"id":1,"content":"a","timestamp":0}]}"#
    )
    .is_none());
    // unknown kind string
    assert!(decode_line(
        r#"{"type":"entries","data":[{"id":1,"content":"a","timestamp":0,"type":"video"}]}"#
    )
    .is_none());
    // leading zero in a number is not valid JSON
    assert!(decode_line(
        r#"{"type":"entries","data":[{"id":01,"content":"a","timestamp":0}]}"#
    )
    .is_none());
    // missing data under the entries tag
    assert!(decode_line(r#"{"type":"entries"}"#).is_none());
}

#[test]
fn string_escapes_are_decoded() {
    let line = r#"{"type":"success","message":"a\nb\t\"q\"\\A"}"#;
    match decode_line(line) {
        Some(BackendMessage::Success(m)) => assert_eq!(m, "a\nb\t\"q\"\\A"),
        other => panic!("expected success, got {:?}", other),
    }
}

#[test]
fn surrogate_pairs_and_lone_surrogates() {
    match decode_line(r#"{"type":"success","message":"😀"}"#) {
        Some(BackendMessage::Success(m)) => assert_eq!(m, "\u{1F600}"),
        other => panic!("expected success, got {:?}", other),
    }
    assert!(decode_line(r#"{"type":"success","message":"\ud83d"}"#).is_none());
    assert!(decode_line(r#"{"type":"success","message":"\ude00"}"#).is_none());
}

#[test]
fn whitespace_and_field_order_are_tolerated() {
    let line = " { \"data\" : [ ] ,\t\"type\" : \"entries\" } ";
    match decode_line(line) {
        Some(BackendMessage::Entries(data)) => assert_eq!(data.len(), 0),
        other => panic!("expected entries, got {:?}", other),
    }
}

#[test]
fn unknown_fields_are_skipped() {
    let line = r#"{"type":"entries","extra":{"deep":[1,2.5,true,null,"x"]},"data":[{"id":7,"content":"c","timestamp":-5,"pad":[{}]}]}"#;
    match decode_line(line) {
        Some(BackendMessage::Entries(data)) => {
            assert_eq!(data.len(), 1);
            assert_eq!(data[0].id, 7);
            assert_eq!(data[0].timestamp, -5);
        }
        other => panic!("expected entries, got {:?}", other),
    }
}

#[test]
fn payload_shape_matters_only_for_the_variant() {
    // an ill-shaped index is fatal for select-success...
    assert!(decode_line(r#"{"type":"select-success","index":"three"}"#).is_none());
    assert!(decode_line(r#"{"type":"select-success","index":1.5}"#).is_none());
    assert!(decode_line(r#"{"type":"select-success"}"#).is_none());
    // ...but harmless under any other tag
    assert!(matches!(
        decode_line(r#"{"type":"ready","index":1.5}"#),
        Some(BackendMessage::Ready)
    ));
    assert!(matches!(
        decode_line(r#"{"type":"mystery","data":17,"index":[],"message":{}}"#),
        Some(BackendMessage::Unknown)
    ));
}

#[test]
fn duplicate_payload_fields_are_fatal_only_for_the_variant() {
    assert!(decode_line(r#"{"type":"select-success","index":1,"index":2}"#).is_none());
    assert!(matches!(
        decode_line(r#"{"type":"ready","index":1,"index":2}"#),
        Some(BackendMessage::Ready)
    ));
}

#[test]
fn large_and_edge_numbers() {
    match decode_line(r#"{"type":"entries","data":[{"id":0,"content":"","timestamp":9223372036854775807}]}"#)
    {
        Some(BackendMessage::Entries(data)) => {
            assert_eq!(data[0].id, 0);
            assert_eq!(data[0].timestamp, i64::MAX);
            assert_eq!(data[0].content, "");
        }
        other => panic!("expected entries, got {:?}", other),
    }
    // too big for an i64 timestamp
    assert!(decode_line(
        r#"{"type":"entries","data":[{"id":1,"content":"a","timestamp":9223372036854775808}]}"#
    )
    .is_none());
    // the most negative i64 is accepted; one below is not
    match decode_line(
        r#"{"type":"entries","data":[{"id":1,"content":"a","timestamp":-9223372036854775808}]}"#,
    ) {
        Some(BackendMessage::Entries(data)) => assert_eq!(data[0].timestamp, i64::MIN),
        other => panic!("expected entries, got {:?}", other),
    }
    assert!(decode_line(
        r#"{"type":"entries","data":[{"id":1,"content":"a","timestamp":-9223372036854775809}]}"#
    )
    .is_none());
}
