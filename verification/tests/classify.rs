//! Tests for parsing, severity classification and the line classifier.

use jl_proc::classify_lines;
use jl_proc::parse_line;
use jl_proc::LineItem;
use jl_proc::LogEntry;
use jl_proc::LogEntryIterator;
use jl_proc::ReadEvent;
use jl_proc::SeverityLevel;
use jl_proc::StructuredValue;

#[test]
fn can_deserialize_log_entry() {
    let json = r#"{
            "timestamp": "2024-03-15T12:34:56.042Z",
            "level": "info",
            "message": "This is a log message",
            "user_id": 42,
            "session_id": "abc123"
        }"#;

    let log_entry: LogEntry = parse_line(json).unwrap();
    assert_eq!(log_entry.timestamp, "2024-03-15T12:34:56.042Z");
    assert_eq!(log_entry.timestamp_short(), "12:34:56.042");
    assert_eq!(log_entry.level(), SeverityLevel::Info);
    assert_eq!(log_entry.message, "This is a log message");
    assert_eq!(log_entry.extras.len(), 2);
    assert_eq!(
        log_entry.extras[0],
        ("user_id".to_string(), StructuredValue::Number("42".to_string()))
    );
    assert_eq!(
        log_entry.extras[1],
        ("session_id".to_string(), StructuredValue::Text("abc123".to_string()))
    );
}

#[test]
fn iterator_handles_entries() {
    let raw = r#"{"timestamp": "2024-03-15T12:34:56.123Z", "level": "info", "message": "This is a log message"}

{bad}
{"timestamp": "2024-03-15T12:34:56.123Z", "level": "info", "message": "This is a log message"}

{"timestamp": "2024-03-15T12:34:56.123Z", "level": "info", "message": "This is a log message"}"#
        .to_owned();

    let events: Vec<ReadEvent> = raw.lines().map(|l| ReadEvent::Line(l.to_string())).collect();
    let entries = classify_lines(events);
    assert_eq!(entries.len(), 6);
    assert!(matches!(entries[0], LineItem::Entry(_)));
    assert!(matches!(entries[1], LineItem::EmptyLine(2)));
    assert!(matches!(entries[2], LineItem::ParseError(3, _)));
    assert!(matches!(entries[3], LineItem::Entry(_)));
    assert!(matches!(entries[4], LineItem::EmptyLine(5)));
    assert!(matches!(entries[5], LineItem::Entry(_)));
}

#[test]
fn iterator_handles_read_errors() {
    let events = vec![ReadEvent::Fault("Simulated error".to_string())];
    let entries = classify_lines(events);
    assert_eq!(entries.len(), 1);
    assert!(matches!(entries[0], LineItem::ReadError(1, _)));
}

#[test]
fn read_fault_latches_the_classifier() {
    let mut it = LogEntryIterator::new();
    let first = it.next_item(ReadEvent::Fault("boom".to_string()));
    assert!(matches!(first, Some(LineItem::ReadError(1, _))));
    let after = it.next_item(ReadEvent::Line("".to_string()));
    assert!(after.is_none());
    let again = it.next_item(ReadEvent::Fault("boom".to_string()));
    assert!(again.is_none());
}

#[test]
fn read_fault_is_last_outcome() {
    let events = vec![
        ReadEvent::Line("".to_string()),
        ReadEvent::Fault("disk gone".to_string()),
        ReadEvent::Line("".to_string()),
        ReadEvent::Line("{}".to_string()),
    ];
    let entries = classify_lines(events);
    assert_eq!(entries.len(), 2);
    assert!(matches!(entries[0], LineItem::EmptyLine(1)));
    assert!(matches!(entries[1], LineItem::ReadError(2, _)));
}

#[test]
fn severity_synonyms() {
    let entry = |lvl: &str| LogEntry {
        timestamp: "2024-03-15T12:34:56.123Z".to_string(),
        level: lvl.to_string(),
        message: String::new(),
        extras: Vec::new(),
    };
    assert_eq!(entry("fatal").level(), SeverityLevel::Fatal);
    assert_eq!(entry("error").level(), SeverityLevel::Error);
    assert_eq!(entry("warn").level(), SeverityLevel::Warn);
    assert_eq!(entry("warning").level(), SeverityLevel::Warn);
    assert_eq!(entry("info").level(), SeverityLevel::Info);
    assert_eq!(entry("debug").level(), SeverityLevel::Debug);
    assert_eq!(entry("verbose").level(), SeverityLevel::Verbose);
    assert_eq!(entry("trace").level(), SeverityLevel::Verbose);
    assert_eq!(entry("silly").level(), SeverityLevel::Verbose);
    assert_eq!(
        entry("WARN").level(),
        SeverityLevel::Other("WARN".to_string())
    );
}

#[test]
fn severity_ranks() {
    assert_eq!(SeverityLevel::Fatal.as_u8(), 0);
    assert_eq!(SeverityLevel::Error.as_u8(), 1);
    assert_eq!(SeverityLevel::Warn.as_u8(), 2);
    assert_eq!(SeverityLevel::Info.as_u8(), 3);
    assert_eq!(SeverityLevel::Debug.as_u8(), 4);
    assert_eq!(SeverityLevel::Verbose.as_u8(), 5);
    assert_eq!(SeverityLevel::Other("x".to_string()).as_u8(), 6);
}

#[test]
fn parse_rejects_malformed_json() {
    let err = parse_line("{bad}").unwrap_err();
    assert!(!err.is_empty());
}

#[test]
fn parse_rejects_non_object() {
    let err = parse_line("[1, 2]").unwrap_err();
    assert_eq!(err, "expected a json object");
}

#[test]
fn parse_reports_each_missing_field() {
    let err = parse_line(r#"{"level": "info", "message": "hi"}"#).unwrap_err();
    assert_eq!(err, "missing field timestamp");
    let err = parse_line(r#"{"timestamp": "t", "message": "hi"}"#).unwrap_err();
    assert_eq!(err, "missing field level");
    let err = parse_line(r#"{"timestamp": "t", "level": "info"}"#).unwrap_err();
    assert_eq!(err, "missing field message");
}

#[test]
fn parse_reports_wrong_field_types() {
    let err = parse_line(r#"{"timestamp": 5, "level": "info", "message": "hi"}"#).unwrap_err();
    assert_eq!(err, "field timestamp is not a string");
    let err = parse_line(r#"{"timestamp": "t", "level": [], "message": "hi"}"#).unwrap_err();
    assert_eq!(err, "field level is not a string");
    let err = parse_line(r#"{"timestamp": "t", "level": "info", "message": 7}"#).unwrap_err();
    assert_eq!(err, "field message is not a string");
}

#[test]
fn parse_preserves_numeric_text_verbatim() {
    let entry =
        parse_line(r#"{"timestamp": "t", "level": "info", "message": "m", "n": 1.50}"#).unwrap();
    assert_eq!(
        entry.extras[0],
        ("n".to_string(), StructuredValue::Number("1.50".to_string()))
    );
}

#[test]
fn parse_keeps_extra_fields_in_source_order() {
    let entry = parse_line(
        r#"{"b": 2, "timestamp": "t", "a": 1, "level": "info", "message": "m", "c": null}"#,
    )
    .unwrap();
    assert_eq!(entry.extras.len(), 3);
    assert_eq!(entry.extras[0].0, "b");
    assert_eq!(entry.extras[1].0, "a");
    assert_eq!(entry.extras[2].0, "c");
    assert_eq!(entry.extras[2].1, StructuredValue::Null);
}
