//! Tests for the stream formatter and the session/run aggregator.

use jl_proc::classify_lines;
use jl_proc::parse_line;
use jl_proc::LineItem;
use jl_proc::LogEntry;
use jl_proc::LogEntryFormatter;
use jl_proc::LogEntryProcessor;
use jl_proc::ProcessorOptions;
use jl_proc::ReadEvent;

fn entry(timestamp: &str, level: &str, message: &str) -> LogEntry {
    LogEntry {
        timestamp: timestamp.to_string(),
        level: level.to_string(),
        message: message.to_string(),
        extras: Vec::new(),
    }
}

#[test]
fn shows_sources_when_they_change() {
    let options = ProcessorOptions {
        skip_empty_lines: false,
        session_start: None,
    };
    let entries = vec![
        LineItem::Entry(entry(
            "2024-01-01T10:32:51.123Z",
            "info",
            "A log message",
        )),
        LineItem::Entry(entry(
            "2024-01-01T10:32:53.456Z",
            "warn",
            "Another log message",
        )),
    ];
    let processor = LogEntryProcessor::new(options);
    let formatter = LogEntryFormatter::new(false);
    let output = processor.process_entries(&entries, "test.log", &formatter);
    let expected = "10:32:51.123 [inf] A log message\n\
10:32:53.456 [wrn] Another log message\n";
    assert_eq!(output, expected);
}

#[test]
fn renders_single_record_line() {
    let line = r#"{"timestamp":"2024-03-15T12:34:56.123Z","level":"info","message":"hi"}"#;
    let log_entry = parse_line(line).unwrap();
    let formatter = LogEntryFormatter::new(false);
    let rendered = formatter.format_entry(&log_entry);
    assert_eq!(rendered, "12:34:56.123 [inf] hi\n");
}

#[test]
fn record_then_bad_line_then_record() {
    let raw = vec![
        r#"{"timestamp":"2024-03-15T12:34:56.123Z","level":"info","message":"one"}"#,
        "{bad}",
        r#"{"timestamp":"2024-03-15T12:34:57.456Z","level":"info","message":"two"}"#,
    ];
    let events: Vec<ReadEvent> = raw
        .iter()
        .map(|l| ReadEvent::Line(l.to_string()))
        .collect();
    let outcomes = classify_lines(events);
    assert_eq!(outcomes.len(), 3);
    assert!(matches!(outcomes[0], LineItem::Entry(_)));
    assert!(matches!(outcomes[1], LineItem::ParseError(2, _)));
    assert!(matches!(outcomes[2], LineItem::Entry(_)));
}

#[test]
fn empty_line_run_is_summarized() {
    let record = r#"{"timestamp":"2024-03-15T12:34:56.123Z","level":"info","message":"hi"}"#;
    let events = vec![
        ReadEvent::Line("".to_string()),
        ReadEvent::Line("".to_string()),
        ReadEvent::Line("".to_string()),
        ReadEvent::Line(record.to_string()),
    ];
    let outcomes = classify_lines(events);
    let formatter = LogEntryFormatter::new(false);

    let with_summaries = LogEntryProcessor::new(ProcessorOptions {
        skip_empty_lines: false,
        session_start: None,
    });
    let output = with_summaries.process_entries(&outcomes, "app.log", &formatter);
    assert_eq!(
        output,
        "app.log: 3 empty lines skipped -----------\n12:34:56.123 [inf] hi\n"
    );

    let without_summaries = LogEntryProcessor::new(ProcessorOptions {
        skip_empty_lines: true,
        session_start: None,
    });
    let output = without_summaries.process_entries(&outcomes, "app.log", &formatter);
    assert_eq!(output, "12:34:56.123 [inf] hi\n");
}

#[test]
fn single_empty_line_passes_silently() {
    let items = vec![
        LineItem::EmptyLine(1),
        LineItem::Entry(entry("2024-01-01T10:32:51.123Z", "info", "hello")),
    ];
    let processor = LogEntryProcessor::new(ProcessorOptions {
        skip_empty_lines: false,
        session_start: None,
    });
    let formatter = LogEntryFormatter::new(false);
    let output = processor.process_entries(&items, "app.log", &formatter);
    assert_eq!(output, "10:32:51.123 [inf] hello\n");
}

#[test]
fn session_start_marker_precedes_record() {
    let items = vec![LineItem::Entry(entry(
        "2024-01-01T10:32:51.123Z",
        "info",
        "STARTED now",
    ))];
    let processor = LogEntryProcessor::new(ProcessorOptions {
        skip_empty_lines: false,
        session_start: Some("START".to_string()),
    });
    let formatter = LogEntryFormatter::new(false);
    let output = processor.process_entries(&items, "app.log", &formatter);
    assert_eq!(
        output,
        "----------- session start -----------\n10:32:51.123 [inf] STARTED now\n"
    );
}

#[test]
fn session_prefix_is_case_sensitive() {
    let items = vec![LineItem::Entry(entry(
        "2024-01-01T10:32:51.123Z",
        "info",
        "started now",
    ))];
    let processor = LogEntryProcessor::new(ProcessorOptions {
        skip_empty_lines: false,
        session_start: Some("START".to_string()),
    });
    let formatter = LogEntryFormatter::new(false);
    let output = processor.process_entries(&items, "app.log", &formatter);
    assert_eq!(output, "10:32:51.123 [inf] started now\n");
}

#[test]
fn parse_fault_does_not_interrupt_an_empty_run() {
    let items = vec![
        LineItem::EmptyLine(1),
        LineItem::EmptyLine(2),
        LineItem::ParseError(3, "bad".to_string()),
        LineItem::EmptyLine(4),
        LineItem::Entry(entry("2024-01-01T10:32:51.123Z", "info", "hello")),
    ];
    let processor = LogEntryProcessor::new(ProcessorOptions {
        skip_empty_lines: false,
        session_start: None,
    });
    let formatter = LogEntryFormatter::new(false);
    let output = processor.process_entries(&items, "app.log", &formatter);
    assert_eq!(
        output,
        "app.log(3): Parse error bad\napp.log: 3 empty lines skipped -----------\n10:32:51.123 [inf] hello\n"
    );
}

#[test]
fn fault_lines_carry_source_and_line_number() {
    let formatter = LogEntryFormatter::new(false);
    assert_eq!(
        formatter.format_read_error(7, "app.log", "gone"),
        "app.log(7): Read error gone\n"
    );
    assert_eq!(
        formatter.format_parse_error(12, "app.log", "broken"),
        "app.log(12): Parse error broken\n"
    );
    assert_eq!(
        formatter.format_empty_lines(4, "app.log"),
        "app.log: 4 empty lines skipped -----------\n"
    );
}

#[test]
fn colored_record_line_uses_severity_color() {
    let formatter = LogEntryFormatter::new(true);
    let rendered = formatter.format_entry(&entry("2024-01-01T10:32:51.123Z", "error", "bad"));
    assert_eq!(
        rendered,
        "\x1b[38;5;4m10:32:51.123\x1b[38;5;9m [err] bad\x1b[m\n"
    );
}

#[test]
fn other_severity_tag_is_the_raw_string() {
    let formatter = LogEntryFormatter::new(false);
    let rendered = formatter.format_entry(&entry("2024-01-01T10:32:51.123Z", "Notice", "n"));
    assert_eq!(rendered, "10:32:51.123 [Notice] n\n");
}

#[test]
fn short_timestamp_passes_through_unchanged() {
    let formatter = LogEntryFormatter::new(false);
    let rendered = formatter.format_entry(&entry("short", "info", "m"));
    assert_eq!(rendered, "short [inf] m\n");
}
