//! Human-friendly rendering of newline-delimited JSON log records.
//!
//! The crate classifies raw input lines into typed outcomes, lays out
//! structured values compactly or expanded, and renders each outcome as a
//! single line of text, optionally colorized.

pub mod ansi;
pub mod entry;
pub mod formatter;
pub mod iterator;
pub mod parse;
pub mod processor;
pub mod text;
pub mod value;
pub mod value_printer;

pub use ansi::ansi_bg;
pub use ansi::ansi_fg;
pub use ansi::ansi_fg_bg;
pub use ansi::ansi_reset;
pub use entry::LogEntry;
pub use entry::SeverityLevel;
pub use formatter::LogEntryFormatter;
pub use iterator::classify_lines;
pub use iterator::LineItem;
pub use iterator::LogEntryIterator;
pub use iterator::ReadEvent;
pub use parse::entry_from_value;
pub use parse::parse_line;
pub use processor::LogEntryProcessor;
pub use processor::ProcessorOptions;
pub use text::starts_with_str;
pub use text::str_eq;
pub use text::usize_to_string;
pub use value::StructuredValue;
pub use value_printer::ValuePrinter;
pub use value_printer::ValuePrinterConfig;
