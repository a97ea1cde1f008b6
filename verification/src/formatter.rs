//! The stream formatter: renders each classified outcome as one line of
//! text, optionally wrapped in ANSI color sequences. Writing the text to a
//! sink is the caller's business.

use crate::entry::short_timestamp;
use crate::entry::spec_level_of;
use crate::entry::LogEntry;
use crate::entry::SeverityLevel;
use crate::entry::SpecRecord;
use crate::text::dec_digits;
use crate::text::usize_to_string;
use vstd::prelude::*;
use vstd::string::StrSliceExecFns;
use vstd::string::StringExecFns;

verus! {

/// A formatter for classified lines: the color-dependent fragments are
/// fixed at construction, so that one code path serves both modes.
pub struct LogEntryFormatter {
    pub use_color: bool,
    pub timestamp_format: String,
    pub eol: String,
}

/// The color lead-in for a severity tag; empty when color is disabled.
pub open spec fn level_color(use_color: bool, v: SeverityLevel) -> Seq<char> {
    if !use_color {
        Seq::empty()
    } else {
        match v {
            SeverityLevel::Fatal => "\x1b[48;5;9;38;5;11m"@,
            SeverityLevel::Error => "\x1b[38;5;9m"@,
            SeverityLevel::Warn => "\x1b[38;5;11m"@,
            SeverityLevel::Info => "\x1b[38;5;254m"@,
            SeverityLevel::Debug => "\x1b[38;5;27m"@,
            SeverityLevel::Verbose => "\x1b[38;5;6m"@,
            SeverityLevel::Other(s) => "\x1b[38;5;5m"@,
        }
    }
}

/// The fixed 3-letter code of a severity, or the raw string for `Other`.
pub open spec fn tag_of(v: SeverityLevel) -> Seq<char> {
    match v {
        SeverityLevel::Fatal => "ftl"@,
        SeverityLevel::Error => "err"@,
        SeverityLevel::Warn => "wrn"@,
        SeverityLevel::Info => "inf"@,
        SeverityLevel::Debug => "dbg"@,
        SeverityLevel::Verbose => "vrb"@,
        SeverityLevel::Other(s) => s@,
    }
}

/// The rendered line for one record: shortened timestamp, bracketed
/// severity tag, message, line terminator.
pub open spec fn record_line(f: LogEntryFormatter, rec: SpecRecord) -> Seq<char> {
    f.timestamp_format@ + short_timestamp(rec.timestamp@) + level_color(
        f.use_color,
        spec_level_of(rec.level),
    ) + " ["@ + tag_of(spec_level_of(rec.level)) + "] "@ + rec.message@ + f.eol@
}

/// The summary line for a run of empty lines.
pub open spec fn empty_lines_line(source: Seq<char>, n: nat) -> Seq<char> {
    source + ": "@ + dec_digits(n) + " empty lines skipped -----------\n"@
}

/// The rendered line for a read fault.
pub open spec fn read_error_line(source: Seq<char>, line_no: nat, error: Seq<char>) -> Seq<char> {
    source + "("@ + dec_digits(line_no) + "): Read error "@ + error + "\n"@
}

/// The rendered line for a parse fault.
pub open spec fn parse_error_line(source: Seq<char>, line_no: nat, error: Seq<char>) -> Seq<char> {
    source + "("@ + dec_digits(line_no) + "): Parse error "@ + error + "\n"@
}

/// The marker line that precedes a session-starting record.
pub open spec fn session_start_line() -> Seq<char> {
    "----------- session start -----------\n"@
}

impl LogEntryFormatter {
    /// A formatter for the given color mode.
    pub fn new(use_color: bool) -> (r: Self)
        ensures
            r.use_color == use_color,
            use_color ==> r.timestamp_format@ == "\x1b[38;5;4m"@ && r.eol@ == "\x1b[m\n"@,
            !use_color ==> r.timestamp_format@ == Seq::<char>::empty() && r.eol@ == "\n"@,
    {
        if use_color {
            LogEntryFormatter {
                use_color,
                timestamp_format: String::from_str("\x1b[38;5;4m"),
                eol: String::from_str("\x1b[m\n"),
            }
        } else {
            LogEntryFormatter {
                use_color,
                timestamp_format: String::new(),
                eol: String::from_str("\n"),
            }
        }
    }

    /// Renders one record as its output line.
    pub fn format_entry(&self, entry: &LogEntry) -> (r: String)
        ensures
            r@ == record_line(*self, entry@),
    {
        let mut s = String::new();
        s.append(self.timestamp_format.as_str());
        if entry.timestamp.as_str().unicode_len() >= 23 {
            s.append(entry.timestamp_short());
        } else {
            s.append(entry.timestamp.as_str());
        }
        let sev = entry.level();
        if self.use_color {
            match &sev {
                SeverityLevel::Fatal => s.append("\x1b[48;5;9;38;5;11m"),
                SeverityLevel::Error => s.append("\x1b[38;5;9m"),
                SeverityLevel::Warn => s.append("\x1b[38;5;11m"),
                SeverityLevel::Info => s.append("\x1b[38;5;254m"),
                SeverityLevel::Debug => s.append("\x1b[38;5;27m"),
                SeverityLevel::Verbose => s.append("\x1b[38;5;6m"),
                SeverityLevel::Other(o) => s.append("\x1b[38;5;5m"),
            }
        }
        s.append(" [");
        match &sev {
            SeverityLevel::Fatal => s.append("ftl"),
            SeverityLevel::Error => s.append("err"),
            SeverityLevel::Warn => s.append("wrn"),
            SeverityLevel::Info => s.append("inf"),
            SeverityLevel::Debug => s.append("dbg"),
            SeverityLevel::Verbose => s.append("vrb"),
            SeverityLevel::Other(o) => s.append(o.as_str()),
        }
        s.append("] ");
        s.append(entry.message.as_str());
        s.append(self.eol.as_str());
        proof {
            assert(s@ =~= record_line(*self, entry@));
        }
        s
    }

    /// Renders the summary line for a run of `n` empty lines.
    pub fn format_empty_lines(&self, n: usize, source: &str) -> (r: String)
        ensures
            r@ == empty_lines_line(source@, n as nat),
    {
        let mut s = String::new();
        s.append(source);
        s.append(": ");
        let digits = usize_to_string(n);
        s.append(digits.as_str());
        s.append(" empty lines skipped -----------\n");
        proof {
            assert(s@ =~= empty_lines_line(source@, n as nat));
        }
        s
    }

    /// Renders the line reporting a read fault.
    pub fn format_read_error(&self, line_no: usize, source: &str, error: &str) -> (r: String)
        ensures
            r@ == read_error_line(source@, line_no as nat, error@),
    {
        let mut s = String::new();
        s.append(source);
        s.append("(");
        let digits = usize_to_string(line_no);
        s.append(digits.as_str());
        s.append("): Read error ");
        s.append(error);
        s.append("\n");
        proof {
            assert(s@ =~= read_error_line(source@, line_no as nat, error@));
        }
        s
    }

    /// Renders the line reporting a parse fault.
    pub fn format_parse_error(&self, line_no: usize, source: &str, error: &str) -> (r: String)
        ensures
            r@ == parse_error_line(source@, line_no as nat, error@),
    {
        let mut s = String::new();
        s.append(source);
        s.append("(");
        let digits = usize_to_string(line_no);
        s.append(digits.as_str());
        s.append("): Parse error ");
        s.append(error);
        s.append("\n");
        proof {
            assert(s@ =~= parse_error_line(source@, line_no as nat, error@));
        }
        s
    }

    /// Renders the marker line for a session-starting record.
    pub fn format_session_start(&self, _entry: &LogEntry) -> (r: String)
        ensures
            r@ == session_start_line(),
    {
        String::from_str("----------- session start -----------\n")
    }
}

} // verus!
