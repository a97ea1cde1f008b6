//! The record model: severity levels and one parsed log line.

use crate::text::str_eq;
use crate::value::StructuredValue;
use vstd::prelude::*;
use vstd::string::StrSliceExecFns;

verus! {

/// The severity level of a log entry, ordered by urgency.
///
/// The closed set is roughly the npm logging levels; any unrecognized raw
/// string is preserved verbatim in `Other`.
#[derive(Debug, PartialEq)]
pub enum SeverityLevel {
    Fatal,
    Error,
    Warn,
    Info,
    Debug,
    Verbose,
    Other(String),
}

/// The numeric rank of a severity level: 0 is the most urgent.
pub open spec fn severity_rank(v: SeverityLevel) -> int {
    match v {
        SeverityLevel::Fatal => 0,
        SeverityLevel::Error => 1,
        SeverityLevel::Warn => 2,
        SeverityLevel::Info => 3,
        SeverityLevel::Debug => 4,
        SeverityLevel::Verbose => 5,
        SeverityLevel::Other(_) => 6,
    }
}

/// The classification of a raw level token: case-sensitive synonym table,
/// with every unmatched token preserved verbatim in `Other`.
pub open spec fn spec_level_of(raw: String) -> SeverityLevel {
    if raw@ == "fatal"@ {
        SeverityLevel::Fatal
    } else if raw@ == "error"@ {
        SeverityLevel::Error
    } else if raw@ == "warn"@ || raw@ == "warning"@ {
        SeverityLevel::Warn
    } else if raw@ == "info"@ {
        SeverityLevel::Info
    } else if raw@ == "debug"@ {
        SeverityLevel::Debug
    } else if raw@ == "verbose"@ || raw@ == "trace"@ || raw@ == "silly"@ {
        SeverityLevel::Verbose
    } else {
        SeverityLevel::Other(raw)
    }
}

impl SeverityLevel {
    /// The numeric value of the severity level; `Other` ranks last.
    pub fn as_u8(&self) -> (r: usize)
        ensures
            r == severity_rank(*self),
    {
        match self {
            SeverityLevel::Fatal => 0,
            SeverityLevel::Error => 1,
            SeverityLevel::Warn => 2,
            SeverityLevel::Info => 3,
            SeverityLevel::Debug => 4,
            SeverityLevel::Verbose => 5,
            SeverityLevel::Other(_) => 6,
        }
    }
}

/// One parsed log line: the three required fields, and every further
/// top-level object field folded into `extras` in source order.
#[derive(Debug)]
pub struct LogEntry {
    pub timestamp: String,
    pub level: String,
    pub message: String,
    pub extras: Vec<(String, StructuredValue)>,
}

/// The specification-level image of a parsed log line.
pub ghost struct SpecRecord {
    pub timestamp: String,
    pub level: String,
    pub message: String,
    pub extras: Seq<(String, StructuredValue)>,
}

impl View for LogEntry {
    type V = SpecRecord;

    open spec fn view(&self) -> SpecRecord {
        SpecRecord {
            timestamp: self.timestamp,
            level: self.level,
            message: self.message,
            extras: self.extras@,
        }
    }
}

/// The `HH:MM:SS.mmm` slice of a canonical ISO-8601 timestamp; a timestamp
/// too short for the fixed-offset slice is passed through unchanged.
pub open spec fn short_timestamp(ts: Seq<char>) -> Seq<char> {
    if ts.len() >= 23 {
        ts.subrange(11, 23)
    } else {
        ts
    }
}

impl LogEntry {
    /// The timestamp shortened to its `HH:MM:SS.mmm` slice.
    pub fn timestamp_short(&self) -> (r: &str)
        requires
            self.timestamp@.len() >= 23,
        ensures
            r@ == self.timestamp@.subrange(11, 23),
    {
        self.timestamp.as_str().substring_char(11, 23)
    }

    /// The severity classification of this entry's raw level token.
    pub fn level(&self) -> (r: SeverityLevel)
        ensures
            r == spec_level_of(self.level),
    {
        let raw = self.level.as_str();
        if str_eq(raw, "fatal") {
            SeverityLevel::Fatal
        } else if str_eq(raw, "error") {
            SeverityLevel::Error
        } else if str_eq(raw, "warn") || str_eq(raw, "warning") {
            SeverityLevel::Warn
        } else if str_eq(raw, "info") {
            SeverityLevel::Info
        } else if str_eq(raw, "debug") {
            SeverityLevel::Debug
        } else if str_eq(raw, "verbose") || str_eq(raw, "trace") || str_eq(raw, "silly") {
            SeverityLevel::Verbose
        } else {
            SeverityLevel::Other(self.level.clone())
        }
    }
}

} // verus!
