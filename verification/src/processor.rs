//! The session/run aggregator: the one stateful pass over the classified
//! stream. It collapses runs of empty lines into a single summary, inserts
//! session markers, and renders every outcome in input order.

use crate::entry::SpecRecord;
use crate::formatter::empty_lines_line;
use crate::formatter::parse_error_line;
use crate::formatter::read_error_line;
use crate::formatter::record_line;
use crate::formatter::session_start_line;
use crate::formatter::LogEntryFormatter;
use crate::iterator::items_view;
use crate::iterator::LineItem;
use crate::iterator::SpecOutcome;
use crate::text::starts_with_str;
use vstd::prelude::*;
use vstd::string::StringExecFns;

verus! {

/// The options for processing classified lines.
pub struct ProcessorOptions {
    /// If true, runs of empty lines are collapsed silently, with no summary.
    pub skip_empty_lines: bool,
    /// A message prefix that marks the start of a new session, if any.
    pub session_start: Option<String>,
}

/// A processor that renders classified lines as output text.
pub struct LogEntryProcessor {
    /// The options for processing log entries.
    pub options: ProcessorOptions,
}

/// Whether a record's message starts a new session under these options.
pub open spec fn session_matches(o: ProcessorOptions, rec: SpecRecord) -> bool {
    match o.session_start {
        Some(p) => p@.len() <= rec.message@.len() && rec.message@.subrange(0, p@.len() as int)
            == p@,
        None => false,
    }
}

/// The text emitted for one outcome, given the current run counter: a
/// record flushes a pending run summary (over 1 empty line, unless
/// suppressed) and a session marker before its own line; faults render
/// their line without touching the run.
pub open spec fn step_text(
    o: ProcessorOptions,
    f: LogEntryFormatter,
    source: Seq<char>,
    counter: nat,
    item: SpecOutcome,
) -> Seq<char> {
    match item {
        SpecOutcome::Rec(rec) => (if counter > 1 && !o.skip_empty_lines {
            empty_lines_line(source, counter)
        } else {
            Seq::<char>::empty()
        }) + (if session_matches(o, rec) {
            session_start_line()
        } else {
            Seq::<char>::empty()
        }) + record_line(f, rec),
        SpecOutcome::EmptyLine(n) => Seq::empty(),
        SpecOutcome::ReadFault(n, d) => read_error_line(source, n, d),
        SpecOutcome::ParseFault(n, d) => parse_error_line(source, n, d),
    }
}

/// The run counter after one outcome: reset by a record, grown by an empty
/// line, untouched by faults.
pub open spec fn step_counter(counter: nat, item: SpecOutcome) -> nat {
    match item {
        SpecOutcome::Rec(rec) => 0,
        SpecOutcome::EmptyLine(n) => counter + 1,
        SpecOutcome::ReadFault(n, d) => counter,
        SpecOutcome::ParseFault(n, d) => counter,
    }
}

/// The text emitted for a whole sequence of outcomes, in input order.
pub open spec fn process_text(
    o: ProcessorOptions,
    f: LogEntryFormatter,
    source: Seq<char>,
    items: Seq<SpecOutcome>,
    counter: nat,
) -> Seq<char>
    decreases items.len(),
{
    if items.len() == 0 {
        Seq::empty()
    } else {
        step_text(o, f, source, counter, items[0]) + process_text(
            o,
            f,
            source,
            items.subrange(1, items.len() as int),
            step_counter(counter, items[0]),
        )
    }
}

impl LogEntryProcessor {
    /// A processor with the given options.
    pub fn new(options: ProcessorOptions) -> (r: Self)
        ensures
            r.options == options,
    {
        LogEntryProcessor { options }
    }

    /// Renders one classified line, updating the empty-line run counter.
    pub fn process_item(
        &self,
        fmt: &LogEntryFormatter,
        source: &str,
        counter: &mut usize,
        item: &LineItem,
    ) -> (r: String)
        requires
            *old(counter) < usize::MAX,
        ensures
            r@ == step_text(self.options, *fmt, source@, *old(counter) as nat, item@),
            *final(counter) as nat == step_counter(*old(counter) as nat, item@),
    {
        match item {
            LineItem::Entry(e) => {
                let mut s = String::new();
                if *counter > 1 && !self.options.skip_empty_lines {
                    let summary = fmt.format_empty_lines(*counter, source);
                    s.append(summary.as_str());
                }
                *counter = 0;
                match &self.options.session_start {
                    Some(p) => {
                        if starts_with_str(e.message.as_str(), p.as_str()) {
                            let marker = fmt.format_session_start(e);
                            s.append(marker.as_str());
                        }
                    },
                    None => {},
                }
                let line = fmt.format_entry(e);
                s.append(line.as_str());
                proof {
                    assert(s@ =~= step_text(
                        self.options,
                        *fmt,
                        source@,
                        *old(counter) as nat,
                        item@,
                    ));
                }
                s
            },
            LineItem::EmptyLine(n) => {
                *counter = *counter + 1;
                String::new()
            },
            LineItem::ReadError(n, d) => fmt.format_read_error(*n, source, d.as_str()),
            LineItem::ParseError(n, d) => fmt.format_parse_error(*n, source, d.as_str()),
        }
    }

    /// Renders a whole sequence of classified lines, in input order, from a
    /// fresh run counter.
    pub fn process_entries(
        &self,
        entries: &Vec<LineItem>,
        source: &str,
        fmt: &LogEntryFormatter,
    ) -> (r: String)
        ensures
            r@ == process_text(self.options, *fmt, source@, items_view(entries@), 0),
    {
        let ghost target = process_text(self.options, *fmt, source@, items_view(entries@), 0);
        let mut out = String::new();
        let mut counter: usize = 0;
        let mut i: usize = 0;
        proof {
            assert(items_view(entries@).subrange(0, entries@.len() as int) =~= items_view(
                entries@,
            ));
            assert(out@ + target =~= target);
        }
        while i < entries.len()
            invariant
                i <= entries@.len(),
                counter <= i,
                out@ + process_text(
                    self.options,
                    *fmt,
                    source@,
                    items_view(entries@).subrange(i as int, entries@.len() as int),
                    counter as nat,
                ) == target,
            decreases entries@.len() - i,
        {
            let ghost pre_counter = counter as nat;
            let ghost remaining = items_view(entries@).subrange(i as int, entries@.len() as int);
            let piece = self.process_item(fmt, source, &mut counter, &entries[i]);
            out.append(piece.as_str());
            proof {
                assert(items_view(entries@)[i as int] == entries@[i as int]@);
                assert(remaining[0] == entries@[i as int]@);
                assert(remaining.subrange(1, remaining.len() as int) =~= items_view(
                    entries@,
                ).subrange(i as int + 1, entries@.len() as int));
                assert(out@ + process_text(
                    self.options,
                    *fmt,
                    source@,
                    items_view(entries@).subrange(i as int + 1, entries@.len() as int),
                    counter as nat,
                ) =~= target);
            }
            i = i + 1;
        }
        proof {
            assert(items_view(entries@).subrange(
                entries@.len() as int,
                entries@.len() as int,
            ) =~= Seq::<SpecOutcome>::empty());
            assert(out@ =~= target);
        }
        out
    }
}

} // verus!
