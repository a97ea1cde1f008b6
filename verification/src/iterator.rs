//! The streaming line classifier.
//!
//! Each physical input line becomes exactly one `LineItem`; a read fault
//! latches the classifier so that nothing follows it. The reader loop that
//! produces `ReadEvent`s from an input source lives outside the library.

use crate::entry::LogEntry;
use crate::entry::SpecRecord;
use crate::parse::classify_text;
use crate::parse::parse_line;
use vstd::prelude::*;

verus! {

/// One step of input handed to the classifier: a line of text with its
/// terminator stripped, a read fault's description, or the end of input.
pub enum ReadEvent {
    Line(String),
    Fault(String),
    End,
}

/// The classification of one physical input line.
pub enum LineItem {
    Entry(LogEntry),
    EmptyLine(usize),
    ReadError(usize, String),
    ParseError(usize, String),
}

/// The specification-level image of a read event.
pub ghost enum SpecEvent {
    Line(Seq<char>),
    Fault(Seq<char>),
    End,
}

/// The specification-level image of a classified line.
pub ghost enum SpecOutcome {
    Rec(SpecRecord),
    EmptyLine(nat),
    ReadFault(nat, Seq<char>),
    ParseFault(nat, Seq<char>),
}

impl View for ReadEvent {
    type V = SpecEvent;

    open spec fn view(&self) -> SpecEvent {
        match self {
            ReadEvent::Line(s) => SpecEvent::Line(s@),
            ReadEvent::Fault(s) => SpecEvent::Fault(s@),
            ReadEvent::End => SpecEvent::End,
        }
    }
}

impl View for LineItem {
    type V = SpecOutcome;

    open spec fn view(&self) -> SpecOutcome {
        match self {
            LineItem::Entry(e) => SpecOutcome::Rec(e@),
            LineItem::EmptyLine(n) => SpecOutcome::EmptyLine(*n as nat),
            LineItem::ReadError(n, d) => SpecOutcome::ReadFault(*n as nat, d@),
            LineItem::ParseError(n, d) => SpecOutcome::ParseFault(*n as nat, d@),
        }
    }
}

/// The outcome for one line of text carrying number `line_no`: empty lines
/// pass through, everything else is decoded as a record or reported as a
/// parse fault.
pub open spec fn outcome_of_line(line_no: nat, s: Seq<char>) -> SpecOutcome {
    if s.len() == 0 {
        SpecOutcome::EmptyLine(line_no)
    } else {
        match classify_text(s) {
            Ok(m) => SpecOutcome::Rec(m),
            Err(d) => SpecOutcome::ParseFault(line_no, d),
        }
    }
}

/// The outcome of one classifier step taken before this line, if any.
pub open spec fn step_outcome(line_no_before: nat, ev: SpecEvent) -> Option<SpecOutcome> {
    match ev {
        SpecEvent::End => None,
        SpecEvent::Line(s) => Some(outcome_of_line(line_no_before + 1, s)),
        SpecEvent::Fault(d) => Some(SpecOutcome::ReadFault(line_no_before + 1, d)),
    }
}

/// The whole classified run over a sequence of events, starting after
/// `line_no` lines: ends at the end of input and right after a read fault.
pub open spec fn run_from(events: Seq<SpecEvent>, line_no: nat) -> Seq<SpecOutcome>
    decreases events.len(),
{
    if events.len() == 0 {
        Seq::empty()
    } else {
        match events[0] {
            SpecEvent::End => Seq::empty(),
            SpecEvent::Line(s) => seq![outcome_of_line(line_no + 1, s)] + run_from(
                events.subrange(1, events.len() as int),
                line_no + 1,
            ),
            SpecEvent::Fault(d) => seq![SpecOutcome::ReadFault(line_no + 1, d)],
        }
    }
}

/// The classified run over a sequence of events, from a fresh classifier.
pub open spec fn classify_run(events: Seq<SpecEvent>) -> Seq<SpecOutcome> {
    run_from(events, 0)
}

/// The streaming classifier's state: the 1-based number of the last line
/// read, and whether a read fault has latched the classifier.
pub struct LogEntryIterator {
    pub line_no: usize,
    pub is_error: bool,
}

impl LogEntryIterator {
    /// A fresh classifier: no lines read, no fault seen.
    pub fn new() -> (r: Self)
        ensures
            r.line_no == 0,
            !r.is_error,
    {
        LogEntryIterator { line_no: 0, is_error: false }
    }

    /// Classifies the next step of input. Returns `None` at the end of the
    /// input and forever after a read fault; otherwise exactly one item per
    /// physical line, numbered consecutively from 1.
    pub fn next_item(&mut self, event: ReadEvent) -> (r: Option<LineItem>)
        requires
            old(self).line_no < usize::MAX,
        ensures
            old(self).is_error ==> r is None && *final(self) == *old(self),
            !old(self).is_error && event@ is End ==> r is None && *final(self) == *old(self),
            !old(self).is_error && !(event@ is End) ==> {
                &&& final(self).line_no == old(self).line_no + 1
                &&& final(self).is_error == (event@ is Fault)
                &&& (r matches Some(item) && Some(item@) == step_outcome(
                    old(self).line_no as nat,
                    event@,
                ))
            },
    {
        if self.is_error {
            return None;
        }
        match event {
            ReadEvent::End => None,
            ReadEvent::Line(line) => {
                self.line_no = self.line_no + 1;
                if line.as_str().is_empty() {
                    Some(LineItem::EmptyLine(self.line_no))
                } else {
                    match parse_line(line.as_str()) {
                        Ok(entry) => Some(LineItem::Entry(entry)),
                        Err(d) => Some(LineItem::ParseError(self.line_no, d)),
                    }
                }
            },
            ReadEvent::Fault(d) => {
                self.line_no = self.line_no + 1;
                self.is_error = true;
                Some(LineItem::ReadError(self.line_no, d))
            },
        }
    }
}

/// The outcome views of a sequence of classified items.
pub open spec fn items_view(items: Seq<LineItem>) -> Seq<SpecOutcome> {
    items.map_values(|x: LineItem| x@)
}

/// The event views of a sequence of read events.
pub open spec fn events_view(events: Seq<ReadEvent>) -> Seq<SpecEvent> {
    events.map_values(|e: ReadEvent| e@)
}

/// Classifies a whole sequence of read events from a fresh classifier.
pub fn classify_lines(events: Vec<ReadEvent>) -> (r: Vec<LineItem>)
    ensures
        items_view(r@) == classify_run(events_view(events@)),
{
    let ghost evs0: Seq<SpecEvent> = events_view(events@);
    let mut rest = events;
    let mut it = LogEntryIterator::new();
    let mut out: Vec<LineItem> = Vec::new();
    let mut done = false;
    let mut i: usize = 0;
    let total: usize = rest.len();
    proof {
        assert(items_view(out@) =~= Seq::<SpecOutcome>::empty());
        assert(evs0.subrange(0, evs0.len() as int) =~= evs0);
        assert(items_view(out@) + run_from(evs0, 0) =~= run_from(evs0, 0));
    }
    while !done && rest.len() > 0
        invariant
            evs0.len() == total,
            i <= evs0.len(),
            events_view(rest@) =~= evs0.subrange(i as int, evs0.len() as int),
            it.line_no <= i,
            !done && !it.is_error ==> classify_run(evs0) == items_view(out@) + run_from(
                evs0.subrange(i as int, evs0.len() as int),
                it.line_no as nat,
            ),
            !done && it.is_error ==> classify_run(evs0) == items_view(out@),
            done ==> classify_run(evs0) == items_view(out@),
        decreases rest.len(),
    {
        let ghost pre = rest@;
        let ev = rest.remove(0);
        proof {
            assert(events_view(pre) == evs0.subrange(i as int, evs0.len() as int));
            assert(events_view(pre).len() == pre.len());
            assert(events_view(pre)[0] == pre[0]@);
            assert(evs0.subrange(i as int, evs0.len() as int)[0] == evs0[i as int]);
            assert(ev@ == evs0[i as int]);
            assert(rest@ =~= pre.subrange(1, pre.len() as int));
            assert forall|j: int| 0 <= j < rest@.len() implies events_view(rest@)[j] == evs0[
                i as int + 1 + j
            ] by {
                assert(events_view(rest@)[j] == rest@[j]@);
                assert(rest@[j] == pre[j + 1]);
                assert(events_view(pre)[j + 1] == pre[j + 1]@);
            }
            assert(events_view(rest@) =~= evs0.subrange(i as int + 1, evs0.len() as int));
            assert(evs0.subrange(i as int, evs0.len() as int).subrange(
                1,
                evs0.subrange(i as int, evs0.len() as int).len() as int,
            ) =~= evs0.subrange(i as int + 1, evs0.len() as int));
        }
        let item_opt = it.next_item(ev);
        match item_opt {
            Some(item) => {
                proof {
                    assert(items_view(out@.push(item)) =~= items_view(out@).push(item@));
                }
                out.push(item);
            },
            None => {
                done = true;
            },
        }
        i = i + 1;
    }
    proof {
        if !done {
            assert(evs0.subrange(i as int, evs0.len() as int).len() == 0);
            assert(run_from(evs0.subrange(i as int, evs0.len() as int), it.line_no as nat)
                =~= Seq::<SpecOutcome>::empty());
            assert(classify_run(evs0) =~= items_view(out@));
        }
    }
    out
}

/// The line number carried by an outcome, where it carries one.
pub open spec fn outcome_number(o: SpecOutcome) -> Option<nat> {
    match o {
        SpecOutcome::Rec(_) => None,
        SpecOutcome::EmptyLine(n) => Some(n),
        SpecOutcome::ReadFault(n, d) => Some(n),
        SpecOutcome::ParseFault(n, d) => Some(n),
    }
}

/// Every produced outcome corresponds positionally to its event: outcome
/// `i` classifies event `i`, every earlier event was a plain line, and the
/// run never outlives its events.
pub proof fn lemma_run_from_index(events: Seq<SpecEvent>, line_no: nat, i: int)
    requires
        0 <= i < run_from(events, line_no).len(),
    ensures
        i < events.len(),
        !(events[i] is End),
        Some(run_from(events, line_no)[i]) == step_outcome((line_no + i) as nat, events[i]),
        forall|j: int| 0 <= j < i ==> events[j] is Line,
    decreases events.len(),
{
    let run = run_from(events, line_no);
    if events.len() == 0 {
    } else {
        match events[0] {
            SpecEvent::End => {},
            SpecEvent::Fault(d) => {
                assert(run.len() == 1);
                assert(run[0] == SpecOutcome::ReadFault(line_no + 1, d));
            },
            SpecEvent::Line(s) => {
                let tail_events = events.subrange(1, events.len() as int);
                let tail = run_from(tail_events, line_no + 1);
                assert(run == seq![outcome_of_line(line_no + 1, s)] + tail);
                if i == 0 {
                    assert(run[0] == outcome_of_line(line_no + 1, s));
                } else {
                    assert(run[i] == tail[i - 1]);
                    lemma_run_from_index(tail_events, line_no + 1, i - 1);
                    assert(events[i] == tail_events[i - 1]);
                    assert forall|j: int| 0 <= j < i implies events[j] is Line by {
                        if j > 0 {
                            assert(events[j] == tail_events[j - 1]);
                        }
                    }
                }
            },
        }
    }
}

proof fn lemma_run_from_all_lines(events: Seq<SpecEvent>, line_no: nat)
    requires
        forall|j: int| 0 <= j < events.len() ==> events[j] is Line,
    ensures
        run_from(events, line_no).len() == events.len(),
    decreases events.len(),
{
    if events.len() > 0 {
        let tail_events = events.subrange(1, events.len() as int);
        assert forall|j: int| 0 <= j < tail_events.len() implies tail_events[j] is Line by {
            assert(tail_events[j] == events[j + 1]);
        }
        lemma_run_from_all_lines(tail_events, line_no + 1);
    }
}

/// Faultless input is never dropped: when every event is a plain line, the
/// run yields exactly one outcome per physical line.
pub proof fn lemma_every_line_classified(events: Seq<SpecEvent>)
    requires
        forall|j: int| 0 <= j < events.len() ==> events[j] is Line,
    ensures
        classify_run(events).len() == events.len(),
{
    lemma_run_from_all_lines(events, 0);
}

/// A line that decodes into a record yields exactly that record's outcome,
/// with the source field values untouched.
pub proof fn lemma_record_outcome(events: Seq<SpecEvent>, i: int, s: Seq<char>)
    requires
        0 <= i < classify_run(events).len(),
        events[i] == SpecEvent::Line(s),
        s.len() > 0,
        classify_text(s) is Ok,
    ensures
        classify_run(events)[i] == SpecOutcome::Rec(classify_text(s)->Ok_0),
{
    lemma_run_from_index(events, 0, i);
}

/// An empty line yields exactly one `EmptyLine` outcome carrying the
/// 1-based number of its physical line.
pub proof fn lemma_empty_line_outcome(events: Seq<SpecEvent>, i: int, s: Seq<char>)
    requires
        0 <= i < classify_run(events).len(),
        events[i] == SpecEvent::Line(s),
        s.len() == 0,
    ensures
        classify_run(events)[i] == SpecOutcome::EmptyLine((i + 1) as nat),
{
    lemma_run_from_index(events, 0, i);
}

/// Line numbers increase by exactly 1 per physical line: the outcome at
/// position `i` carries number `i + 1` whenever it carries one.
pub proof fn lemma_line_numbering(events: Seq<SpecEvent>, i: int)
    requires
        0 <= i < classify_run(events).len(),
    ensures
        outcome_number(classify_run(events)[i]) is Some ==> outcome_number(
            classify_run(events)[i],
        ) == Some((i + 1) as nat),
{
    lemma_run_from_index(events, 0, i);
}

/// A read fault is always the last outcome of a run.
pub proof fn lemma_read_fault_is_last(events: Seq<SpecEvent>, i: int)
    requires
        0 <= i < classify_run(events).len(),
        classify_run(events)[i] is ReadFault,
    ensures
        i == classify_run(events).len() - 1,
{
    lemma_run_from_index(events, 0, i);
    if i < classify_run(events).len() - 1 {
        lemma_run_from_index(events, 0, i + 1);
        assert(events[i] is Line);
        assert(!(step_outcome((0 + i) as nat, events[i])->0 is ReadFault));
    }
}

} // verus!
