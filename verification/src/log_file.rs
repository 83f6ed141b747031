//! The parser: a cursor over the lines of a log that yields one record per
//! closed block.

use crate::entry::{
    outcome_view, step_of, EntryView, LogEntry, LogEntryBuilder, LogError, Slots, Step, StepView,
};
use crate::laws::law_scan_moves_forward;
use crate::line::{line_class, Line};
use crate::patterns::{
    capture_group, compile, is_match, pattern_of, regex_compiles, ASSIGN_PATTERN, END_PATTERN,
    ID_PATTERN, START_PATTERN,
};
use crate::timestamp::{parse_datetime, DATE_FORMAT};
use regex::Regex;
use vstd::prelude::*;

verus! {

/// What one request for a record comes to.
pub struct Scan {
    /// The record or the error; `None` where the lines ran out.
    pub result: Option<Result<EntryView, LogError>>,
    /// The index of the first line that was not read.
    pub pos: int,
}

/// Reads lines from `pos` on, with `slots` collected so far, up to the first
/// line that closes a block or that opens one with a malformed time stamp.
pub open spec fn scan(lines: Seq<Seq<char>>, pos: int, slots: Slots) -> Scan
    decreases lines.len() - pos,
{
    if pos < 0 || pos >= lines.len() {
        Scan { result: None, pos }
    } else {
        match step_of(slots, line_class(lines[pos])) {
            StepView::Yield(r) => Scan { result: Some(r), pos: pos + 1 },
            StepView::Continue(next) => scan(lines, pos + 1, next),
        }
    }
}

/// What successive requests yield from `pos` on, up to the first that yields
/// no record: the records in order, then the error if one stopped them.
pub open spec fn records(lines: Seq<Seq<char>>, pos: int) -> Seq<Result<EntryView, LogError>>
    decreases lines.len() - pos,
{
    let s = scan(lines, pos, Slots::empty());
    match s.result {
        None => Seq::empty(),
        Some(Err(e)) => seq![Err(e)],
        Some(Ok(entry)) => if pos < s.pos <= lines.len() {
            seq![Ok(entry)] + records(lines, s.pos)
        } else {
            seq![Ok(entry)]
        },
    }
}

/// The index of the first line that those requests did not read.
pub open spec fn records_end(lines: Seq<Seq<char>>, pos: int) -> int
    decreases lines.len() - pos,
{
    let s = scan(lines, pos, Slots::empty());
    match s.result {
        Some(Ok(entry)) => if pos < s.pos <= lines.len() {
            records_end(lines, s.pos)
        } else {
            s.pos
        },
        _ => s.pos,
    }
}

/// Each outcome, with the record as plain values.
pub open spec fn outcome_views(out: Seq<Result<LogEntry, LogError>>) -> Seq<
    Result<EntryView, LogError>,
> {
    Seq::new(out.len(), |i: int| outcome_view(out[i]))
}

/// The characters of each line.
pub open spec fn texts(lines: Seq<&str>) -> Seq<Seq<char>> {
    Seq::new(lines.len(), |i: int| lines[i]@)
}

/// What a request yields, with the record as plain values.
pub open spec fn yield_view(r: Option<Result<LogEntry, LogError>>) -> Option<
    Result<EntryView, LogError>,
> {
    match r {
        Some(o) => Some(outcome_view(o)),
        None => None,
    }
}

/// A single pass over the lines of a log.
pub struct LogFile<'a> {
    lines: Vec<&'a str>,
    pos: usize,
    start_re: Regex,
    end_re: Regex,
    id_re: Regex,
    assign_re: Regex,
}

impl<'a> LogFile<'a> {
    /// The cursor stands within the lines, and each expression was compiled
    /// from its pattern.
    #[verifier::type_invariant]
    spec fn wf(&self) -> bool {
        &&& self.pos <= self.lines.len()
        &&& pattern_of(self.start_re) == START_PATTERN@
        &&& pattern_of(self.end_re) == END_PATTERN@
        &&& pattern_of(self.id_re) == ID_PATTERN@
        &&& pattern_of(self.assign_re) == ASSIGN_PATTERN@
    }

    /// All the lines, read or not.
    pub closed spec fn lines(&self) -> Seq<Seq<char>> {
        texts(self.lines@)
    }

    /// The index of the next line to read.
    pub closed spec fn cursor(&self) -> int {
        self.pos as int
    }

    /// Whether the engine accepts the four patterns.
    pub open spec fn patterns_compile() -> bool {
        &&& regex_compiles(START_PATTERN@)
        &&& regex_compiles(END_PATTERN@)
        &&& regex_compiles(ID_PATTERN@)
        &&& regex_compiles(ASSIGN_PATTERN@)
    }

    /// A parser from four compiled expressions, with the cursor on the first
    /// line.
    fn with_patterns(
        lines: Vec<&'a str>,
        start_re: Regex,
        end_re: Regex,
        id_re: Regex,
        assign_re: Regex,
    ) -> (file: Self)
        requires
            pattern_of(start_re) == START_PATTERN@,
            pattern_of(end_re) == END_PATTERN@,
            pattern_of(id_re) == ID_PATTERN@,
            pattern_of(assign_re) == ASSIGN_PATTERN@,
        ensures
            file.lines() == texts(lines@),
            file.cursor() == 0,
    {
        Self { lines, pos: 0, start_re, end_re, id_re, assign_re }
    }

    /// Compiles the patterns once, and stands before the first line.
    pub fn new(lines: Vec<&'a str>) -> (r: Result<Self, LogError>)
        ensures
            r is Ok <==> Self::patterns_compile(),
            r matches Ok(file) ==> file.lines() == texts(lines@) && file.cursor() == 0,
            r matches Err(e) ==> e == LogError::InvalidPattern,
    {
        let start_re = match compile(START_PATTERN) {
            Ok(re) => re,
            Err(_) => {
                return Err(LogError::InvalidPattern);
            },
        };
        let end_re = match compile(END_PATTERN) {
            Ok(re) => re,
            Err(_) => {
                return Err(LogError::InvalidPattern);
            },
        };
        let id_re = match compile(ID_PATTERN) {
            Ok(re) => re,
            Err(_) => {
                return Err(LogError::InvalidPattern);
            },
        };
        let assign_re = match compile(ASSIGN_PATTERN) {
            Ok(re) => re,
            Err(_) => {
                return Err(LogError::InvalidPattern);
            },
        };
        Ok(Self::with_patterns(lines, start_re, end_re, id_re, assign_re))
    }

    /// The number of lines not read yet.
    pub fn remaining(&self) -> (n: usize)
        ensures
            n == self.lines().len() - self.cursor(),
    {
        proof {
            use_type_invariant(self);
        }
        self.lines.len() - self.pos
    }

    /// Tells what a line says: whether it closes a block; if not, whether it
    /// opens one, and when; if neither, which identifier and which assignment
    /// it carries.
    pub fn classify<'h>(&self, line: &'h str) -> (c: Line<'h>)
        ensures
            c@ == line_class(line@),
    {
        proof {
            use_type_invariant(self);
        }
        if is_match(&self.end_re, line) {
            return Line::End;
        }
        match capture_group(&self.start_re, line, 0) {
            Some(text) => match parse_datetime(text, DATE_FORMAT) {
                Ok(t) => Line::Start(t),
                Err(_) => Line::MalformedStart,
            },
            None => {
                let id = capture_group(&self.id_re, line, 1);
                let assignment = match capture_group(&self.assign_re, line, 1) {
                    Some(name) => match capture_group(&self.assign_re, line, 2) {
                        Some(value) => Some((name, value)),
                        None => None,
                    },
                    None => None,
                };
                Line::Content { id, assignment }
            },
        }
    }

    /// Reads on to the end of the current block and yields its record. A
    /// block that closes with a field unset yields the unset fields; a line
    /// that opens a block with a malformed time stamp yields that error
    /// at once. `None` when the lines run out first: what was collected of an
    /// open block is dropped.
    pub fn next(&mut self) -> (r: Option<Result<LogEntry, LogError>>)
        ensures
            final(self).lines() == old(self).lines(),
            yield_view(r) == scan(old(self).lines(), old(self).cursor(), Slots::empty()).result,
            final(self).cursor() == scan(
                old(self).lines(),
                old(self).cursor(),
                Slots::empty(),
            ).pos,
    {
        proof {
            use_type_invariant(&*self);
        }
        let mut builder = LogEntryBuilder::new();
        while self.pos < self.lines.len()
            invariant
                self.wf(),
                self.lines == old(self).lines,
                scan(old(self).lines(), old(self).cursor(), Slots::empty()) == scan(
                    self.lines(),
                    self.cursor(),
                    builder@,
                ),
            decreases self.lines.len() - self.pos,
        {
            let line = self.lines[self.pos];
            assert(self.lines()[self.cursor()] == line@);
            self.pos = self.pos + 1;
            match builder.step(self.classify(line)) {
                Step::Yield(r) => {
                    return Some(r);
                },
                Step::Continue(open) => {
                    builder = open;
                },
            }
        }
        None
    }

    /// Requests records until a request yields none: the records in order,
    /// and behind them the error that stopped the requests, if one did.
    pub fn drain(&mut self) -> (out: Vec<Result<LogEntry, LogError>>)
        ensures
            final(self).lines() == old(self).lines(),
            outcome_views(out@) == records(old(self).lines(), old(self).cursor()),
            final(self).cursor() == records_end(old(self).lines(), old(self).cursor()),
    {
        let mut out: Vec<Result<LogEntry, LogError>> = Vec::new();
        loop
            invariant
                self.lines() == old(self).lines(),
                records(old(self).lines(), old(self).cursor()) == outcome_views(out@) + records(
                    self.lines(),
                    self.cursor(),
                ),
                records_end(old(self).lines(), old(self).cursor()) == records_end(
                    self.lines(),
                    self.cursor(),
                ),
            decreases self.lines().len() - self.cursor(),
        {
            let ghost before = out@;
            proof {
                use_type_invariant(&*self);
                law_scan_moves_forward(self.lines(), self.cursor(), Slots::empty());
            }
            match self.next() {
                None => {
                    assert(outcome_views(before) + Seq::empty() =~= outcome_views(before));
                    return out;
                },
                Some(Err(e)) => {
                    out.push(Err(e));
                    assert(outcome_views(before) + seq![Err(e)] =~= outcome_views(out@));
                    return out;
                },
                Some(Ok(entry)) => {
                    out.push(Ok(entry));
                    assert(outcome_views(before) + (seq![Ok(entry@)] + records(
                        self.lines(),
                        self.cursor(),
                    )) =~= outcome_views(out@) + records(self.lines(), self.cursor()));
                },
            }
        }
    }
}

} // verus!
