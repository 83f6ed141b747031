//! What a single line says.

use crate::patterns::{is_end, line_assignment, line_id, start_text};
use crate::timestamp::{parsed_datetime, Timestamp, DATE_FORMAT};
use vstd::prelude::*;

verus! {

/// A line, read: closing lines are told first, then opening ones; any other
/// line is content, with the identifier and the assignment that it may
/// carry, both looked for.
#[derive(Debug, Clone, Copy, PartialEq, Eq)]
pub enum Line<'h> {
    /// The line closes a block.
    End,
    /// The line opens a block at this date and time.
    Start(Timestamp),
    /// The line opens a block, but its time-stamp text is no date and time.
    MalformedStart,
    /// Any other line.
    Content { id: Option<&'h str>, assignment: Option<(&'h str, &'h str)> },
}

/// A [`Line`] as plain values.
pub enum LineView {
    End,
    Start(Timestamp),
    MalformedStart,
    Content { id: Option<Seq<char>>, assignment: Option<(Seq<char>, Seq<char>)> },
}

impl<'h> View for Line<'h> {
    type V = LineView;

    open spec fn view(&self) -> LineView {
        match *self {
            Line::End => LineView::End,
            Line::Start(t) => LineView::Start(t),
            Line::MalformedStart => LineView::MalformedStart,
            Line::Content { id, assignment } => LineView::Content {
                id: match id {
                    Some(text) => Some(text@),
                    None => None,
                },
                assignment: match assignment {
                    Some((name, value)) => Some((name@, value@)),
                    None => None,
                },
            },
        }
    }
}

/// The time stamp of a line that opens a block; `None` where the line opens
/// none, or where its time-stamp text is no date and time.
pub open spec fn start_time(line: Seq<char>) -> Option<Timestamp> {
    match start_text(line) {
        Some(text) => parsed_datetime(text, DATE_FORMAT@),
        None => None,
    }
}

/// What the line says.
pub open spec fn line_class(line: Seq<char>) -> LineView {
    if is_end(line) {
        LineView::End
    } else if start_text(line) is Some {
        match start_time(line) {
            Some(t) => LineView::Start(t),
            None => LineView::MalformedStart,
        }
    } else {
        LineView::Content { id: line_id(line), assignment: line_assignment(line) }
    }
}

} // verus!
