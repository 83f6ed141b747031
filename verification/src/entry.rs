//! The record that a closed block yields, and the accumulator that collects
//! its fields while the block is open.

use crate::line::{Line, LineView};
use crate::patterns::same_text;
use crate::timestamp::Timestamp;
use vstd::prelude::*;

verus! {

/// One transmission, with every field present.
#[derive(Debug, Clone, PartialEq, Eq)]
pub struct LogEntry {
    pub id: String,
    pub message_type: String,
    pub remote_id: String,
    pub server: String,
    pub timestamp: Timestamp,
}

/// What a [`LogEntry`] holds, as plain values.
pub struct EntryView {
    pub id: Seq<char>,
    pub message_type: Seq<char>,
    pub remote_id: Seq<char>,
    pub server: Seq<char>,
    pub timestamp: Timestamp,
}

impl View for LogEntry {
    type V = EntryView;

    open spec fn view(&self) -> EntryView {
        EntryView {
            id: self.id@,
            message_type: self.message_type@,
            remote_id: self.remote_id@,
            server: self.server@,
            timestamp: self.timestamp,
        }
    }
}

/// The fields of a record.
#[derive(Debug, Clone, Copy, PartialEq, Eq, Structural)]
pub enum Field {
    Id,
    MessageType,
    RemoteId,
    Server,
    Timestamp,
}

/// For each field of a record, whether a block closed without it.
#[derive(Debug, Clone, Copy, PartialEq, Eq, Structural)]
pub struct MissingFields {
    pub id: bool,
    pub message_type: bool,
    pub remote_id: bool,
    pub server: bool,
    pub timestamp: bool,
}

impl MissingFields {
    /// Whether the given field is among the missing ones.
    pub open spec fn has(self, field: Field) -> bool {
        match field {
            Field::Id => self.id,
            Field::MessageType => self.message_type,
            Field::RemoteId => self.remote_id,
            Field::Server => self.server,
            Field::Timestamp => self.timestamp,
        }
    }

    /// No field is missing.
    pub open spec fn none(self) -> bool {
        !self.id && !self.message_type && !self.remote_id && !self.server && !self.timestamp
    }

    /// Whether the given field is among the missing ones.
    pub fn contains(&self, field: Field) -> (r: bool)
        ensures
            r == self.has(field),
    {
        match field {
            Field::Id => self.id,
            Field::MessageType => self.message_type,
            Field::RemoteId => self.remote_id,
            Field::Server => self.server,
            Field::Timestamp => self.timestamp,
        }
    }
}

/// Why a parser could not be made, or why a block gave no record.
#[derive(Debug, Clone, Copy, PartialEq, Eq, Structural)]
pub enum LogError {
    /// The regular-expression engine refused one of the patterns.
    InvalidPattern,
    /// A line opened a block, but its time stamp is no date and time.
    MalformedTimestamp,
    /// A block closed before every field was set.
    Incomplete(MissingFields),
}

/// The five slots of an open block, as plain values.
pub struct Slots {
    pub id: Option<Seq<char>>,
    pub message_type: Option<Seq<char>>,
    pub remote_id: Option<Seq<char>>,
    pub server: Option<Seq<char>>,
    pub timestamp: Option<Timestamp>,
}

impl Slots {
    /// No slot is set.
    pub open spec fn empty() -> Slots {
        Slots { id: None, message_type: None, remote_id: None, server: None, timestamp: None }
    }

    /// The slots after an assignment: one of the three names that a record
    /// knows replaces that slot, any other name changes nothing.
    pub open spec fn assign(self, name: Seq<char>, value: Seq<char>) -> Slots {
        if name == "message_type"@ {
            Slots { message_type: Some(value), ..self }
        } else if name == "remote_id"@ {
            Slots { remote_id: Some(value), ..self }
        } else if name == "server"@ {
            Slots { server: Some(value), ..self }
        } else {
            self
        }
    }

    /// The slots that are still unset.
    pub open spec fn missing(self) -> MissingFields {
        MissingFields {
            id: self.id is None,
            message_type: self.message_type is None,
            remote_id: self.remote_id is None,
            server: self.server is None,
            timestamp: self.timestamp is None,
        }
    }

    /// What closing the block yields: the record where every slot is set,
    /// else the list of the unset ones.
    pub open spec fn finish(self) -> Result<EntryView, LogError> {
        if self.missing().none() {
            Ok(
                EntryView {
                    id: self.id.unwrap(),
                    message_type: self.message_type.unwrap(),
                    remote_id: self.remote_id.unwrap(),
                    server: self.server.unwrap(),
                    timestamp: self.timestamp.unwrap(),
                },
            )
        } else {
            Err(LogError::Incomplete(self.missing()))
        }
    }
}

/// What a line does to an open block.
pub enum StepView {
    /// The block stays open, with these slots.
    Continue(Slots),
    /// The request ends with this record or error.
    Yield(Result<EntryView, LogError>),
}

/// What a line does to an open block with the given slots: a closing line
/// ends the request with what the slots hold, a malformed opening line ends
/// it with an error, an opening line sets the time stamp, and content sets
/// first the identifier, then the assigned field, each where the line
/// carries one.
pub open spec fn step_of(slots: Slots, line: LineView) -> StepView {
    match line {
        LineView::End => StepView::Yield(slots.finish()),
        LineView::MalformedStart => StepView::Yield(Err(LogError::MalformedTimestamp)),
        LineView::Start(t) => StepView::Continue(Slots { timestamp: Some(t), ..slots }),
        LineView::Content { id, assignment } => {
            let with_id = match id {
                Some(text) => Slots { id: Some(text), ..slots },
                None => slots,
            };
            match assignment {
                Some((name, value)) => StepView::Continue(with_id.assign(name, value)),
                None => StepView::Continue(with_id),
            }
        },
    }
}

/// The characters of an optional string.
pub open spec fn text_of(s: Option<String>) -> Option<Seq<char>> {
    match s {
        Some(t) => Some(t@),
        None => None,
    }
}

/// A record or an error, with the record as plain values.
pub open spec fn outcome_view(r: Result<LogEntry, LogError>) -> Result<EntryView, LogError> {
    match r {
        Ok(entry) => Ok(entry@),
        Err(e) => Err(e),
    }
}

/// Collects the fields of one block. A later value for a field replaces an
/// earlier one.
#[derive(Debug)]
pub struct LogEntryBuilder {
    id: Option<String>,
    message_type: Option<String>,
    remote_id: Option<String>,
    server: Option<String>,
    timestamp: Option<Timestamp>,
}

impl View for LogEntryBuilder {
    type V = Slots;

    closed spec fn view(&self) -> Slots {
        Slots {
            id: text_of(self.id),
            message_type: text_of(self.message_type),
            remote_id: text_of(self.remote_id),
            server: text_of(self.server),
            timestamp: self.timestamp,
        }
    }
}

/// What a line did to an open block.
#[derive(Debug)]
pub enum Step {
    /// The block stays open.
    Continue(LogEntryBuilder),
    /// The request ends with this record or error.
    Yield(Result<LogEntry, LogError>),
}

impl View for Step {
    type V = StepView;

    open spec fn view(&self) -> StepView {
        match *self {
            Step::Continue(builder) => StepView::Continue(builder@),
            Step::Yield(r) => StepView::Yield(outcome_view(r)),
        }
    }
}

impl LogEntryBuilder {
    /// A builder with no field set.
    pub fn new() -> (b: Self)
        ensures
            b@ == Slots::empty(),
    {
        Self { id: None, message_type: None, remote_id: None, server: None, timestamp: None }
    }

    /// Sets the identifier.
    pub fn id(&mut self, id: String)
        ensures
            final(self)@ == (Slots { id: Some(id@), ..old(self)@ }),
    {
        self.id = Some(id);
    }

    /// Sets the message type.
    pub fn message_type(&mut self, message_type: String)
        ensures
            final(self)@ == (Slots { message_type: Some(message_type@), ..old(self)@ }),
    {
        self.message_type = Some(message_type);
    }

    /// Sets the remote identifier.
    pub fn remote_id(&mut self, remote_id: String)
        ensures
            final(self)@ == (Slots { remote_id: Some(remote_id@), ..old(self)@ }),
    {
        self.remote_id = Some(remote_id);
    }

    /// Sets the server.
    pub fn server(&mut self, server: String)
        ensures
            final(self)@ == (Slots { server: Some(server@), ..old(self)@ }),
    {
        self.server = Some(server);
    }

    /// Sets the time stamp.
    pub fn timestamp(&mut self, timestamp: Timestamp)
        ensures
            final(self)@ == (Slots { timestamp: Some(timestamp), ..old(self)@ }),
    {
        self.timestamp = Some(timestamp);
    }

    /// Routes a `name = value` assignment to the slot that the name stands
    /// for; a name that no slot answers to is passed over.
    pub fn assign(&mut self, name: &str, value: String)
        ensures
            final(self)@ == old(self)@.assign(name@, value@),
    {
        if same_text(name, "message_type") {
            self.message_type(value);
        } else if same_text(name, "remote_id") {
            self.remote_id(value);
        } else if same_text(name, "server") {
            self.server(value);
        }
    }

    /// Takes one line into the open block.
    pub fn step(self, line: Line) -> (s: Step)
        ensures
            s@ == step_of(self@, line@),
    {
        let mut builder = self;
        match line {
            Line::End => Step::Yield(builder.build()),
            Line::MalformedStart => Step::Yield(Err(LogError::MalformedTimestamp)),
            Line::Start(t) => {
                builder.timestamp(t);
                Step::Continue(builder)
            },
            Line::Content { id, assignment } => {
                if let Some(text) = id {
                    builder.id(text.to_owned());
                }
                if let Some((name, value)) = assignment {
                    builder.assign(name, value.to_owned());
                }
                Step::Continue(builder)
            },
        }
    }

    /// Closes the block: the record where every field was set, else the
    /// fields that were not.
    pub fn build(self) -> (r: Result<LogEntry, LogError>)
        ensures
            outcome_view(r) == self@.finish(),
    {
        let missing = MissingFields {
            id: self.id.is_none(),
            message_type: self.message_type.is_none(),
            remote_id: self.remote_id.is_none(),
            server: self.server.is_none(),
            timestamp: self.timestamp.is_none(),
        };
        match (self.id, self.message_type, self.remote_id, self.server, self.timestamp) {
            (Some(id), Some(message_type), Some(remote_id), Some(server), Some(timestamp)) => Ok(
                LogEntry { id, message_type, remote_id, server, timestamp },
            ),
            _ => Err(LogError::Incomplete(missing)),
        }
    }
}

} // verus!
