//! Streaming block parser for multi-line transmission logs.
//!
//! A log is a sequence of text lines. A block opens with a time-stamped line,
//! carries an identifier line and `name = value` lines, and closes with an end
//! marker. [`LogFile`] walks the lines once and hands out one [`LogEntry`] per
//! closed block.

pub mod patterns;
pub mod timestamp;
pub mod line;
pub mod entry;
pub mod log_file;
pub mod laws;

pub use entry::{Field, LogEntry, LogEntryBuilder, LogError, MissingFields, Step};
pub use line::Line;
pub use log_file::LogFile;
pub use timestamp::Timestamp;
