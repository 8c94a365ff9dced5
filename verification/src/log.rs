//! Log events as the launcher receives them from its logger.

use vstd::prelude::*;

verus! {

/// The severity of a log line.
#[derive(Debug, Clone, Copy, PartialEq, Eq, Structural)]
pub enum LogLevel {
    Error,
    Warn,
    Info,
    Debug,
    Trace,
}

/// One log event: its lines, each with its severity if it has one.
#[derive(Debug, Clone)]
pub struct LogEvent {
    pub lines: Vec<(String, Option<LogLevel>)>,
}

/// The event is an error: its first line has the error severity.
pub open spec fn is_error_event(event: LogEvent) -> bool {
    event.lines@.len() > 0 && event.lines@[0].1 == Some(LogLevel::Error)
}

/// Only an error raises an error toast: an event is an error event exactly
/// when its first line has the error severity; an empty event, or one whose
/// first line is a warning, information, debugging or trace line or has no
/// severity, is not.
pub proof fn lemma_error_events_are_errors(event: LogEvent)
    ensures
        event.lines@.len() == 0 ==> !is_error_event(event),
        event.lines@.len() > 0 && event.lines@[0].1 != Some(LogLevel::Error) ==> !is_error_event(event),
        event.lines@.len() > 0 && event.lines@[0].1 == Some(LogLevel::Error) ==> is_error_event(event),
{
}

} // verus!
