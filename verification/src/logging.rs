//! The lines that the shutdown sequence writes to the log.

use vstd::prelude::*;
use crate::signal::{TerminationReason, WaitOutcome};

verus! {

/// How urgent a log line is.
#[derive(Clone, Copy, Debug, PartialEq, Eq, Structural)]
pub enum LogLevel {
    /// Something that happened as it should.
    Info,
    /// Something that went wrong.
    Error,
}

/// A line of the log.
#[derive(Clone, Copy, Debug, PartialEq, Eq, Structural)]
pub enum LogLine {
    /// The "terminate" signal arrived.
    TerminateReceived,
    /// The "interrupt" signal arrived.
    InterruptReceived,
    /// The listener is about to be told to stop.
    ShuttingDown,
    /// The listener has confirmed that it is done.
    ShutdownComplete,
    /// A signal handler could not be installed.  The wording of this line
    /// is the failure's own description, which only the caller has.
    SignalRegistrationFailed,
}

impl LogLine {
    /// The level at which the line is written: the failure is an error,
    /// everything else is information.
    pub open spec fn spec_level(self) -> LogLevel {
        match self {
            LogLine::SignalRegistrationFailed => LogLevel::Error,
            _ => LogLevel::Info,
        }
    }

    /// The wording of the line, given the description of the failure that
    /// is being reported, if any.
    pub open spec fn wording(self, failure: Seq<char>) -> Seq<char> {
        match self {
            LogLine::TerminateReceived => "SIGTERM received"@,
            LogLine::InterruptReceived => "SIGINT received"@,
            LogLine::ShuttingDown => "shutting down the server"@,
            LogLine::ShutdownComplete => "shutdown complete"@,
            LogLine::SignalRegistrationFailed => failure,
        }
    }

    /// The level at which the line is written.
    #[verifier::when_used_as_spec(spec_level)]
    pub fn level(self) -> (level: LogLevel)
        ensures
            level == self.spec_level(),
    {
        match self {
            LogLine::SignalRegistrationFailed => LogLevel::Error,
            _ => LogLevel::Info,
        }
    }

    /// The wording of the line.  `failure` describes the failure at hand;
    /// only the line that reports a failure uses it.
    pub fn text<'a>(self, failure: &'a str) -> (text: &'a str)
        ensures
            text@ == self.wording(failure@),
    {
        match self {
            LogLine::TerminateReceived => "SIGTERM received",
            LogLine::InterruptReceived => "SIGINT received",
            LogLine::ShuttingDown => "shutting down the server",
            LogLine::ShutdownComplete => "shutdown complete",
            LogLine::SignalRegistrationFailed => failure,
        }
    }
}

/// The line that says why the process is shutting down.
pub open spec fn reason_line(reason: TerminationReason) -> LogLine {
    match reason {
        TerminationReason::TerminateRequest => LogLine::TerminateReceived,
        TerminationReason::InterruptRequest => LogLine::InterruptReceived,
    }
}

/// The line that reports how the wait for a termination request ended.
pub open spec fn outcome_line(outcome: WaitOutcome) -> LogLine {
    match outcome {
        WaitOutcome::Requested(reason) => reason_line(reason),
        WaitOutcome::Failed(_) => LogLine::SignalRegistrationFailed,
    }
}

/// The line that reports how the wait for a termination request ended:
/// the signal that arrived, or that the wait could not be set up.
pub fn line_for_outcome(outcome: WaitOutcome) -> (line: LogLine)
    ensures
        line == outcome_line(outcome),
{
    match outcome {
        WaitOutcome::Requested(TerminationReason::TerminateRequest) => LogLine::TerminateReceived,
        WaitOutcome::Requested(TerminationReason::InterruptRequest) => LogLine::InterruptReceived,
        WaitOutcome::Failed(_) => LogLine::SignalRegistrationFailed,
    }
}

} // verus!
