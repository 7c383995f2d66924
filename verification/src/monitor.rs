//! Classification of a child's termination.

use vstd::prelude::*;

verus! {

/// What the operating system reported when the child terminated.
#[derive(Clone, Copy, Debug, PartialEq, Eq)]
pub struct ExitStatus {
    /// Exit code, when the child exited on its own.
    pub code: Option<i32>,
    /// Signal number, when the child was terminated by a signal.
    pub signal: Option<i32>,
}

/// Why an exit counts as a crash.
#[derive(Clone, Copy, Debug, PartialEq, Eq)]
pub enum CrashCause {
    /// The child exited with this non-zero code.
    Code(i32),
    /// The child was terminated by this signal.
    Signal(i32),
    /// The child is gone and neither a code nor a signal was reported.
    Unknown,
}

/// The meaning of a termination for the supervisor.
#[derive(Clone, Copy, Debug, PartialEq, Eq)]
pub enum ExitOutcome {
    /// Exit code 0 without a stop request. Still unexpected in mid-session.
    CleanExit,
    /// Non-zero exit code or termination by a signal, without a stop request.
    CrashExit(CrashCause),
    /// The supervisor itself had asked the child to stop.
    KilledByRequest,
}

impl ExitOutcome {
    /// True for the two outcomes that nobody asked for.
    pub open spec fn is_unexpected(self) -> bool {
        self != ExitOutcome::KilledByRequest
    }

    /// True for a crash.
    pub open spec fn is_crash(self) -> bool {
        self is CrashExit
    }
}

/// The outcome of a termination: the stop flag is looked at first, then the
/// signal, then the exit code.
pub open spec fn classify_spec(stop_requested: bool, status: ExitStatus) -> ExitOutcome {
    if stop_requested {
        ExitOutcome::KilledByRequest
    } else if let Some(s) = status.signal {
        ExitOutcome::CrashExit(CrashCause::Signal(s))
    } else if let Some(c) = status.code {
        if c == 0 {
            ExitOutcome::CleanExit
        } else {
            ExitOutcome::CrashExit(CrashCause::Code(c))
        }
    } else {
        ExitOutcome::CrashExit(CrashCause::Unknown)
    }
}

/// Classifies a termination. `stop_requested` must be the flag as it stood
/// when the child terminated: a deliberate stop is never taken for a crash.
pub fn classify(stop_requested: bool, status: ExitStatus) -> (outcome: ExitOutcome)
    ensures
        outcome == classify_spec(stop_requested, status),
        stop_requested <==> outcome == ExitOutcome::KilledByRequest,
        outcome == ExitOutcome::CleanExit <==> !stop_requested && status.signal is None
            && status.code == Some(0i32),
{
    if stop_requested {
        return ExitOutcome::KilledByRequest;
    }
    match status.signal {
        Some(s) => ExitOutcome::CrashExit(CrashCause::Signal(s)),
        None => match status.code {
            Some(c) => {
                if c == 0 {
                    ExitOutcome::CleanExit
                } else {
                    ExitOutcome::CrashExit(CrashCause::Code(c))
                }
            },
            None => ExitOutcome::CrashExit(CrashCause::Unknown),
        },
    }
}

} // verus!
