//! The bounded-execution policy.
//!
//! The vendor process is started with its output piped; a separate
//! execution context captures the lines while the caller waits with a
//! deadline derived from the request. On expiry the process is killed and
//! reaped. The spawning, capture and reaping are ordinary I/O and live
//! with the embedding program; the deadline itself and the error
//! vocabulary are fixed here.

use vstd::prelude::*;

verus! {

/// The grace period added to a request's nominal timeout, in
/// milliseconds.
pub const GRACE_PERIOD_MS: u64 = 3000;

/// Why a bounded execution produced no output lines.
#[derive(Debug)]
pub enum ExecError {
    /// No command tokens were prepared.
    NoArguments,
    /// The process could not be started; carries the system's account.
    SpawnFailure(String),
    /// The output pipe could not be obtained.
    CaptureFailure,
    /// The deadline elapsed before the process closed its output.
    Timeout,
}

impl ExecError {
    /// A human-readable account of the error.
    pub fn message(&self) -> (r: String)
        ensures
            self is NoArguments ==> r@ == "No command arguments prepared."@,
            self is CaptureFailure ==> r@ == "Failed to capture stdout from child process."@,
            self is Timeout ==> r@ == "Command execution timed out."@,
            self matches ExecError::SpawnFailure(s) ==> r@ == "Failed to spawn process: "@ + s@,
    {
        match self {
            ExecError::NoArguments => String::from_str("No command arguments prepared."),
            ExecError::SpawnFailure(s) => String::from_str("Failed to spawn process: ").concat(
                s.as_str(),
            ),
            ExecError::CaptureFailure => String::from_str(
                "Failed to capture stdout from child process.",
            ),
            ExecError::Timeout => String::from_str("Command execution timed out."),
        }
    }
}

/// The deadline of a request: its nominal timeout (never negative) plus
/// the grace period, saturating at the largest representable wait.
pub open spec fn deadline_of(t: int, g: int) -> int {
    let base: int = if t < 0 {
        0
    } else {
        t
    };
    if base + g > u64::MAX {
        u64::MAX as int
    } else {
        base + g
    }
}

/// Compute the capture deadline in milliseconds.
pub fn exec_deadline_ms(stop_at_timeout: i64, grace_period_ms: u64) -> (r: u64)
    ensures
        r as int == deadline_of(stop_at_timeout as int, grace_period_ms as int),
{
    let base: u64 = if stop_at_timeout < 0 {
        0
    } else {
        stop_at_timeout as u64
    };
    if base > u64::MAX - grace_period_ms {
        u64::MAX
    } else {
        base + grace_period_ms
    }
}

} // verus!
