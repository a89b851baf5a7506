//! The errors that the registry and the log buffer report to their callers.

use vstd::prelude::*;

verus! {

/// Why a request was refused.
#[derive(Clone, Copy, Debug, PartialEq, Eq, Hash, Structural)]
pub enum CoreError {
    /// A job was to be started while another one was still running.
    AlreadyRunning,
    /// A run was named that does not exist or has reached its final state.
    UnknownRun,
    /// A name was given that names no level.
    InvalidLevel,
}

impl CoreError {
    /// The text that explains the error to the user.
    pub open spec fn text(self) -> Seq<char> {
        match self {
            CoreError::AlreadyRunning => "已有任务在运行中，请稍后再试。"@,
            CoreError::UnknownRun => "unknown run"@,
            CoreError::InvalidLevel => "invalid level"@,
        }
    }

    /// The text that explains the error to the user.
    pub fn message(self) -> (text: &'static str)
        ensures
            text@ == self.text(),
    {
        match self {
            CoreError::AlreadyRunning => "已有任务在运行中，请稍后再试。",
            CoreError::UnknownRun => "unknown run",
            CoreError::InvalidLevel => "invalid level",
        }
    }
}

} // verus!
