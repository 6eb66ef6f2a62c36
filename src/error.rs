//! Failures that the library itself decides on.

use vstd::prelude::*;

verus! {

/// Why a backup step failed.
#[derive(Debug)]
pub enum BackupError {
    /// A backup is already running; nothing was done.
    Busy,
    /// The external dump tool was asked for explicitly but is not installed.
    ToolUnavailable,
    /// The value of the named column could not be fetched from a row: the
    /// row has no such column, or its value is no longer there.
    ValueUnavailable(String),
    /// The retention cutoff falls before the earliest instant the clock can
    /// represent.
    CutoffOutOfRange,
}

} // verus!
