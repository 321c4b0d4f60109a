//! The errors the library reports.
use vstd::prelude::*;

verus! {

/// What went wrong in a background operation or at shutdown.
#[derive(Debug, PartialEq, Eq)]
pub enum AppError {
    /// Every error that surfaced while the session was shut down.
    Aggregate(Vec<AppError>),
    /// The file system refused an operation; the text says why.
    FileOperationFailed(String),
    /// The path is in a state that rules the operation out: it exists where
    /// it must not, or is missing where it must exist.
    InvalidTargetPath,
    /// The history could not be read.
    LoadHistoryFailed,
}

} // verus!
