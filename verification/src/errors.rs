//! Error kinds of the job subsystem.

use vstd::prelude::*;

verus! {

/// Every way an operation of this subsystem can fail.
///
/// `NotFound` covers a missing job id, result file or model file.  `Io` and
/// `Serialization` are raised by the persistence layer around the store when a
/// file cannot be read or written, or its content does not have the expected
/// shape.  `EngineNotFound` means no usable engine executable was located;
/// `Process` that the engine process failed to launch, exited unsuccessfully
/// or could not be awaited.  `Validation` means a successful exit produced no
/// result file at all.
#[derive(Debug, PartialEq)]
pub enum HistoryError {
    NotFound,
    Io(String),
    EngineNotFound,
    Process(String),
    Serialization(String),
    Validation,
}

impl HistoryError {
    /// A short human-readable description of the error.
    pub fn describe(&self) -> (r: String)
        ensures
            r@.len() > 0,
    {
        let r = match self {
            HistoryError::NotFound => String::from_str("not found"),
            HistoryError::Io(_) => String::from_str("I/O failure"),
            HistoryError::EngineNotFound => String::from_str("whisper binary not found"),
            HistoryError::Process(_) => String::from_str("process failure"),
            HistoryError::Serialization(_) => String::from_str("stored record is malformed"),
            HistoryError::Validation => String::from_str("no result files were produced"),
        };
        proof {
            reveal_strlit("not found");
            reveal_strlit("I/O failure");
            reveal_strlit("whisper binary not found");
            reveal_strlit("process failure");
            reveal_strlit("stored record is malformed");
            reveal_strlit("no result files were produced");
        }
        r
    }
}

} // verus!
