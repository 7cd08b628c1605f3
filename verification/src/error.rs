//! The error type of this library.

use vstd::prelude::*;

verus! {

/// Errors of the library's fallible operations.
#[derive(Debug)]
pub enum Buck2Error {
    /// A target reached from a top-level target has no analysis result.
    AnalysisMissingForOutput,
    /// An internal failure, with its message.
    Internal(String),
}

} // verus!
