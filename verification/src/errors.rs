//! The failures that the library reports.

use vstd::prelude::*;

verus! {

/// Failures of the record writer.
#[derive(Debug, Clone, Copy, PartialEq, Eq, Structural)]
pub enum WriterErrors {
    /// The commit time cannot be written as epoch seconds and a UTC offset.
    TimeFormatError,
}

/// Failures of the nonce search.
#[derive(Debug, Clone, Copy, PartialEq, Eq, Structural)]
pub enum MiningError {
    /// No nonce of the whole domain gives a digest with the wanted prefix.
    SolveError,
}

} // verus!
