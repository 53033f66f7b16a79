//! The library's error type.
use vstd::prelude::*;

verus! {

/// Why a bundle could not be decoded.
#[derive(Debug, Clone, PartialEq, Eq)]
pub enum IndexerError {
    /// A structural violation: a field out of bounds, an unknown signature
    /// type, a malformed tag block or an integer field too large.
    ParsingError(String),
}

impl IndexerError {
    /// A human-readable description of the error.
    pub fn message(&self) -> (r: String)
        ensures
            match self {
                IndexerError::ParsingError(m) => r@ == m@,
            },
    {
        match self {
            IndexerError::ParsingError(m) => m.clone(),
        }
    }
}

/// A parsing error with the given description.
pub fn parsing_error(msg: &str) -> (r: IndexerError)
    ensures
        r matches IndexerError::ParsingError(m) && m@ == msg@,
{
    IndexerError::ParsingError(msg.to_owned())
}

} // verus!
