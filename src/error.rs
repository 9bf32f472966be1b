//! The failures that a lookup reports.
use vstd::prelude::*;

verus! {

/// Why a load or a query failed.
#[derive(Debug, PartialEq, Eq)]
pub enum PhoneError {
    /// The data file is missing or cannot be read; holds the reason.
    Io(String),
    /// The header is too short or a record is malformed; holds what was found.
    Format(String),
    /// A query was made against an empty index.
    Uninitialized,
    /// The first seven characters of the phone number are not decimal digits.
    Parse,
    /// No index entry carries the prefix.
    NotFound,
}

} // verus!
