//! The ways extracting a record from a raw message can fail. Extraction
//! failures are per-message and non-fatal: a message that fails extraction is
//! skipped, never ingested.

use vstd::prelude::*;

verus! {

/// Why a raw message yielded no record.
#[derive(Clone, Copy, Debug, PartialEq, Eq, Structural)]
pub enum ExtractError {
    /// The text does not match the expected sentence pattern.
    NoMatch,
    /// The subscriber id segment does not fit an unsigned 32-bit integer.
    MalformedId,
    /// No usable send date accompanies the text.
    MissingTimestamp,
}

impl ExtractError {
    /// A short description of the failure.
    pub fn describe(&self) -> (r: &'static str)
        ensures
            r@ == error_display(*self),
    {
        match self {
            ExtractError::NoMatch => "Couldn't match Regex",
            ExtractError::MalformedId => "Could not read iMIS id",
            ExtractError::MissingTimestamp => "No usable date found",
        }
    }
}

/// The rendered description of an extraction failure.
pub open spec fn error_display(e: ExtractError) -> Seq<char> {
    match e {
        ExtractError::NoMatch => "Couldn't match Regex"@,
        ExtractError::MalformedId => "Could not read iMIS id"@,
        ExtractError::MissingTimestamp => "No usable date found"@,
    }
}

} // verus!
