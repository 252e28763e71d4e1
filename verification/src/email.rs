//! A raw message as it arrives from storage: a file name and the full text,
//! headers and body.

use vstd::prelude::*;
use crate::errors::ExtractError;

verus! {

/// One raw notification message. `contents` holds the header lines, a blank
/// line, and the body; the send date is read from a `Date:` header line.
#[derive(Debug)]
pub struct Email {
    pub filename: String,
    pub contents: String,
}

impl Email {
    /// Wraps a file name and its text as a raw message; never fails.
    pub fn new(filename: &str, contents: &str) -> (r: Result<Email, ExtractError>)
        ensures
            r matches Ok(e) && e.filename@ == filename@ && e.contents@ == contents@,
    {
        Ok(Email { filename: filename.to_owned(), contents: contents.to_owned() })
    }
}

/// Splits the text of one input file into the raw messages it holds.
/// Currently a whole file is taken as a single message.
pub fn split_emails(s: &str) -> (r: Vec<String>)
    ensures
        r@.len() == 1,
        r@[0]@ == s@,
{
    let mut ret: Vec<String> = Vec::new();
    ret.push(s.to_owned());
    ret
}

} // verus!
