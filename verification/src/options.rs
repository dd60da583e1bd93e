//! Options of the capture-reading front end.

use vstd::prelude::*;

verus! {

/// What one run of the front end was asked to do: which capture file
/// to read, and whether to reorder the decoded quotes by accept time
/// before printing them.
#[derive(Debug)]
pub struct ParseQuote {
    pub input: String,
    pub reorder: bool,
}

impl ParseQuote {
    /// Options for reading `input`, reordering on request.
    pub fn new(input: String, reorder: bool) -> (r: ParseQuote)
        ensures
            r.input == input,
            r.reorder == reorder,
    {
        ParseQuote { input, reorder }
    }
}

} // verus!
