use vstd::prelude::*;

verus! {

/// The library's error: the input was refused, or the evolutionary search failed.
#[derive(Debug, Clone, PartialEq, Eq)]
pub enum Error {
    InvalidInput(String),
    Evolution(String),
}

/// `Error::InvalidInput` carrying exactly `text`.
pub open spec fn invalid_input(error: Error, text: Seq<char>) -> bool {
    error matches Error::InvalidInput(message) && message@ == text
}

} // verus!
