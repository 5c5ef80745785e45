//! Located parse errors.

use vstd::prelude::*;
use crate::location::Location;
use crate::tokenizer::Token;

verus! {

/// A parse failure: a human-readable message, the token that the failing
/// production could not accept, and the source location at which the
/// failure was detected. Every production returns this type on its failure
/// path; callers propagate it unchanged.
#[derive(Debug)]
pub struct Error {
    pub message: String,
    pub found: Token,
    pub location: Location,
}

impl Error {
    pub fn new(message: String, found: Token, location: Location) -> (e: Error)
        ensures
            e.message == message,
            e.found == found,
            e.location == location,
    {
        Error { message, found, location }
    }
}

} // verus!
