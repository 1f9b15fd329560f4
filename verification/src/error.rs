//! Error values surfaced by the input-handling functions of the library.

use vstd::prelude::*;

verus! {

/// An error found while reading input: a malformed time string, an unknown
/// unit keyword, a duplicate identifier.  Carries a human-readable message.
#[derive(Debug)]
pub struct InputError {
    pub message: String,
}

impl InputError {
    /// Wrap a message in an `InputError`.
    pub fn new(message: String) -> (r: InputError)
        ensures
            r.message@ == message@,
    {
        InputError { message }
    }
}

} // verus!
