//! The single failure this library reports: an invalid chain length.

use vstd::prelude::*;

verus! {

/// Error returned when a chain cannot be initialized, carrying a
/// descriptive message.
#[derive(Debug, Clone)]
pub struct ChainInitError {
    details: String,
}

impl ChainInitError {
    /// The message carried by this error.
    pub closed spec fn spec_message(&self) -> Seq<char> {
        self.details@
    }

    /// Build an error around a descriptive message.
    pub fn new(error_message: &str) -> (r: ChainInitError)
        ensures
            r.spec_message() == error_message@,
    {
        ChainInitError { details: error_message.to_owned() }
    }

    /// The descriptive message this error carries.
    pub fn message(&self) -> (r: &str)
        ensures
            r@ == self.spec_message(),
    {
        self.details.as_str()
    }
}

} // verus!
