//! The error type of wire-format conversions.

use vstd::prelude::*;

verus! {

/// An error from reading a value off its wire spelling.
#[derive(Clone, Debug)]
pub struct ConversionError(String);

impl ConversionError {
    /// The message, in specifications.
    pub closed spec fn spec_message(self) -> Seq<char> {
        self.0@
    }

    /// An error carrying the given message.
    pub fn new(message: String) -> (r: Self)
        ensures
            r.spec_message() == message@,
    {
        ConversionError(message)
    }

    /// The human-readable message.
    pub fn message(&self) -> (r: &String)
        ensures
            r@ == self.spec_message(),
    {
        &self.0
    }
}

} // verus!
