//! The error type shared by parsers, processors and renderers.

use vstd::prelude::*;

verus! {

/// An error raised by a parser, a processor or a renderer. It carries a
/// human-readable message; each stage either fully succeeds or fails with
/// one such error, and partial results are never returned.
#[derive(Debug, Clone, PartialEq, Eq)]
pub struct Error {
    /// Error message
    pub message: String,
}

impl Error {
    /// Creates a new error from a message.
    pub fn new(msg: &str) -> (r: Error)
        ensures
            r.message@ == msg@,
    {
        Error { message: msg.to_owned() }
    }

    /// Returns the message text.
    pub fn text(&self) -> (r: &str)
        ensures
            r@ == self.message@,
    {
        self.message.as_str()
    }
}

} // verus!
