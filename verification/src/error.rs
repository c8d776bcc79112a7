//! Errors reported by the library.
use vstd::prelude::*;

verus! {

/// An error raised by a library operation, carrying a human-readable message.
#[derive(Debug)]
pub enum MojenticError {
    /// A tool refused its arguments or the state it acts on.
    ToolError(String),
    /// An argument was outside what the operation accepts.
    InvalidArgument(String),
    /// A document could not be read as the operation expects.
    ParseError(String),
    /// A turn asked for more tool rounds than its limit allows.
    MaxToolIterationsExceeded { limit: usize },
}

} // verus!
