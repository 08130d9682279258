//! The outcome of every fallible operation.

use vstd::prelude::*;

verus! {

/// Why an operation failed.
#[derive(Debug, Clone, PartialEq, Eq)]
pub enum Error {
    /// No device or key matches the lookup.
    NotFound,
    /// The request is well formed but its value is not acceptable: a bad
    /// channel index, a malformed filter, a parameter out of range.
    ValueError,
    /// The hardware class lacks the requested capability for good.
    NotSupported,
    /// A driver or transport failure, with its cause in words.
    Misc(String),
}

} // verus!
