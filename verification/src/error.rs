//! The decoder's error taxonomy.
//!
//! Every failure is terminal for the decode pass that raised it; each
//! error carries the index (field name or list position) at which the
//! decoder was positioned when the failure was detected.

use vstd::prelude::*;

use crate::read::Index;

verus! {

/// The kinds of failure a decode pass can end in.
#[derive(Clone, Copy, Debug, PartialEq, Eq, Structural)]
pub enum ErrorKind {
    /// The current index resolved to nothing and the requested shape
    /// has no absent semantics.
    MissingValue,
    /// The resolved value's variant does not match the one the
    /// requested shape needs.
    TypeMismatch,
    /// A numeric or single-character payload does not parse into the
    /// requested native type.
    ParseFailure,
    /// The requested decode kind is intentionally not implemented.
    Unsupported,
    /// An identifier was requested while the current index is not
    /// name-addressed.
    BadIdentifier,
}

/// A terminal decode failure: its kind, and the index at which it arose.
#[derive(Debug)]
pub struct Error {
    pub kind: ErrorKind,
    pub at: Index,
}

} // verus!
