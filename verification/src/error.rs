//! The library's error type.

use vstd::prelude::*;

verus! {

/// An error reported to the caller.
#[derive(Debug, Clone, PartialEq, Eq)]
pub enum AppError {
    /// Any failure, described.
    Other(String),
    /// Input that the operation does not accept, described.
    InvalidInput(String),
    /// The system refused access.
    PermissionDenied,
}

} // verus!
