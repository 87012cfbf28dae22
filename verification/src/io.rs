//! The I/O error kinds the library distinguishes.

use vstd::prelude::*;

verus! {

/// The subset of `std::io::ErrorKind` whose distinction matters to the
/// filesystem layers; every other kind is `Other`.
#[derive(Debug, Clone, Copy, PartialEq, Eq, Structural)]
pub enum IoErrorKind {
    NotFound,
    AlreadyExists,
    PermissionDenied,
    InvalidInput,
    FileTooLarge,
    Other,
}

} // verus!
