//! The crate's error type.

use vstd::prelude::*;

verus! {

/// Declares `std::io::Error` so that it can be carried by [`Error`]; nothing
/// is assumed about its values.
#[verifier::external_type_specification]
#[verifier::external_body]
pub struct ExIoError(std::io::Error);

/// What can go wrong while opening a package or resolving an install path.
#[derive(Debug)]
pub enum Error {
    /// An underlying read of the package or cabinet failed.
    Contract(std::io::Error),
    /// A needed table entry is missing: an unknown file id, a file without a
    /// resolvable component/directory chain, or a directory id without a
    /// default-name entry.
    Other,
    /// The directory parent links form a cycle, so no root-to-leaf path
    /// exists.
    MalformedHierarchy,
}

} // verus!
