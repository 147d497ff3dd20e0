//! Error taxonomy of the version-management core.
//!
//! `NotFound`, `InvalidInput` and `Unauthorized` errors are caller-facing
//! and carry the data a human-readable message is built from; `Internal`
//! marks a storage-invariant violation. Rendering the message text is the
//! transport layer's job, so each variant holds plain values only.

use vstd::prelude::*;

verus! {

/// One failure of a store operation.
#[derive(Debug, PartialEq, Eq)]
pub enum CargoError {
    /// A version row looked up by id is absent.
    VersionIdNotFound { id: i32 },
    /// No crate of this name is known ("no known crate named `X`").
    CrateNotFound { name: String },
    /// The crate exists but has no such version.
    VersionNotFound { krate: String, num: String },
    /// A version's author references a user that no longer exists.
    UserNotFound { id: i32 },
    /// A caller-supplied version string is not valid semver.
    InvalidSemver { num: String },
    /// The acting identity is not an owner of the crate.
    Unauthorized,
    /// A storage invariant was violated.
    Internal,
}

/// The caller-facing class of an error.
#[derive(Debug, PartialEq, Eq, Clone, Copy)]
pub enum ErrorKind {
    NotFound,
    InvalidInput,
    Unauthorized,
    Internal,
}

impl CargoError {
    /// The class a transport layer translates this error by.
    pub fn kind(&self) -> (k: ErrorKind)
        ensures
            k == self.spec_kind(),
    {
        match self {
            CargoError::VersionIdNotFound { .. } => ErrorKind::NotFound,
            CargoError::CrateNotFound { .. } => ErrorKind::NotFound,
            CargoError::VersionNotFound { .. } => ErrorKind::NotFound,
            CargoError::UserNotFound { .. } => ErrorKind::NotFound,
            CargoError::InvalidSemver { .. } => ErrorKind::InvalidInput,
            CargoError::Unauthorized => ErrorKind::Unauthorized,
            CargoError::Internal => ErrorKind::Internal,
        }
    }

    /// The class of each variant.
    pub open spec fn spec_kind(&self) -> ErrorKind {
        match self {
            CargoError::VersionIdNotFound { .. } => ErrorKind::NotFound,
            CargoError::CrateNotFound { .. } => ErrorKind::NotFound,
            CargoError::VersionNotFound { .. } => ErrorKind::NotFound,
            CargoError::UserNotFound { .. } => ErrorKind::NotFound,
            CargoError::InvalidSemver { .. } => ErrorKind::InvalidInput,
            CargoError::Unauthorized => ErrorKind::Unauthorized,
            CargoError::Internal => ErrorKind::Internal,
        }
    }
}

} // verus!
