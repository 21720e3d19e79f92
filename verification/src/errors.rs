//! The error taxonomy of the library.
//!
//! Three kinds of failure are distinguished: environment failures carried in
//! from the caller's I/O, decode failures on stored data, and logical
//! precondition failures such as loading a version that was never saved.

use vstd::prelude::*;

verus! {

/// Every failure the library reports.
///
/// Name payloads carry the module or version name the failure is about, as
/// bytes.  `IoError` carries a message produced outside the library; the
/// library itself never constructs one.
#[derive(Clone, Debug, PartialEq, Eq)]
pub enum VersionsError {
    /// A filesystem operation failed in the surrounding layer.
    IoError(Vec<u8>),
    /// No repository was found at or above the given path.
    RepositoryNotFoundOrInitialized,
    /// A repository already exists at the given path.
    RepositoryAlreadyInitialized,
    /// A path expected to name a directory does not.
    NotADirectory,
    /// A module of this name already exists.
    ModuleAlreadyExists(Vec<u8>),
    /// The currently selected module cannot be removed.
    CannotRemoveSelectedModule(Vec<u8>),
    /// No module of this name exists.
    ModuleDoesNotExists(Vec<u8>),
    /// A version of this name already exists in the module.
    VersionAlreadyExists(Vec<u8>),
    /// No version of this name exists in the module.
    VersionDoesNotExists(Vec<u8>),
    /// The named module has no current version.
    NoCurrentVersionInModule(Vec<u8>),
    /// No module is currently selected.
    NoCurrentModule,
    /// The version has no stored object, so it cannot be loaded or removed.
    VersionNotSaved(Vec<u8>),
    /// A stored object is not a valid compressed stream.
    MalformedObject,
    /// A decompressed document does not parse as a snapshot.
    MalformedSnapshot,
    /// A file entry's content is not valid base64 text.
    BaseDecodeError,
}

} // verus!
