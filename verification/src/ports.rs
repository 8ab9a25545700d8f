//! Ports (traits) that the adapters implement, so that the logic stays free of
//! I/O and can be exercised with mocks.
use vstd::prelude::*;
use crate::domain::{BackendError, ServerStatus};

verus! {

/// `std::io::Error`, carried through the filesystem port.
#[verifier::external_type_specification]
#[verifier::external_body]
pub struct ExIoError(std::io::Error);

/// Filesystem port: the folder layout logic depends on it rather than on
/// `std::fs`.
pub trait Fs {
    /// The outcomes this file system may give to creating the folder `path`
    /// (with its parents), as its implementation describes them. By default
    /// nothing is described (every outcome is possible); a file system that
    /// models its folders, such as a mock, narrows it.
    open spec fn creates(&self, path: Seq<char>, r: Result<(), std::io::Error>) -> bool {
        true
    }

    fn create_dir_all(&self, path: &str) -> (r: Result<(), std::io::Error>)
        ensures
            self.creates(path@, r),
    ;

    /// Whether the path exists.
    fn path_exists(&self, path: &str) -> bool;
}

/// Storage server port, not tied to SMB: start serving the loader's catalog,
/// tell whether it is served, and undo everything `apply` did.
pub trait StorageBackend {
    /// Starts serving the catalog (applies the configuration and/or starts
    /// the server).
    fn apply(&self) -> Result<(), BackendError>;

    /// Whether the catalog is being served.
    fn status(&self) -> Result<ServerStatus, BackendError>;

    /// Stops serving and undoes everything `apply` did.
    fn rollback(&self) -> Result<(), BackendError>;
}

} // verus!
