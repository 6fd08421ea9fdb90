//! Failure taxonomy of the engine. Every fallible operation surfaces one of
//! these variants instead of panicking; the payload names the offending build
//! id, field, or library coordinate.
use vstd::prelude::*;

verus! {

#[derive(Debug, Clone, PartialEq, Eq)]
pub enum LauncherError {
    /// The network probe failed; only local data can be used.
    NotReachable,
    /// A cached or fetched index/descriptor does not parse.
    ManifestCorrupt,
    /// A descriptor lacks a field required for the attempted operation.
    MissingRequiredField(String),
    /// An artifact's size disagrees with its declared size even after the
    /// single retry; the payload is the library coordinate.
    SizeMismatch(String),
    /// An overlay installer process failed to spawn or exited non-zero.
    InstallerProcessFailure,
    /// A descriptor uses a field shape the engine does not recognize.
    UnsupportedSchemaShape(String),
    /// The build is not installed and cannot be fetched; the payload is the
    /// build id.
    NotAcquirable(String),
}

impl LauncherError {
    /// A short human-readable tag for the error kind.
    pub fn kind_name(&self) -> (r: String)
        ensures
            r@ == match self {
                LauncherError::NotReachable => "not reachable"@,
                LauncherError::ManifestCorrupt => "manifest corrupt"@,
                LauncherError::MissingRequiredField(_) => "missing required field"@,
                LauncherError::SizeMismatch(_) => "size mismatch"@,
                LauncherError::InstallerProcessFailure => "installer process failure"@,
                LauncherError::UnsupportedSchemaShape(_) => "unsupported schema shape"@,
                LauncherError::NotAcquirable(_) => "not acquirable"@,
            },
    {
        match self {
            LauncherError::NotReachable => "not reachable".to_owned(),
            LauncherError::ManifestCorrupt => "manifest corrupt".to_owned(),
            LauncherError::MissingRequiredField(_) => "missing required field".to_owned(),
            LauncherError::SizeMismatch(_) => "size mismatch".to_owned(),
            LauncherError::InstallerProcessFailure => "installer process failure".to_owned(),
            LauncherError::UnsupportedSchemaShape(_) => "unsupported schema shape".to_owned(),
            LauncherError::NotAcquirable(_) => "not acquirable".to_owned(),
        }
    }
}

} // verus!
