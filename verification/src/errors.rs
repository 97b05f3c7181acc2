//! The error taxonomy of the synchronization protocol.

use vstd::prelude::*;

verus! {

/// Why a load or upload run failed.
///
/// Every failure of the two entry points surfaces as exactly one of these;
/// there is no internal retry.
#[derive(Debug, Clone)]
pub enum SyncError {
    /// A required configuration key is absent.  Holds the key's name.
    ConfigError { key: String },
    /// A listed remote object key does not have the
    /// `prefix/epochMillis/partition` shape.  Holds the offending key; the
    /// whole discovery pass is aborted, never a partial selection.
    MalformedRemoteKey { key: String },
    /// The index engine reported the local index invalid while it had to be
    /// valid (publishing).  Holds the engine's reason.
    ConsistencyError { reason: String },
    /// The remote object store, transport, or credentials failed.
    TransferError { detail: String },
    /// An archive could not be packed, or was truncated, corrupt, or unsafe
    /// to extract.
    ArchiveError { detail: String },
    /// A local file or directory could not be created, renamed, or removed.
    FilesystemError { detail: String },
}

/// The variant of a [`SyncError`], without its payload.
#[derive(Debug, Clone, Copy, PartialEq, Eq, Structural)]
pub enum SyncErrorKind {
    Config,
    MalformedRemoteKey,
    Consistency,
    Transfer,
    Archive,
    Filesystem,
}

impl SyncError {
    /// Which variant this error is.
    pub open spec fn kind_spec(&self) -> SyncErrorKind {
        match self {
            SyncError::ConfigError { .. } => SyncErrorKind::Config,
            SyncError::MalformedRemoteKey { .. } => SyncErrorKind::MalformedRemoteKey,
            SyncError::ConsistencyError { .. } => SyncErrorKind::Consistency,
            SyncError::TransferError { .. } => SyncErrorKind::Transfer,
            SyncError::ArchiveError { .. } => SyncErrorKind::Archive,
            SyncError::FilesystemError { .. } => SyncErrorKind::Filesystem,
        }
    }

    /// Which variant this error is.
    pub fn kind(&self) -> (k: SyncErrorKind)
        ensures
            k == self.kind_spec(),
    {
        match self {
            SyncError::ConfigError { .. } => SyncErrorKind::Config,
            SyncError::MalformedRemoteKey { .. } => SyncErrorKind::MalformedRemoteKey,
            SyncError::ConsistencyError { .. } => SyncErrorKind::Consistency,
            SyncError::TransferError { .. } => SyncErrorKind::Transfer,
            SyncError::ArchiveError { .. } => SyncErrorKind::Archive,
            SyncError::FilesystemError { .. } => SyncErrorKind::Filesystem,
        }
    }
}

/// What kind of step the embedding host reports as failed when it could not
/// carry out a requested action.  The orchestrator maps it onto the matching
/// [`SyncError`].
#[derive(Debug, Clone)]
pub enum FailureKind {
    /// A network transfer (listing, download, or upload) failed.
    Transfer { detail: String },
    /// Packing or unpacking an archive failed.
    Archive { detail: String },
    /// A filesystem action (create, rename, remove) failed.
    Filesystem { detail: String },
}

impl FailureKind {
    /// The error that surfaces to the caller for this failure.
    pub open spec fn to_error_spec(self) -> SyncError {
        match self {
            FailureKind::Transfer { detail } => SyncError::TransferError { detail },
            FailureKind::Archive { detail } => SyncError::ArchiveError { detail },
            FailureKind::Filesystem { detail } => SyncError::FilesystemError { detail },
        }
    }

    /// The error that surfaces to the caller for this failure.
    pub fn to_error(self) -> (e: SyncError)
        ensures
            e == self.to_error_spec(),
    {
        match self {
            FailureKind::Transfer { detail } => SyncError::TransferError { detail },
            FailureKind::Archive { detail } => SyncError::ArchiveError { detail },
            FailureKind::Filesystem { detail } => SyncError::FilesystemError { detail },
        }
    }
}

} // verus!
