use vstd::prelude::*;

verus! {

/// Failure taxonomy of the transfer pipeline. Each variant names the stage
/// that failed, so a caller can report where a transfer stopped.
#[derive(Debug, PartialEq, Eq)]
pub enum TransferError {
    /// A required configuration value was absent; carries the name of the
    /// first missing variable. No transfer is attempted.
    ConfigError { variable: String },
    /// In-progress multipart sessions could not be listed; no upload is
    /// attempted.
    ListError,
    /// A multipart session could not be opened.
    InitiateError,
    /// A part upload or a download chunk failed; for uploads this triggers
    /// an abort of the whole session before the error is propagated.
    ChunkTransferError,
    /// Finalisation of a multipart session was rejected.
    CompleteError,
    /// The local source file could not be read, or the local destination
    /// file could not be written.
    LocalIOError,
}

} // verus!
