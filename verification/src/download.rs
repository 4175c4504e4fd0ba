use vstd::prelude::*;

use crate::errors::TransferError;
use crate::progress::TransferProgress;

verus! {

/// Where the streamer stands in a download.
#[derive(Debug, Clone, Copy, PartialEq, Eq, Structural)]
pub enum DownloadPhase {
    /// Waiting for the object-metadata query.
    Heading,
    /// Waiting for the local file and the remote body stream to open.
    Opening,
    /// Copying chunks from the stream into the local file.
    Streaming,
    /// The download finished; every received chunk is written.
    Done,
    /// The download failed; a partial local file may remain for the caller
    /// to discard.
    Failed,
}

/// What the driver observed, fed back to the streamer.
#[derive(Debug, Clone, Copy, PartialEq, Eq, Structural)]
pub enum DownloadEvent {
    /// The metadata query returned this object size; zero stands for a
    /// missing size and only degrades progress reporting.
    HeadOk { size: u64 },
    /// The metadata query failed.
    HeadFailed,
    /// The local destination file and the remote body stream are open; any
    /// existing file at the destination was truncated.
    StreamOpened,
    /// The local destination file could not be created.
    FileCreateFailed,
    /// The remote body stream could not be opened.
    StreamOpenFailed,
    /// One chunk was received and durably written to the local file.
    ChunkWritten { len: u64 },
    /// The remote stream broke mid-body.
    ChunkReceiveFailed,
    /// A received chunk could not be written to the local file.
    ChunkWriteFailed,
    /// The remote stream ended; the object is fully written.
    StreamEnded,
}

/// What the driver must do next on the streamer's behalf.
#[derive(Debug)]
pub enum DownloadAction {
    /// Create the local destination file and open the object's body stream
    /// from byte zero.
    OpenStream,
    /// Receive the next chunk and write it to the local file.
    AwaitChunk,
    /// The download is finished; report success.
    Succeed,
    /// The download is finished; report this error. The partial local file
    /// is left in place for the caller.
    Fail { error: TransferError },
}

/// Drives one sequential download: query the size for progress display,
/// open the stream, then copy chunks in arrival order, advancing progress
/// only after a chunk is durably written.
#[derive(Debug, Clone, Copy, PartialEq, Eq, Structural)]
pub struct Downloader {
    pub phase: DownloadPhase,
    pub progress: TransferProgress,
}

/// The streamer's state after construction.
pub open spec fn spec_download_init(started_at_ms: u64) -> Downloader {
    Downloader {
        phase: DownloadPhase::Heading,
        progress: TransferProgress { bytes_transferred: 0, total_bytes: 0, started_at_ms },
    }
}

/// Which events the protocol permits in each phase, together with the one
/// machine bound: the byte counter must not wrap.
pub open spec fn download_event_fits(s: Downloader, ev: DownloadEvent) -> bool {
    match ev {
        DownloadEvent::HeadOk { .. } => s.phase is Heading,
        DownloadEvent::HeadFailed => s.phase is Heading,
        DownloadEvent::StreamOpened => s.phase is Opening,
        DownloadEvent::FileCreateFailed => s.phase is Opening,
        DownloadEvent::StreamOpenFailed => s.phase is Opening,
        DownloadEvent::ChunkWritten { len } => s.phase is Streaming
            && s.progress.bytes_transferred + len <= u64::MAX,
        DownloadEvent::ChunkReceiveFailed => s.phase is Streaming,
        DownloadEvent::ChunkWriteFailed => s.phase is Streaming,
        DownloadEvent::StreamEnded => s.phase is Streaming,
    }
}

/// The transition relation of the streamer: next state and requested action
/// for each permitted event. The executable [`Downloader::step`] follows it
/// exactly.
pub open spec fn spec_download_step(s: Downloader, ev: DownloadEvent) -> (
    Downloader,
    DownloadAction,
) {
    match (s.phase, ev) {
        (DownloadPhase::Heading, DownloadEvent::HeadOk { size }) => (
            Downloader {
                phase: DownloadPhase::Opening,
                progress: TransferProgress { total_bytes: size, ..s.progress },
            },
            DownloadAction::OpenStream,
        ),
        (DownloadPhase::Heading, DownloadEvent::HeadFailed) => (
            Downloader { phase: DownloadPhase::Failed, ..s },
            DownloadAction::Fail { error: TransferError::ChunkTransferError },
        ),
        (DownloadPhase::Opening, DownloadEvent::StreamOpened) => (
            Downloader { phase: DownloadPhase::Streaming, ..s },
            DownloadAction::AwaitChunk,
        ),
        (DownloadPhase::Opening, DownloadEvent::FileCreateFailed) => (
            Downloader { phase: DownloadPhase::Failed, ..s },
            DownloadAction::Fail { error: TransferError::LocalIOError },
        ),
        (DownloadPhase::Opening, DownloadEvent::StreamOpenFailed) => (
            Downloader { phase: DownloadPhase::Failed, ..s },
            DownloadAction::Fail { error: TransferError::ChunkTransferError },
        ),
        (DownloadPhase::Streaming, DownloadEvent::ChunkWritten { len }) => (
            Downloader {
                phase: DownloadPhase::Streaming,
                progress: TransferProgress {
                    bytes_transferred: (s.progress.bytes_transferred + len) as u64,
                    ..s.progress
                },
            },
            DownloadAction::AwaitChunk,
        ),
        (DownloadPhase::Streaming, DownloadEvent::ChunkReceiveFailed) => (
            Downloader { phase: DownloadPhase::Failed, ..s },
            DownloadAction::Fail { error: TransferError::ChunkTransferError },
        ),
        (DownloadPhase::Streaming, DownloadEvent::ChunkWriteFailed) => (
            Downloader { phase: DownloadPhase::Failed, ..s },
            DownloadAction::Fail { error: TransferError::LocalIOError },
        ),
        (DownloadPhase::Streaming, DownloadEvent::StreamEnded) => (
            Downloader { phase: DownloadPhase::Done, ..s },
            DownloadAction::Succeed,
        ),
        _ => (s, DownloadAction::Fail { error: TransferError::ChunkTransferError }),
    }
}

impl Downloader {
    /// A streamer about to query the object's metadata; that query is the
    /// driver's first request.
    pub fn new(started_at_ms: u64) -> (d: Downloader)
        ensures
            d == spec_download_init(started_at_ms),
    {
        Downloader {
            phase: DownloadPhase::Heading,
            progress: TransferProgress::new(0, started_at_ms),
        }
    }

    /// Feeds the outcome of the last requested operation into the streamer
    /// and returns what the driver must do next.
    pub fn step(&mut self, ev: DownloadEvent) -> (a: DownloadAction)
        requires
            download_event_fits(*old(self), ev),
        ensures
            *final(self) == spec_download_step(*old(self), ev).0,
            a == spec_download_step(*old(self), ev).1,
    {
        match ev {
            DownloadEvent::HeadOk { size } => {
                self.phase = DownloadPhase::Opening;
                self.progress.total_bytes = size;
                DownloadAction::OpenStream
            },
            DownloadEvent::HeadFailed => {
                self.phase = DownloadPhase::Failed;
                DownloadAction::Fail { error: TransferError::ChunkTransferError }
            },
            DownloadEvent::StreamOpened => {
                self.phase = DownloadPhase::Streaming;
                DownloadAction::AwaitChunk
            },
            DownloadEvent::FileCreateFailed => {
                self.phase = DownloadPhase::Failed;
                DownloadAction::Fail { error: TransferError::LocalIOError }
            },
            DownloadEvent::StreamOpenFailed => {
                self.phase = DownloadPhase::Failed;
                DownloadAction::Fail { error: TransferError::ChunkTransferError }
            },
            DownloadEvent::ChunkWritten { len } => {
                self.progress.advance(len);
                DownloadAction::AwaitChunk
            },
            DownloadEvent::ChunkReceiveFailed => {
                self.phase = DownloadPhase::Failed;
                DownloadAction::Fail { error: TransferError::ChunkTransferError }
            },
            DownloadEvent::ChunkWriteFailed => {
                self.phase = DownloadPhase::Failed;
                DownloadAction::Fail { error: TransferError::LocalIOError }
            },
            DownloadEvent::StreamEnded => {
                self.phase = DownloadPhase::Done;
                DownloadAction::Succeed
            },
        }
    }
}

} // verus!
