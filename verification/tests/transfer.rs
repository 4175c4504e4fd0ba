use rsget::multipart::{UploadAction, UploadEvent, UploadPhase, Uploader};
use rsget::download::{DownloadAction, DownloadEvent, DownloadPhase, Downloader};
use rsget::errors::TransferError;
use rsget::strategy::TransferStrategy;
use rsget::{part_count, select_strategy, CHUNK_SIZE, MULTIPART_THRESHOLD};

const MIB: u64 = 1024 * 1024;

#[test]
fn selector_threshold_is_five_mib() {
    assert_eq!(MULTIPART_THRESHOLD, 5 * MIB);
    assert!(matches!(select_strategy(0), TransferStrategy::SinglePart));
    assert!(matches!(select_strategy(3 * MIB), TransferStrategy::SinglePart));
    assert!(matches!(
        select_strategy(5 * MIB - 1),
        TransferStrategy::SinglePart
    ));
    assert!(matches!(select_strategy(5 * MIB), TransferStrategy::Multipart));
    assert!(matches!(
        select_strategy(20 * MIB),
        TransferStrategy::Multipart
    ));
    assert!(matches!(
        select_strategy(u64::MAX),
        TransferStrategy::Multipart
    ));
}

#[test]
fn part_count_rounds_up() {
    assert_eq!(CHUNK_SIZE, 8 * MIB);
    assert_eq!(part_count(0), 0);
    assert_eq!(part_count(1), 1);
    assert_eq!(part_count(8 * MIB), 1);
    assert_eq!(part_count(8 * MIB + 1), 2);
    assert_eq!(part_count(16 * MIB), 2);
    assert_eq!(part_count(20 * MIB), 3);
}

#[test]
fn twenty_mib_uploads_three_parts_in_order() {
    let total = 20 * MIB;
    assert!(matches!(select_strategy(total), TransferStrategy::Multipart));
    let mut up = Uploader::new(total, "backups/Game.7z".to_string(), 0);
    assert!(matches!(up.phase, UploadPhase::Initiating));

    let a = up.step(UploadEvent::InitiateOk {
        upload_id: "session-1".to_string(),
    });
    match a {
        UploadAction::UploadPart {
            part_number,
            offset,
            len,
        } => {
            assert_eq!((part_number, offset, len), (1, 0, 8 * MIB));
        }
        other => panic!("expected first part request, got {:?}", other),
    }

    let a = up.step(UploadEvent::PartSucceeded {
        entity_tag: "etag-1".to_string(),
    });
    assert_eq!(up.progress.bytes_transferred, 8 * MIB);
    match a {
        UploadAction::UploadPart {
            part_number,
            offset,
            len,
        } => {
            assert_eq!((part_number, offset, len), (2, 8 * MIB, 8 * MIB));
        }
        other => panic!("expected second part request, got {:?}", other),
    }

    let a = up.step(UploadEvent::PartSucceeded {
        entity_tag: "etag-2".to_string(),
    });
    assert_eq!(up.progress.bytes_transferred, 16 * MIB);
    match a {
        UploadAction::UploadPart {
            part_number,
            offset,
            len,
        } => {
            assert_eq!((part_number, offset, len), (3, 16 * MIB, 4 * MIB));
        }
        other => panic!("expected third part request, got {:?}", other),
    }

    let a = up.step(UploadEvent::PartSucceeded {
        entity_tag: "etag-3".to_string(),
    });
    assert_eq!(up.progress.bytes_transferred, 20 * MIB);
    match a {
        UploadAction::Complete { upload_id, parts } => {
            assert_eq!(upload_id, "session-1");
            let sent: Vec<(u64, &str)> = parts
                .iter()
                .map(|p| (p.part_number, p.entity_tag.as_str()))
                .collect();
            assert_eq!(sent, vec![(1, "etag-1"), (2, "etag-2"), (3, "etag-3")]);
        }
        other => panic!("expected completion request, got {:?}", other),
    }
    assert!(matches!(up.phase, UploadPhase::Completing));

    let a = up.step(UploadEvent::CompleteOk);
    assert!(matches!(a, UploadAction::Succeed));
    assert!(matches!(up.phase, UploadPhase::Done));
}

#[test]
fn failed_chunk_aborts_with_original_upload_id() {
    let total = 20 * MIB;
    let mut up = Uploader::new(total, "backups/Game.7z".to_string(), 0);
    let mut complete_seen = false;

    let a = up.step(UploadEvent::InitiateOk {
        upload_id: "session-77".to_string(),
    });
    complete_seen |= matches!(a, UploadAction::Complete { .. });

    let a = up.step(UploadEvent::PartSucceeded {
        entity_tag: "etag-1".to_string(),
    });
    complete_seen |= matches!(a, UploadAction::Complete { .. });

    // chunk 2 of 3 fails
    let a = up.step(UploadEvent::PartFailed);
    complete_seen |= matches!(a, UploadAction::Complete { .. });
    match a {
        UploadAction::Abort { upload_id } => assert_eq!(upload_id, "session-77"),
        other => panic!("expected an abort request, got {:?}", other),
    }
    assert!(matches!(up.phase, UploadPhase::Aborting));

    let a = up.step(UploadEvent::AbortFinished);
    complete_seen |= matches!(a, UploadAction::Complete { .. });
    match a {
        UploadAction::Fail { error } => {
            assert_eq!(error, TransferError::ChunkTransferError)
        }
        other => panic!("expected the original error, got {:?}", other),
    }
    assert!(matches!(up.phase, UploadPhase::Failed));
    assert!(!complete_seen);
    // progress reflects only the confirmed first chunk
    assert_eq!(up.progress.bytes_transferred, 8 * MIB);
}

#[test]
fn source_read_failure_aborts_with_local_error() {
    let mut up = Uploader::new(20 * MIB, "backups/Game.7z".to_string(), 0);
    up.step(UploadEvent::InitiateOk {
        upload_id: "s".to_string(),
    });
    let a = up.step(UploadEvent::SourceReadFailed);
    assert!(matches!(a, UploadAction::Abort { .. }));
    let a = up.step(UploadEvent::AbortFinished);
    match a {
        UploadAction::Fail { error } => assert_eq!(error, TransferError::LocalIOError),
        other => panic!("expected a local error, got {:?}", other),
    }
}

#[test]
fn initiate_failure_is_fatal_without_abort() {
    let mut up = Uploader::new(20 * MIB, "backups/Game.7z".to_string(), 0);
    let a = up.step(UploadEvent::InitiateFailed);
    match a {
        UploadAction::Fail { error } => assert_eq!(error, TransferError::InitiateError),
        other => panic!("expected the initiate error, got {:?}", other),
    }
    assert!(matches!(up.phase, UploadPhase::Failed));
}

#[test]
fn complete_rejection_is_returned_as_is() {
    let mut up = Uploader::new(MULTIPART_THRESHOLD, "k".to_string(), 0);
    up.step(UploadEvent::InitiateOk {
        upload_id: "s".to_string(),
    });
    let a = up.step(UploadEvent::PartSucceeded {
        entity_tag: "e1".to_string(),
    });
    assert!(matches!(a, UploadAction::Complete { .. }));
    let a = up.step(UploadEvent::CompleteFailed);
    match a {
        UploadAction::Fail { error } => assert_eq!(error, TransferError::CompleteError),
        other => panic!("expected the completion error, got {:?}", other),
    }
}

#[test]
fn download_copies_chunks_and_tracks_progress() {
    let mut d = Downloader::new(5);
    assert!(matches!(d.phase, DownloadPhase::Heading));
    let a = d.step(DownloadEvent::HeadOk { size: 100 });
    assert!(matches!(a, DownloadAction::OpenStream));
    assert_eq!(d.progress.total_bytes, 100);
    let a = d.step(DownloadEvent::StreamOpened);
    assert!(matches!(a, DownloadAction::AwaitChunk));
    let a = d.step(DownloadEvent::ChunkWritten { len: 60 });
    assert!(matches!(a, DownloadAction::AwaitChunk));
    assert_eq!(d.progress.bytes_transferred, 60);
    d.step(DownloadEvent::ChunkWritten { len: 40 });
    assert_eq!(d.progress.bytes_transferred, 100);
    let a = d.step(DownloadEvent::StreamEnded);
    assert!(matches!(a, DownloadAction::Succeed));
    assert!(matches!(d.phase, DownloadPhase::Done));
}

#[test]
fn download_missing_size_degrades_progress_only() {
    let mut d = Downloader::new(0);
    let a = d.step(DownloadEvent::HeadOk { size: 0 });
    assert!(matches!(a, DownloadAction::OpenStream));
    assert_eq!(d.progress.total_bytes, 0);
    d.step(DownloadEvent::StreamOpened);
    d.step(DownloadEvent::ChunkWritten { len: 7 });
    assert_eq!(d.progress.bytes_transferred, 7);
    let a = d.step(DownloadEvent::StreamEnded);
    assert!(matches!(a, DownloadAction::Succeed));
}

#[test]
fn download_failures_map_to_their_stage() {
    let mut d = Downloader::new(0);
    let a = d.step(DownloadEvent::HeadFailed);
    assert!(matches!(
        a,
        DownloadAction::Fail {
            error: TransferError::ChunkTransferError
        }
    ));

    let mut d = Downloader::new(0);
    d.step(DownloadEvent::HeadOk { size: 10 });
    let a = d.step(DownloadEvent::FileCreateFailed);
    assert!(matches!(
        a,
        DownloadAction::Fail {
            error: TransferError::LocalIOError
        }
    ));

    let mut d = Downloader::new(0);
    d.step(DownloadEvent::HeadOk { size: 10 });
    d.step(DownloadEvent::StreamOpened);
    let a = d.step(DownloadEvent::ChunkReceiveFailed);
    assert!(matches!(
        a,
        DownloadAction::Fail {
            error: TransferError::ChunkTransferError
        }
    ));

    let mut d = Downloader::new(0);
    d.step(DownloadEvent::HeadOk { size: 10 });
    d.step(DownloadEvent::StreamOpened);
    let a = d.step(DownloadEvent::ChunkWriteFailed);
    assert!(matches!(
        a,
        DownloadAction::Fail {
            error: TransferError::LocalIOError
        }
    ));
    assert!(matches!(d.phase, DownloadPhase::Failed));
}
