use rsget::bucket::{Bucket, CompletedPart};
use rsget::errors::TransferError;
use rsget::multipart::{UploadAction, UploadEvent, Uploader};
use rsget::pipeline::{sessions_to_abort, upload_bytes, StaleSession};
use rsget::strategy::TransferStrategy;
use rsget::select_strategy;

const MIB: usize = 1024 * 1024;

fn pattern(len: usize) -> Vec<u8> {
    (0..len).map(|i| (i % 251) as u8).collect()
}

#[test]
fn put_get_and_head_round_trip() {
    let mut b = Bucket::new();
    assert!(b.get_object("k").is_none());
    assert!(b.head_object("k").is_none());
    b.put_object("k", vec![1, 2, 3]);
    assert_eq!(b.get_object("k").unwrap(), vec![1, 2, 3]);
    assert_eq!(b.head_object("k").unwrap(), 3);
    b.put_object("k", vec![9]);
    assert_eq!(b.get_object("k").unwrap(), vec![9]);
    assert!(b.get_object("other").is_none());
}

#[test]
fn three_mib_file_goes_single_part_and_round_trips() {
    let data = pattern(3 * MIB);
    assert!(matches!(
        select_strategy(data.len() as u64),
        TransferStrategy::SinglePart
    ));
    let mut b = Bucket::new();
    let r = upload_bytes(&mut b, "backups/Small.7z", &data);
    assert!(r.is_ok());
    // no multipart session was ever needed, none is left
    assert!(b.uploads.is_empty());
    let back = b.get_object("backups/Small.7z").unwrap();
    assert_eq!(back, data);
}

#[test]
fn twenty_mib_file_goes_multipart_and_round_trips() {
    let data = pattern(20 * MIB);
    assert!(matches!(
        select_strategy(data.len() as u64),
        TransferStrategy::Multipart
    ));
    let mut b = Bucket::new();
    let r = upload_bytes(&mut b, "backups/Big.7z", &data);
    assert!(r.is_ok());
    assert!(b.uploads.is_empty());
    let back = b.get_object("backups/Big.7z").unwrap();
    assert_eq!(back.len(), data.len());
    assert_eq!(back, data);
}

#[test]
fn multipart_protocol_concatenates_parts_in_order() {
    let mut b = Bucket::new();
    let id = b.create_upload("k");
    let t1 = b.upload_part(id, 1, vec![1, 1]).unwrap();
    let t2 = b.upload_part(id, 2, vec![2]).unwrap();
    let t3 = b.upload_part(id, 3, vec![3, 3, 3]).unwrap();
    let req = vec![
        CompletedPart {
            part_number: 1,
            entity_tag: t1,
        },
        CompletedPart {
            part_number: 2,
            entity_tag: t2,
        },
        CompletedPart {
            part_number: 3,
            entity_tag: t3,
        },
    ];
    assert!(b.complete_upload(id, &req).is_ok());
    assert_eq!(b.get_object("k").unwrap(), vec![1, 1, 2, 3, 3, 3]);
    assert!(b.uploads.is_empty());
}

#[test]
fn completion_rejects_wrong_tags_and_gaps() {
    let mut b = Bucket::new();
    let id = b.create_upload("k");
    let t1 = b.upload_part(id, 1, vec![1]).unwrap();
    let t2 = b.upload_part(id, 2, vec![2]).unwrap();

    // a stale or foreign entity tag is rejected
    let bad_tag = vec![
        CompletedPart {
            part_number: 1,
            entity_tag: t1 + 1000,
        },
        CompletedPart {
            part_number: 2,
            entity_tag: t2,
        },
    ];
    assert_eq!(
        b.complete_upload(id, &bad_tag),
        Err(TransferError::CompleteError)
    );

    // non-contiguous numbering is rejected
    let gap = vec![
        CompletedPart {
            part_number: 1,
            entity_tag: t1,
        },
        CompletedPart {
            part_number: 3,
            entity_tag: t2,
        },
    ];
    assert_eq!(
        b.complete_upload(id, &gap),
        Err(TransferError::CompleteError)
    );

    // an unknown session is rejected
    let empty: Vec<CompletedPart> = Vec::new();
    assert_eq!(
        b.complete_upload(id + 50, &empty),
        Err(TransferError::CompleteError)
    );

    // nothing was stored and the session is still open
    assert!(b.get_object("k").is_none());
    assert_eq!(b.uploads.len(), 1);
}

#[test]
fn reaper_aborts_only_matching_keys() {
    let mut b = Bucket::new();
    let a1 = b.create_upload("backups/Game.7z");
    let _other = b.create_upload("backups/Other.7z");
    let a2 = b.create_upload("backups/Game.7z");

    let aborted = b.reap("backups/Game.7z");
    assert_eq!(aborted, vec![a1, a2]);
    assert_eq!(b.uploads.len(), 1);
    assert_eq!(b.uploads[0].key, "backups/Other.7z");
}

#[test]
fn reaper_twice_on_empty_bucket_is_quiet() {
    let mut b = Bucket::new();
    let first = b.reap("backups/Game.7z");
    assert!(first.is_empty());
    assert!(b.uploads.is_empty());
    let second = b.reap("backups/Game.7z");
    assert!(second.is_empty());
    assert!(b.uploads.is_empty());
}

#[test]
fn upload_reaps_stale_sessions_for_its_key_first() {
    let mut b = Bucket::new();
    b.create_upload("backups/Game.7z");
    b.create_upload("backups/Other.7z");
    let data = pattern(1024);
    assert!(upload_bytes(&mut b, "backups/Game.7z", &data).is_ok());
    // the stale session for the key is gone; the foreign one survives
    assert_eq!(b.uploads.len(), 1);
    assert_eq!(b.uploads[0].key, "backups/Other.7z");
    assert_eq!(b.get_object("backups/Game.7z").unwrap(), data);
}

#[test]
fn abort_discards_the_session_and_its_parts() {
    let mut b = Bucket::new();
    let id = b.create_upload("k");
    b.upload_part(id, 1, vec![5; 10]).unwrap();
    assert!(b.abort_upload(id));
    assert!(b.uploads.is_empty());
    assert!(b.get_object("k").is_none());
    assert!(!b.abort_upload(id));
}

#[test]
fn uploader_driven_against_the_store_round_trips() {
    // the coordinator plans the parts; the store executes them
    let data = pattern(20 * MIB);
    let total = data.len() as u64;
    let mut b = Bucket::new();
    let id = b.create_upload("driven");
    let mut up = Uploader::new(total, "driven".to_string(), 0);
    let mut action = up.step(UploadEvent::InitiateOk {
        upload_id: format!("{}", id),
    });
    let mut tags: Vec<u64> = Vec::new();
    loop {
        match action {
            UploadAction::UploadPart {
                part_number,
                offset,
                len,
            } => {
                let chunk = data[offset as usize..(offset + len) as usize].to_vec();
                let tag = b.upload_part(id, part_number, chunk).unwrap();
                tags.push(tag);
                action = up.step(UploadEvent::PartSucceeded {
                    entity_tag: format!("{}", tag),
                });
            }
            UploadAction::Complete { upload_id, parts } => {
                assert_eq!(upload_id, format!("{}", id));
                let req: Vec<CompletedPart> = parts
                    .iter()
                    .map(|p| CompletedPart {
                        part_number: p.part_number,
                        entity_tag: p.entity_tag.parse::<u64>().unwrap(),
                    })
                    .collect();
                assert!(b.complete_upload(id, &req).is_ok());
                action = up.step(UploadEvent::CompleteOk);
            }
            UploadAction::Succeed => break,
            other => panic!("unexpected action {:?}", other),
        }
    }
    assert_eq!(tags.len(), 3);
    assert_eq!(b.get_object("driven").unwrap(), data);
}

#[test]
fn listing_reaper_selects_exact_key_matches() {
    let listing = vec![
        StaleSession {
            object_key: "backups/Game.7z".to_string(),
            upload_id: "id-a".to_string(),
        },
        StaleSession {
            object_key: "backups/Game.7z.old".to_string(),
            upload_id: "id-b".to_string(),
        },
        StaleSession {
            object_key: "backups/Game.7z".to_string(),
            upload_id: "id-c".to_string(),
        },
    ];
    assert_eq!(
        sessions_to_abort(&listing, "backups/Game.7z"),
        vec!["id-a", "id-c"]
    );
    assert!(sessions_to_abort(&Vec::new(), "backups/Game.7z").is_empty());
}

#[test]
fn upload_overwrites_an_existing_object() {
    let mut b = Bucket::new();
    b.put_object("k", vec![1, 2, 3]);
    let data = pattern(10);
    assert!(upload_bytes(&mut b, "k", &data).is_ok());
    assert_eq!(b.get_object("k").unwrap(), data);
}
