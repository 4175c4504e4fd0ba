use vstd::prelude::*;

use crate::errors::TransferError;
use crate::progress::TransferProgress;
use crate::strategy::lemma_bytes_done_step;
use crate::strategy::lemma_part_count_bounds;
use crate::strategy::part_len;
use crate::strategy::part_offset;
use crate::strategy::spec_bytes_done;
use crate::strategy::spec_part_count;
use crate::strategy::spec_part_len;
use crate::strategy::spec_part_offset;

verus! {

/// One successfully uploaded part: its 1-based part number and the entity
/// tag the store returned for it, required verbatim at completion.
#[derive(Debug)]
pub struct PartResult {
    pub part_number: u64,
    pub entity_tag: String,
}

/// Mathematical image of a [`PartResult`].
#[verifier::ext_equal]
pub struct PartResultView {
    pub part_number: u64,
    pub entity_tag: Seq<char>,
}

impl View for PartResult {
    type V = PartResultView;

    open spec fn view(&self) -> PartResultView {
        PartResultView { part_number: self.part_number, entity_tag: self.entity_tag@ }
    }
}

impl Clone for PartResult {
    fn clone(&self) -> (r: Self)
        ensures
            r@ == self@,
    {
        PartResult { part_number: self.part_number, entity_tag: self.entity_tag.clone() }
    }
}

/// An open multipart session: the store-issued upload id, the object key it
/// targets, and the parts confirmed so far, in upload order. It exists from
/// a successful initiate until the coordinator completes or aborts it.
#[derive(Debug)]
pub struct MultipartSession {
    pub upload_id: String,
    pub object_key: String,
    pub parts: Vec<PartResult>,
}

/// Mathematical image of a [`MultipartSession`].
#[verifier::ext_equal]
pub struct SessionView {
    pub upload_id: Seq<char>,
    pub object_key: Seq<char>,
    pub parts: Seq<PartResultView>,
}

impl View for MultipartSession {
    type V = SessionView;

    open spec fn view(&self) -> SessionView {
        SessionView {
            upload_id: self.upload_id@,
            object_key: self.object_key@,
            parts: self.parts@.map_values(|p: PartResult| p@),
        }
    }
}

/// Where the coordinator stands in the multipart protocol.
#[derive(Debug, Clone, Copy, PartialEq, Eq, Structural)]
pub enum UploadPhase {
    /// Waiting for the outcome of the initiate request.
    Initiating,
    /// Session open; waiting for the outcome of the current part upload.
    Uploading,
    /// All parts confirmed; waiting for the outcome of the complete request.
    Completing,
    /// A part failed; waiting for the best-effort abort to finish.
    Aborting,
    /// The upload completed successfully.
    Done,
    /// The upload failed; the session, if any was opened, has been aborted
    /// or its completion was rejected.
    Failed,
}

/// What the driver observed from the store or the local file, fed back to
/// the coordinator.
#[derive(Debug)]
pub enum UploadEvent {
    /// The initiate request succeeded and returned this upload id.
    InitiateOk { upload_id: String },
    /// The initiate request failed.
    InitiateFailed,
    /// The current part was uploaded; the store returned this entity tag.
    PartSucceeded { entity_tag: String },
    /// The current part upload was rejected or interrupted.
    PartFailed,
    /// The current chunk could not be read from the local source file.
    SourceReadFailed,
    /// The complete request succeeded.
    CompleteOk,
    /// The complete request was rejected.
    CompleteFailed,
    /// The abort attempt finished; its own outcome is swallowed.
    AbortFinished,
}

/// Mathematical image of an [`UploadEvent`].
#[verifier::ext_equal]
pub enum UploadEventView {
    InitiateOk { upload_id: Seq<char> },
    InitiateFailed,
    PartSucceeded { entity_tag: Seq<char> },
    PartFailed,
    SourceReadFailed,
    CompleteOk,
    CompleteFailed,
    AbortFinished,
}

impl View for UploadEvent {
    type V = UploadEventView;

    open spec fn view(&self) -> UploadEventView {
        match self {
            UploadEvent::InitiateOk { upload_id } => UploadEventView::InitiateOk {
                upload_id: upload_id@,
            },
            UploadEvent::InitiateFailed => UploadEventView::InitiateFailed,
            UploadEvent::PartSucceeded { entity_tag } => UploadEventView::PartSucceeded {
                entity_tag: entity_tag@,
            },
            UploadEvent::PartFailed => UploadEventView::PartFailed,
            UploadEvent::SourceReadFailed => UploadEventView::SourceReadFailed,
            UploadEvent::CompleteOk => UploadEventView::CompleteOk,
            UploadEvent::CompleteFailed => UploadEventView::CompleteFailed,
            UploadEvent::AbortFinished => UploadEventView::AbortFinished,
        }
    }
}

/// What the driver must do next on the coordinator's behalf.
#[derive(Debug)]
pub enum UploadAction {
    /// Send the initiate request for the target object.
    Initiate,
    /// Read `len` bytes at `offset` from the source file and upload them as
    /// part `part_number`.
    UploadPart { part_number: u64, offset: u64, len: u64 },
    /// Send the complete request with this ordered list of parts.
    Complete { upload_id: String, parts: Vec<PartResult> },
    /// Send a best-effort abort for this session.
    Abort { upload_id: String },
    /// The upload is finished; report success.
    Succeed,
    /// The upload is finished; report this error.
    Fail { error: TransferError },
}

/// Mathematical image of an [`UploadAction`].
#[verifier::ext_equal]
pub enum UploadActionView {
    Initiate,
    UploadPart { part_number: u64, offset: u64, len: u64 },
    Complete { upload_id: Seq<char>, parts: Seq<PartResultView> },
    Abort { upload_id: Seq<char> },
    Succeed,
    Fail { error: TransferError },
}

impl View for UploadAction {
    type V = UploadActionView;

    open spec fn view(&self) -> UploadActionView {
        match self {
            UploadAction::Initiate => UploadActionView::Initiate,
            UploadAction::UploadPart { part_number, offset, len } => UploadActionView::UploadPart {
                part_number: *part_number,
                offset: *offset,
                len: *len,
            },
            UploadAction::Complete { upload_id, parts } => UploadActionView::Complete {
                upload_id: upload_id@,
                parts: parts@.map_values(|p: PartResult| p@),
            },
            UploadAction::Abort { upload_id } => UploadActionView::Abort { upload_id: upload_id@ },
            UploadAction::Succeed => UploadActionView::Succeed,
            UploadAction::Fail { error } => UploadActionView::Fail { error: *error },
        }
    }
}

/// Drives one multipart upload: initiate, then each chunk in file order,
/// then complete; any chunk failure aborts the whole session. The
/// coordinator makes every protocol decision; an unverified driver performs
/// the requests it asks for and feeds the outcomes back through [`Uploader::step`].
pub struct Uploader {
    pub total_size: u64,
    pub object_key: String,
    pub phase: UploadPhase,
    pub session: Option<MultipartSession>,
    pub progress: TransferProgress,
    pub failure: Option<TransferError>,
}

/// Mathematical image of an [`Uploader`].
#[verifier::ext_equal]
pub struct UploaderView {
    pub total_size: u64,
    pub object_key: Seq<char>,
    pub phase: UploadPhase,
    pub session: Option<SessionView>,
    pub progress: TransferProgress,
    pub failure: Option<TransferError>,
}

impl View for Uploader {
    type V = UploaderView;

    open spec fn view(&self) -> UploaderView {
        UploaderView {
            total_size: self.total_size,
            object_key: self.object_key@,
            phase: self.phase,
            session: match self.session {
                Some(s) => Some(s@),
                None => None,
            },
            progress: self.progress,
            failure: self.failure,
        }
    }
}

/// Part numbers are contiguous from 1, in upload order.
pub open spec fn parts_contiguous(parts: Seq<PartResultView>) -> bool {
    forall|i: int| 0 <= i < parts.len() ==> #[trigger] parts[i].part_number == i + 1
}

/// The coordinator's internal invariant, established by [`Uploader::new`]
/// and preserved by every step.
pub open spec fn uploader_wf(s: UploaderView) -> bool {
    &&& s.total_size > 0
    &&& s.object_key.len() > 0
    &&& s.progress.total_bytes == s.total_size
    &&& match s.phase {
        UploadPhase::Initiating => {
            &&& s.session is None
            &&& s.progress.bytes_transferred == 0
            &&& s.failure is None
        },
        UploadPhase::Uploading => match s.session {
            Some(sess) => {
                &&& sess.parts.len() < spec_part_count(s.total_size)
                &&& parts_contiguous(sess.parts)
                &&& sess.object_key == s.object_key
                &&& s.progress.bytes_transferred == spec_bytes_done(
                    s.total_size,
                    sess.parts.len() as int,
                )
                &&& s.failure is None
            },
            None => false,
        },
        UploadPhase::Completing => {
            &&& s.session is None
            &&& s.progress.bytes_transferred == s.total_size
            &&& s.failure is None
        },
        UploadPhase::Aborting => {
            &&& s.session is Some
            &&& (s.failure == Some(TransferError::ChunkTransferError) || s.failure == Some(
                TransferError::LocalIOError,
            ))
        },
        UploadPhase::Done => {
            &&& s.progress.bytes_transferred == s.total_size
            &&& s.failure is None
        },
        UploadPhase::Failed => s.failure is Some,
    }
}

/// Which events the protocol permits in each phase: exactly the possible
/// outcomes of the request the coordinator just asked for.
pub open spec fn event_fits(s: UploaderView, ev: UploadEventView) -> bool {
    match ev {
        UploadEventView::InitiateOk { .. } => s.phase is Initiating,
        UploadEventView::InitiateFailed => s.phase is Initiating,
        UploadEventView::PartSucceeded { .. } => s.phase is Uploading,
        UploadEventView::PartFailed => s.phase is Uploading,
        UploadEventView::SourceReadFailed => s.phase is Uploading,
        UploadEventView::CompleteOk => s.phase is Completing,
        UploadEventView::CompleteFailed => s.phase is Completing,
        UploadEventView::AbortFinished => s.phase is Aborting,
    }
}

/// The coordinator's state after construction.
pub open spec fn spec_init(
    total_size: u64,
    object_key: Seq<char>,
    started_at_ms: u64,
) -> UploaderView {
    UploaderView {
        total_size,
        object_key,
        phase: UploadPhase::Initiating,
        session: None,
        progress: TransferProgress { bytes_transferred: 0, total_bytes: total_size, started_at_ms },
        failure: None,
    }
}

/// The transition relation of the coordinator: next state and requested
/// action for each permitted event. This is the model the executable
/// [`Uploader::step`] is proved to follow exactly.
pub open spec fn spec_step(s: UploaderView, ev: UploadEventView) -> (UploaderView, UploadActionView) {
    match (s.phase, ev) {
        (UploadPhase::Initiating, UploadEventView::InitiateOk { upload_id }) => (
            UploaderView {
                phase: UploadPhase::Uploading,
                session: Some(
                    SessionView { upload_id, object_key: s.object_key, parts: Seq::empty() },
                ),
                ..s
            },
            UploadActionView::UploadPart {
                part_number: 1,
                offset: 0,
                len: spec_part_len(s.total_size as int, 1) as u64,
            },
        ),
        (UploadPhase::Initiating, UploadEventView::InitiateFailed) => (
            UploaderView {
                phase: UploadPhase::Failed,
                failure: Some(TransferError::InitiateError),
                ..s
            },
            UploadActionView::Fail { error: TransferError::InitiateError },
        ),
        (UploadPhase::Uploading, UploadEventView::PartSucceeded { entity_tag }) => match s.session {
            Some(sess) => {
                let k = sess.parts.len() + 1;
                let parts2 = sess.parts.push(
                    PartResultView { part_number: k as u64, entity_tag },
                );
                let progress2 = TransferProgress {
                    bytes_transferred: spec_bytes_done(s.total_size, k as int) as u64,
                    ..s.progress
                };
                if k == spec_part_count(s.total_size) {
                    (
                        UploaderView {
                            phase: UploadPhase::Completing,
                            session: None,
                            progress: progress2,
                            ..s
                        },
                        UploadActionView::Complete { upload_id: sess.upload_id, parts: parts2 },
                    )
                } else {
                    (
                        UploaderView {
                            phase: UploadPhase::Uploading,
                            session: Some(SessionView { parts: parts2, ..sess }),
                            progress: progress2,
                            ..s
                        },
                        UploadActionView::UploadPart {
                            part_number: (k + 1) as u64,
                            offset: spec_part_offset(k as int + 1) as u64,
                            len: spec_part_len(s.total_size as int, k as int + 1) as u64,
                        },
                    )
                }
            },
            None => (s, UploadActionView::Fail { error: TransferError::ChunkTransferError }),
        },
        (UploadPhase::Uploading, UploadEventView::PartFailed) => match s.session {
            Some(sess) => (
                UploaderView {
                    phase: UploadPhase::Aborting,
                    failure: Some(TransferError::ChunkTransferError),
                    ..s
                },
                UploadActionView::Abort { upload_id: sess.upload_id },
            ),
            None => (s, UploadActionView::Fail { error: TransferError::ChunkTransferError }),
        },
        (UploadPhase::Uploading, UploadEventView::SourceReadFailed) => match s.session {
            Some(sess) => (
                UploaderView {
                    phase: UploadPhase::Aborting,
                    failure: Some(TransferError::LocalIOError),
                    ..s
                },
                UploadActionView::Abort { upload_id: sess.upload_id },
            ),
            None => (s, UploadActionView::Fail { error: TransferError::LocalIOError }),
        },
        (UploadPhase::Completing, UploadEventView::CompleteOk) => (
            UploaderView { phase: UploadPhase::Done, ..s },
            UploadActionView::Succeed,
        ),
        (UploadPhase::Completing, UploadEventView::CompleteFailed) => (
            UploaderView {
                phase: UploadPhase::Failed,
                failure: Some(TransferError::CompleteError),
                ..s
            },
            UploadActionView::Fail { error: TransferError::CompleteError },
        ),
        (UploadPhase::Aborting, UploadEventView::AbortFinished) => (
            UploaderView { phase: UploadPhase::Failed, ..s },
            UploadActionView::Fail {
                error: match s.failure {
                    Some(e) => e,
                    None => TransferError::ChunkTransferError,
                },
            },
        ),
        _ => (s, UploadActionView::Fail { error: TransferError::ChunkTransferError }),
    }
}

impl Uploader {
    /// A coordinator for a source file of `total_size` bytes headed for
    /// `object_key`. The driver's first request must be the initiate call.
    pub fn new(total_size: u64, object_key: String, started_at_ms: u64) -> (u: Uploader)
        requires
            total_size > 0,
            object_key@.len() > 0,
        ensures
            u@ == spec_init(total_size, object_key@, started_at_ms),
            uploader_wf(u@),
    {
        Uploader {
            total_size,
            object_key,
            phase: UploadPhase::Initiating,
            session: None,
            progress: TransferProgress::new(total_size, started_at_ms),
            failure: None,
        }
    }

    /// Feeds the outcome of the last requested operation into the
    /// coordinator and returns what the driver must do next. The executable
    /// transition follows [`spec_step`] exactly.
    pub fn step(&mut self, ev: UploadEvent) -> (a: UploadAction)
        requires
            uploader_wf(old(self)@),
            event_fits(old(self)@, ev@),
        ensures
            final(self)@ == spec_step(old(self)@, ev@).0,
            a@ == spec_step(old(self)@, ev@).1,
            uploader_wf(final(self)@),
    {
        proof {
            lemma_step_preserves_wf(old(self)@, ev@);
        }
        match ev {
            UploadEvent::InitiateOk { upload_id } => {
                let key_copy = clone_string(&self.object_key);
                self.phase = UploadPhase::Uploading;
                self.session = Some(
                    MultipartSession { upload_id, object_key: key_copy, parts: Vec::new() },
                );
                proof {
                    lemma_part_count_bounds(self.total_size);
                    assert(self@.session->Some_0 =~= spec_step(old(self)@, ev@).0.session->Some_0);
                    assert(self@ =~= spec_step(old(self)@, ev@).0);
                }
                let len1 = part_len(self.total_size, 1);
                UploadAction::UploadPart { part_number: 1, offset: 0, len: len1 }
            },
            UploadEvent::InitiateFailed => {
                self.phase = UploadPhase::Failed;
                self.failure = Some(TransferError::InitiateError);
                proof {
                    assert(self@ =~= spec_step(old(self)@, ev@).0);
                }
                UploadAction::Fail { error: TransferError::InitiateError }
            },
            UploadEvent::PartSucceeded { entity_tag } => {
                let mut sess = self.session.take().unwrap();
                let k: u64 = sess.parts.len() as u64 + 1;
                proof {
                    lemma_part_count_bounds(self.total_size);
                    lemma_bytes_done_step(self.total_size, k as int);
                }
                sess.parts.push(PartResult { part_number: k, entity_tag });
                let len_k = part_len(self.total_size, k);
                self.progress.advance(len_k);
                let n = crate::strategy::part_count(self.total_size);
                if k == n {
                    self.phase = UploadPhase::Completing;
                    proof {
                        assert(sess@.parts =~= spec_step(old(self)@, ev@).1->Complete_parts);
                        assert(self@ =~= spec_step(old(self)@, ev@).0);
                    }
                    UploadAction::Complete { upload_id: sess.upload_id, parts: sess.parts }
                } else {
                    let offset_next = part_offset(self.total_size, k + 1);
                    let len_next = part_len(self.total_size, k + 1);
                    self.session = Some(sess);
                    proof {
                        assert(self@.session->Some_0 =~= spec_step(
                            old(self)@,
                            ev@,
                        ).0.session->Some_0);
                        assert(self@ =~= spec_step(old(self)@, ev@).0);
                    }
                    UploadAction::UploadPart {
                        part_number: k + 1,
                        offset: offset_next,
                        len: len_next,
                    }
                }
            },
            UploadEvent::PartFailed => {
                self.phase = UploadPhase::Aborting;
                self.failure = Some(TransferError::ChunkTransferError);
                let id = clone_string(&self.session.as_ref().unwrap().upload_id);
                proof {
                    assert(self@ =~= spec_step(old(self)@, ev@).0);
                }
                UploadAction::Abort { upload_id: id }
            },
            UploadEvent::SourceReadFailed => {
                self.phase = UploadPhase::Aborting;
                self.failure = Some(TransferError::LocalIOError);
                let id = clone_string(&self.session.as_ref().unwrap().upload_id);
                proof {
                    assert(self@ =~= spec_step(old(self)@, ev@).0);
                }
                UploadAction::Abort { upload_id: id }
            },
            UploadEvent::CompleteOk => {
                self.phase = UploadPhase::Done;
                proof {
                    assert(self@ =~= spec_step(old(self)@, ev@).0);
                }
                UploadAction::Succeed
            },
            UploadEvent::CompleteFailed => {
                self.phase = UploadPhase::Failed;
                self.failure = Some(TransferError::CompleteError);
                proof {
                    assert(self@ =~= spec_step(old(self)@, ev@).0);
                }
                UploadAction::Fail { error: TransferError::CompleteError }
            },
            UploadEvent::AbortFinished => {
                self.phase = UploadPhase::Failed;
                let error = clone_error(self.failure.as_ref().unwrap());
                proof {
                    assert(self@ =~= spec_step(old(self)@, ev@).0);
                }
                UploadAction::Fail { error }
            },
        }
    }
}

/// A copy of a string with the same characters.
fn clone_string(s: &String) -> (r: String)
    ensures
        r@ == s@,
{
    s.clone()
}

/// A copy of a transfer error equal to the original. Errors that carry a
/// variable name are tied to configuration resolution and never reach the
/// coordinator.
fn clone_error(e: &TransferError) -> (r: TransferError)
    requires
        !(e is ConfigError),
    ensures
        r == *e,
{
    match e {
        TransferError::ConfigError { .. } => TransferError::ListError,
        TransferError::ListError => TransferError::ListError,
        TransferError::InitiateError => TransferError::InitiateError,
        TransferError::ChunkTransferError => TransferError::ChunkTransferError,
        TransferError::CompleteError => TransferError::CompleteError,
        TransferError::LocalIOError => TransferError::LocalIOError,
    }
}

/// A run of the protocol: each event in turn is a permitted outcome of the
/// request the coordinator asked for in the state reached so far.
pub open spec fn valid_trace(s: UploaderView, evs: Seq<UploadEventView>) -> bool
    decreases evs.len(),
{
    evs.len() == 0 || (event_fits(s, evs[0]) && valid_trace(spec_step(s, evs[0]).0, evs.drop_first()))
}

/// The actions the coordinator requests along a run, in order.
pub open spec fn trace_actions(s: UploaderView, evs: Seq<UploadEventView>) -> Seq<UploadActionView>
    decreases evs.len(),
{
    if evs.len() == 0 {
        Seq::empty()
    } else {
        seq![spec_step(s, evs[0]).1] + trace_actions(spec_step(s, evs[0]).0, evs.drop_first())
    }
}

/// A complete request is only ever issued with the full list of parts:
/// part numbers exactly `1..=N` in increasing order, where `N` is the
/// number of chunks of the source file, each tag being the one recorded
/// when its part was confirmed.
pub proof fn lemma_complete_request_exact(s: UploaderView, ev: UploadEventView)
    requires
        uploader_wf(s),
        event_fits(s, ev),
        spec_step(s, ev).1 is Complete,
    ensures
        spec_step(s, ev).1->Complete_parts.len() == spec_part_count(s.total_size),
        parts_contiguous(spec_step(s, ev).1->Complete_parts),
        s.session is Some,
        spec_step(s, ev).1->Complete_upload_id == s.session->Some_0.upload_id,
        spec_step(s, ev).1->Complete_parts == s.session->Some_0.parts.push(
            PartResultView {
                part_number: (s.session->Some_0.parts.len() + 1) as u64,
                entity_tag: ev->PartSucceeded_entity_tag,
            },
        ),
{
}

/// Every complete request issued anywhere along a run carries exactly the
/// parts `1..=N` in increasing order.
pub proof fn lemma_trace_completes_exact(s: UploaderView, evs: Seq<UploadEventView>)
    requires
        uploader_wf(s),
        valid_trace(s, evs),
    ensures
        forall|j: int|
            0 <= j < trace_actions(s, evs).len() && #[trigger] trace_actions(s, evs)[j]
                is Complete ==> trace_actions(s, evs)[j]->Complete_parts.len()
                == spec_part_count(s.total_size) && parts_contiguous(
                trace_actions(s, evs)[j]->Complete_parts,
            ),
    decreases evs.len(),
{
    if evs.len() > 0 {
        let s2 = spec_step(s, evs[0]).0;
        lemma_step_preserves_wf(s, evs[0]);
        lemma_trace_completes_exact(s2, evs.drop_first());
        if spec_step(s, evs[0]).1 is Complete {
            lemma_complete_request_exact(s, evs[0]);
        }
    }
}

/// When a part upload or a source read fails, the coordinator's next and
/// only request is an abort carrying the session's own upload id, and the
/// pending error is the one the failure calls for.
pub proof fn lemma_part_failure_aborts(s: UploaderView, ev: UploadEventView)
    requires
        uploader_wf(s),
        event_fits(s, ev),
        ev is PartFailed || ev is SourceReadFailed,
    ensures
        spec_step(s, ev).1 is Abort,
        spec_step(s, ev).1->Abort_upload_id == s.session->Some_0.upload_id,
        spec_step(s, ev).0.phase is Aborting,
        spec_step(s, ev).0.failure == Some(
            if ev is PartFailed {
                TransferError::ChunkTransferError
            } else {
                TransferError::LocalIOError
            },
        ),
{
}

/// A state whose session is closed and whose protocol is past uploading
/// never asks for an abort again.
pub proof fn lemma_closed_session_never_aborts(s: UploaderView, evs: Seq<UploadEventView>)
    requires
        uploader_wf(s),
        valid_trace(s, evs),
        s.phase is Completing || s.phase is Done || (s.phase is Failed && s.session is None),
    ensures
        forall|j: int|
            0 <= j < trace_actions(s, evs).len() ==> !(#[trigger] trace_actions(s, evs)[j]
                is Abort),
    decreases evs.len(),
{
    if evs.len() > 0 {
        let s2 = spec_step(s, evs[0]).0;
        lemma_step_preserves_wf(s, evs[0]);
        lemma_closed_session_never_aborts(s2, evs.drop_first());
    }
}

/// Once a session is open, every abort request issued anywhere along a run
/// carries that session's own upload id: the one the initiate call
/// returned.
pub proof fn lemma_abort_uses_original_id(s: UploaderView, evs: Seq<UploadEventView>)
    requires
        uploader_wf(s),
        valid_trace(s, evs),
        s.session is Some,
    ensures
        forall|j: int|
            0 <= j < trace_actions(s, evs).len() && #[trigger] trace_actions(s, evs)[j]
                is Abort ==> trace_actions(s, evs)[j]->Abort_upload_id
                == s.session->Some_0.upload_id,
    decreases evs.len(),
{
    if evs.len() > 0 {
        let s2 = spec_step(s, evs[0]).0;
        lemma_step_preserves_wf(s, evs[0]);
        if s2.session is Some {
            lemma_abort_uses_original_id(s2, evs.drop_first());
        } else {
            lemma_closed_session_never_aborts(s2, evs.drop_first());
        }
    }
}

/// Once an upload is aborting or has failed, no run that continues from
/// that state ever issues a complete request.
pub proof fn lemma_failure_never_completes(s: UploaderView, evs: Seq<UploadEventView>)
    requires
        uploader_wf(s),
        valid_trace(s, evs),
        s.phase is Aborting || s.phase is Failed,
    ensures
        forall|j: int|
            0 <= j < trace_actions(s, evs).len() ==> !(#[trigger] trace_actions(s, evs)[j]
                is Complete),
    decreases evs.len(),
{
    if evs.len() > 0 {
        let s2 = spec_step(s, evs[0]).0;
        lemma_step_preserves_wf(s, evs[0]);
        lemma_failure_never_completes(s2, evs.drop_first());
    }
}

/// Every permitted step keeps the coordinator well-formed and never touches
/// the file size or the target key.
pub proof fn lemma_step_preserves_wf(s: UploaderView, ev: UploadEventView)
    requires
        uploader_wf(s),
        event_fits(s, ev),
    ensures
        uploader_wf(spec_step(s, ev).0),
        spec_step(s, ev).0.total_size == s.total_size,
        spec_step(s, ev).0.object_key == s.object_key,
{
    lemma_part_count_bounds(s.total_size);
    match (s.phase, ev) {
        (UploadPhase::Uploading, UploadEventView::PartSucceeded { entity_tag }) => {
            let sess = s.session->Some_0;
            let k = sess.parts.len() + 1;
            lemma_bytes_done_step(s.total_size, k as int);
        },
        _ => {},
    }
}

} // verus!
