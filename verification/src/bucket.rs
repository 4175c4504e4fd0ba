use vstd::prelude::*;

use crate::errors::TransferError;
use crate::text::string_eq_str;

verus! {

/// One stored object: its key and its bytes.
#[derive(Debug)]
pub struct StoredObject {
    pub key: String,
    pub body: Vec<u8>,
}

/// One part received for an open multipart session, with the entity tag
/// the store minted for it.
#[derive(Debug)]
pub struct UploadedPart {
    pub part_number: u64,
    pub entity_tag: u64,
    pub body: Vec<u8>,
}

/// Mathematical image of an [`UploadedPart`].
#[verifier::ext_equal]
pub struct UploadedPartView {
    pub part_number: u64,
    pub entity_tag: u64,
    pub body: Seq<u8>,
}

impl View for UploadedPart {
    type V = UploadedPartView;

    open spec fn view(&self) -> UploadedPartView {
        UploadedPartView {
            part_number: self.part_number,
            entity_tag: self.entity_tag,
            body: self.body@,
        }
    }
}

/// One open multipart session: its store-issued id, the key it targets,
/// and the parts received so far, in arrival order.
#[derive(Debug)]
pub struct OpenUpload {
    pub upload_id: u64,
    pub key: String,
    pub parts: Vec<UploadedPart>,
}

/// Mathematical image of an [`OpenUpload`].
#[verifier::ext_equal]
pub struct OpenUploadView {
    pub upload_id: u64,
    pub key: Seq<char>,
    pub parts: Seq<UploadedPartView>,
}

impl View for OpenUpload {
    type V = OpenUploadView;

    open spec fn view(&self) -> OpenUploadView {
        OpenUploadView {
            upload_id: self.upload_id,
            key: self.key@,
            parts: self.parts@.map_values(|p: UploadedPart| p@),
        }
    }
}

/// One entry of a completion request: a part number and the entity tag the
/// store returned for that part, which must be repeated verbatim.
#[derive(Debug, Clone, Copy, PartialEq, Eq, Structural)]
pub struct CompletedPart {
    pub part_number: u64,
    pub entity_tag: u64,
}

/// An in-memory model of one object-storage bucket, with the exact
/// behaviour the transfer pipeline relies on: a key-to-bytes map written by
/// puts and by completed multipart sessions, and a set of open sessions
/// that grows on initiate and shrinks on abort or completion. The pipeline's
/// round-trip and cleanup laws are stated and proved against this model,
/// and tests drive the coordinators against it.
#[derive(Debug)]
pub struct Bucket {
    pub objects: Vec<StoredObject>,
    pub uploads: Vec<OpenUpload>,
    pub next_upload_id: u64,
    pub next_entity_tag: u64,
}

/// The key-to-bytes map a sequence of stored objects denotes; later entries
/// win, as later writes overwrite earlier ones.
pub open spec fn map_of(objs: Seq<StoredObject>) -> Map<Seq<char>, Seq<u8>>
    decreases objs.len(),
{
    if objs.len() == 0 {
        Map::empty()
    } else {
        map_of(objs.drop_last()).insert(objs.last().key@, objs.last().body@)
    }
}

/// A lookup skips any suffix in which the key does not occur.
proof fn lemma_map_of_absent_suffix(objs: Seq<StoredObject>, key: Seq<char>, i: int)
    requires
        0 <= i <= objs.len(),
        forall|j: int| i <= j < objs.len() ==> #[trigger] objs[j].key@ != key,
    ensures
        map_of(objs).contains_key(key) == map_of(objs.take(i)).contains_key(key),
        map_of(objs).contains_key(key) ==> map_of(objs)[key] == map_of(objs.take(i))[key],
    decreases objs.len() - i,
{
    if i == objs.len() {
        assert(objs.take(i) =~= objs);
    } else {
        lemma_map_of_absent_suffix(objs, key, i + 1);
        assert(objs.take(i + 1).drop_last() =~= objs.take(i));
        assert(objs.take(i + 1).last() == objs[i]);
    }
}

impl Bucket {
    /// The map this bucket's objects denote.
    pub open spec fn objects_map(&self) -> Map<Seq<char>, Seq<u8>> {
        map_of(self.objects@)
    }

    /// The open sessions, in creation order.
    pub open spec fn sessions(&self) -> Seq<OpenUploadView> {
        self.uploads@.map_values(|u: OpenUpload| u@)
    }

    /// Internal invariant: session ids are minted from a counter, so they
    /// stay below it and are pairwise distinct.
    pub open spec fn wf(&self) -> bool {
        &&& forall|i: int|
            0 <= i < self.sessions().len() ==> #[trigger] self.sessions()[i].upload_id
                < self.next_upload_id
        &&& forall|i: int, j: int|
            0 <= i < j < self.sessions().len() ==> #[trigger] self.sessions()[i].upload_id
                != #[trigger] self.sessions()[j].upload_id
    }

    /// An empty bucket with no objects and no open sessions.
    pub fn new() -> (b: Bucket)
        ensures
            b.wf(),
            b.objects_map() == Map::<Seq<char>, Seq<u8>>::empty(),
            b.sessions() == Seq::<OpenUploadView>::empty(),
    {
        let b = Bucket {
            objects: Vec::new(),
            uploads: Vec::new(),
            next_upload_id: 0,
            next_entity_tag: 0,
        };
        proof {
            assert(b.sessions() =~= Seq::<OpenUploadView>::empty());
        }
        b
    }

    /// Stores `body` under `key` in one atomic put, overwriting any
    /// previous object with that key. Sessions are untouched.
    pub fn put_object(&mut self, key: &str, body: Vec<u8>)
        requires
            old(self).wf(),
        ensures
            final(self).wf(),
            final(self).objects_map() == old(self).objects_map().insert(key@, body@),
            final(self).sessions() == old(self).sessions(),
            final(self).next_upload_id == old(self).next_upload_id,
            final(self).next_entity_tag == old(self).next_entity_tag,
    {
        let owned: String = key.to_owned();
        self.objects.push(StoredObject { key: owned, body });
        proof {
            assert(self.objects@.drop_last() =~= old(self).objects@);
            assert(self.objects_map() =~= old(self).objects_map().insert(key@, body@));
            assert(self.sessions() =~= old(self).sessions());
        }
    }

    /// The bytes stored under `key`, if any.
    pub fn get_object(&self, key: &str) -> (r: Option<Vec<u8>>)
        ensures
            match r {
                Some(body) => self.objects_map().contains_key(key@) && body@
                    == self.objects_map()[key@],
                None => !self.objects_map().contains_key(key@),
            },
    {
        let mut i: usize = self.objects.len();
        while i > 0
            invariant
                i <= self.objects@.len(),
                forall|j: int| i <= j < self.objects@.len() ==> #[trigger] self.objects@[j].key@ != key@,
            decreases i,
        {
            i = i - 1;
            if string_eq_str(&self.objects[i].key, key) {
                proof {
                    lemma_map_of_absent_suffix(self.objects@, key@, i + 1);
                    assert(self.objects@.take(i + 1).drop_last() =~= self.objects@.take(i as int));
                    assert(self.objects@.take(i + 1).last() == self.objects@[i as int]);
                }
                return Some(clone_bytes(&self.objects[i].body));
            }
        }
        proof {
            lemma_map_of_absent_suffix(self.objects@, key@, 0);
            assert(self.objects@.take(0) =~= Seq::<StoredObject>::empty());
        }
        None
    }

    /// The byte length of the object under `key`, if any: what a metadata
    /// query reports.
    pub fn head_object(&self, key: &str) -> (r: Option<u64>)
        ensures
            match r {
                Some(len) => self.objects_map().contains_key(key@) && len
                    == self.objects_map()[key@].len(),
                None => !self.objects_map().contains_key(key@),
            },
    {
        match self.get_object(key) {
            Some(body) => Some(body.len() as u64),
            None => None,
        }
    }
}

/// Position of the session with the given id, scanning from the front.
pub open spec fn spec_find_session(ss: Seq<OpenUploadView>, upload_id: u64) -> Option<int>
    decreases ss.len(),
{
    if ss.len() == 0 {
        None
    } else if ss[0].upload_id == upload_id {
        Some(0int)
    } else {
        match spec_find_session(ss.drop_first(), upload_id) {
            Some(i) => Some(i + 1),
            None => None,
        }
    }
}

/// What a found index means: it points at the session with that id, and a
/// miss means no session has it.
pub proof fn lemma_find_session(ss: Seq<OpenUploadView>, upload_id: u64)
    ensures
        match spec_find_session(ss, upload_id) {
            Some(i) => 0 <= i < ss.len() && ss[i].upload_id == upload_id,
            None => forall|j: int| 0 <= j < ss.len() ==> #[trigger] ss[j].upload_id != upload_id,
        },
    decreases ss.len(),
{
    if ss.len() > 0 && ss[0].upload_id != upload_id {
        lemma_find_session(ss.drop_first(), upload_id);
        match spec_find_session(ss.drop_first(), upload_id) {
            Some(i) => {
                assert(ss.drop_first()[i] == ss[i + 1]);
            },
            None => {
                assert forall|j: int| 0 <= j < ss.len() implies #[trigger] ss[j].upload_id
                    != upload_id by {
                    if j > 0 {
                        assert(ss.drop_first()[j - 1] == ss[j]);
                    }
                }
            },
        }
    }
}

/// The bytes a completed session denotes: its part bodies, concatenated in
/// recorded order.
pub open spec fn concat_parts(parts: Seq<UploadedPartView>) -> Seq<u8>
    decreases parts.len(),
{
    if parts.len() == 0 {
        Seq::empty()
    } else {
        concat_parts(parts.drop_last()) + parts.last().body
    }
}

/// A completion request the store accepts: at least one part, numbered
/// contiguously from 1 in the submitted order, matching the recorded parts
/// one for one, each entity tag repeated verbatim.
pub open spec fn completion_acceptable(sess: OpenUploadView, req: Seq<CompletedPart>) -> bool {
    &&& req.len() == sess.parts.len()
    &&& req.len() >= 1
    &&& forall|i: int|
        0 <= i < req.len() ==> #[trigger] req[i].part_number == i + 1 && sess.parts[i].part_number
            == i + 1 && req[i].entity_tag == sess.parts[i].entity_tag
}

/// The sessions that survive reaping for `key`: exactly those whose key
/// differs from it, in their original order.
pub open spec fn reap_survivors(ss: Seq<OpenUploadView>, key: Seq<char>) -> Seq<OpenUploadView> {
    ss.filter(|s: OpenUploadView| s.key != key)
}

/// The upload ids reaping for `key` aborts: exactly those of the sessions
/// whose key equals it, in their original order.
pub open spec fn reap_aborted(ss: Seq<OpenUploadView>, key: Seq<char>) -> Seq<u64> {
    ss.filter(|s: OpenUploadView| s.key == key).map_values(|s: OpenUploadView| s.upload_id)
}

impl Bucket {
    /// Opens a multipart session for `key` and returns its upload id, which
    /// is fresh: no open session already carries it.
    pub fn create_upload(&mut self, key: &str) -> (id: u64)
        requires
            old(self).wf(),
            old(self).next_upload_id < u64::MAX,
        ensures
            final(self).wf(),
            id == old(self).next_upload_id,
            final(self).next_upload_id == old(self).next_upload_id + 1,
            final(self).next_entity_tag == old(self).next_entity_tag,
            final(self).sessions() == old(self).sessions().push(
                OpenUploadView { upload_id: id, key: key@, parts: Seq::empty() },
            ),
            final(self).objects_map() == old(self).objects_map(),
            forall|i: int|
                0 <= i < old(self).sessions().len() ==> #[trigger] old(
                    self,
                ).sessions()[i].upload_id != id,
    {
        let id = self.next_upload_id;
        let owned: String = key.to_owned();
        self.uploads.push(OpenUpload { upload_id: id, key: owned, parts: Vec::new() });
        self.next_upload_id = id + 1;
        proof {
            assert(self.sessions() =~~= old(self).sessions().push(
                OpenUploadView { upload_id: id, key: key@, parts: Seq::empty() },
            ));
        }
        id
    }

    /// Position of the open session with this id, if any.
    fn find_upload(&self, upload_id: u64) -> (r: Option<usize>)
        ensures
            match r {
                Some(i) => Some(i as int) == spec_find_session(self.sessions(), upload_id),
                None => spec_find_session(self.sessions(), upload_id) is None,
            },
    {
        let mut i: usize = 0;
        proof {
            assert(self.sessions().skip(0) =~= self.sessions());
        }
        while i < self.uploads.len()
            invariant
                0 <= i <= self.uploads@.len(),
                forall|j: int| 0 <= j < i ==> #[trigger] self.sessions()[j].upload_id != upload_id,
                spec_find_session(self.sessions(), upload_id) == match spec_find_session(
                    self.sessions().skip(i as int),
                    upload_id,
                ) {
                    Some(k) => Some(k + i),
                    None => None::<int>,
                },
            decreases self.uploads@.len() - i,
        {
            proof {
                assert(self.sessions().skip(i as int)[0] == self.sessions()[i as int]);
                assert(self.sessions().skip(i as int).drop_first() =~= self.sessions().skip(
                    i as int + 1,
                ));
            }
            if self.uploads[i].upload_id == upload_id {
                return Some(i);
            }
            i = i + 1;
        }
        proof {
            assert(self.sessions().skip(i as int) =~= Seq::<OpenUploadView>::empty());
        }
        None
    }

    /// Receives `body` as part `part_number` of the session with this id
    /// and returns the entity tag minted for it; `None` exactly when no
    /// such session is open, in which case nothing changes.
    pub fn upload_part(&mut self, upload_id: u64, part_number: u64, body: Vec<u8>) -> (r: Option<
        u64,
    >)
        requires
            old(self).wf(),
            old(self).next_entity_tag < u64::MAX,
        ensures
            final(self).wf(),
            final(self).objects_map() == old(self).objects_map(),
            final(self).next_upload_id == old(self).next_upload_id,
            r is Some ==> final(self).next_entity_tag == old(self).next_entity_tag + 1,
            r is None ==> final(self).next_entity_tag == old(self).next_entity_tag,
            match r {
                Some(tag) => {
                    &&& spec_find_session(old(self).sessions(), upload_id) is Some
                    &&& tag == old(self).next_entity_tag
                    &&& {
                        let i = spec_find_session(old(self).sessions(), upload_id)->Some_0;
                        let sess = old(self).sessions()[i];
                        final(self).sessions() == old(self).sessions().update(
                            i,
                            OpenUploadView {
                                parts: sess.parts.push(
                                    UploadedPartView { part_number, entity_tag: tag, body: body@ },
                                ),
                                ..sess
                            },
                        )
                    }
                },
                None => {
                    &&& spec_find_session(old(self).sessions(), upload_id) is None
                    &&& final(self).sessions() == old(self).sessions()
                },
            },
    {
        let ghost body0 = body@;
        proof {
            lemma_find_session(self.sessions(), upload_id);
        }
        match self.find_upload(upload_id) {
            Some(i) => {
                let tag = self.next_entity_tag;
                self.next_entity_tag = tag + 1;
                self.uploads[i].parts.push(UploadedPart { part_number, entity_tag: tag, body });
                proof {
                    let gi = spec_find_session(old(self).sessions(), upload_id)->Some_0;
                    let gs = old(self).sessions()[gi];
                    assert(self.sessions() =~~= old(self).sessions().update(
                        gi,
                        OpenUploadView {
                            parts: gs.parts.push(
                                UploadedPartView { part_number, entity_tag: tag, body: body0 },
                            ),
                            ..gs
                        },
                    ));
                }
                Some(tag)
            },
            None => None,
        }
    }
}

/// Every element a filter keeps occurs in the original sequence.
proof fn lemma_filter_element_of<A>(ss: Seq<A>, pred: spec_fn(A) -> bool, i: int)
    requires
        0 <= i < ss.filter(pred).len(),
    ensures
        ss.contains(ss.filter(pred)[i]),
    decreases ss.len(),
{
    reveal(Seq::filter);
    broadcast use Seq::lemma_filter_len;

    if ss.len() > 0 {
        let sub = ss.drop_last().filter(pred);
        if i < sub.len() {
            lemma_filter_element_of(ss.drop_last(), pred, i);
            let w = choose|j: int| 0 <= j < ss.drop_last().len() && ss.drop_last()[j] == sub[i];
            assert(ss[w] == sub[i]);
        } else {
            assert(ss[ss.len() - 1] == ss.filter(pred)[i]);
        }
    }
}

/// A filter keeps everything when the predicate holds everywhere.
proof fn lemma_filter_all<A>(ss: Seq<A>, pred: spec_fn(A) -> bool)
    requires
        forall|i: int| 0 <= i < ss.len() ==> pred(#[trigger] ss[i]),
    ensures
        ss.filter(pred) == ss,
    decreases ss.len(),
{
    reveal(Seq::filter);
    if ss.len() > 0 {
        assert(forall|i: int|
            0 <= i < ss.drop_last().len() ==> pred(#[trigger] ss.drop_last()[i]));
        lemma_filter_all(ss.drop_last(), pred);
        assert(ss.drop_last().push(ss.last()) =~= ss);
    }
}

/// A filter keeps nothing when the predicate holds nowhere.
proof fn lemma_filter_none<A>(ss: Seq<A>, pred: spec_fn(A) -> bool)
    requires
        forall|i: int| 0 <= i < ss.len() ==> !pred(#[trigger] ss[i]),
    ensures
        ss.filter(pred) == Seq::<A>::empty(),
    decreases ss.len(),
{
    reveal(Seq::filter);
    if ss.len() > 0 {
        assert(forall|i: int|
            0 <= i < ss.drop_last().len() ==> !pred(#[trigger] ss.drop_last()[i]));
        lemma_filter_none(ss.drop_last(), pred);
    } else {
        assert(ss =~= Seq::<A>::empty());
    }
}

/// Reaping keeps the session ids below the mint counter and pairwise
/// distinct.
proof fn lemma_survivors_wf(ss: Seq<OpenUploadView>, key: Seq<char>, bound: u64)
    requires
        forall|i: int| 0 <= i < ss.len() ==> #[trigger] ss[i].upload_id < bound,
        forall|i: int, j: int|
            0 <= i < j < ss.len() ==> #[trigger] ss[i].upload_id != #[trigger] ss[j].upload_id,
    ensures
        forall|i: int|
            0 <= i < reap_survivors(ss, key).len() ==> #[trigger] reap_survivors(
                ss,
                key,
            )[i].upload_id < bound,
        forall|i: int, j: int|
            0 <= i < j < reap_survivors(ss, key).len() ==> #[trigger] reap_survivors(
                ss,
                key,
            )[i].upload_id != #[trigger] reap_survivors(ss, key)[j].upload_id,
{
    let pred = |s: OpenUploadView| s.key != key;
    let sub = ss.filter(pred);
    assert forall|i: int| 0 <= i < sub.len() implies #[trigger] sub[i].upload_id < bound by {
        lemma_filter_element_of(ss, pred, i);
        let w = choose|w: int| 0 <= w < ss.len() && ss[w] == sub[i];
        assert(ss[w].upload_id < bound);
    }
    assert forall|i: int, j: int|
        0 <= i < j < sub.len() implies #[trigger] sub[i].upload_id
        != #[trigger] sub[j].upload_id by {
        lemma_filter_element_of(ss, pred, i);
        lemma_filter_element_of(ss, pred, j);
        let wi = choose|w: int| 0 <= w < ss.len() && ss[w] == sub[i];
        let wj = choose|w: int| 0 <= w < ss.len() && ss[w] == sub[j];
        if sub[i].upload_id == sub[j].upload_id {
            if wi != wj {
                assert(ss[wi].upload_id != ss[wj].upload_id);
            } else {
                lemma_filter_distinct_positions(ss, pred, i, j);
            }
        }
    }
}

/// A filter never duplicates one occurrence: distinct kept positions come
/// from distinct original positions, so two equal kept elements were equal
/// already in the original.
proof fn lemma_filter_distinct_positions<A>(ss: Seq<A>, pred: spec_fn(A) -> bool, i: int, j: int)
    requires
        0 <= i < j < ss.filter(pred).len(),
    ensures
        exists|wi: int, wj: int|
            0 <= wi < wj < ss.len() && ss[wi] == ss.filter(pred)[i] && ss[wj] == ss.filter(
                pred,
            )[j],
    decreases ss.len(),
{
    reveal(Seq::filter);
    broadcast use Seq::lemma_filter_len;

    let sub = ss.drop_last().filter(pred);
    if j < sub.len() {
        lemma_filter_distinct_positions(ss.drop_last(), pred, i, j);
        let (wi, wj): (int, int) = choose|wi: int, wj: int|
            0 <= wi < wj < ss.drop_last().len() && ss.drop_last()[wi] == sub[i]
                && ss.drop_last()[wj] == sub[j];
        assert(ss[wi] == ss.filter(pred)[i] && ss[wj] == ss.filter(pred)[j]);
    } else {
        // j is the pushed last element; i comes from the prefix
        lemma_filter_element_of(ss.drop_last(), pred, i);
        let wi = choose|w: int| 0 <= w < ss.drop_last().len() && ss.drop_last()[w] == sub[i];
        assert(ss[wi] == ss.filter(pred)[i] && ss[ss.len() - 1] == ss.filter(pred)[j]);
    }
}

/// Cleanup is idempotent: after one reap for a key, a second reap for the
/// same key aborts nothing and leaves the sessions exactly as they were.
/// In particular, reaping a bucket with no open sessions finds nothing to
/// abort, twice in a row.
pub proof fn lemma_reap_idempotent(ss: Seq<OpenUploadView>, key: Seq<char>)
    ensures
        reap_survivors(reap_survivors(ss, key), key) == reap_survivors(ss, key),
        reap_aborted(reap_survivors(ss, key), key) == Seq::<u64>::empty(),
{
    broadcast use Seq::lemma_filter_pred;

    let keep = |s: OpenUploadView| s.key != key;
    let gone = |s: OpenUploadView| s.key == key;
    let sub = ss.filter(keep);
    lemma_filter_all(sub, keep);
    lemma_filter_none(sub, gone);
    assert(reap_aborted(sub, key) =~= Seq::<u64>::empty());
}

impl Bucket {
    /// Aborts the open session with this id, discarding its received parts;
    /// `false` exactly when no such session is open, in which case nothing
    /// changes. Aborting never touches stored objects.
    pub fn abort_upload(&mut self, upload_id: u64) -> (r: bool)
        requires
            old(self).wf(),
        ensures
            final(self).wf(),
            final(self).objects_map() == old(self).objects_map(),
            final(self).next_upload_id == old(self).next_upload_id,
            r == (spec_find_session(old(self).sessions(), upload_id) is Some),
            r ==> final(self).sessions() == old(self).sessions().remove(
                spec_find_session(old(self).sessions(), upload_id)->Some_0,
            ),
            !r ==> final(self).sessions() == old(self).sessions(),
    {
        proof {
            lemma_find_session(self.sessions(), upload_id);
        }
        match self.find_upload(upload_id) {
            Some(i) => {
                self.uploads.remove(i);
                proof {
                    assert(self.sessions() =~~= old(self).sessions().remove(i as int));
                    lemma_remove_keeps_wf(old(self).sessions(), i as int, self.next_upload_id);
                }
                true
            },
            None => false,
        }
    }
}

impl Bucket {
    /// Completes the open session with this id. The request is accepted
    /// exactly when it lists the session's recorded parts one for one:
    /// contiguous part numbers from 1 in submitted order, each entity tag
    /// repeated verbatim. On success the part bodies, concatenated in that
    /// order, become the object stored under the session's key and the
    /// session is closed; on rejection nothing changes.
    pub fn complete_upload(&mut self, upload_id: u64, req: &Vec<CompletedPart>) -> (r: Result<
        (),
        TransferError,
    >)
        requires
            old(self).wf(),
        ensures
            final(self).wf(),
            final(self).next_upload_id == old(self).next_upload_id,
            r is Ok <==> match spec_find_session(old(self).sessions(), upload_id) {
                Some(i) => completion_acceptable(old(self).sessions()[i], req@),
                None => false,
            },
            r is Ok ==> {
                let i = spec_find_session(old(self).sessions(), upload_id)->Some_0;
                let sess = old(self).sessions()[i];
                final(self).objects_map() == old(self).objects_map().insert(
                    sess.key,
                    concat_parts(sess.parts),
                ) && final(self).sessions() == old(self).sessions().remove(i)
            },
            r is Err ==> {
                &&& final(self).objects_map() == old(self).objects_map()
                &&& final(self).sessions() == old(self).sessions()
                &&& r == Err::<(), TransferError>(TransferError::CompleteError)
            },
    {
        proof {
            lemma_find_session(self.sessions(), upload_id);
        }
        let idx = match self.find_upload(upload_id) {
            Some(i) => i,
            None => {
                return Err(TransferError::CompleteError);
            },
        };
        let ghost sess0 = self.sessions()[idx as int];
        proof {
            assert(sess0.parts.len() == self.uploads@[idx as int].parts@.len());
        }
        if req.len() != self.uploads[idx].parts.len() || req.len() == 0 {
            proof {
                assert(!completion_acceptable(sess0, req@));
            }
            return Err(TransferError::CompleteError);
        }
        let mut j: usize = 0;
        while j < req.len()
            invariant
                *self == *old(self),
                old(self).wf(),
                Some(idx as int) == spec_find_session(old(self).sessions(), upload_id),
                0 <= j <= req@.len(),
                idx < self.uploads@.len(),
                req@.len() == self.uploads@[idx as int].parts@.len(),
                req@.len() >= 1,
                sess0 == self.sessions()[idx as int],
                sess0 == old(self).sessions()[idx as int],
                forall|k: int|
                    0 <= k < j ==> #[trigger] req@[k].part_number == k + 1
                        && sess0.parts[k].part_number == k + 1 && req@[k].entity_tag
                        == sess0.parts[k].entity_tag,
            decreases req@.len() - j,
        {
            let a = req[j];
            let ok = {
                let b = &self.uploads[idx].parts[j];
                a.part_number == (j as u64) + 1 && b.part_number == (j as u64) + 1 && a.entity_tag
                    == b.entity_tag
            };
            if !ok {
                proof {
                    assert(sess0.parts[j as int] == self.uploads@[idx as int].parts@[j as int]@);
                    assert(!completion_acceptable(sess0, req@));
                }
                return Err(TransferError::CompleteError);
            }
            proof {
                assert(sess0.parts[j as int] == self.uploads@[idx as int].parts@[j as int]@);
                assert forall|k: int| 0 <= k < j + 1 implies #[trigger] req@[k].part_number == k + 1
                    && sess0.parts[k].part_number == k + 1 && req@[k].entity_tag
                    == sess0.parts[k].entity_tag by {
                    if k == j as int {
                        assert(req@[k] == a);
                        assert(a.part_number == (j as u64) + 1);
                        assert(sess0.parts[k].part_number == (j as u64) + 1);
                        assert(a.entity_tag == sess0.parts[k].entity_tag);
                    }
                }
            }
            j = j + 1;
        }
        let sess = self.uploads.remove(idx);
        proof {
            assert(self.sessions() =~~= old(self).sessions().remove(idx as int));
            lemma_remove_keeps_wf(old(self).sessions(), idx as int, self.next_upload_id);
        }
        let mut body: Vec<u8> = Vec::new();
        let mut k: usize = 0;
        proof {
            assert(sess@.parts.take(0) =~= Seq::<UploadedPartView>::empty());
        }
        while k < sess.parts.len()
            invariant
                0 <= k <= sess.parts@.len(),
                body@ == concat_parts(sess@.parts.take(k as int)),
            decreases sess.parts@.len() - k,
        {
            body.extend_from_slice(sess.parts[k].body.as_slice());
            proof {
                assert(sess@.parts.take(k as int + 1).drop_last() =~= sess@.parts.take(k as int));
                assert(sess@.parts.take(k as int + 1).last() == sess@.parts[k as int]);
                assert(body@ =~= concat_parts(sess@.parts.take(k as int + 1)));
            }
            k = k + 1;
        }
        proof {
            assert(sess@.parts.take(sess.parts@.len() as int) =~= sess@.parts);
        }
        self.put_object(sess.key.as_str(), body);
        Ok(())
    }

    /// Aborts every open session whose key exactly equals `key`, in
    /// creation order, and returns their upload ids; sessions with any
    /// other key, and all stored objects, are left untouched. Run before
    /// every new upload so that no stale session for the key survives.
    pub fn reap(&mut self, key: &str) -> (aborted: Vec<u64>)
        requires
            old(self).wf(),
        ensures
            final(self).wf(),
            final(self).objects_map() == old(self).objects_map(),
            final(self).next_upload_id == old(self).next_upload_id,
            final(self).next_entity_tag == old(self).next_entity_tag,
            final(self).sessions() == reap_survivors(old(self).sessions(), key@),
            aborted@ == reap_aborted(old(self).sessions(), key@),
    {
        let ghost orig = self.sessions();
        let mut kept: Vec<OpenUpload> = Vec::new();
        let mut aborted: Vec<u64> = Vec::new();
        let ghost mut t: int = 0;
        proof {
            reveal(Seq::filter);
            assert(orig.take(0) =~= Seq::<OpenUploadView>::empty());
            assert(kept@.map_values(|u: OpenUpload| u@) =~= reap_survivors(orig.take(0), key@));
            assert(aborted@ =~= reap_aborted(orig.take(0), key@));
            assert(self.sessions() =~= orig.skip(0));
        }
        while self.uploads.len() > 0
            invariant
                0 <= t <= orig.len(),
                self.sessions() == orig.skip(t),
                kept@.map_values(|u: OpenUpload| u@) == reap_survivors(orig.take(t), key@),
                aborted@ == reap_aborted(orig.take(t), key@),
                self.objects@ == old(self).objects@,
                self.next_upload_id == old(self).next_upload_id,
                self.next_entity_tag == old(self).next_entity_tag,
            decreases self.uploads@.len(),
        {
            let u = self.uploads.remove(0);
            proof {
                assert(0 <= t <= orig.len());
                assert(orig.skip(t).len() > 0);
                vstd::seq_lib::lemma_seq_skip_index(orig, t, 0);
                assert(orig.skip(t)[0] == orig[t]);
                assert(u@ == orig.skip(t)[0]);
                assert(self.sessions() =~~= orig.skip(t).drop_first());
                assert(orig.skip(t).drop_first() =~= orig.skip(t + 1));
                lemma_reap_take_step(orig, key@, t);
            }
            if string_eq_str(&u.key, key) {
                aborted.push(u.upload_id);
                proof {
                    assert(kept@.map_values(|u2: OpenUpload| u2@) == reap_survivors(
                        orig.take(t + 1),
                        key@,
                    ));
                    assert(aborted@ =~= reap_aborted(orig.take(t), key@).push(
                        orig[t].upload_id,
                    ));
                }
            } else {
                kept.push(u);
                proof {
                    assert(kept@.map_values(|u2: OpenUpload| u2@) =~~= reap_survivors(
                        orig.take(t),
                        key@,
                    ).push(u@));
                    assert(aborted@ == reap_aborted(orig.take(t + 1), key@));
                }
            }
            proof {
                t = t + 1;
            }
        }
        self.uploads = kept;
        proof {
            assert(orig.take(t) =~= orig);
            lemma_survivors_wf(orig, key@, self.next_upload_id);
        }
        aborted
    }
}

/// Removing one session keeps the ids below the mint counter and pairwise
/// distinct.
proof fn lemma_remove_keeps_wf(ss: Seq<OpenUploadView>, i: int, bound: u64)
    requires
        0 <= i < ss.len(),
        forall|k: int| 0 <= k < ss.len() ==> #[trigger] ss[k].upload_id < bound,
        forall|k: int, l: int|
            0 <= k < l < ss.len() ==> #[trigger] ss[k].upload_id != #[trigger] ss[l].upload_id,
    ensures
        forall|k: int|
            0 <= k < ss.remove(i).len() ==> #[trigger] ss.remove(i)[k].upload_id < bound,
        forall|k: int, l: int|
            0 <= k < l < ss.remove(i).len() ==> #[trigger] ss.remove(i)[k].upload_id
                != #[trigger] ss.remove(i)[l].upload_id,
{
    let out = ss.remove(i);
    assert forall|k: int| 0 <= k < out.len() implies #[trigger] out[k].upload_id < bound by {
        if k < i {
            assert(out[k] == ss[k]);
        } else {
            assert(out[k] == ss[k + 1]);
        }
    }
    assert forall|k: int, l: int|
        0 <= k < l < out.len() implies #[trigger] out[k].upload_id
        != #[trigger] out[l].upload_id by {
        if k < i {
            assert(out[k] == ss[k]);
        } else {
            assert(out[k] == ss[k + 1]);
        }
        if l < i {
            assert(out[l] == ss[l]);
        } else {
            assert(out[l] == ss[l + 1]);
        }
    }
}

/// One step of the reap bookkeeping: extending the processed prefix by one
/// session either keeps it or aborts it, depending on its key.
proof fn lemma_reap_take_step(ss: Seq<OpenUploadView>, key: Seq<char>, t: int)
    requires
        0 <= t < ss.len(),
    ensures
        ss[t].key == key ==> reap_survivors(ss.take(t + 1), key) == reap_survivors(
            ss.take(t),
            key,
        ) && reap_aborted(ss.take(t + 1), key) == reap_aborted(ss.take(t), key).push(
            ss[t].upload_id,
        ),
        ss[t].key != key ==> reap_survivors(ss.take(t + 1), key) == reap_survivors(
            ss.take(t),
            key,
        ).push(ss[t]) && reap_aborted(ss.take(t + 1), key) == reap_aborted(ss.take(t), key),
{
    reveal(Seq::filter);
    assert(ss.take(t + 1).drop_last() =~= ss.take(t));
    assert(ss.take(t + 1).last() == ss[t]);
    if ss[t].key == key {
        assert(ss.take(t + 1).filter(|s: OpenUploadView| s.key == key) == ss.take(t).filter(
            |s: OpenUploadView| s.key == key,
        ).push(ss[t]));
        assert(reap_aborted(ss.take(t + 1), key) =~= reap_aborted(ss.take(t), key).push(
            ss[t].upload_id,
        ));
    } else {
        assert(reap_aborted(ss.take(t + 1), key) =~= reap_aborted(ss.take(t), key));
    }
}

/// A copy of a byte vector with the same contents.
fn clone_bytes(v: &Vec<u8>) -> (r: Vec<u8>)
    ensures
        r@ == v@,
{
    let c = v.clone();
    proof {
        assert(c@ =~= v@);
    }
    c
}

} // verus!
