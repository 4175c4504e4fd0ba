use vstd::prelude::*;

use crate::bucket::Bucket;
use crate::bucket::CompletedPart;
use crate::bucket::OpenUploadView;
use crate::bucket::UploadedPartView;
use crate::bucket::concat_parts;
use crate::bucket::completion_acceptable;
use crate::bucket::reap_survivors;
use crate::bucket::spec_find_session;
use crate::errors::TransferError;
use crate::strategy::MULTIPART_THRESHOLD;
use crate::strategy::TransferStrategy;
use crate::strategy::lemma_bytes_done_step;
use crate::strategy::lemma_part_count_bounds;
use crate::strategy::part_count;
use crate::strategy::part_len;
use crate::strategy::part_offset;
use crate::strategy::select_strategy;
use crate::strategy::spec_bytes_done;
use crate::strategy::spec_part_bytes;
use crate::strategy::spec_part_count;
use crate::strategy::spec_part_len;
use crate::strategy::spec_part_offset;

verus! {

/// The parts of an upload in flight: after `k` confirmed parts, part `j`
/// holds the `j`-th chunk of the data and the `j`-th minted entity tag.
pub open spec fn spec_parts_in_flight(data: Seq<u8>, tag0: u64, k: int) -> Seq<UploadedPartView> {
    Seq::new(
        k as nat,
        |j: int|
            UploadedPartView {
                part_number: (j + 1) as u64,
                entity_tag: (tag0 + j) as u64,
                body: spec_part_bytes(data, j + 1),
            },
    )
}

/// Sequential chunks reassemble the prefix they cover: the concatenation of
/// the first `k` parts is the first `spec_bytes_done` bytes of the data.
proof fn lemma_chunks_concat(data: Seq<u8>, parts: Seq<UploadedPartView>, k: int)
    requires
        0 < data.len() <= u64::MAX,
        0 <= k <= spec_part_count(data.len() as u64),
        parts.len() == k,
        forall|j: int| 0 <= j < k ==> #[trigger] parts[j].body == spec_part_bytes(data, j + 1),
    ensures
        concat_parts(parts) == data.take(spec_bytes_done(data.len() as u64, k)),
    decreases k,
{
    let total = data.len() as u64;
    if k == 0 {
        assert(data.take(0) =~= Seq::<u8>::empty());
        assert(concat_parts(parts) =~= Seq::<u8>::empty());
    } else {
        lemma_part_count_bounds(total);
        lemma_bytes_done_step(total, k);
        vstd::arithmetic::mul::lemma_mul_inequality(
            k - 1,
            spec_part_count(total) - 1,
            crate::strategy::CHUNK_SIZE as int,
        );
        let sub = parts.drop_last();
        assert(forall|j: int|
            0 <= j < k - 1 ==> #[trigger] sub[j].body == spec_part_bytes(data, j + 1));
        lemma_chunks_concat(data, sub, k - 1);
        assert(parts.last().body == spec_part_bytes(data, k));
        let done_prev = spec_bytes_done(total, k - 1);
        let done_now = spec_bytes_done(total, k);
        assert(done_prev == spec_part_offset(k));
        assert(done_now == done_prev + spec_part_len(data.len() as int, k));
        let lhs = data.take(done_prev) + spec_part_bytes(data, k);
        let rhs = data.take(done_now);
        assert(lhs.len() == rhs.len());
        assert forall|x: int| 0 <= x < rhs.len() implies lhs[x] == rhs[x] by {
            if x < done_prev {
                assert(lhs[x] == data[x]);
            } else {
                assert(lhs[x] == spec_part_bytes(data, k)[x - done_prev]);
                assert(spec_part_bytes(data, k)[x - done_prev] == data[x]);
            }
        }
        assert(lhs =~= rhs);
    }
}

/// A session appended to others none of which shares its id is found last.
proof fn lemma_find_session_last(ss: Seq<OpenUploadView>, sess: OpenUploadView)
    requires
        forall|i: int| 0 <= i < ss.len() ==> #[trigger] ss[i].upload_id != sess.upload_id,
    ensures
        spec_find_session(ss.push(sess), sess.upload_id) == Some(ss.len() as int),
    decreases ss.len(),
{
    if ss.len() == 0 {
        assert(ss.push(sess)[0] == sess);
    } else {
        assert(ss.push(sess)[0] == ss[0]);
        assert(ss.push(sess).drop_first() =~= ss.drop_first().push(sess));
        assert(forall|i: int|
            0 <= i < ss.drop_first().len() ==> #[trigger] ss.drop_first()[i].upload_id
                != sess.upload_id);
        lemma_find_session_last(ss.drop_first(), sess);
    }
}

/// The bytes of `data` from `offset`, `len` bytes long.
fn copy_range(data: &Vec<u8>, offset: u64, len: u64) -> (r: Vec<u8>)
    requires
        offset + len <= data@.len(),
    ensures
        r@ == data@.subrange(offset as int, offset as int + len as int),
{
    let dlen = data.len();
    let mut out: Vec<u8> = Vec::new();
    let mut j: u64 = 0;
    while j < len
        invariant
            dlen == data@.len(),
            offset + len <= data@.len(),
            j <= len,
            out@ == data@.subrange(offset as int, offset as int + j as int),
        decreases len - j,
    {
        proof {
            assert(offset + j < data@.len());
        }
        let idx = offset + j;
        out.push(data[idx as usize]);
        proof {
            assert(out@ =~= data@.subrange(offset as int, offset as int + j as int + 1));
        }
        j = j + 1;
    }
    out
}

/// A copy of a byte vector with the same contents.
fn clone_bytes(v: &Vec<u8>) -> (r: Vec<u8>)
    ensures
        r@ == v@,
{
    let c = v.clone();
    proof {
        assert(c@ =~= v@);
    }
    c
}

/// One whole upload against the store model, exactly as the pipeline runs
/// it: first the reaper aborts every stale session for the key, then the
/// strategy selector picks by size, and either one atomic put or the full
/// multipart protocol — initiate, sequential chunks in part-number order,
/// complete — stores the bytes. Afterwards the object under `key` is
/// exactly `data`, whichever strategy ran: one half of the round-trip law,
/// whose other half is [`Bucket::get_object`] returning the stored bytes.
pub fn upload_bytes(b: &mut Bucket, key: &str, data: &Vec<u8>) -> (r: Result<(), TransferError>)
    requires
        old(b).wf(),
        key@.len() > 0,
        old(b).next_upload_id < u64::MAX,
        old(b).next_entity_tag + spec_part_count(data@.len() as u64) <= u64::MAX,
    ensures
        final(b).wf(),
        r is Ok,
        final(b).objects_map() == old(b).objects_map().insert(key@, data@),
        final(b).sessions() == reap_survivors(old(b).sessions(), key@),
{
    let _stale = b.reap(key);
    let total = data.len() as u64;
    match select_strategy(total) {
        TransferStrategy::SinglePart => {
            b.put_object(key, clone_bytes(data));
            Ok(())
        },
        TransferStrategy::Multipart => {
            proof {
                lemma_part_count_bounds(total);
            }
            let ghost survivors = b.sessions();
            let id = b.create_upload(key);
            let ghost tag0 = b.next_entity_tag;
            let n = part_count(total);
            let mut completed: Vec<CompletedPart> = Vec::new();
            let mut i: u64 = 1;
            proof {
                assert(b.sessions() =~~= survivors.push(
                    OpenUploadView {
                        upload_id: id,
                        key: key@,
                        parts: spec_parts_in_flight(data@, tag0, 0),
                    },
                ));
            }
            while i <= n
                invariant
                    b.wf(),
                    total == data@.len(),
                    total >= MULTIPART_THRESHOLD,
                    n == spec_part_count(total),
                    n < u64::MAX,
                    1 <= i <= n + 1,
                    tag0 + n <= u64::MAX,
                    b.next_entity_tag == tag0 + (i - 1),
                    b.objects_map() == old(b).objects_map(),
                    survivors == reap_survivors(old(b).sessions(), key@),
                    forall|s: int|
                        0 <= s < survivors.len() ==> #[trigger] survivors[s].upload_id != id,
                    b.sessions() == survivors.push(
                        OpenUploadView {
                            upload_id: id,
                            key: key@,
                            parts: spec_parts_in_flight(data@, tag0, i - 1),
                        },
                    ),
                    completed@ == Seq::new(
                        (i - 1) as nat,
                        |j: int|
                            CompletedPart {
                                part_number: (j + 1) as u64,
                                entity_tag: (tag0 + j) as u64,
                            },
                    ),
                decreases n + 1 - i,
            {
                let ghost sess_pre = OpenUploadView {
                    upload_id: id,
                    key: key@,
                    parts: spec_parts_in_flight(data@, tag0, i - 1),
                };
                proof {
                    lemma_part_count_bounds(total);
                    lemma_bytes_done_step(total, i as int);
                    lemma_find_session_last(survivors, sess_pre);
                }
                let off = part_offset(total, i);
                let len = part_len(total, i);
                let chunk = copy_range(data, off, len);
                let tag_opt = b.upload_part(id, i, chunk);
                let tag = match tag_opt {
                    Some(t) => t,
                    None => {
                        proof {
                            assert(false);
                        }
                        return Err(TransferError::ChunkTransferError);
                    },
                };
                completed.push(CompletedPart { part_number: i, entity_tag: tag });
                proof {
                    assert(spec_parts_in_flight(data@, tag0, i - 1).push(
                        UploadedPartView {
                            part_number: i,
                            entity_tag: tag,
                            body: spec_part_bytes(data@, i as int),
                        },
                    ) =~~= spec_parts_in_flight(data@, tag0, i as int));
                    assert(b.sessions() =~~= survivors.push(
                        OpenUploadView {
                            upload_id: id,
                            key: key@,
                            parts: spec_parts_in_flight(data@, tag0, i as int),
                        },
                    ));
                    assert(completed@ =~= Seq::new(
                        i as nat,
                        |j: int|
                            CompletedPart {
                                part_number: (j + 1) as u64,
                                entity_tag: (tag0 + j) as u64,
                            },
                    ));
                }
                i = i + 1;
            }
            let ghost sess_full = OpenUploadView {
                upload_id: id,
                key: key@,
                parts: spec_parts_in_flight(data@, tag0, n as int),
            };
            proof {
                lemma_part_count_bounds(total);
                lemma_find_session_last(survivors, sess_full);
                assert(completion_acceptable(sess_full, completed@));
                lemma_chunks_concat(data@, sess_full.parts, n as int);
                assert(data@.take(spec_bytes_done(total, n as int)) =~= data@);
            }
            match b.complete_upload(id, &completed) {
                Ok(()) => {
                    proof {
                        assert(survivors.push(sess_full).remove(survivors.len() as int)
                            =~= survivors);
                    }
                    Ok(())
                },
                Err(e) => {
                    proof {
                        assert(false);
                    }
                    Err(e)
                },
            }
        },
    }
}

/// Round trip: an upload stores exactly its bytes under its key, so a
/// following download of the same key — through either strategy — returns
/// byte-identical content. Stated over the store map that
/// [`upload_bytes`] writes and [`Bucket::get_object`] reads.
pub proof fn lemma_round_trip(m: Map<Seq<char>, Seq<u8>>, key: Seq<char>, data: Seq<u8>)
    ensures
        m.insert(key, data).contains_key(key),
        m.insert(key, data)[key] == data,
{
}

/// One in-progress multipart session as a remote listing reports it.
#[derive(Debug)]
pub struct StaleSession {
    pub object_key: String,
    pub upload_id: String,
}

/// Mathematical image of a [`StaleSession`].
#[verifier::ext_equal]
pub struct StaleSessionView {
    pub object_key: Seq<char>,
    pub upload_id: Seq<char>,
}

impl View for StaleSession {
    type V = StaleSessionView;

    open spec fn view(&self) -> StaleSessionView {
        StaleSessionView { object_key: self.object_key@, upload_id: self.upload_id@ }
    }
}

/// The match against a target key, as one shared value.
pub open spec fn stale_for_key_pred(key: Seq<char>) -> spec_fn(StaleSessionView) -> bool {
    |s: StaleSessionView| s.object_key == key
}

/// The upload ids the reaper must abort out of a remote listing: exactly
/// those of the sessions whose key equals the target key, in listing
/// order; sessions with any other key are left untouched.
pub fn sessions_to_abort(sessions: &Vec<StaleSession>, target_key: &str) -> (r: Vec<String>)
    ensures
        r@.map_values(|id: String| id@) == sessions@.map_values(|s: StaleSession| s@).filter(
            stale_for_key_pred(target_key@),
        ).map_values(|s: StaleSessionView| s.upload_id),
{
    let ghost views = sessions@.map_values(|s: StaleSession| s@);
    let mut out: Vec<String> = Vec::new();
    let mut i: usize = 0;
    proof {
        reveal(Seq::filter);
        assert(views.take(0) =~= Seq::<StaleSessionView>::empty());
        assert(out@.map_values(|id: String| id@) =~= views.take(0).filter(
            stale_for_key_pred(target_key@),
        ).map_values(|s: StaleSessionView| s.upload_id));
    }
    while i < sessions.len()
        invariant
            i <= sessions@.len(),
            views == sessions@.map_values(|s: StaleSession| s@),
            out@.map_values(|id: String| id@) == views.take(i as int).filter(
                stale_for_key_pred(target_key@),
            ).map_values(|s: StaleSessionView| s.upload_id),
        decreases sessions@.len() - i,
    {
        proof {
            assert(views[i as int] == sessions@[i as int]@);
            crate::text::lemma_filter_take_step(views, stale_for_key_pred(target_key@), i as int);
        }
        if crate::text::string_eq_str(&sessions[i].object_key, target_key) {
            let ghost out0 = out@;
            let id = sessions[i].upload_id.clone();
            proof {
                assert(id@ == sessions@[i as int].upload_id@);
            }
            out.push(id);
            proof {
                assert((stale_for_key_pred(target_key@))(views[i as int]));
                assert(out@.map_values(|x: String| x@) =~~= out0.map_values(|x: String| x@).push(
                    views[i as int].upload_id,
                ));
                assert(out@.map_values(|x: String| x@) =~~= views.take(i as int + 1).filter(
                    stale_for_key_pred(target_key@),
                ).map_values(|s: StaleSessionView| s.upload_id));
            }
        } else {
            proof {
                assert(!(stale_for_key_pred(target_key@))(views[i as int]));
                assert(out@.map_values(|x: String| x@) =~~= views.take(i as int + 1).filter(
                    stale_for_key_pred(target_key@),
                ).map_values(|s: StaleSessionView| s.upload_id));
            }
        }
        i = i + 1;
    }
    proof {
        assert(views.take(sessions@.len() as int) =~= views);
    }
    out
}

} // verus!
