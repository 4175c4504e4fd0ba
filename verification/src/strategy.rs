use vstd::prelude::*;

verus! {

/// Minimum object size, in bytes, at which the multipart protocol must be
/// used (5 MiB). This is the store's minimum viable part size, a protocol
/// constraint rather than a performance knob.
pub const MULTIPART_THRESHOLD: u64 = 5 * 1024 * 1024;

/// Fixed size, in bytes, of every uploaded part except possibly the last
/// (8 MiB).
pub const CHUNK_SIZE: u64 = 8 * 1024 * 1024;

/// How a file travels to the bucket: one atomic put, or the chunked
/// multipart protocol.
#[derive(Debug, Clone, Copy, PartialEq, Eq, Structural)]
pub enum TransferStrategy {
    SinglePart,
    Multipart,
}

/// Picks the transfer strategy for a file of the given byte length:
/// multipart exactly when the file is at least `MULTIPART_THRESHOLD` bytes.
pub fn select_strategy(size: u64) -> (s: TransferStrategy)
    ensures
        s is Multipart <==> size >= MULTIPART_THRESHOLD,
{
    if size < MULTIPART_THRESHOLD {
        TransferStrategy::SinglePart
    } else {
        TransferStrategy::Multipart
    }
}

/// Number of parts a multipart upload of `total` bytes consists of:
/// `ceil(total / CHUNK_SIZE)`.
pub open spec fn spec_part_count(total: u64) -> int {
    if total == 0 {
        0
    } else {
        (total - 1) as int / CHUNK_SIZE as int + 1
    }
}

/// Byte offset at which part `i` (1-based) of the source file starts.
pub open spec fn spec_part_offset(i: int) -> int {
    (i - 1) * CHUNK_SIZE as int
}

/// Byte length of part `i` (1-based) of a source file of `total` bytes:
/// a full chunk for every part but possibly the last.
pub open spec fn spec_part_len(total: int, i: int) -> int {
    if total - spec_part_offset(i) < CHUNK_SIZE as int {
        total - spec_part_offset(i)
    } else {
        CHUNK_SIZE as int
    }
}

/// The part count is the least number of `CHUNK_SIZE` chunks that covers
/// `total` bytes.
pub proof fn lemma_part_count_bounds(total: u64)
    requires
        total > 0,
    ensures
        spec_part_count(total) >= 1,
        spec_part_count(total) <= total,
        spec_part_count(total) < u64::MAX,
        (spec_part_count(total) - 1) * (CHUNK_SIZE as int) < total as int,
        total as int <= spec_part_count(total) * (CHUNK_SIZE as int),
{
    let c = CHUNK_SIZE as int;
    let t = total as int;
    let q = (t - 1) / c;
    vstd::arithmetic::div_mod::lemma_fundamental_div_mod(t - 1, c);
    vstd::arithmetic::div_mod::lemma_mod_bound(t - 1, c);
    vstd::arithmetic::div_mod::lemma_div_pos_is_pos(t - 1, c);
    if q + 1 >= u64::MAX as int {
        vstd::arithmetic::mul::lemma_mul_inequality(u64::MAX as int - 1, q, c);
        assert((u64::MAX as int - 1) * c >= u64::MAX as int) by (nonlinear_arith)
            requires
                c >= 2,
        ;
    }
    assert(q * c == c * q) by (nonlinear_arith);
    assert((q + 1) * c == q * c + c) by (nonlinear_arith);
    assert(q <= c * q) by (nonlinear_arith)
        requires
            q >= 0,
            c >= 1,
    ;
}

/// Bytes covered by the first `k` parts of a `total`-byte file.
pub open spec fn spec_bytes_done(total: u64, k: int) -> int {
    if k >= spec_part_count(total) {
        total as int
    } else {
        k * (CHUNK_SIZE as int)
    }
}

/// Every part before the last covers a full chunk.
pub proof fn lemma_part_len_full(total: u64, i: int)
    requires
        total > 0,
        1 <= i < spec_part_count(total),
    ensures
        spec_part_len(total as int, i) == CHUNK_SIZE as int,
{
    let c = CHUNK_SIZE as int;
    lemma_part_count_bounds(total);
    vstd::arithmetic::mul::lemma_mul_inequality(i, spec_part_count(total) - 1, c);
    assert((i - 1) * c == i * c - c) by (nonlinear_arith);
}

/// Confirming part `k` advances the byte count by exactly that part's
/// length, and the count never exceeds the file size.
pub proof fn lemma_bytes_done_step(total: u64, k: int)
    requires
        total > 0,
        1 <= k <= spec_part_count(total),
    ensures
        spec_bytes_done(total, k) == spec_bytes_done(total, k - 1) + spec_part_len(
            total as int,
            k,
        ),
        0 <= spec_bytes_done(total, k - 1),
        spec_bytes_done(total, k - 1) <= total,
        spec_bytes_done(total, k) <= total,
{
    let c = CHUNK_SIZE as int;
    let n = spec_part_count(total);
    lemma_part_count_bounds(total);
    assert((k - 1) * c >= 0) by (nonlinear_arith)
        requires
            k >= 1,
            c > 0,
    ;
    assert(k * c == (k - 1) * c + c) by (nonlinear_arith);
    if k < n {
        lemma_part_len_full(total, k);
        vstd::arithmetic::mul::lemma_mul_inequality(k, n - 1, c);
    } else {
        vstd::arithmetic::mul::lemma_mul_inequality(k - 1, n - 1, c);
    }
}

/// The byte range part `i` (1-based) of `data` covers: read sequentially,
/// chunk after chunk, in part-number order.
pub open spec fn spec_part_bytes(data: Seq<u8>, i: int) -> Seq<u8> {
    data.subrange(
        spec_part_offset(i),
        spec_part_offset(i) + spec_part_len(data.len() as int, i),
    )
}

/// Executable part count, `ceil(total / CHUNK_SIZE)`.
pub fn part_count(total: u64) -> (n: u64)
    ensures
        n as int == spec_part_count(total),
{
    if total == 0 {
        0
    } else {
        (total - 1) / CHUNK_SIZE + 1
    }
}

/// Executable offset of part `i` of a file of `total` bytes.
pub fn part_offset(total: u64, i: u64) -> (o: u64)
    requires
        1 <= i <= spec_part_count(total),
    ensures
        o as int == spec_part_offset(i as int),
        o < total,
{
    proof {
        lemma_part_count_bounds(total);
        vstd::arithmetic::mul::lemma_mul_inequality(
            i as int - 1,
            spec_part_count(total) - 1,
            CHUNK_SIZE as int,
        );
    }
    (i - 1) * CHUNK_SIZE
}

/// Executable length of part `i` of a file of `total` bytes.
pub fn part_len(total: u64, i: u64) -> (l: u64)
    requires
        1 <= i <= spec_part_count(total),
    ensures
        l as int == spec_part_len(total as int, i as int),
        1 <= l <= CHUNK_SIZE,
{
    let o = part_offset(total, i);
    if total - o < CHUNK_SIZE {
        total - o
    } else {
        CHUNK_SIZE
    }
}

} // verus!
