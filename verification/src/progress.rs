use vstd::prelude::*;

verus! {

/// Byte counters of one running transfer. The active strategy advances
/// `bytes_transferred` after each chunk is confirmed, so the counter always
/// reflects confirmed, never merely attempted, bytes. A reporter may read
/// the counters to render throughput; it has no control impact.
#[derive(Debug, Clone, Copy, PartialEq, Eq, Structural)]
pub struct TransferProgress {
    /// Bytes confirmed so far.
    pub bytes_transferred: u64,
    /// Total bytes expected; zero when the size is unknown, in which case
    /// reporting degrades to a bare byte count.
    pub total_bytes: u64,
    /// When the transfer started, in milliseconds, as supplied by the caller.
    pub started_at_ms: u64,
}

impl TransferProgress {
    /// Fresh counters for a transfer of `total_bytes` bytes.
    pub fn new(total_bytes: u64, started_at_ms: u64) -> (p: TransferProgress)
        ensures
            p == (TransferProgress { bytes_transferred: 0, total_bytes, started_at_ms }),
    {
        TransferProgress { bytes_transferred: 0, total_bytes, started_at_ms }
    }

    /// Records `len` more confirmed bytes.
    pub fn advance(&mut self, len: u64)
        requires
            old(self).bytes_transferred + len <= u64::MAX,
        ensures
            *final(self) == (TransferProgress {
                bytes_transferred: (old(self).bytes_transferred + len) as u64,
                ..*old(self)
            }),
    {
        self.bytes_transferred = self.bytes_transferred + len;
    }
}

} // verus!
