//! Progress events emitted once per transferred chunk, and the per-transfer
//! meter that produces them.

use vstd::prelude::*;

verus! {

/// Progress event for one transferred chunk.
#[derive(Clone, Copy, Debug, PartialEq, Eq, Structural)]
pub struct ProgressPayload {
    /// Bytes in this chunk.
    pub progress: u64,
    /// Bytes transferred so far.
    pub progress_total: u64,
    /// Total size if known (`0` = unknown).
    pub total: u64,
    /// Bytes per second, rounded down.
    pub transfer_speed: u64,
}

/// Transfer rate in bytes per second after `bytes` bytes in `elapsed_micros`
/// microseconds. The elapsed time is floored to one microsecond, so the rate
/// is defined for every input; the quotient is clamped to `u64`.
pub open spec fn spec_rate(bytes: u64, elapsed_micros: u64) -> u64 {
    let e: int = if elapsed_micros == 0 { 1 } else { elapsed_micros as int };
    let q: int = (bytes * 1_000_000) / e;
    if q > u64::MAX { u64::MAX } else { q as u64 }
}

/// Executable counterpart of [`spec_rate`].
pub fn transfer_rate(bytes: u64, elapsed_micros: u64) -> (r: u64)
    ensures
        r == spec_rate(bytes, elapsed_micros),
{
    let e: u128 = if elapsed_micros == 0 { 1 } else { elapsed_micros as u128 };
    let q: u128 = (bytes as u128) * 1_000_000 / e;
    if q > u64::MAX as u128 {
        u64::MAX
    } else {
        q as u64
    }
}

/// Progress accounting for one transfer: how many bytes have gone through
/// and the content length the progress is reported against.
pub struct ProgressMeter {
    /// Bytes transferred so far.
    pub bytes_so_far: u64,
    /// Total size if known (`0` = unknown).
    pub content_length: u64,
}

impl ProgressMeter {
    /// Start metering a transfer whose total size, if known, is
    /// `content_length` (`0` = unknown).
    pub fn begin(content_length: u64) -> (m: Self)
        ensures
            m.bytes_so_far == 0,
            m.content_length == content_length,
    {
        ProgressMeter { bytes_so_far: 0, content_length }
    }

    /// Account for one chunk and produce its progress event. The running
    /// total never decreases, and the event carries the total after this
    /// chunk.
    pub fn record_chunk(&mut self, chunk_len: u64, elapsed_micros: u64) -> (ev: ProgressPayload)
        requires
            old(self).bytes_so_far + chunk_len <= u64::MAX,
        ensures
            final(self).bytes_so_far == old(self).bytes_so_far + chunk_len,
            final(self).content_length == old(self).content_length,
            ev.progress == chunk_len,
            ev.progress_total == final(self).bytes_so_far,
            ev.progress_total >= old(self).bytes_so_far,
            ev.total == old(self).content_length,
            ev.transfer_speed == spec_rate(final(self).bytes_so_far, elapsed_micros),
    {
        self.bytes_so_far = self.bytes_so_far + chunk_len;
        ProgressPayload {
            progress: chunk_len,
            progress_total: self.bytes_so_far,
            total: self.content_length,
            transfer_speed: transfer_rate(self.bytes_so_far, elapsed_micros),
        }
    }
}

} // verus!
