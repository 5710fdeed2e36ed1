//! The relay loop's policy: buffer sizing, flush cadence, and what each
//! read outcome does to the copy. The I/O itself is the caller's loop.

use vstd::prelude::*;

verus! {

/// Copy buffer size: 32 KiB, matching the multiplexer's frame sizing.
pub const RELAY_BUFFER_SIZE: usize = 32768;

/// Flush after this many buffered bytes so small writes are not coalesced
/// forever.
pub const RELAY_FLUSH_INTERVAL: u64 = 16384;

/// Per-side idle timeout, seconds; expiring converts to a graceful
/// half-close, not a tear-down.
pub const RELAY_IDLE_TIMEOUT_SECS: u64 = 300;

/// What one read outcome obliges the copying side to do.
#[derive(Debug, Clone, Copy, PartialEq, Eq, Structural)]
pub enum RelayStep {
    /// Write the bytes through, then flush if the cadence says so.
    WriteAndMaybeFlush(bool),
    /// EOF: flush what is buffered and shut down the write side
    /// (half-close).
    FlushAndHalfClose,
}

/// One side of the bidirectional copy.
#[derive(Debug, Clone, Copy, PartialEq, Eq, Structural)]
pub struct RelaySide {
    /// Bytes copied so far on this side.
    pub total_bytes: u64,
}

impl RelaySide {
    /// A fresh side: nothing copied.
    pub fn new() -> (r: RelaySide)
        ensures
            r.total_bytes == 0,
    {
        RelaySide { total_bytes: 0 }
    }

    /// Decide a successful read of `n` bytes: write them, flushing when
    /// the running total crosses the flush interval; the total advances
    /// by `n` (saturating).
    pub fn on_read(&mut self, n: usize) -> (r: RelayStep)
        ensures
            r == RelayStep::WriteAndMaybeFlush(old(self).total_bytes % RELAY_FLUSH_INTERVAL == 0),
            final(self).total_bytes == if old(self).total_bytes + n <= u64::MAX {
                old(self).total_bytes + n
            } else {
                u64::MAX as int
            },
    {
        let flush = self.total_bytes % RELAY_FLUSH_INTERVAL == 0;
        if n as u64 <= u64::MAX - self.total_bytes {
            self.total_bytes = self.total_bytes + n as u64;
        } else {
            self.total_bytes = u64::MAX;
        }
        RelayStep::WriteAndMaybeFlush(flush)
    }

    /// Decide an EOF: flush and half-close, never a full tear-down.
    pub fn on_eof(&self) -> (r: RelayStep)
        ensures
            r == RelayStep::FlushAndHalfClose,
    {
        RelayStep::FlushAndHalfClose
    }

    /// Decide an idle timeout: the same graceful half-close as EOF.
    pub fn on_timeout(&self) -> (r: RelayStep)
        ensures
            r == RelayStep::FlushAndHalfClose,
    {
        RelayStep::FlushAndHalfClose
    }
}

} // verus!
