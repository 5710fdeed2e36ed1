//! The process-wide session state machine: lazy establishment, reconnect
//! accounting, and the retry cap.
//!
//! A single manager task owns this state; concurrent dialers send requests
//! to it and await the outcome, so establishment is never raced. This
//! module holds the decisions; performing the dial is the caller's work.

use vstd::prelude::*;

verus! {

/// How many consecutive establishment failures are tolerated before dials
/// fail fast.
pub const MAX_FAILURES: u32 = 3;

/// What the manager should do with a dial request.
#[derive(Debug, Clone, Copy, PartialEq, Eq, Structural)]
pub enum DialStep {
    /// A session is live: open a stream on it.
    UseExisting,
    /// No session: attempt establishment.
    Establish,
    /// The failure cap is reached: refuse without any network I/O.
    FailFast,
}

/// The manager's state: whether a session is live, and how many
/// establishment attempts in a row have failed.
#[derive(Debug, Clone, Copy, PartialEq, Eq, Structural)]
pub struct SessionState {
    pub ready: bool,
    pub consecutive_failures: u32,
}

/// The decision for a dial in state `s`.
pub open spec fn spec_dial_step(s: SessionState) -> DialStep {
    if s.ready {
        DialStep::UseExisting
    } else if s.consecutive_failures >= MAX_FAILURES {
        DialStep::FailFast
    } else {
        DialStep::Establish
    }
}

/// The state after one establishment failure.
pub open spec fn spec_after_failure(s: SessionState) -> SessionState {
    SessionState {
        ready: false,
        consecutive_failures: if s.consecutive_failures == u32::MAX {
            u32::MAX
        } else {
            (s.consecutive_failures + 1) as u32
        },
    }
}

impl SessionState {
    /// Fresh state: nothing established, nothing failed.
    pub fn new() -> (r: SessionState)
        ensures
            r == (SessionState { ready: false, consecutive_failures: 0 }),
    {
        SessionState { ready: false, consecutive_failures: 0 }
    }

    /// Decide a dial request.
    pub fn next_dial_step(&self) -> (r: DialStep)
        ensures
            r == spec_dial_step(*self),
    {
        if self.ready {
            DialStep::UseExisting
        } else if self.consecutive_failures >= MAX_FAILURES {
            DialStep::FailFast
        } else {
            DialStep::Establish
        }
    }

    /// A stream was opened: the session is proven live and the failure run
    /// is over.
    pub fn on_stream_opened(&mut self)
        ensures
            *final(self) == (SessionState { ready: true, consecutive_failures: 0 }),
    {
        self.ready = true;
        self.consecutive_failures = 0;
    }

    /// Opening a stream on the existing session failed: the session is
    /// invalid; the next dial re-establishes.
    pub fn on_existing_failed(&mut self)
        ensures
            *final(self) == (SessionState {
                ready: false,
                consecutive_failures: old(self).consecutive_failures,
            }),
    {
        self.ready = false;
    }

    /// Establishment failed: count it.
    pub fn on_establish_failed(&mut self)
        ensures
            *final(self) == spec_after_failure(*old(self)),
    {
        self.ready = false;
        if self.consecutive_failures < u32::MAX {
            self.consecutive_failures = self.consecutive_failures + 1;
        }
    }

    /// An out-of-band reset clears the failure run.
    pub fn reset(&mut self)
        ensures
            *final(self) == (SessionState { ready: false, consecutive_failures: 0 }),
    {
        self.ready = false;
        self.consecutive_failures = 0;
    }
}

/// Retry cap: after three consecutive establishment failures, every further
/// dial fails fast — no establishment, no network I/O — until a reset.
pub proof fn lemma_retry_cap(s: SessionState)
    requires
        s.consecutive_failures == 0,
    ensures
        spec_dial_step(spec_after_failure(spec_after_failure(spec_after_failure(s))))
            == DialStep::FailFast,
        forall|t: SessionState|
            (!t.ready && t.consecutive_failures >= MAX_FAILURES) ==> spec_dial_step(t)
                == DialStep::FailFast,
{
}

/// Tunable multiplexer sizings. Small windows starve long-fat pipes through
/// the relay, so the session-level window is at least 2 MiB, per-stream at
/// least 1 MiB, and frames split at 64 KiB; at most 256 concurrent streams.
#[derive(Debug, Clone, Copy, PartialEq, Eq, Structural)]
pub struct MuxParams {
    /// Session-wide receive window, bytes.
    pub connection_receive_window: u32,
    /// Per-stream receive window, bytes.
    pub stream_receive_window: u32,
    /// Upper bound on buffered bytes per stream.
    pub max_buffer_size: u32,
    /// Frames larger than this are split before sending.
    pub split_send_size: u32,
    /// Concurrent stream cap per session.
    pub max_num_streams: u32,
}

/// The sizing used when the whole connection shares one window: 2 MiB
/// stream window, 4 MiB buffer, 64 KiB split, 256 streams.
pub fn create_optimized_config() -> (r: MuxParams)
    ensures
        r == (MuxParams {
            connection_receive_window: 0x200000,
            stream_receive_window: 0x200000,
            max_buffer_size: 0x400000,
            split_send_size: 0x10000,
            max_num_streams: 256,
        }),
        r.stream_receive_window >= 0x100000,
        r.connection_receive_window >= 0x200000,
        r.split_send_size >= 0x10000,
        r.max_num_streams == 256,
{
    MuxParams {
        connection_receive_window: 0x200000,
        stream_receive_window: 0x200000,
        max_buffer_size: 0x400000,
        split_send_size: 0x10000,
        max_num_streams: 256,
    }
}

/// The sizing with independent connection and stream windows: 2 MiB per
/// session, 1 MiB per stream, 64 KiB split, 256 streams.
pub fn create_optimized_yamux_config() -> (r: MuxParams)
    ensures
        r == (MuxParams {
            connection_receive_window: 0x200000,
            stream_receive_window: 0x100000,
            max_buffer_size: 0x400000,
            split_send_size: 0x10000,
            max_num_streams: 256,
        }),
        r.stream_receive_window >= 0x100000,
        r.connection_receive_window >= 0x200000,
        r.split_send_size >= 0x10000,
        r.max_num_streams == 256,
{
    MuxParams {
        connection_receive_window: 0x200000,
        stream_receive_window: 0x100000,
        max_buffer_size: 0x400000,
        split_send_size: 0x10000,
        max_num_streams: 256,
    }
}

} // verus!
