//! Decisions of the local IPC link to the Native Hook: how writes that make
//! partial or no progress are resumed, and how I/O errors are classified.
//! The caller performs each write and hands its outcome in. Instants and
//! durations are microseconds.

use vstd::prelude::*;

verus! {

/// Pause between polls of a stalled pipe.
pub const IO_POLL_INTERVAL_MICROS: u64 = 10_000;
/// How long a write may make no progress.
pub const WRITE_TIMEOUT_MICROS: u64 = 250_000;
/// Interval between liveness pings.
pub const LIVENESS_PING_INTERVAL_MICROS: u64 = 250_000;
/// How long a liveness ping may stay unanswered.
pub const LIVENESS_PONG_TIMEOUT_MICROS: u64 = 1_000_000;
/// Game packets written per turn before other work.
pub const MAX_DATA_BURST: usize = 64;

/// The kinds of I/O error the link tells apart.
#[derive(Clone, Copy, Debug, PartialEq, Eq, Structural)]
pub enum IoErrorKind {
    Interrupted,
    WouldBlock,
    TimedOut,
    InvalidData,
    UnexpectedEof,
    BrokenPipe,
    ConnectionAborted,
    ConnectionReset,
    WriteZero,
    Other,
}

/// An error worth retrying until the write deadline.
pub fn is_transient(kind: IoErrorKind) -> (r: bool)
    ensures
        r == (kind == IoErrorKind::WouldBlock || kind == IoErrorKind::TimedOut),
{
    match kind {
        IoErrorKind::WouldBlock | IoErrorKind::TimedOut => true,
        _ => false,
    }
}

/// An error that means the peer went away.
pub fn is_disconnect(kind: IoErrorKind) -> (r: bool)
    ensures
        r == (kind == IoErrorKind::UnexpectedEof || kind == IoErrorKind::BrokenPipe
            || kind == IoErrorKind::ConnectionAborted || kind == IoErrorKind::ConnectionReset),
{
    match kind {
        IoErrorKind::UnexpectedEof
        | IoErrorKind::BrokenPipe
        | IoErrorKind::ConnectionAborted
        | IoErrorKind::ConnectionReset => true,
        _ => false,
    }
}

/// An error raised for a malformed frame.
pub fn is_protocol_error(kind: IoErrorKind) -> (r: bool)
    ensures
        r == (kind == IoErrorKind::InvalidData),
{
    match kind {
        IoErrorKind::InvalidData => true,
        _ => false,
    }
}

/// What one call of `write` gave.
#[derive(Clone, Copy, Debug, PartialEq, Eq, Structural)]
pub enum WriteOutcome {
    Written(usize),
    Failed(IoErrorKind),
}

/// The result of resuming a pending write.
#[derive(Clone, Copy, Debug, PartialEq, Eq, Structural)]
pub enum FlushResult {
    /// Every byte has been written.
    Complete,
    /// Bytes remain; try again later.
    Pending,
    /// No progress for the whole write timeout.
    TimedOut,
    /// The write failed with an error that is passed on as it is.
    Failed(IoErrorKind),
}

/// An encoded message that the stream has not fully accepted yet.
pub struct PendingWrite {
    pub bytes: Vec<u8>,
    pub written: usize,
    pub stalled_since: u64,
}

/// `a - b`, floored at zero.
pub open spec fn elapsed(now: u64, since: u64) -> u64 {
    if now >= since { (now - since) as u64 } else { 0 }
}

impl PendingWrite {
    /// A write of `bytes` that starts at `now`.
    pub fn new(bytes: Vec<u8>, now: u64) -> (w: PendingWrite)
        ensures
            w.bytes@ == bytes@,
            w.written == 0,
            w.stalled_since == now,
    {
        PendingWrite { bytes, written: 0, stalled_since: now }
    }

    /// The bytes still to be written.
    pub fn remaining(&self) -> (r: &[u8])
        ensures
            r@ == (if self.written <= self.bytes@.len() { self.bytes@.subrange(self.written as int, self.bytes@.len() as int) } else { Seq::empty() }),
    {
        if self.written <= self.bytes.len() {
            &self.bytes.as_slice()[self.written..self.bytes.len()]
        } else {
            &self.bytes.as_slice()[0..0]
        }
    }

    /// Applies the outcome of writing the remaining bytes at `now`: progress
    /// moves the write on and restarts its stall clock; no progress, an
    /// interruption or a transient error leave it pending until the write
    /// timeout has passed since the last progress; another error fails it.
    pub fn try_flush(&mut self, outcome: WriteOutcome, now: u64) -> (r: FlushResult)
        ensures
            final(self).bytes@ == old(self).bytes@,
            match outcome {
                WriteOutcome::Written(size) => if size == 0 {
                    &&& *final(self) == *old(self)
                    &&& r == (if elapsed(now, old(self).stalled_since) < WRITE_TIMEOUT_MICROS { FlushResult::Pending } else { FlushResult::TimedOut })
                } else {
                    let written = if old(self).written + size > usize::MAX { usize::MAX } else { (old(self).written + size) as usize };
                    &&& final(self).written == written
                    &&& final(self).stalled_since == now
                    &&& r == (if written >= old(self).bytes@.len() { FlushResult::Complete } else { FlushResult::Pending })
                },
                WriteOutcome::Failed(kind) => {
                    &&& *final(self) == *old(self)
                    &&& r == (if kind == IoErrorKind::Interrupted {
                        FlushResult::Pending
                    } else if kind == IoErrorKind::WouldBlock || kind == IoErrorKind::TimedOut {
                        if elapsed(now, old(self).stalled_since) < WRITE_TIMEOUT_MICROS { FlushResult::Pending } else { FlushResult::TimedOut }
                    } else {
                        FlushResult::Failed(kind)
                    })
                },
            },
    {
        match outcome {
            WriteOutcome::Written(0) => {
                if now.saturating_sub(self.stalled_since) < WRITE_TIMEOUT_MICROS {
                    FlushResult::Pending
                } else {
                    FlushResult::TimedOut
                }
            },
            WriteOutcome::Written(size) => {
                self.written = self.written.saturating_add(size);
                self.stalled_since = now;
                if self.written >= self.bytes.len() {
                    FlushResult::Complete
                } else {
                    FlushResult::Pending
                }
            },
            WriteOutcome::Failed(kind) => {
                if kind == IoErrorKind::Interrupted {
                    FlushResult::Pending
                } else if is_transient(kind) {
                    if now.saturating_sub(self.stalled_since) < WRITE_TIMEOUT_MICROS {
                        FlushResult::Pending
                    } else {
                        FlushResult::TimedOut
                    }
                } else {
                    FlushResult::Failed(kind)
                }
            },
        }
    }
}

/// What a blocking bounded write does after one call of `write`.
#[derive(Clone, Copy, Debug, PartialEq, Eq, Structural)]
pub enum WriteAllStep {
    /// Write again from the new offset.
    Continue(usize),
    /// Sleep for the poll interval, then write again from the same offset.
    Sleep,
    /// Give up: the deadline passed without progress.
    TimedOut,
    /// Give up: the stream accepts no more bytes.
    WriteZero,
    /// Give up with the write's own error.
    Failed(IoErrorKind),
}

/// The step of a bounded blocking write at offset `written` after `outcome`
/// at `now`; `zero_means_busy` says whether a zero-byte write is a busy pipe
/// (retried until `deadline`) rather than a closed stream.
pub fn write_all_step(
    written: usize,
    outcome: WriteOutcome,
    now: u64,
    deadline: u64,
    zero_means_busy: bool,
) -> (step: WriteAllStep)
    ensures
        step == match outcome {
            WriteOutcome::Written(size) => if size == 0 {
                if zero_means_busy {
                    if now < deadline { WriteAllStep::Sleep } else { WriteAllStep::TimedOut }
                } else {
                    WriteAllStep::WriteZero
                }
            } else {
                WriteAllStep::Continue(if written + size > usize::MAX { usize::MAX } else { (written + size) as usize })
            },
            WriteOutcome::Failed(kind) => if kind == IoErrorKind::Interrupted {
                WriteAllStep::Continue(written)
            } else if kind == IoErrorKind::WouldBlock || kind == IoErrorKind::TimedOut {
                if now < deadline { WriteAllStep::Sleep } else { WriteAllStep::TimedOut }
            } else {
                WriteAllStep::Failed(kind)
            },
        },
{
    match outcome {
        WriteOutcome::Written(0) => {
            if zero_means_busy {
                if now < deadline {
                    WriteAllStep::Sleep
                } else {
                    WriteAllStep::TimedOut
                }
            } else {
                WriteAllStep::WriteZero
            }
        },
        WriteOutcome::Written(size) => WriteAllStep::Continue(written.saturating_add(size)),
        WriteOutcome::Failed(kind) => {
            if kind == IoErrorKind::Interrupted {
                WriteAllStep::Continue(written)
            } else if is_transient(kind) {
                if now < deadline {
                    WriteAllStep::Sleep
                } else {
                    WriteAllStep::TimedOut
                }
            } else {
                WriteAllStep::Failed(kind)
            }
        },
    }
}

/// `counter + 1`, capped at `u64::MAX`.
pub fn saturating_increment(counter: u64) -> (r: u64)
    ensures
        r == (if counter == u64::MAX { u64::MAX } else { (counter + 1) as u64 }),
{
    counter.saturating_add(1)
}

} // verus!
