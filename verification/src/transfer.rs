//! Transfers: their direction, status, shared progress, and the queue of
//! jobs of a session.
use vstd::prelude::*;

use std::sync::atomic::AtomicU64;
use std::sync::atomic::AtomicU8;
use std::sync::atomic::Ordering;
use std::sync::Arc;

verus! {

/// The direction of a data transfer.
#[derive(Clone, Copy, Debug, PartialEq, Eq, Structural)]
pub enum TransferDirection {
    Upload,
    Download,
}

/// Shared progress state for a transfer: `update()` is called when bytes are
/// moved, `snapshot()` to read the current progress. Clones share the state.
#[derive(Clone)]
pub struct ProgressReporter {
    done: Arc<AtomicU64>,
    total: Arc<AtomicU64>,
}

impl ProgressReporter {
    pub fn new() -> Self {
        ProgressReporter { done: Arc::new(AtomicU64::new(0)), total: Arc::new(AtomicU64::new(0)) }
    }

    /// Update the progress values.
    pub fn update(&self, done: u64, total: u64) {
        self.done.store(done, Ordering::Relaxed);
        self.total.store(total, Ordering::Relaxed);
    }

    /// Get the current progress as (bytes done, total bytes).
    pub fn snapshot(&self) -> (u64, u64) {
        (self.done.load(Ordering::Relaxed), self.total.load(Ordering::Relaxed))
    }
}

impl Default for ProgressReporter {
    fn default() -> Self {
        ProgressReporter::new()
    }
}

/// The status of a transfer.
#[derive(Clone, Copy, Debug, PartialEq, Eq, Structural)]
pub enum TransferStatus {
    Queued,
    Running,
    Done,
    Failed,
}

impl TransferStatus {
    /// The byte that stands for a status in a shared cell.
    pub open spec fn code(self) -> u8 {
        match self {
            TransferStatus::Queued => 0,
            TransferStatus::Running => 1,
            TransferStatus::Done => 2,
            TransferStatus::Failed => 3,
        }
    }

    /// The status a byte stands for; any unknown byte reads as `Failed`.
    pub open spec fn from_code(value: u8) -> TransferStatus {
        if value == 0 {
            TransferStatus::Queued
        } else if value == 1 {
            TransferStatus::Running
        } else if value == 2 {
            TransferStatus::Done
        } else {
            TransferStatus::Failed
        }
    }

    pub fn to_u8(self) -> (r: u8)
        ensures
            r == self.code(),
    {
        match self {
            TransferStatus::Queued => 0,
            TransferStatus::Running => 1,
            TransferStatus::Done => 2,
            TransferStatus::Failed => 3,
        }
    }

    /// Returns [`TransferStatus::Failed`] if the value is invalid.
    pub fn from_u8(value: u8) -> (r: TransferStatus)
        ensures
            r == TransferStatus::from_code(value),
    {
        match value {
            0 => TransferStatus::Queued,
            1 => TransferStatus::Running,
            2 => TransferStatus::Done,
            _ => TransferStatus::Failed,
        }
    }
}

/// A status stored as its byte reads back as the same status, and distinct
/// statuses are stored as distinct bytes.
pub proof fn law_status_code_roundtrip(s: TransferStatus, t: TransferStatus)
    ensures
        TransferStatus::from_code(s.code()) == s,
        s.code() == t.code() ==> s == t,
{
}

/// A current transfer status handle; clones share the status.
#[derive(Clone)]
pub struct StatusHandle(Arc<AtomicU8>);

impl StatusHandle {
    pub fn new(initial: TransferStatus) -> Self {
        StatusHandle(Arc::new(AtomicU8::new(initial.to_u8())))
    }

    /// Set the new status.
    pub fn set(&self, status: TransferStatus) {
        self.0.store(status.to_u8(), Ordering::Relaxed);
    }

    /// Get the status.
    pub fn get(&self) -> TransferStatus {
        TransferStatus::from_u8(self.0.load(Ordering::Relaxed))
    }
}

/// The status a transfer ends with: `Done` when its work succeeded,
/// `Failed` otherwise.
pub fn finished_status(succeeded: bool) -> (r: TransferStatus)
    ensures
        r == (if succeeded {
            TransferStatus::Done
        } else {
            TransferStatus::Failed
        }),
{
    if succeeded {
        TransferStatus::Done
    } else {
        TransferStatus::Failed
    }
}

/// A single transfer job.
pub struct TransferJob {
    pub id: u64,
    pub direction: TransferDirection,
    pub local_path: String,
    pub remote_path: String,
    pub progress: ProgressReporter,
    pub status: StatusHandle,
}

/// What a copy loop does with the `n` bytes it just read, having copied
/// `done` bytes so far.
pub enum ChunkStep {
    /// Nothing was read: the copy is complete.
    Finished,
    /// Write the chunk; `done` bytes will then have been copied.
    Write { done: u64 },
}

/// The step of a copy loop after reading `n` bytes.
pub fn chunk_step(done: u64, n: usize) -> (r: ChunkStep)
    requires
        done + n <= u64::MAX,
    ensures
        n == 0 ==> r is Finished,
        n > 0 ==> r == (ChunkStep::Write { done: (done + n) as u64 }),
{
    if n == 0 {
        ChunkStep::Finished
    } else {
        ChunkStep::Write { done: done + (n as u64) }
    }
}

} // verus!
