//! Task-management core of a small cooperative kernel.
//!
//! The library models the part of a batch kernel that represents runnable
//! units of work, decides which one the processor executes next, transfers
//! control between them, and tracks per-task resource usage (syscall counts
//! and timestamps, mapped memory regions, running time).
//!
//! Everything here is a state machine over plain values: the hardware clock
//! is passed in as a microsecond timestamp, and a context switch is returned
//! to the embedding as a decision (which saved context to suspend, which to
//! resume) rather than performed. The embedding runs the loop: it decodes a
//! trap into a syscall id and arguments, calls [`syscall::syscall`], and
//! carries out the returned effect with its platform's switch primitive.

use vstd::prelude::*;

pub mod manager;
pub mod mem;
pub mod processor;
pub mod syscall;
pub mod task;

verus! {

/// Capacity of the fixed task table: the number of slots it is built with.
pub const MAX_APP_NUM: usize = 16;

/// Syscall ids are tracked per task in a table of this many counters;
/// ids at or above this bound are dispatched but not recorded.
pub const MAX_SYSCALL_NUM: usize = 500;

/// Granularity of virtual-memory mapping: region bounds are multiples of
/// this (two-kilobyte pages).
pub const PAGE_SIZE: usize = 2048;

/// Everything that can go wrong inside the core.
///
/// Validation failures (`InvalidArgument`, `Overlap`, `NotMapped`,
/// `Unsupported`) are surfaced to the calling task, which keeps running.
/// `NoReadyTask` is fatal: the closed batch system has finished its workload.
#[derive(Clone, Copy, Debug, PartialEq, Eq, Structural)]
pub enum KernelError {
    /// Null or misaligned pointer, permission bits outside the allowed set,
    /// priority below the configured minimum.
    InvalidArgument,
    /// A requested memory region collides with an existing mapping.
    Overlap,
    /// An unmap target is not exactly covered by existing mappings.
    NotMapped,
    /// No handler is registered for the syscall id.
    Unsupported,
    /// The scheduler found nothing runnable; the kernel halts.
    NoReadyTask,
}

} // verus!
