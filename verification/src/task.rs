//! Task control blocks: lifecycle status, saved execution context, and
//! per-task telemetry (syscall counts and timestamps, running time).

use vstd::prelude::*;

verus! {

use crate::MAX_SYSCALL_NUM;
use crate::mem::AddressSpace;
use crate::mem::MemRegion;

/// Scheduling weight newly created tasks start with.
pub const DEFAULT_PRIORITY: isize = 16;

/// Smallest scheduling weight a task may be given.
pub const MIN_PRIORITY: isize = 2;

/// The lifecycle status of a task.
///
/// `UnInit -> Ready -> Running -> Ready` (yield) `-> Running -> ... -> Exited`.
#[derive(Clone, Copy, Debug, PartialEq, Eq, Structural)]
pub enum TaskStatus {
    /// Slot created; the loader has not built an initial context yet.
    UnInit,
    /// Runnable, waiting to be selected.
    Ready,
    /// Currently executing; at most one task is in this state.
    Running,
    /// Terminal: the task exited and is never scheduled again.
    Exited,
}

/// A saved execution context: the state a suspended control flow needs to
/// resume exactly where it left off. Replaced as a whole value at a switch,
/// never partially written.
#[derive(Clone, Copy, Debug, PartialEq, Eq, Structural)]
pub struct TaskContext {
    /// Address execution resumes at.
    pub ra: usize,
    /// Stack pointer to resume with.
    pub sp: usize,
}

impl TaskContext {
    /// The all-zero scratch context the bootstrap switch discards.
    pub fn zero_init() -> (r: TaskContext)
        ensures
            r == (TaskContext { ra: 0, sp: 0 }),
    {
        TaskContext { ra: 0, sp: 0 }
    }

    /// A fresh context that begins execution at `ra` on stack `sp`, as built
    /// by the external loader for a task's entry.
    pub fn goto_restore(ra: usize, sp: usize) -> (r: TaskContext)
        ensures
            r == (TaskContext { ra, sp }),
    {
        TaskContext { ra, sp }
    }
}

/// The later of two timestamps: stamping with it never moves a record back.
pub open spec fn later_of(a: u64, b: u64) -> u64 {
    if a >= b {
        a
    } else {
        b
    }
}

/// Microseconds from `since` to `now`, zero if the clock ran backwards.
pub open spec fn elapsed_since(now: u64, since: u64) -> u64 {
    if now >= since {
        (now - since) as u64
    } else {
        0
    }
}

/// Saturating addition of time amounts.
pub open spec fn sat_add64(a: u64, b: u64) -> u64 {
    if a + b <= u64::MAX {
        (a + b) as u64
    } else {
        u64::MAX
    }
}

/// A syscall counter after one more invocation; it sticks at the top rather
/// than wrap, so counts are monotone.
pub open spec fn bump_count(c: u32) -> u32 {
    if c < u32::MAX {
        (c + 1) as u32
    } else {
        c
    }
}

/// The first-scheduled stamp after a dispatch at `now`: set if it never was,
/// kept untouched forever after.
pub open spec fn stamp_first(first: Option<u64>, now: u64) -> Option<u64> {
    if first is None {
        Some(now)
    } else {
        first
    }
}

/// Per-task record: lifecycle status, saved context, telemetry, owned
/// address space. A task's identity is its slot index in the task table.
pub struct TaskControlBlock {
    /// The task status in its lifecycle.
    pub task_status: TaskStatus,
    /// The task's saved context; meaningful only while it is not running.
    pub task_cx: TaskContext,
    /// Invocation count per syscall id, monotone.
    pub syscall_times: Vec<u32>,
    /// Timestamp (microseconds) of the most recent invocation per syscall id.
    pub syscall_timestamps: Vec<u64>,
    /// When the task first became `Running`; set exactly once.
    pub first_scheduled_time: Option<u64>,
    /// Microseconds spent `Running`, accumulated at every switch away.
    pub task_time: u64,
    /// When the task was last dispatched; meaningful while `Running`.
    pub last_dispatch_time: u64,
    /// Stored scheduling weight, at least [`MIN_PRIORITY`].
    pub priority: isize,
    /// The task's mapped memory regions.
    pub address_space: AddressSpace,
}

/// Total microseconds `t` has spent `Running`, as of `now`: the accumulated
/// time plus the live slice since the last dispatch.
pub open spec fn spec_total_time(t: TaskControlBlock, now: u64) -> u64 {
    sat_add64(
        t.task_time,
        if t.task_status is Running {
            elapsed_since(now, t.last_dispatch_time)
        } else {
            0
        },
    )
}

impl TaskControlBlock {
    /// The per-task invariant: full telemetry tables, a sane priority, and a
    /// well-formed address space.
    pub open spec fn wf(self) -> bool {
        &&& self.syscall_times@.len() == MAX_SYSCALL_NUM
        &&& self.syscall_timestamps@.len() == MAX_SYSCALL_NUM
        &&& self.priority >= MIN_PRIORITY
        &&& self.address_space.wf()
    }

    /// A freshly created task: uninitialized, no telemetry, nothing mapped.
    pub fn new(task_cx: TaskContext) -> (r: Self)
        ensures
            r.wf(),
            r.task_status is UnInit,
            r.task_cx == task_cx,
            forall|i: int| 0 <= i < MAX_SYSCALL_NUM ==> r.syscall_times@[i] == 0,
            forall|i: int| 0 <= i < MAX_SYSCALL_NUM ==> r.syscall_timestamps@[i] == 0,
            r.first_scheduled_time is None,
            r.task_time == 0,
            r.last_dispatch_time == 0,
            r.priority == DEFAULT_PRIORITY,
            r.address_space.regions@ == Seq::<MemRegion>::empty(),
    {
        let mut counts: Vec<u32> = Vec::new();
        let mut stamps: Vec<u64> = Vec::new();
        let mut i: usize = 0;
        while i < MAX_SYSCALL_NUM
            invariant
                0 <= i <= MAX_SYSCALL_NUM,
                counts@.len() == i,
                stamps@.len() == i,
                forall|j: int| 0 <= j < i ==> counts@[j] == 0,
                forall|j: int| 0 <= j < i ==> stamps@[j] == 0,
            decreases MAX_SYSCALL_NUM - i,
        {
            counts.push(0);
            stamps.push(0);
            i += 1;
        }
        TaskControlBlock {
            task_status: TaskStatus::UnInit,
            task_cx,
            syscall_times: counts,
            syscall_timestamps: stamps,
            first_scheduled_time: None,
            task_time: 0,
            last_dispatch_time: 0,
            priority: DEFAULT_PRIORITY,
            address_space: AddressSpace::new(),
        }
    }

    /// Records one invocation of `syscall_id` at `now_us`: the counter grows
    /// by one (sticking at its top) and the timestamp never moves back.
    pub fn record_syscall(&mut self, syscall_id: usize, now_us: u64)
        requires
            old(self).wf(),
            syscall_id < MAX_SYSCALL_NUM,
        ensures
            final(self).wf(),
            final(self).syscall_times@ == old(self).syscall_times@.update(
                syscall_id as int,
                bump_count(old(self).syscall_times@[syscall_id as int]),
            ),
            final(self).syscall_timestamps@ == old(self).syscall_timestamps@.update(
                syscall_id as int,
                later_of(now_us, old(self).syscall_timestamps@[syscall_id as int]),
            ),
            final(self).task_status == old(self).task_status,
            final(self).task_cx == old(self).task_cx,
            final(self).first_scheduled_time == old(self).first_scheduled_time,
            final(self).task_time == old(self).task_time,
            final(self).last_dispatch_time == old(self).last_dispatch_time,
            final(self).priority == old(self).priority,
            final(self).address_space == old(self).address_space,
    {
        let c = self.syscall_times[syscall_id];
        self.syscall_times[syscall_id] = if c < u32::MAX {
            c + 1
        } else {
            c
        };
        let prev = self.syscall_timestamps[syscall_id];
        self.syscall_timestamps[syscall_id] = if now_us >= prev {
            now_us
        } else {
            prev
        };
    }

    /// Microseconds since the task was first scheduled, `None` if it never
    /// was, zero if the clock ran backwards.
    pub fn get_time_since_first_schedule(&self, now_us: u64) -> (r: Option<u64>)
        ensures
            (match self.first_scheduled_time {
                None => r is None,
                Some(t) => r == Some(elapsed_since(now_us, t)),
            }),
    {
        match self.first_scheduled_time {
            None => None,
            Some(t) => {
                if now_us >= t {
                    Some(now_us - t)
                } else {
                    Some(0)
                }
            },
        }
    }

    /// Total microseconds the task has spent `Running`, as of `now_us`.
    pub fn total_running_time(&self, now_us: u64) -> (r: u64)
        ensures
            r == spec_total_time(*self, now_us),
    {
        let live = if matches!(self.task_status, TaskStatus::Running) {
            if now_us >= self.last_dispatch_time {
                now_us - self.last_dispatch_time
            } else {
                0
            }
        } else {
            0
        };
        if self.task_time <= u64::MAX - live {
            self.task_time + live
        } else {
            u64::MAX
        }
    }
}

/// Law: a task's reported total running time never decreases as the clock
/// advances, and its first-scheduled stamp, once set, is what a later report
/// still sees.
pub proof fn lemma_task_info_monotonic(t: TaskControlBlock, now1: u64, now2: u64)
    requires
        now1 <= now2,
    ensures
        spec_total_time(t, now1) <= spec_total_time(t, now2),
        stamp_first(stamp_first(t.first_scheduled_time, now1), now2) == stamp_first(
            t.first_scheduled_time,
            now1,
        ),
{
}

} // verus!
