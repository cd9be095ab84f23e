//! The processor: the one task checked out of the table while it executes,
//! and the dedicated idle context the scheduling loop switches through.
//!
//! Checking the running task out — rather than pointing into the table —
//! models exclusive ownership of the execution state across a switch. The
//! idle context decouples "who picked the next task" from "what the previous
//! task's context was": the embedding's loop fetches a ready task from its
//! task source, dispatches it here, switches from the idle context into the
//! returned context, and regains control in the idle context when the task
//! yields or exits.

use vstd::prelude::*;

verus! {

use crate::MAX_SYSCALL_NUM;
use crate::PAGE_SIZE;
use crate::manager::copy_u32s;
use crate::manager::copy_u64s;
use crate::mem::spec_map;
use crate::mem::spec_unmap;
use crate::syscall::TaskInfo;
use crate::task::MIN_PRIORITY;
use crate::task::TaskContext;
use crate::task::TaskControlBlock;
use crate::task::TaskStatus;
use crate::task::bump_count;
use crate::task::later_of;
use crate::task::spec_total_time;
use crate::task::stamp_first;

/// Everything about a task except its lifecycle and scheduling stamps.
pub open spec fn same_untimed(a: TaskControlBlock, b: TaskControlBlock) -> bool {
    &&& a.task_cx == b.task_cx
    &&& a.syscall_times@ == b.syscall_times@
    &&& a.syscall_timestamps@ == b.syscall_timestamps@
    &&& a.task_time == b.task_time
    &&& a.priority == b.priority
    &&& a.address_space == b.address_space
}

/// Per-core state: the task currently executing, held by value while it
/// runs, and the control flow that selects and switches tasks.
pub struct Processor {
    /// The task currently executing on this core, if any.
    pub current: Option<TaskControlBlock>,
    /// The scheduling loop's own context, the switch target while no task
    /// is chosen.
    pub idle_task_cx: TaskContext,
}

impl Processor {
    /// The processor invariant: whatever task is checked out is well formed.
    pub open spec fn wf(self) -> bool {
        self.current matches Some(t) ==> t.wf()
    }

    /// An empty processor: no task checked out, a zeroed idle context.
    pub fn new() -> (r: Processor)
        ensures
            r.wf(),
            r.current is None,
            r.idle_task_cx == (TaskContext { ra: 0, sp: 0 }),
    {
        Processor { current: None, idle_task_cx: TaskContext::zero_init() }
    }

    /// Takes the current task out, transferring ownership: until a task is
    /// stored again, there is no current task.
    pub fn take_current(&mut self) -> (r: Option<TaskControlBlock>)
        requires
            old(self).wf(),
        ensures
            final(self).wf(),
            r == old(self).current,
            final(self).current is None,
            final(self).idle_task_cx == old(self).idle_task_cx,
    {
        self.current.take()
    }

    /// A read-only handle on the current task, without transferring
    /// ownership.
    pub fn current(&self) -> (r: Option<&TaskControlBlock>)
        ensures
            r is Some <==> self.current is Some,
            r matches Some(t) ==> *t == self.current->0,
    {
        self.current.as_ref()
    }

    /// The idle context, for the embedding to switch out of and back into.
    pub fn idle_context(&self) -> (r: TaskContext)
        ensures
            r == self.idle_task_cx,
    {
        self.idle_task_cx
    }
}

/// One round of the scheduling loop's decision: given the task the embedding
/// fetched from its task source (if any), mark it `Running`, stamp its
/// dispatch times, check it out as current, and return the context to switch
/// into from the idle context. With nothing fetched the processor is
/// unchanged and the loop simply retries.
pub fn run_tasks(p: &mut Processor, fetched: Option<TaskControlBlock>, now_us: u64) -> (r: Option<
    TaskContext,
>)
    requires
        old(p).wf(),
        fetched matches Some(t) ==> t.wf() && t.task_status is Ready,
    ensures
        final(p).wf(),
        final(p).idle_task_cx == old(p).idle_task_cx,
        (match fetched {
            None => r is None && *final(p) == *old(p),
            Some(t) => {
                &&& r == Some(t.task_cx)
                &&& final(p).current matches Some(c) && {
                    &&& c.task_status is Running
                    &&& c.first_scheduled_time == stamp_first(t.first_scheduled_time, now_us)
                    &&& c.last_dispatch_time == now_us
                    &&& same_untimed(c, t)
                }
            },
        }),
{
    match fetched {
        None => None,
        Some(task) => {
            let mut task = task;
            task.task_status = TaskStatus::Running;
            if task.first_scheduled_time.is_none() {
                task.first_scheduled_time = Some(now_us);
            }
            task.last_dispatch_time = now_us;
            let cx = task.task_cx;
            p.current = Some(task);
            Some(cx)
        },
    }
}

/// Snapshots the current task's status, telemetry, first-scheduled time and
/// total running time.
pub fn current_task_info(p: &Processor, now_us: u64) -> (r: TaskInfo)
    requires
        p.wf(),
        p.current is Some,
    ensures
        ({
            let t = p.current->0;
            &&& r.status == t.task_status
            &&& r.syscall_times@ == t.syscall_times@
            &&& r.syscall_timestamps@ == t.syscall_timestamps@
            &&& r.first_scheduled_time == t.first_scheduled_time
            &&& r.time == spec_total_time(t, now_us)
        }),
{
    let t = match &p.current {
        Some(t) => t,
        None => unreached(),
    };
    TaskInfo {
        status: t.task_status,
        syscall_times: copy_u32s(&t.syscall_times),
        syscall_timestamps: copy_u64s(&t.syscall_timestamps),
        first_scheduled_time: t.first_scheduled_time,
        time: t.total_running_time(now_us),
    }
}

/// Maps `[start, start + len)` with permission bits `port` in the current
/// task's address space: 0 on success, -1 if `start` is misaligned, the
/// permission bits are invalid, the range overflows the address width, or it
/// overlaps an existing region; on failure nothing changes.
pub fn allocate_memory(p: &mut Processor, start: usize, len: usize, port: usize) -> (r: isize)
    requires
        old(p).wf(),
        old(p).current is Some,
    ensures
        final(p).wf(),
        final(p).idle_task_cx == old(p).idle_task_cx,
        ({
            let t = old(p).current->0;
            if start + len + PAGE_SIZE <= usize::MAX {
                match spec_map(t.address_space.regions@, start as int, len as int, port) {
                    Ok(rs) => {
                        &&& r == 0
                        &&& final(p).current matches Some(c) && {
                            &&& c.address_space.regions@ == rs
                            &&& c.task_status == t.task_status
                            &&& c.task_cx == t.task_cx
                            &&& c.syscall_times@ == t.syscall_times@
                            &&& c.syscall_timestamps@ == t.syscall_timestamps@
                            &&& c.first_scheduled_time == t.first_scheduled_time
                            &&& c.task_time == t.task_time
                            &&& c.last_dispatch_time == t.last_dispatch_time
                            &&& c.priority == t.priority
                        }
                    },
                    Err(_) => r == -1 && (final(p).current matches Some(c) && {
                        &&& c.address_space.regions@ == t.address_space.regions@
                        &&& c.task_status == t.task_status
                        &&& c.task_cx == t.task_cx
                        &&& c.syscall_times@ == t.syscall_times@
                        &&& c.syscall_timestamps@ == t.syscall_timestamps@
                        &&& c.first_scheduled_time == t.first_scheduled_time
                        &&& c.task_time == t.task_time
                        &&& c.last_dispatch_time == t.last_dispatch_time
                        &&& c.priority == t.priority
                    }),
                }
            } else {
                r == -1 && *final(p) == *old(p)
            }
        }),
{
    if start > usize::MAX - PAGE_SIZE || len > usize::MAX - PAGE_SIZE - start {
        return -1;
    }
    let mut t = match p.current.take() {
        Some(t) => t,
        None => unreached(),
    };
    let outcome = t.address_space.map(start, len, port);
    p.current = Some(t);
    match outcome {
        Ok(()) => 0,
        Err(_) => -1,
    }
}

/// Unmaps `[start, start + len)` from the current task's address space:
/// 0 on success, -1 if a bound is misaligned, the range overflows the
/// address width, or it is not exactly tiled by existing regions; on failure
/// nothing changes.
pub fn free_memory(p: &mut Processor, start: usize, len: usize) -> (r: isize)
    requires
        old(p).wf(),
        old(p).current is Some,
    ensures
        final(p).wf(),
        final(p).idle_task_cx == old(p).idle_task_cx,
        ({
            let t = old(p).current->0;
            if start + len <= usize::MAX {
                match spec_unmap(t.address_space.regions@, start as int, len as int) {
                    Ok(rs) => {
                        &&& r == 0
                        &&& final(p).current matches Some(c) && {
                            &&& c.address_space.regions@ == rs
                            &&& c.task_status == t.task_status
                            &&& c.task_cx == t.task_cx
                            &&& c.syscall_times@ == t.syscall_times@
                            &&& c.syscall_timestamps@ == t.syscall_timestamps@
                            &&& c.first_scheduled_time == t.first_scheduled_time
                            &&& c.task_time == t.task_time
                            &&& c.last_dispatch_time == t.last_dispatch_time
                            &&& c.priority == t.priority
                        }
                    },
                    Err(_) => r == -1 && (final(p).current matches Some(c) && {
                        &&& c.address_space.regions@ == t.address_space.regions@
                        &&& c.task_status == t.task_status
                        &&& c.task_cx == t.task_cx
                        &&& c.syscall_times@ == t.syscall_times@
                        &&& c.syscall_timestamps@ == t.syscall_timestamps@
                        &&& c.first_scheduled_time == t.first_scheduled_time
                        &&& c.task_time == t.task_time
                        &&& c.last_dispatch_time == t.last_dispatch_time
                        &&& c.priority == t.priority
                    }),
                }
            } else {
                r == -1 && *final(p) == *old(p)
            }
        }),
{
    if len > usize::MAX - start {
        return -1;
    }
    let mut t = match p.current.take() {
        Some(t) => t,
        None => unreached(),
    };
    let outcome = t.address_space.unmap(start, len);
    p.current = Some(t);
    match outcome {
        Ok(()) => 0,
        Err(_) => -1,
    }
}

/// Records one syscall invocation against the current task, as the gateway
/// does against the table: ids beyond the telemetry table are not recorded.
pub fn update_task_info(p: &mut Processor, syscall_id: usize, now_us: u64)
    requires
        old(p).wf(),
        old(p).current is Some,
    ensures
        final(p).wf(),
        final(p).idle_task_cx == old(p).idle_task_cx,
        ({
            let t = old(p).current->0;
            if syscall_id < MAX_SYSCALL_NUM {
                final(p).current matches Some(c) && {
                    &&& c.syscall_times@ == t.syscall_times@.update(
                        syscall_id as int,
                        bump_count(t.syscall_times@[syscall_id as int]),
                    )
                    &&& c.syscall_timestamps@ == t.syscall_timestamps@.update(
                        syscall_id as int,
                        later_of(now_us, t.syscall_timestamps@[syscall_id as int]),
                    )
                    &&& c.task_status == t.task_status
                    &&& c.task_cx == t.task_cx
                    &&& c.first_scheduled_time == t.first_scheduled_time
                    &&& c.task_time == t.task_time
                    &&& c.last_dispatch_time == t.last_dispatch_time
                    &&& c.priority == t.priority
                    &&& c.address_space == t.address_space
                }
            } else {
                *final(p) == *old(p)
            }
        }),
{
    if syscall_id < MAX_SYSCALL_NUM {
        let mut t = match p.current.take() {
            Some(t) => t,
            None => unreached(),
        };
        t.record_syscall(syscall_id, now_us);
        p.current = Some(t);
    }
}

/// Sets the current task's scheduling weight: the accepted priority back on
/// success, -1 if it is below the configured minimum, in which case nothing
/// changes.
pub fn set_priority(p: &mut Processor, priority: isize) -> (r: isize)
    requires
        old(p).wf(),
        old(p).current is Some,
    ensures
        final(p).wf(),
        final(p).idle_task_cx == old(p).idle_task_cx,
        priority < MIN_PRIORITY ==> r == -1 && *final(p) == *old(p),
        priority >= MIN_PRIORITY ==> r == priority && (final(p).current matches Some(c) && {
            let t = old(p).current->0;
            &&& c.priority == priority
            &&& c.task_status == t.task_status
            &&& c.task_cx == t.task_cx
            &&& c.syscall_times@ == t.syscall_times@
            &&& c.syscall_timestamps@ == t.syscall_timestamps@
            &&& c.first_scheduled_time == t.first_scheduled_time
            &&& c.task_time == t.task_time
            &&& c.last_dispatch_time == t.last_dispatch_time
            &&& c.address_space == t.address_space
        }),
{
    if priority < MIN_PRIORITY {
        return -1;
    }
    let mut t = match p.current.take() {
        Some(t) => t,
        None => unreached(),
    };
    t.priority = priority;
    p.current = Some(t);
    priority
}

} // verus!
