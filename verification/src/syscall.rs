//! Syscall telemetry and dispatch gateway.
//!
//! The single entry point for system calls: the embedding's trap handler
//! decodes a syscall id and three argument words, reads its clock, and calls
//! [`syscall`]. The gateway records telemetry against the current task
//! unconditionally — before dispatch, so even an unsupported id counts —
//! then dispatches to the handler and hands the resulting effect back.
//!
//! Pointer-bearing syscalls receive raw addresses in the calling task's
//! space; the core validates them for null and returns the value to copy
//! out, so the only dereference happens in the embedding, after validation.

use vstd::prelude::*;

verus! {

use crate::KernelError;
use crate::manager::TaskManager;
use crate::manager::exit_current_and_run_next;
use crate::manager::exit_transition;
use crate::manager::suspend_current_and_run_next;
use crate::manager::telemetry_transition;
use crate::manager::yield_transition;
use crate::task::TaskStatus;
use crate::task::spec_total_time;

/// Write syscall identifier.
pub const SYSCALL_WRITE: usize = 64;

/// Exit syscall identifier.
pub const SYSCALL_EXIT: usize = 93;

/// Yield syscall identifier.
pub const SYSCALL_YIELD: usize = 124;

/// Get time syscall identifier.
pub const SYSCALL_GET_TIME: usize = 169;

/// Task info syscall identifier.
pub const SYSCALL_TASK_INFO: usize = 410;

/// Wall-clock time split into whole seconds and the microseconds within
/// the current second.
#[derive(Clone, Copy, Debug, PartialEq, Eq, Structural)]
pub struct TimeVal {
    /// Whole seconds.
    pub sec: u64,
    /// Microseconds within the second, below one million.
    pub usec: u64,
}

/// Task information, the snapshot `task_info` reports about the current
/// task: lifecycle status, per-id syscall counts and most-recent timestamps,
/// first-scheduled time, and total running time.
pub struct TaskInfo {
    /// Task status in its life cycle.
    pub status: TaskStatus,
    /// The number of invocations per syscall id.
    pub syscall_times: Vec<u32>,
    /// The most recent invocation timestamp per syscall id.
    pub syscall_timestamps: Vec<u64>,
    /// When the task first became `Running`, if it ever has.
    pub first_scheduled_time: Option<u64>,
    /// Total running time of the task, in microseconds.
    pub time: u64,
}

/// The effect of one syscall, for the embedding to carry out.
pub enum SyscallOutcome {
    /// A plain result value for the calling task, which keeps running;
    /// negative values report validation failures recovered locally.
    Value(isize),
    /// `get_time` succeeded: copy this to the task's output pointer and
    /// deliver 0.
    Time(TimeVal),
    /// `task_info` succeeded: copy this to the task's output pointer and
    /// deliver 0.
    Info(TaskInfo),
    /// `write` was requested: perform the console write of `len` bytes at
    /// `buf` to descriptor `fd` and deliver its result.
    Write { fd: usize, buf: usize, len: usize },
    /// The task yielded: switch from slot `prev`'s context to slot `next`'s;
    /// the yielder sees 0 when it resumes.
    Switched { prev: usize, next: usize },
    /// The task exited with `code`: switch into slot `next`; the exiting
    /// task never resumes.
    Exited { code: i32, next: usize },
}

/// Exits the current task and schedules the next one. Returns the slot to
/// switch into, or `NoReadyTask` when the workload is complete; the calling
/// task is `Exited` either way and never resumes. The exit code is the
/// embedding's to report.
pub fn sys_exit(tm: &mut TaskManager, exit_code: i32, now_us: u64) -> (r: Result<
    usize,
    KernelError,
>)
    requires
        old(tm).wf(),
        old(tm).inner.tasks@[old(tm).inner.current_task as int].task_status is Running,
    ensures
        final(tm).wf(),
        exit_transition(*old(tm), *final(tm), r, now_us),
{
    let _ = exit_code;
    exit_current_and_run_next(tm, now_us)
}

/// The current task gives up the processor: it becomes `Ready` and the next
/// `Ready` task in cyclic order runs. Always returns 0.
pub fn sys_yield(tm: &mut TaskManager, now_us: u64) -> (r: isize)
    requires
        old(tm).wf(),
        old(tm).inner.tasks@[old(tm).inner.current_task as int].task_status is Running,
    ensures
        final(tm).wf(),
        yield_transition(*old(tm), *final(tm), now_us),
        r == 0,
{
    suspend_current_and_run_next(tm, now_us);
    0
}

/// Splits the clock into seconds and microseconds for the output pointer
/// `ts`; fails with `InvalidArgument` on a null pointer, in which case the
/// output location stays untouched. The timezone argument is ignored.
pub fn sys_get_time(ts: usize, _tz: usize, now_us: u64) -> (r: Result<TimeVal, KernelError>)
    ensures
        ts == 0 <==> r == Err::<TimeVal, KernelError>(KernelError::InvalidArgument),
        ts != 0 ==> (r matches Ok(tv) && tv.sec == now_us as int / 1_000_000 && tv.usec == now_us
            as int % 1_000_000 && tv.sec * 1_000_000 + tv.usec == now_us && tv.usec < 1_000_000),
{
    if ts == 0 {
        return Err(KernelError::InvalidArgument);
    }
    let tv = TimeVal { sec: now_us / 1_000_000, usec: now_us % 1_000_000 };
    proof {
        vstd::arithmetic::div_mod::lemma_fundamental_div_mod(now_us as int, 1_000_000);
    }
    Ok(tv)
}

/// Snapshots the current task's status, telemetry, first-scheduled time and
/// total running time for the output pointer `ti`; fails with
/// `InvalidArgument` on a null pointer, in which case the output location
/// stays untouched.
pub fn sys_task_info(tm: &TaskManager, ti: usize, now_us: u64) -> (r: Result<
    TaskInfo,
    KernelError,
>)
    requires
        tm.wf(),
    ensures
        ti == 0 ==> r is Err && (r matches Err(e) && e == KernelError::InvalidArgument),
        ti != 0 ==> (r matches Ok(info) && {
            let t = tm.inner.tasks@[tm.inner.current_task as int];
            &&& info.status == t.task_status
            &&& info.syscall_times@ == t.syscall_times@
            &&& info.syscall_timestamps@ == t.syscall_timestamps@
            &&& info.first_scheduled_time == t.first_scheduled_time
            &&& info.time == spec_total_time(t, now_us)
        }),
{
    if ti == 0 {
        return Err(KernelError::InvalidArgument);
    }
    Ok(
        TaskInfo {
            status: tm.inner.tasks[tm.inner.current_task].task_status,
            syscall_times: tm.get_syscall_times(),
            syscall_timestamps: tm.get_syscall_timestamps(),
            first_scheduled_time: tm.get_first_scheduled_time(),
            time: tm.get_current_task_time(now_us),
        },
    )
}

/// Handles one syscall from the currently running task: records it in that
/// task's telemetry — unconditionally, before dispatch — then dispatches on
/// the id and returns the effect for the embedding to carry out, or
/// `Unsupported` for an unknown id (still counted), or `NoReadyTask` when an
/// exit ended the workload.
pub fn syscall(tm: &mut TaskManager, syscall_id: usize, args: [usize; 3], now_us: u64) -> (r:
    Result<SyscallOutcome, KernelError>)
    requires
        old(tm).wf(),
        old(tm).inner.tasks@[old(tm).inner.current_task as int].task_status is Running,
    ensures
        final(tm).wf(),
        exists|mid: TaskManager|
            {
                &&& #[trigger] telemetry_transition(*old(tm), mid, syscall_id, now_us)
                &&& mid.wf()
                &&& (if syscall_id == SYSCALL_WRITE {
                    &&& *final(tm) == mid
                    &&& r == Ok::<SyscallOutcome, KernelError>(
                        SyscallOutcome::Write { fd: args[0], buf: args[1], len: args[2] },
                    )
                } else if syscall_id == SYSCALL_EXIT {
                    &&& (r matches Ok(o) ==> o matches SyscallOutcome::Exited { code, next }
                        && exit_transition(
                        mid,
                        *final(tm),
                        Ok(next),
                        now_us,
                    ) && code == args[0] as i32)
                    &&& (r matches Err(e) ==> e == KernelError::NoReadyTask && exit_transition(
                        mid,
                        *final(tm),
                        Err(KernelError::NoReadyTask),
                        now_us,
                    ))
                } else if syscall_id == SYSCALL_YIELD {
                    &&& yield_transition(mid, *final(tm), now_us)
                    &&& r == Ok::<SyscallOutcome, KernelError>(
                        SyscallOutcome::Switched {
                            prev: old(tm).inner.current_task,
                            next: final(tm).inner.current_task,
                        },
                    )
                } else if syscall_id == SYSCALL_GET_TIME {
                    &&& *final(tm) == mid
                    &&& (args[0] == 0 ==> r == Ok::<SyscallOutcome, KernelError>(
                        SyscallOutcome::Value(-1isize),
                    ))
                    &&& (args[0] != 0 ==> (r matches Ok(o) && o matches SyscallOutcome::Time(tv)
                        && tv.sec == now_us as int / 1_000_000 && tv.usec == now_us as int
                        % 1_000_000))
                } else if syscall_id == SYSCALL_TASK_INFO {
                    &&& *final(tm) == mid
                    &&& (args[0] == 0 ==> r == Ok::<SyscallOutcome, KernelError>(
                        SyscallOutcome::Value(-1isize),
                    ))
                    &&& (args[0] != 0 ==> (r matches Ok(o) && o matches SyscallOutcome::Info(info)
                        && {
                        let t = mid.inner.tasks@[mid.inner.current_task as int];
                        &&& info.status == t.task_status
                        &&& info.syscall_times@ == t.syscall_times@
                        &&& info.syscall_timestamps@ == t.syscall_timestamps@
                        &&& info.first_scheduled_time == t.first_scheduled_time
                        &&& info.time == spec_total_time(t, now_us)
                    }))
                } else {
                    &&& *final(tm) == mid
                    &&& r == Err::<SyscallOutcome, KernelError>(KernelError::Unsupported)
                })
            },
{
    tm.update_syscall_times(syscall_id, now_us);
    let ghost mid = *tm;
    if syscall_id == SYSCALL_WRITE {
        Ok(SyscallOutcome::Write { fd: args[0], buf: args[1], len: args[2] })
    } else if syscall_id == SYSCALL_EXIT {
        #[verifier::truncate]
        let code = args[0] as i32;
        match sys_exit(tm, code, now_us) {
            Ok(next) => Ok(SyscallOutcome::Exited { code, next }),
            Err(e) => Err(e),
        }
    } else if syscall_id == SYSCALL_YIELD {
        let prev = tm.inner.current_task;
        sys_yield(tm, now_us);
        Ok(SyscallOutcome::Switched { prev, next: tm.inner.current_task })
    } else if syscall_id == SYSCALL_GET_TIME {
        match sys_get_time(args[0], args[1], now_us) {
            Ok(tv) => Ok(SyscallOutcome::Time(tv)),
            Err(_) => Ok(SyscallOutcome::Value(-1)),
        }
    } else if syscall_id == SYSCALL_TASK_INFO {
        match sys_task_info(tm, args[0], now_us) {
            Ok(info) => Ok(SyscallOutcome::Info(info)),
            Err(_) => Ok(SyscallOutcome::Value(-1)),
        }
    } else {
        Err(KernelError::Unsupported)
    }
}

} // verus!
