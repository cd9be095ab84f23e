//! Telemetry: syscall counts, timestamps, task-info snapshots.

use task_core::manager::TaskManager;
use task_core::syscall::{
    sys_get_time, sys_task_info, syscall, SyscallOutcome, SYSCALL_GET_TIME, SYSCALL_TASK_INFO,
    SYSCALL_YIELD,
};
use task_core::task::{TaskContext, TaskControlBlock, TaskStatus};
use task_core::{KernelError, MAX_SYSCALL_NUM};

fn table(n: usize) -> TaskManager {
    let mut cxs: Vec<TaskContext> = Vec::new();
    for _ in 0..n {
        cxs.push(TaskContext::zero_init());
    }
    TaskManager::new(cxs)
}

#[test]
fn every_syscall_counts_even_unsupported() {
    let mut tm = table(1);
    tm.run_first_task(0);

    // A supported id.
    syscall(&mut tm, SYSCALL_YIELD, [0, 0, 0], 500).unwrap();
    assert_eq!(tm.inner.tasks[0].syscall_times[SYSCALL_YIELD], 1);
    assert_eq!(tm.inner.tasks[0].syscall_timestamps[SYSCALL_YIELD], 500);

    // An unsupported id inside the telemetry table still counts.
    let r = syscall(&mut tm, 400, [0, 0, 0], 600);
    assert!(matches!(r, Err(KernelError::Unsupported)));
    assert_eq!(tm.inner.tasks[0].syscall_times[400], 1);
    assert_eq!(tm.inner.tasks[0].syscall_timestamps[400], 600);

    // An id beyond the table is dispatched as unsupported, not recorded.
    let before: Vec<u32> = tm.get_syscall_times();
    let r = syscall(&mut tm, MAX_SYSCALL_NUM + 7, [0, 0, 0], 700);
    assert!(matches!(r, Err(KernelError::Unsupported)));
    assert_eq!(tm.get_syscall_times(), before);
}

#[test]
fn counter_increments_by_one_per_call() {
    let mut tm = table(1);
    tm.run_first_task(0);
    for k in 1..=5u32 {
        syscall(&mut tm, SYSCALL_YIELD, [0, 0, 0], u64::from(k) * 100).unwrap();
        assert_eq!(tm.inner.tasks[0].syscall_times[SYSCALL_YIELD], k);
    }
    // No other counter moved.
    let counts = tm.get_syscall_times();
    for (id, c) in counts.iter().enumerate() {
        if id != SYSCALL_YIELD {
            assert_eq!(*c, 0);
        }
    }
}

#[test]
fn timestamp_never_moves_backwards() {
    let mut tm = table(1);
    tm.run_first_task(0);
    syscall(&mut tm, SYSCALL_YIELD, [0, 0, 0], 900).unwrap();
    assert_eq!(tm.inner.tasks[0].syscall_timestamps[SYSCALL_YIELD], 900);
    // The clock runs backwards; the stamp stays where it was.
    syscall(&mut tm, SYSCALL_YIELD, [0, 0, 0], 400).unwrap();
    assert_eq!(tm.inner.tasks[0].syscall_timestamps[SYSCALL_YIELD], 900);
    assert_eq!(tm.inner.tasks[0].syscall_times[SYSCALL_YIELD], 2);
}

#[test]
fn task_info_reports_current_task() {
    let mut tm = table(2);
    tm.run_first_task(1_000);
    syscall(&mut tm, SYSCALL_GET_TIME, [8, 0, 0], 2_000).unwrap();
    let info = sys_task_info(&tm, 8, 3_000).unwrap();
    assert!(matches!(info.status, TaskStatus::Running));
    assert_eq!(info.syscall_times[SYSCALL_GET_TIME], 1);
    assert_eq!(info.syscall_timestamps[SYSCALL_GET_TIME], 2_000);
    assert_eq!(info.first_scheduled_time, Some(1_000));
    assert_eq!(info.time, 2_000); // running since 1_000, asked at 3_000
}

#[test]
fn task_info_twice_is_monotonic() {
    let mut tm = table(1);
    tm.run_first_task(1_000);
    let a = sys_task_info(&tm, 8, 2_000).unwrap();
    let b = sys_task_info(&tm, 8, 3_500).unwrap();
    assert!(b.time >= a.time);
    assert_eq!(a.first_scheduled_time, b.first_scheduled_time);
}

#[test]
fn task_info_null_pointer_rejected() {
    let mut tm = table(1);
    tm.run_first_task(0);
    let r = sys_task_info(&tm, 0, 100);
    assert!(matches!(r, Err(KernelError::InvalidArgument)));
    let via_gateway = syscall(&mut tm, SYSCALL_TASK_INFO, [0, 0, 0], 200).unwrap();
    assert!(matches!(via_gateway, SyscallOutcome::Value(-1)));
}

#[test]
fn get_time_null_pointer_rejected() {
    let r = sys_get_time(0, 0, 123);
    assert!(matches!(r, Err(KernelError::InvalidArgument)));
}

#[test]
fn new_task_has_clean_telemetry() {
    let t = TaskControlBlock::new(TaskContext::goto_restore(1, 2));
    assert!(matches!(t.task_status, TaskStatus::UnInit));
    assert_eq!(t.task_cx, TaskContext::goto_restore(1, 2));
    assert_eq!(t.syscall_times.len(), MAX_SYSCALL_NUM);
    assert_eq!(t.syscall_timestamps.len(), MAX_SYSCALL_NUM);
    assert!(t.syscall_times.iter().all(|&c| c == 0));
    assert!(t.syscall_timestamps.iter().all(|&s| s == 0));
    assert_eq!(t.first_scheduled_time, None);
    assert_eq!(t.task_time, 0);
    assert_eq!(t.address_space.regions.len(), 0);
}

#[test]
fn record_syscall_updates_one_slot() {
    let mut t = TaskControlBlock::new(TaskContext::zero_init());
    t.record_syscall(93, 7_000);
    t.record_syscall(93, 7_500);
    assert_eq!(t.syscall_times[93], 2);
    assert_eq!(t.syscall_timestamps[93], 7_500);
    assert_eq!(t.syscall_times[92], 0);
}

#[test]
fn time_since_first_schedule() {
    let mut t = TaskControlBlock::new(TaskContext::zero_init());
    assert_eq!(t.get_time_since_first_schedule(5_000), None);
    t.first_scheduled_time = Some(2_000);
    assert_eq!(t.get_time_since_first_schedule(5_000), Some(3_000));
    // A clock that ran backwards reports zero, never underflows.
    assert_eq!(t.get_time_since_first_schedule(1_000), Some(0));
}

#[test]
fn counter_sticks_at_its_top() {
    let mut t = TaskControlBlock::new(TaskContext::zero_init());
    t.syscall_times[93] = u32::MAX - 1;
    t.record_syscall(93, 10);
    assert_eq!(t.syscall_times[93], u32::MAX);
    t.record_syscall(93, 20);
    assert_eq!(t.syscall_times[93], u32::MAX);
    assert_eq!(t.syscall_timestamps[93], 20);
}
