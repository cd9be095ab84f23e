//! Scheduling: round-robin order, lifecycle, first-scheduled stamps.

use task_core::manager::TaskManager;
use task_core::syscall::{syscall, SyscallOutcome, SYSCALL_EXIT, SYSCALL_YIELD};
use task_core::task::{TaskContext, TaskStatus};
use task_core::KernelError;

fn table(n: usize) -> TaskManager {
    let mut cxs: Vec<TaskContext> = Vec::new();
    for i in 0..n {
        cxs.push(TaskContext::goto_restore(100 + i, 200 + i));
    }
    TaskManager::new(cxs)
}

#[test]
fn two_tasks_yield_then_exit() {
    // Task A yields, task B yields, A exits (B runs), B exits: NoReadyTask.
    let mut tm = table(2);
    tm.run_first_task(1_000);
    assert_eq!(tm.inner.current_task, 0);

    let r = syscall(&mut tm, SYSCALL_YIELD, [0, 0, 0], 2_000).unwrap();
    assert!(matches!(r, SyscallOutcome::Switched { prev: 0, next: 1 }));
    assert_eq!(tm.inner.current_task, 1);

    let r = syscall(&mut tm, SYSCALL_YIELD, [0, 0, 0], 3_000).unwrap();
    assert!(matches!(r, SyscallOutcome::Switched { prev: 1, next: 0 }));
    assert_eq!(tm.inner.current_task, 0);

    let r = syscall(&mut tm, SYSCALL_EXIT, [0, 0, 0], 4_000).unwrap();
    assert!(matches!(r, SyscallOutcome::Exited { code: 0, next: 1 }));
    assert!(matches!(tm.inner.tasks[0].task_status, TaskStatus::Exited));

    let r = syscall(&mut tm, SYSCALL_EXIT, [7, 0, 0], 5_000);
    assert!(matches!(r, Err(KernelError::NoReadyTask)));
    assert!(matches!(tm.inner.tasks[1].task_status, TaskStatus::Exited));
}

#[test]
fn round_robin_visits_each_once() {
    // Three tasks, three yields: control returns to the origin exactly once,
    // at the third yield, after visiting every other task.
    let mut tm = table(3);
    tm.run_first_task(0);
    let mut visited = Vec::new();
    for k in 1..=3u64 {
        let r = syscall(&mut tm, SYSCALL_YIELD, [0, 0, 0], k * 1_000).unwrap();
        match r {
            SyscallOutcome::Switched { next, .. } => visited.push(next),
            _ => panic!("yield must switch"),
        }
    }
    assert_eq!(visited, vec![1, 2, 0]);
    assert_eq!(visited.iter().filter(|&&i| i == 0).count(), 1);
}

#[test]
fn skips_exited_tasks() {
    let mut tm = table(3);
    tm.run_first_task(0);
    // Task 0 exits; task 1 runs; task 1 exits; task 2 runs, skipping 0 and 1.
    let r = syscall(&mut tm, SYSCALL_EXIT, [0, 0, 0], 1_000).unwrap();
    assert!(matches!(r, SyscallOutcome::Exited { next: 1, .. }));
    let r = syscall(&mut tm, SYSCALL_EXIT, [0, 0, 0], 2_000).unwrap();
    assert!(matches!(r, SyscallOutcome::Exited { next: 2, .. }));
    let r = syscall(&mut tm, SYSCALL_YIELD, [0, 0, 0], 3_000).unwrap();
    assert!(matches!(r, SyscallOutcome::Switched { prev: 2, next: 2 }));
}

#[test]
fn single_task_exit_is_fatal() {
    let mut tm = table(1);
    tm.run_first_task(0);
    let r = syscall(&mut tm, SYSCALL_EXIT, [3, 0, 0], 1_000);
    assert!(matches!(r, Err(KernelError::NoReadyTask)));
}

#[test]
fn first_scheduled_set_exactly_once() {
    let mut tm = table(2);
    tm.run_first_task(100);
    assert_eq!(tm.inner.tasks[0].first_scheduled_time, Some(100));
    assert_eq!(tm.inner.tasks[1].first_scheduled_time, None);

    syscall(&mut tm, SYSCALL_YIELD, [0, 0, 0], 250).unwrap();
    assert_eq!(tm.inner.tasks[1].first_scheduled_time, Some(250));

    // Task 0 is re-dispatched at 400; its stamp must not move.
    syscall(&mut tm, SYSCALL_YIELD, [0, 0, 0], 400).unwrap();
    assert_eq!(tm.inner.current_task, 0);
    assert_eq!(tm.inner.tasks[0].first_scheduled_time, Some(100));
    assert_eq!(tm.inner.tasks[1].first_scheduled_time, Some(250));
}

#[test]
fn run_time_accumulates_across_dispatches() {
    let mut tm = table(2);
    tm.run_first_task(1_000);
    // Task 0 runs 1_000..3_000, then 5_000..9_000: 6_000 total.
    syscall(&mut tm, SYSCALL_YIELD, [0, 0, 0], 3_000).unwrap();
    syscall(&mut tm, SYSCALL_YIELD, [0, 0, 0], 5_000).unwrap();
    assert_eq!(tm.inner.current_task, 0);
    assert_eq!(tm.inner.tasks[0].task_time, 2_000);
    assert_eq!(tm.get_current_task_time(9_000), 6_000);
}

#[test]
fn find_next_task_wraps_cyclically() {
    let mut tm = table(3);
    tm.run_first_task(0);
    assert_eq!(tm.find_next_task(), Some(1));
    tm.inner.tasks[1].task_status = TaskStatus::Exited;
    assert_eq!(tm.find_next_task(), Some(2));
    tm.inner.tasks[2].task_status = TaskStatus::Exited;
    // Only the current task itself is Ready after suspension.
    tm.mark_current_suspended();
    assert_eq!(tm.find_next_task(), Some(0));
}

#[test]
fn context_save_and_fetch() {
    let mut tm = table(2);
    assert_eq!(tm.task_context(1), TaskContext::goto_restore(101, 201));
    // The switch primitive saved the outgoing task's registers: store them.
    let saved = TaskContext::goto_restore(0xdead, 0xbeef);
    tm.save_task_context(0, saved);
    assert_eq!(tm.task_context(0), saved);
    // Nothing else moved.
    assert_eq!(tm.task_context(1), TaskContext::goto_restore(101, 201));
    assert!(matches!(tm.inner.tasks[0].task_status, TaskStatus::Ready));
}

#[test]
fn idle_context_starts_zeroed() {
    let p = task_core::processor::Processor::new();
    assert_eq!(p.idle_context(), TaskContext::zero_init());
    assert_eq!(TaskContext::zero_init(), TaskContext::goto_restore(0, 0));
}
