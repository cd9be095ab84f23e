//! The syscall gateway: dispatch, get_time, and the processor component.

use task_core::manager::TaskManager;
use task_core::processor::{
    current_task_info, run_tasks, set_priority, update_task_info, Processor,
};
use task_core::syscall::{
    sys_get_time, syscall, SyscallOutcome, SYSCALL_GET_TIME, SYSCALL_WRITE,
};
use task_core::task::{TaskContext, TaskControlBlock, TaskStatus, DEFAULT_PRIORITY};
use task_core::KernelError;

#[test]
fn get_time_splits_microseconds() {
    let tv = sys_get_time(8, 0, 2_500_000).unwrap();
    assert_eq!((tv.sec, tv.usec), (2, 500_000));
    let tv = sys_get_time(8, 0, 999_999).unwrap();
    assert_eq!((tv.sec, tv.usec), (0, 999_999));
}

#[test]
fn get_time_twice_strictly_increases() {
    // Two reads of a simulated clock one millisecond apart: the later pair
    // is strictly greater in microsecond terms.
    let a = sys_get_time(8, 0, 1_999_600).unwrap();
    let b = sys_get_time(8, 0, 2_000_600).unwrap();
    assert!(b.sec * 1_000_000 + b.usec > a.sec * 1_000_000 + a.usec);
    assert_eq!(b.sec * 1_000_000 + b.usec - (a.sec * 1_000_000 + a.usec), 1_000);
}

#[test]
fn gateway_routes_get_time() {
    let mut tm = TaskManager::new(vec![TaskContext::zero_init()]);
    tm.run_first_task(0);
    match syscall(&mut tm, SYSCALL_GET_TIME, [16, 0, 0], 3_000_007).unwrap() {
        SyscallOutcome::Time(tv) => assert_eq!((tv.sec, tv.usec), (3, 7)),
        _ => panic!("expected a time outcome"),
    }
    // Null output pointer: a negative value back to the task, which goes on.
    match syscall(&mut tm, SYSCALL_GET_TIME, [0, 0, 0], 3_000_007).unwrap() {
        SyscallOutcome::Value(v) => assert_eq!(v, -1),
        _ => panic!("expected a plain value"),
    }
}

#[test]
fn gateway_hands_write_to_the_embedding() {
    let mut tm = TaskManager::new(vec![TaskContext::zero_init()]);
    tm.run_first_task(0);
    match syscall(&mut tm, SYSCALL_WRITE, [1, 0x8000, 13], 100).unwrap() {
        SyscallOutcome::Write { fd, buf, len } => {
            assert_eq!((fd, buf, len), (1, 0x8000, 13));
        },
        _ => panic!("expected a write request"),
    }
    // The write was still recorded.
    assert_eq!(tm.inner.tasks[0].syscall_times[SYSCALL_WRITE], 1);
}

#[test]
fn gateway_rejects_unknown_ids() {
    let mut tm = TaskManager::new(vec![TaskContext::zero_init()]);
    tm.run_first_task(0);
    assert!(matches!(
        syscall(&mut tm, 3, [0, 0, 0], 100),
        Err(KernelError::Unsupported)
    ));
    assert!(matches!(
        syscall(&mut tm, 100_000, [0, 0, 0], 100),
        Err(KernelError::Unsupported)
    ));
}

fn fresh_task() -> TaskControlBlock {
    let mut t = TaskControlBlock::new(TaskContext::goto_restore(0x80, 0x9000));
    t.task_status = TaskStatus::Ready;
    t
}

#[test]
fn processor_checkout_semantics() {
    let mut p = Processor::new();
    assert!(p.current().is_none());
    assert!(p.take_current().is_none());

    let cx = run_tasks(&mut p, Some(fresh_task()), 5_000);
    assert_eq!(cx, Some(TaskContext::goto_restore(0x80, 0x9000)));
    {
        let c = p.current().unwrap();
        assert!(matches!(c.task_status, TaskStatus::Running));
        assert_eq!(c.first_scheduled_time, Some(5_000));
    }
    // Taking removes ownership; a second take sees nothing.
    let taken = p.take_current();
    assert!(taken.is_some());
    assert!(p.take_current().is_none());
    assert!(p.current().is_none());
}

#[test]
fn run_tasks_with_nothing_fetched() {
    let mut p = Processor::new();
    assert_eq!(run_tasks(&mut p, None, 1_000), None);
    assert!(p.current().is_none());
}

#[test]
fn set_priority_validates_minimum() {
    let mut p = Processor::new();
    run_tasks(&mut p, Some(fresh_task()), 0);
    assert_eq!(p.current().unwrap().priority, DEFAULT_PRIORITY);
    assert_eq!(set_priority(&mut p, 1), -1);
    assert_eq!(set_priority(&mut p, -3), -1);
    assert_eq!(p.current().unwrap().priority, DEFAULT_PRIORITY);
    assert_eq!(set_priority(&mut p, 2), 2);
    assert_eq!(p.current().unwrap().priority, 2);
    assert_eq!(set_priority(&mut p, 31), 31);
    assert_eq!(p.current().unwrap().priority, 31);
}

#[test]
fn processor_task_info_snapshot() {
    let mut p = Processor::new();
    run_tasks(&mut p, Some(fresh_task()), 1_000);
    update_task_info(&mut p, 169, 2_000);
    update_task_info(&mut p, 169, 2_500);
    let info = current_task_info(&p, 4_000);
    assert!(matches!(info.status, TaskStatus::Running));
    assert_eq!(info.syscall_times[169], 2);
    assert_eq!(info.syscall_timestamps[169], 2_500);
    assert_eq!(info.first_scheduled_time, Some(1_000));
    assert_eq!(info.time, 3_000);
}
