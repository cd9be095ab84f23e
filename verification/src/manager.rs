//! The fixed-capacity task table and its round-robin scheduling policy.
//!
//! The table owns every task control block and the index of the running
//! task. State transitions happen here; the context switch itself is the
//! embedding's primitive, which receives the scheduler's decision (which
//! slot runs next) and the saved contexts to exchange.

use vstd::prelude::*;

verus! {

use crate::KernelError;
use crate::MAX_APP_NUM;
use crate::MAX_SYSCALL_NUM;
use crate::task::TaskContext;
use crate::task::TaskControlBlock;
use crate::task::TaskStatus;
use crate::task::bump_count;
use crate::task::elapsed_since;
use crate::task::later_of;
use crate::task::sat_add64;
use crate::task::stamp_first;

/// The lifecycle status of each slot, in slot order.
pub open spec fn statuses(tasks: Seq<TaskControlBlock>) -> Seq<TaskStatus> {
    Seq::new(tasks.len(), |i: int| tasks[i].task_status)
}

/// The fields of a task the scheduler never touches.
pub open spec fn same_identity(a: TaskControlBlock, b: TaskControlBlock) -> bool {
    &&& a.task_cx == b.task_cx
    &&& a.syscall_times@ == b.syscall_times@
    &&& a.syscall_timestamps@ == b.syscall_timestamps@
    &&& a.priority == b.priority
    &&& a.address_space == b.address_space
}

/// Round-robin selection, scanning offsets `off ..= n` from `current`: the
/// first Ready slot in cyclic order wins.
pub open spec fn rr_next_from(s: Seq<TaskStatus>, current: int, n: int, off: int) -> Option<int>
    decreases n + 1 - off,
{
    if n <= 0 || off > n || off < 1 {
        None
    } else {
        let i = (current + off) % n;
        if s[i] is Ready {
            Some(i)
        } else {
            rr_next_from(s, current, n, off + 1)
        }
    }
}

/// The slot the scheduler selects after `current`: the first Ready slot at
/// cyclic offsets `1 ..= n`, so `current` itself comes last.
pub open spec fn rr_next(s: Seq<TaskStatus>, current: int, n: int) -> Option<int> {
    rr_next_from(s, current, n, 1)
}

/// Inner of the task manager: the table and the running slot's index.
pub struct TaskManagerInner {
    /// Task list, one control block per slot.
    pub tasks: Vec<TaskControlBlock>,
    /// Index of the current `Running` task; meaningful only while one is.
    pub current_task: usize,
}

/// The task manager: a table of fixed capacity built at boot, plus the
/// scheduling policy over it.
pub struct TaskManager {
    /// Total number of tasks; fixed for the table's lifetime.
    pub num_app: usize,
    /// The mutable scheduling state.
    pub inner: TaskManagerInner,
}

impl TaskManager {
    /// The table invariant: a non-empty table within capacity, a valid
    /// current index, well-formed tasks, and at most one `Running` task,
    /// which sits at `current_task`.
    pub open spec fn wf(self) -> bool {
        &&& self.num_app == self.inner.tasks@.len()
        &&& 1 <= self.num_app <= MAX_APP_NUM
        &&& self.inner.current_task < self.num_app
        &&& forall|i: int| 0 <= i < self.inner.tasks@.len() ==> (#[trigger] self.inner.tasks@[i]).wf()
        &&& forall|i: int|
            0 <= i < self.inner.tasks@.len() && (#[trigger] self.inner.tasks@[i]).task_status
                is Running ==> i == self.inner.current_task
    }

    /// Builds the table at boot: one Ready task per loader-built context.
    pub fn new(contexts: Vec<TaskContext>) -> (r: TaskManager)
        requires
            1 <= contexts@.len() <= MAX_APP_NUM,
        ensures
            r.wf(),
            r.num_app == contexts@.len(),
            r.inner.current_task == 0,
            forall|i: int|
                0 <= i < contexts@.len() ==> (#[trigger] r.inner.tasks@[i]).task_status
                    is Ready,
            forall|i: int|
                0 <= i < contexts@.len() ==> (#[trigger] r.inner.tasks@[i]).task_cx
                    == contexts@[i],
            forall|i: int|
                0 <= i < contexts@.len() ==> (#[trigger] r.inner.tasks@[i]).first_scheduled_time
                    is None,
            forall|i: int|
                0 <= i < contexts@.len() ==> (#[trigger] r.inner.tasks@[i]).task_time == 0,
            forall|i: int|
                0 <= i < contexts@.len() ==> (#[trigger] r.inner.tasks@[i]).last_dispatch_time
                    == 0,
            forall|i: int|
                0 <= i < contexts@.len() ==> (#[trigger] r.inner.tasks@[i]).priority
                    == crate::task::DEFAULT_PRIORITY,
            forall|i: int|
                0 <= i < contexts@.len() ==> (#[trigger] r.inner.tasks@[i]).address_space.regions@
                    =~= Seq::<crate::mem::MemRegion>::empty(),
            forall|i: int, k: int|
                0 <= i < contexts@.len() && 0 <= k < MAX_SYSCALL_NUM ==> (
                #[trigger] r.inner.tasks@[i].syscall_times@[k]) == 0,
            forall|i: int, k: int|
                0 <= i < contexts@.len() && 0 <= k < MAX_SYSCALL_NUM ==> (
                #[trigger] r.inner.tasks@[i].syscall_timestamps@[k]) == 0,
    {
        let n = contexts.len();
        let mut tasks: Vec<TaskControlBlock> = Vec::new();
        let mut i: usize = 0;
        while i < n
            invariant
                0 <= i <= n,
                n == contexts@.len() <= MAX_APP_NUM,
                tasks@.len() == i,
                forall|j: int| 0 <= j < i ==> (#[trigger] tasks@[j]).wf(),
                forall|j: int| 0 <= j < i ==> (#[trigger] tasks@[j]).task_status is Ready,
                forall|j: int| 0 <= j < i ==> (#[trigger] tasks@[j]).task_cx == contexts@[j],
                forall|j: int|
                    0 <= j < i ==> (#[trigger] tasks@[j]).first_scheduled_time is None,
                forall|j: int| 0 <= j < i ==> (#[trigger] tasks@[j]).task_time == 0,
                forall|j: int| 0 <= j < i ==> (#[trigger] tasks@[j]).last_dispatch_time == 0,
                forall|j: int|
                    0 <= j < i ==> (#[trigger] tasks@[j]).priority
                        == crate::task::DEFAULT_PRIORITY,
                forall|j: int|
                    0 <= j < i ==> (#[trigger] tasks@[j]).address_space.regions@ =~= Seq::<
                        crate::mem::MemRegion,
                    >::empty(),
                forall|j: int, k: int|
                    0 <= j < i && 0 <= k < MAX_SYSCALL_NUM ==> (
                    #[trigger] tasks@[j].syscall_times@[k]) == 0,
                forall|j: int, k: int|
                    0 <= j < i && 0 <= k < MAX_SYSCALL_NUM ==> (
                    #[trigger] tasks@[j].syscall_timestamps@[k]) == 0,
            decreases n - i,
        {
            let mut t = TaskControlBlock::new(contexts[i]);
            t.task_status = TaskStatus::Ready;
            tasks.push(t);
            i += 1;
        }
        TaskManager { num_app: n, inner: TaskManagerInner { tasks, current_task: 0 } }
    }

    /// Bootstrap: marks slot 0 `Running`, stamps its dispatch times, and
    /// returns the context the embedding's first switch resumes into.
    pub fn run_first_task(&mut self, now_us: u64) -> (next_cx: TaskContext)
        requires
            old(self).wf(),
            old(self).inner.tasks@[0].task_status is Ready,
            forall|i: int|
                0 <= i < old(self).inner.tasks@.len() ==> !((#[trigger] old(self).inner.tasks@[i]).task_status is Running),
        ensures
            final(self).wf(),
            final(self).num_app == old(self).num_app,
            final(self).inner.current_task == 0,
            next_cx == old(self).inner.tasks@[0].task_cx,
            final(self).inner.tasks@[0].task_status is Running,
            final(self).inner.tasks@[0].first_scheduled_time == stamp_first(
                old(self).inner.tasks@[0].first_scheduled_time,
                now_us,
            ),
            final(self).inner.tasks@[0].last_dispatch_time == now_us,
            final(self).inner.tasks@[0].task_time == old(self).inner.tasks@[0].task_time,
            same_identity(final(self).inner.tasks@[0], old(self).inner.tasks@[0]),
            forall|i: int|
                1 <= i < old(self).inner.tasks@.len() ==> final(self).inner.tasks@[i] == old(self).inner.tasks@[i],
    {
        self.inner.tasks[0].task_status = TaskStatus::Running;
        if self.inner.tasks[0].first_scheduled_time.is_none() {
            self.inner.tasks[0].first_scheduled_time = Some(now_us);
        }
        self.inner.tasks[0].last_dispatch_time = now_us;
        self.inner.current_task = 0;
        self.inner.tasks[0].task_cx
    }

    /// Moves the current `Running` task to `Ready` (a voluntary yield).
    pub fn mark_current_suspended(&mut self)
        requires
            old(self).wf(),
            old(self).inner.tasks@[old(self).inner.current_task as int].task_status is Running,
        ensures
            final(self).wf(),
            final(self).num_app == old(self).num_app,
            final(self).inner.current_task == old(self).inner.current_task,
            final(self).inner.tasks@ == old(self).inner.tasks@.update(
                old(self).inner.current_task as int,
                (TaskControlBlock {
                    task_status: TaskStatus::Ready,
                    ..old(self).inner.tasks@[old(self).inner.current_task as int]
                }),
            ),
    {
        let current = self.inner.current_task;
        self.inner.tasks[current].task_status = TaskStatus::Ready;
    }

    /// Moves the current `Running` task to `Exited` (terminal).
    pub fn mark_current_exited(&mut self)
        requires
            old(self).wf(),
            old(self).inner.tasks@[old(self).inner.current_task as int].task_status is Running,
        ensures
            final(self).wf(),
            final(self).num_app == old(self).num_app,
            final(self).inner.current_task == old(self).inner.current_task,
            final(self).inner.tasks@ == old(self).inner.tasks@.update(
                old(self).inner.current_task as int,
                (TaskControlBlock {
                    task_status: TaskStatus::Exited,
                    ..old(self).inner.tasks@[old(self).inner.current_task as int]
                }),
            ),
    {
        let current = self.inner.current_task;
        self.inner.tasks[current].task_status = TaskStatus::Exited;
    }

    /// Selects the next task to run: the first `Ready` slot in cyclic order
    /// after the current one, the current slot itself considered last.
    pub fn find_next_task(&self) -> (r: Option<usize>)
        requires
            self.wf(),
        ensures
            (match r {
                Some(i) => i < self.num_app && rr_next(
                    statuses(self.inner.tasks@),
                    self.inner.current_task as int,
                    self.num_app as int,
                ) == Some(i as int),
                None => rr_next(
                    statuses(self.inner.tasks@),
                    self.inner.current_task as int,
                    self.num_app as int,
                ) is None,
            }),
    {
        let n = self.num_app;
        let cur = self.inner.current_task;
        let ghost sts = statuses(self.inner.tasks@);
        let mut off: usize = 1;
        while off <= n
            invariant
                self.wf(),
                n == self.num_app,
                cur == self.inner.current_task,
                sts == statuses(self.inner.tasks@),
                1 <= off <= n + 1,
                rr_next_from(sts, cur as int, n as int, 1) == rr_next_from(
                    sts,
                    cur as int,
                    n as int,
                    off as int,
                ),
            decreases n + 1 - off,
        {
            let id = (cur + off) % n;
            if matches!(self.inner.tasks[id].task_status, TaskStatus::Ready) {
                return Some(id);
            }
            off += 1;
        }
        None
    }

    /// Dispatches the selected task: marks it `Running`, charges the
    /// outgoing slot's run time, stamps first-schedule and dispatch times,
    /// and moves `current_task`. Fails with `NoReadyTask` when nothing is
    /// runnable, leaving the table unchanged: the batch workload is done.
    pub fn run_next_task(&mut self, now_us: u64) -> (r: Result<usize, KernelError>)
        requires
            old(self).wf(),
            !(old(self).inner.tasks@[old(self).inner.current_task as int].task_status
                is Running),
        ensures
            final(self).wf(),
            final(self).num_app == old(self).num_app,
            (match rr_next(
                statuses(old(self).inner.tasks@),
                old(self).inner.current_task as int,
                old(self).num_app as int,
            ) {
                None => r == Err::<usize, KernelError>(KernelError::NoReadyTask) && *final(self)
                    == *old(self),
                Some(nxt) => {
                    let cur = old(self).inner.current_task as int;
                    let n = old(self).num_app as int;
                    &&& r == Ok::<usize, KernelError>(nxt as usize)
                    &&& final(self).inner.current_task == nxt
                    &&& forall|i: int|
                        0 <= i < n ==> same_identity(
                            #[trigger] final(self).inner.tasks@[i],
                            old(self).inner.tasks@[i],
                        )
                    &&& statuses(final(self).inner.tasks@) == statuses(
                        old(self).inner.tasks@,
                    ).update(nxt, TaskStatus::Running)
                    &&& forall|i: int|
                        0 <= i < n && i != nxt ==> (#[trigger] final(self).inner.tasks@[i]).first_scheduled_time == old(self).inner.tasks@[i].first_scheduled_time && final(self).inner.tasks@[i].last_dispatch_time == old(self).inner.tasks@[i].last_dispatch_time
                    &&& final(self).inner.tasks@[nxt].first_scheduled_time == stamp_first(
                        old(self).inner.tasks@[nxt].first_scheduled_time,
                        now_us,
                    )
                    &&& final(self).inner.tasks@[nxt].last_dispatch_time == now_us
                    &&& forall|i: int|
                        0 <= i < n && i != cur ==> (#[trigger] final(self).inner.tasks@[i]).task_time == old(self).inner.tasks@[i].task_time
                    &&& final(self).inner.tasks@[cur].task_time == sat_add64(
                        old(self).inner.tasks@[cur].task_time,
                        elapsed_since(now_us, old(self).inner.tasks@[cur].last_dispatch_time),
                    )
                },
            }),
    {
        match self.find_next_task() {
            None => Err(KernelError::NoReadyTask),
            Some(next) => {
                let cur = self.inner.current_task;
                let last = self.inner.tasks[cur].last_dispatch_time;
                let slice = if now_us >= last {
                    now_us - last
                } else {
                    0
                };
                let tt = self.inner.tasks[cur].task_time;
                self.inner.tasks[cur].task_time = if tt <= u64::MAX - slice {
                    tt + slice
                } else {
                    u64::MAX
                };
                self.inner.tasks[next].task_status = TaskStatus::Running;
                if self.inner.tasks[next].first_scheduled_time.is_none() {
                    self.inner.tasks[next].first_scheduled_time = Some(now_us);
                }
                self.inner.tasks[next].last_dispatch_time = now_us;
                self.inner.current_task = next;
                proof {
                    lemma_rr_next_in_range(
                        statuses(old(self).inner.tasks@),
                        old(self).inner.current_task as int,
                        old(self).num_app as int,
                        1,
                    );
                    assert(statuses(final(self).inner.tasks@) =~= statuses(
                        old(self).inner.tasks@,
                    ).update(next as int, TaskStatus::Running));
                }
                Ok(next)
            },
        }
    }

    /// Records one syscall invocation against the current task; ids beyond
    /// the telemetry table are dispatched but not recorded.
    pub fn update_syscall_times(&mut self, syscall_id: usize, now_us: u64)
        requires
            old(self).wf(),
        ensures
            final(self).wf(),
            telemetry_transition(*old(self), *final(self), syscall_id, now_us),
    {
        if syscall_id < MAX_SYSCALL_NUM {
            let cur = self.inner.current_task;
            self.inner.tasks[cur].record_syscall(syscall_id, now_us);
        }
    }

    /// A copy of the current task's per-id syscall counts.
    pub fn get_syscall_times(&self) -> (r: Vec<u32>)
        requires
            self.wf(),
        ensures
            r@ == self.inner.tasks@[self.inner.current_task as int].syscall_times@,
    {
        copy_u32s(&self.inner.tasks[self.inner.current_task].syscall_times)
    }

    /// A copy of the current task's per-id most-recent syscall timestamps.
    pub fn get_syscall_timestamps(&self) -> (r: Vec<u64>)
        requires
            self.wf(),
        ensures
            r@ == self.inner.tasks@[self.inner.current_task as int].syscall_timestamps@,
    {
        copy_u64s(&self.inner.tasks[self.inner.current_task].syscall_timestamps)
    }

    /// When the current task was first scheduled, if it ever was.
    pub fn get_first_scheduled_time(&self) -> (r: Option<u64>)
        requires
            self.wf(),
        ensures
            r == self.inner.tasks@[self.inner.current_task as int].first_scheduled_time,
    {
        self.inner.tasks[self.inner.current_task].first_scheduled_time
    }

    /// Total time the current task has spent `Running`, as of `now_us`.
    pub fn get_current_task_time(&self, now_us: u64) -> (r: u64)
        requires
            self.wf(),
        ensures
            r == crate::task::spec_total_time(
                self.inner.tasks@[self.inner.current_task as int],
                now_us,
            ),
    {
        self.inner.tasks[self.inner.current_task].total_running_time(now_us)
    }

    /// The saved context of slot `idx`, for the embedding's switch primitive.
    pub fn task_context(&self, idx: usize) -> (r: TaskContext)
        requires
            self.wf(),
            idx < self.num_app,
        ensures
            r == self.inner.tasks@[idx as int].task_cx,
    {
        self.inner.tasks[idx].task_cx
    }

    /// Stores the context the switch primitive saved for slot `idx`.
    pub fn save_task_context(&mut self, idx: usize, cx: TaskContext)
        requires
            old(self).wf(),
            idx < old(self).num_app,
        ensures
            final(self).wf(),
            final(self).num_app == old(self).num_app,
            final(self).inner.current_task == old(self).inner.current_task,
            final(self).inner.tasks@ == old(self).inner.tasks@.update(
                idx as int,
                (TaskControlBlock { task_cx: cx, ..old(self).inner.tasks@[idx as int] }),
            ),
    {
        self.inner.tasks[idx].task_cx = cx;
    }
}

/// Suspends the current `Running` task and dispatches the next `Ready` one.
/// This never fails: the suspended task itself is `Ready` again, so the scan
/// finds at least it.
pub fn suspend_current_and_run_next(tm: &mut TaskManager, now_us: u64) -> (next: usize)
    requires
        old(tm).wf(),
        old(tm).inner.tasks@[old(tm).inner.current_task as int].task_status is Running,
    ensures
        final(tm).wf(),
        next == final(tm).inner.current_task,
        yield_transition(*old(tm), *final(tm), now_us),
{
    tm.mark_current_suspended();
    let ghost mid = *tm;
    proof {
        let cur = old(tm).inner.current_task as int;
        let n = old(tm).num_app as int;
        assert(statuses(mid.inner.tasks@) =~= statuses(old(tm).inner.tasks@).update(
            cur,
            TaskStatus::Ready,
        ));
        vstd::arithmetic::div_mod::lemma_mod_add_multiples_vanish(cur, n);
        vstd::arithmetic::div_mod::lemma_small_mod(cur as nat, n as nat);
        assert((cur + n) % n == cur);
        assert(statuses(mid.inner.tasks@)[cur] is Ready);
        lemma_rr_finds_ready(statuses(mid.inner.tasks@), cur, n, 1, n);
    }
    let r = tm.run_next_task(now_us);
    match r {
        Ok(next) => next,
        Err(_) => {
            proof {
                assert(false);
            }
            0
        },
    }
}

/// Exits the current `Running` task and dispatches the next `Ready` one.
/// Fails with `NoReadyTask` when none remains: the workload is complete and
/// the kernel halts. The exit itself still took effect.
pub fn exit_current_and_run_next(tm: &mut TaskManager, now_us: u64) -> (r: Result<
    usize,
    KernelError,
>)
    requires
        old(tm).wf(),
        old(tm).inner.tasks@[old(tm).inner.current_task as int].task_status is Running,
    ensures
        final(tm).wf(),
        exit_transition(*old(tm), *final(tm), r, now_us),
{
    tm.mark_current_exited();
    let ghost mid = *tm;
    proof {
        let cur = old(tm).inner.current_task as int;
        assert(statuses(mid.inner.tasks@) =~= statuses(old(tm).inner.tasks@).update(
            cur,
            TaskStatus::Exited,
        ));
    }
    tm.run_next_task(now_us)
}

/// How recording one syscall at the gateway relates the table before and
/// after: the current task's counter for `syscall_id` grows by one and its
/// timestamp moves no earlier, everything else is untouched; ids beyond the
/// telemetry table leave the whole state untouched.
pub open spec fn telemetry_transition(
    pre: TaskManager,
    post: TaskManager,
    syscall_id: usize,
    now: u64,
) -> bool {
    let cur = pre.inner.current_task as int;
    &&& post.num_app == pre.num_app
    &&& post.inner.current_task == pre.inner.current_task
    &&& (if syscall_id < MAX_SYSCALL_NUM {
        &&& post.inner.tasks@.len() == pre.inner.tasks@.len()
        &&& forall|i: int|
            0 <= i < pre.inner.tasks@.len() && i != cur ==> post.inner.tasks@[i]
                == pre.inner.tasks@[i]
        &&& post.inner.tasks@[cur].syscall_times@ == pre.inner.tasks@[cur].syscall_times@.update(
            syscall_id as int,
            bump_count(pre.inner.tasks@[cur].syscall_times@[syscall_id as int]),
        )
        &&& post.inner.tasks@[cur].syscall_timestamps@
            == pre.inner.tasks@[cur].syscall_timestamps@.update(
            syscall_id as int,
            later_of(now, pre.inner.tasks@[cur].syscall_timestamps@[syscall_id as int]),
        )
        &&& post.inner.tasks@[cur].task_status == pre.inner.tasks@[cur].task_status
        &&& post.inner.tasks@[cur].task_cx == pre.inner.tasks@[cur].task_cx
        &&& post.inner.tasks@[cur].first_scheduled_time
            == pre.inner.tasks@[cur].first_scheduled_time
        &&& post.inner.tasks@[cur].task_time == pre.inner.tasks@[cur].task_time
        &&& post.inner.tasks@[cur].last_dispatch_time
            == pre.inner.tasks@[cur].last_dispatch_time
        &&& post.inner.tasks@[cur].priority == pre.inner.tasks@[cur].priority
        &&& post.inner.tasks@[cur].address_space == pre.inner.tasks@[cur].address_space
    } else {
        post == pre
    })
}

/// How a voluntary yield relates the table before and after: the running
/// task becomes Ready, the round-robin scan picks the next slot (at worst
/// the yielder itself), that slot runs with its dispatch times stamped, and
/// the yielder is charged for its run slice.
pub open spec fn yield_transition(pre: TaskManager, post: TaskManager, now: u64) -> bool {
    let cur = pre.inner.current_task as int;
    let n = pre.num_app as int;
    let s1 = statuses(pre.inner.tasks@).update(cur, TaskStatus::Ready);
    let nxt = post.inner.current_task as int;
    &&& post.num_app == pre.num_app
    &&& rr_next(s1, cur, n) == Some(nxt)
    &&& statuses(post.inner.tasks@) == s1.update(nxt, TaskStatus::Running)
    &&& forall|i: int|
        0 <= i < n ==> same_identity(#[trigger] post.inner.tasks@[i], pre.inner.tasks@[i])
    &&& forall|i: int|
        0 <= i < n && i != nxt ==> (#[trigger] post.inner.tasks@[i]).first_scheduled_time
            == pre.inner.tasks@[i].first_scheduled_time && post.inner.tasks@[i].last_dispatch_time
            == pre.inner.tasks@[i].last_dispatch_time
    &&& post.inner.tasks@[nxt].first_scheduled_time == stamp_first(
        pre.inner.tasks@[nxt].first_scheduled_time,
        now,
    )
    &&& post.inner.tasks@[nxt].last_dispatch_time == now
    &&& forall|i: int|
        0 <= i < n && i != cur ==> (#[trigger] post.inner.tasks@[i]).task_time
            == pre.inner.tasks@[i].task_time
    &&& post.inner.tasks@[cur].task_time == sat_add64(
        pre.inner.tasks@[cur].task_time,
        elapsed_since(now, pre.inner.tasks@[cur].last_dispatch_time),
    )
}

/// How an exit relates the table before and after: the running task becomes
/// `Exited` for good; if any slot is still Ready the first in cyclic order
/// runs, otherwise the scheduler reports `NoReadyTask` and the exit alone
/// has taken effect.
pub open spec fn exit_transition(
    pre: TaskManager,
    post: TaskManager,
    r: Result<usize, KernelError>,
    now: u64,
) -> bool {
    let cur = pre.inner.current_task as int;
    let n = pre.num_app as int;
    let s1 = statuses(pre.inner.tasks@).update(cur, TaskStatus::Exited);
    &&& post.num_app == pre.num_app
    &&& (match rr_next(s1, cur, n) {
        None => {
            &&& r == Err::<usize, KernelError>(KernelError::NoReadyTask)
            &&& post.inner.current_task == pre.inner.current_task
            &&& statuses(post.inner.tasks@) == s1
            &&& forall|i: int|
                0 <= i < n && i != cur ==> post.inner.tasks@[i] == pre.inner.tasks@[i]
            &&& same_identity(post.inner.tasks@[cur], pre.inner.tasks@[cur])
            &&& post.inner.tasks@[cur].first_scheduled_time
                == pre.inner.tasks@[cur].first_scheduled_time
            &&& post.inner.tasks@[cur].last_dispatch_time
                == pre.inner.tasks@[cur].last_dispatch_time
            &&& post.inner.tasks@[cur].task_time == pre.inner.tasks@[cur].task_time
        },
        Some(nxt) => {
            &&& r == Ok::<usize, KernelError>(nxt as usize)
            &&& post.inner.current_task == nxt
            &&& statuses(post.inner.tasks@) == s1.update(nxt, TaskStatus::Running)
            &&& forall|i: int|
                0 <= i < n ==> same_identity(
                    #[trigger] post.inner.tasks@[i],
                    pre.inner.tasks@[i],
                )
            &&& forall|i: int|
                0 <= i < n && i != nxt ==> (#[trigger] post.inner.tasks@[i]).first_scheduled_time
                    == pre.inner.tasks@[i].first_scheduled_time
                    && post.inner.tasks@[i].last_dispatch_time
                    == pre.inner.tasks@[i].last_dispatch_time
            &&& post.inner.tasks@[nxt].first_scheduled_time == stamp_first(
                pre.inner.tasks@[nxt].first_scheduled_time,
                now,
            )
            &&& post.inner.tasks@[nxt].last_dispatch_time == now
            &&& forall|i: int|
                0 <= i < n && i != cur ==> (#[trigger] post.inner.tasks@[i]).task_time
                    == pre.inner.tasks@[i].task_time
            &&& post.inner.tasks@[cur].task_time == sat_add64(
                pre.inner.tasks@[cur].task_time,
                elapsed_since(now, pre.inner.tasks@[cur].last_dispatch_time),
            )
        },
    })
}

/// Every slot is Ready except the one Running at `c`: the state of a
/// freshly started table after each dispatch, as long as nothing exits.
pub open spec fn fresh_running(s: Seq<TaskStatus>, c: int) -> bool {
    forall|i: int|
        0 <= i < s.len() ==> (#[trigger] s[i]) == (if i == c {
            TaskStatus::Running
        } else {
            TaskStatus::Ready
        })
}

/// One voluntary yield as the table performs it: the current task becomes
/// Ready, the scan picks the next slot, and that slot becomes Running.
pub open spec fn yield_step(s: Seq<TaskStatus>, c: int, n: int) -> (Seq<TaskStatus>, int) {
    let s1 = s.update(c, TaskStatus::Ready);
    match rr_next(s1, c, n) {
        Some(nxt) => (s1.update(nxt, TaskStatus::Running), nxt),
        None => (s1, c),
    }
}

/// The table's statuses and current slot after `k` consecutive yields.
pub open spec fn yield_many(s: Seq<TaskStatus>, c: int, n: int, k: nat) -> (Seq<TaskStatus>, int)
    decreases k,
{
    if k == 0 {
        (s, c)
    } else {
        let prev = yield_many(s, c, n, (k - 1) as nat);
        yield_step(prev.0, prev.1, n)
    }
}

/// One yield in the all-Ready regime hands control to the cyclic successor
/// and stays in the regime.
proof fn lemma_yield_step_fresh(s: Seq<TaskStatus>, c: int, n: int)
    requires
        n == s.len(),
        1 <= n,
        0 <= c < n,
        fresh_running(s, c),
    ensures
        yield_step(s, c, n).1 == (c + 1) % n,
        fresh_running(yield_step(s, c, n).0, (c + 1) % n),
        yield_step(s, c, n).0.len() == n,
{
    let s1 = s.update(c, TaskStatus::Ready);
    let t = (c + 1) % n;
    vstd::arithmetic::div_mod::lemma_mod_bound(c + 1, n);
    assert(s1[t] is Ready);
    assert(rr_next_from(s1, c, n, 1) == Some(t));
}

/// Law (round-robin fairness): from a freshly started table, `k` consecutive
/// yields leave the table all-Ready-but-one with control at cyclic distance
/// `k` from the origin.
pub proof fn lemma_round_robin_fair(s: Seq<TaskStatus>, c: int, n: int, k: int)
    requires
        n == s.len(),
        1 <= n,
        0 <= c < n,
        fresh_running(s, c),
        0 <= k,
    ensures
        yield_many(s, c, n, k as nat).1 == (c + k) % n,
        fresh_running(yield_many(s, c, n, k as nat).0, (c + k) % n),
        yield_many(s, c, n, k as nat).0.len() == n,
    decreases k,
{
    if k == 0 {
        vstd::arithmetic::div_mod::lemma_small_mod(c as nat, n as nat);
    } else {
        lemma_round_robin_fair(s, c, n, k - 1);
        let prev = yield_many(s, c, n, (k - 1) as nat);
        let cp = (c + k - 1) % n;
        lemma_yield_step_fresh(prev.0, cp, n);
        vstd::arithmetic::div_mod::lemma_mod_bound(c + k - 1, n);
        vstd::arithmetic::div_mod::lemma_add_mod_noop(c + k - 1, 1, n);
        if n == 1 {
            vstd::arithmetic::div_mod::lemma_mod_bound(cp + 1, n);
            vstd::arithmetic::div_mod::lemma_mod_bound(c + k, n);
        } else {
            vstd::arithmetic::div_mod::lemma_small_mod(1nat, n as nat);
        }
    }
}

/// Law (control returns exactly once): over `N` consecutive yields from a
/// freshly started table of `N` tasks, control comes back to the originating
/// slot at the `N`-th yield and at no earlier one — every other Ready task
/// gets its turn first.
pub proof fn lemma_round_robin_returns_once(s: Seq<TaskStatus>, c: int, n: int, k: int)
    requires
        n == s.len(),
        1 <= n,
        0 <= c < n,
        fresh_running(s, c),
        1 <= k <= n,
    ensures
        yield_many(s, c, n, k as nat).1 == c <==> k == n,
{
    lemma_round_robin_fair(s, c, n, k);
    if k == n {
        vstd::arithmetic::div_mod::lemma_mod_add_multiples_vanish(c, n);
        vstd::arithmetic::div_mod::lemma_small_mod(c as nat, n as nat);
    } else {
        if c + k < n {
            vstd::arithmetic::div_mod::lemma_small_mod((c + k) as nat, n as nat);
        } else {
            vstd::arithmetic::div_mod::lemma_mod_add_multiples_vanish(c + k - n, n);
            vstd::arithmetic::div_mod::lemma_small_mod((c + k - n) as nat, n as nat);
            assert((c + k) % n == c + k - n);
        }
    }
}

/// Law (every syscall counts exactly once): recording a syscall id within
/// the telemetry table moves that id's counter for the current task up by
/// exactly one (until the counter's top), stamps a timestamp no earlier than
/// the previous one and no earlier than the clock, and touches nothing else.
pub proof fn lemma_telemetry_counts_once(
    pre: TaskManager,
    post: TaskManager,
    id: usize,
    now: u64,
)
    requires
        pre.wf(),
        telemetry_transition(pre, post, id, now),
        id < MAX_SYSCALL_NUM,
    ensures
        ({
            let cur = pre.inner.current_task as int;
            let counts = pre.inner.tasks@[cur].syscall_times@;
            let stamps = pre.inner.tasks@[cur].syscall_timestamps@;
            &&& counts[id as int] < u32::MAX ==> post.inner.tasks@[cur].syscall_times@[id as int]
                == counts[id as int] + 1
            &&& post.inner.tasks@[cur].syscall_timestamps@[id as int] >= stamps[id as int]
            &&& post.inner.tasks@[cur].syscall_timestamps@[id as int] >= now
            &&& forall|j: int|
                0 <= j < MAX_SYSCALL_NUM && j != id ==> post.inner.tasks@[cur].syscall_times@[j]
                    == counts[j] && post.inner.tasks@[cur].syscall_timestamps@[j] == stamps[j]
            &&& forall|i: int|
                0 <= i < pre.inner.tasks@.len() && i != cur ==> post.inner.tasks@[i]
                    == pre.inner.tasks@[i]
        }),
{
}

/// Law (a yield is one round-robin step): the scheduler's yield transition
/// performs exactly the abstract step the fairness laws iterate, on the
/// table's statuses and current slot.
pub proof fn lemma_yield_matches_step(pre: TaskManager, post: TaskManager, now: u64)
    requires
        pre.wf(),
        yield_transition(pre, post, now),
    ensures
        statuses(post.inner.tasks@) == yield_step(
            statuses(pre.inner.tasks@),
            pre.inner.current_task as int,
            pre.num_app as int,
        ).0,
        post.inner.current_task as int == yield_step(
            statuses(pre.inner.tasks@),
            pre.inner.current_task as int,
            pre.num_app as int,
        ).1,
{
}

/// Law (no task is revisited early): over `N` consecutive yields from a
/// freshly started table of `N` tasks, no two yields hand control to the
/// same slot — every Ready task gets its turn before any task gets a second.
pub proof fn lemma_round_robin_distinct(s: Seq<TaskStatus>, c: int, n: int, k1: int, k2: int)
    requires
        n == s.len(),
        1 <= n,
        0 <= c < n,
        fresh_running(s, c),
        1 <= k1 < k2 <= n,
    ensures
        yield_many(s, c, n, k1 as nat).1 != yield_many(s, c, n, k2 as nat).1,
{
    lemma_round_robin_fair(s, c, n, k1);
    lemma_round_robin_fair(s, c, n, k2);
    let c1 = (c + k1) % n;
    let d = k2 - k1;
    vstd::arithmetic::div_mod::lemma_mod_bound(c + k1, n);
    vstd::arithmetic::div_mod::lemma_add_mod_noop(c + k1, d, n);
    vstd::arithmetic::div_mod::lemma_small_mod(d as nat, n as nat);
    assert((c + k2) % n == (c1 + d) % n);
    if c1 + d < n {
        vstd::arithmetic::div_mod::lemma_small_mod((c1 + d) as nat, n as nat);
    } else {
        vstd::arithmetic::div_mod::lemma_mod_add_multiples_vanish(c1 + d - n, n);
        vstd::arithmetic::div_mod::lemma_small_mod((c1 + d - n) as nat, n as nat);
        assert((c1 + d) % n == c1 + d - n);
    }
}

/// Law (`first_scheduled_time` is written exactly once): dispatching stamps
/// a never-scheduled task with the dispatch time, and every later dispatch
/// of a stamped task leaves the stamp as it is. The scheduler's contracts
/// only ever write this field through `stamp_first`.
pub proof fn lemma_first_scheduled_once(first: Option<u64>, now1: u64, now2: u64)
    ensures
        first is None ==> stamp_first(first, now1) == Some(now1),
        first is Some ==> stamp_first(first, now1) == first,
        stamp_first(stamp_first(first, now1), now2) == stamp_first(first, now1),
{
}

/// A selected slot is in range.
proof fn lemma_rr_next_in_range(s: Seq<TaskStatus>, current: int, n: int, off: int)
    ensures
        rr_next_from(s, current, n, off) matches Some(i) ==> 0 <= i < n,
    decreases n + 1 - off,
{
    if !(n <= 0 || off > n || off < 1) {
        vstd::arithmetic::div_mod::lemma_mod_bound(current + off, n);
        lemma_rr_next_in_range(s, current, n, off + 1);
    }
}

/// If some slot at cyclic offset `k` in `off ..= n` is Ready, the scan from
/// `off` selects something.
proof fn lemma_rr_finds_ready(s: Seq<TaskStatus>, current: int, n: int, off: int, k: int)
    requires
        1 <= off <= k <= n,
        s[(current + k) % n] is Ready,
    ensures
        rr_next_from(s, current, n, off) is Some,
    decreases k - off,
{
    if off == k {
    } else {
        if s[(current + off) % n] is Ready {
        } else {
            lemma_rr_finds_ready(s, current, n, off + 1, k);
        }
    }
}

/// An element-for-element copy of a counter table.
pub(crate) fn copy_u32s(v: &Vec<u32>) -> (r: Vec<u32>)
    ensures
        r@ == v@,
{
    let mut r: Vec<u32> = Vec::new();
    let mut i: usize = 0;
    while i < v.len()
        invariant
            0 <= i <= v@.len(),
            r@ == v@.take(i as int),
        decreases v@.len() - i,
    {
        r.push(v[i]);
        proof {
            assert(v@.take(i as int).push(v@[i as int]) =~= v@.take(i as int + 1));
        }
        i += 1;
    }
    proof {
        assert(v@.take(v@.len() as int) =~= v@);
    }
    r
}

/// An element-for-element copy of a timestamp table.
pub(crate) fn copy_u64s(v: &Vec<u64>) -> (r: Vec<u64>)
    ensures
        r@ == v@,
{
    let mut r: Vec<u64> = Vec::new();
    let mut i: usize = 0;
    while i < v.len()
        invariant
            0 <= i <= v@.len(),
            r@ == v@.take(i as int),
        decreases v@.len() - i,
    {
        r.push(v[i]);
        proof {
            assert(v@.take(i as int).push(v@[i as int]) =~= v@.take(i as int + 1));
        }
        i += 1;
    }
    proof {
        assert(v@.take(v@.len() as int) =~= v@);
    }
    r
}

} // verus!
