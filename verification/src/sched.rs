//! The cooperative task scheduler and the priority-ceiling discipline.
//!
//! Tasks are a fixed set, each statically bound to an interrupt priority.
//! Spawning moves a task from not-yet-started to ready exactly once; a
//! ready task is dispatched only while its priority exceeds the current
//! execution priority, runs to its next suspension point, and the idle
//! context runs when nothing is ready. A shared resource is guarded by
//! raising the execution priority to a ceiling at or above every task
//! that can touch the resource: while the ceiling is held no such task
//! can even be dispatched, which is mutual exclusion without blocking.

use vstd::prelude::*;

verus! {

/// The lifecycle of a task: never started, eligible to run, or parked on
/// a suspension point (a delay, a channel, a lock).
#[derive(Debug, PartialEq, Eq, Clone, Copy, Structural)]
pub enum TaskState {
    NotStarted,
    Ready,
    Suspended,
}

/// One statically-declared task: a fixed priority and its current state.
#[derive(Debug, PartialEq, Eq, Clone, Copy, Structural)]
pub struct Task {
    pub priority: u8,
    pub state: TaskState,
}

/// A spawn that could not be honoured; the task stays absent and the
/// system keeps running without it.
#[derive(Debug, PartialEq, Eq, Clone, Copy, Structural)]
pub struct SpawnError;

/// Whether a task of priority `task_priority` may preempt a context
/// executing at `exec_priority`: only a strictly higher priority runs.
pub open spec fn can_preempt(task_priority: u8, exec_priority: u8) -> bool {
    task_priority > exec_priority
}

/// The fixed task set and the current execution priority (0 is the idle
/// context; a held ceiling raises it).
pub struct Scheduler {
    tasks: Vec<Task>,
    exec_priority: u8,
}

impl Scheduler {
    /// The task set; a task's handle is its index here.
    pub closed spec fn tasks(self) -> Seq<Task> {
        self.tasks@
    }

    /// The priority the processor currently executes at.
    pub closed spec fn exec_priority(self) -> u8 {
        self.exec_priority
    }

    /// The current execution priority, as a plain value.
    pub fn current_priority(&self) -> (p: u8)
        ensures
            p == self.exec_priority(),
    {
        self.exec_priority
    }

    /// The state task `tid` is in.
    pub fn task_state(&self, tid: usize) -> (s: TaskState)
        requires
            tid < self.tasks().len(),
        ensures
            s == self.tasks()[tid as int].state,
    {
        self.tasks[tid].state
    }

    /// A scheduler over tasks with the given priorities, none of them
    /// started, executing at the idle level.
    pub fn new(priorities: Vec<u8>) -> (s: Scheduler)
        ensures
            s.tasks().len() == priorities@.len(),
            forall|i: int|
                0 <= i < priorities@.len() ==> s.tasks()[i] == (Task {
                    priority: priorities@[i],
                    state: TaskState::NotStarted,
                }),
            s.exec_priority() == 0,
    {
        let mut tasks: Vec<Task> = Vec::new();
        let mut i: usize = 0;
        while i < priorities.len()
            invariant
                i <= priorities@.len(),
                tasks@.len() == i,
                forall|j: int|
                    0 <= j < i ==> tasks@[j] == (Task {
                        priority: priorities@[j],
                        state: TaskState::NotStarted,
                    }),
            decreases priorities@.len() - i,
        {
            tasks.push(Task { priority: priorities[i], state: TaskState::NotStarted });
            i = i + 1;
        }
        Scheduler { tasks, exec_priority: 0 }
    }

    /// Starts task `tid`: not-yet-started becomes ready, exactly once.
    /// Spawning a task that was already started (or has run) fails and
    /// changes nothing — the caller reports it and the task set goes on
    /// without that spawn, a degraded but defined state.
    pub fn spawn(&mut self, tid: usize) -> (r: Result<(), SpawnError>)
        requires
            tid < old(self).tasks().len(),
        ensures
            final(self).exec_priority() == old(self).exec_priority(),
            if old(self).tasks()[tid as int].state == TaskState::NotStarted {
                r == Ok::<(), SpawnError>(()) && final(self).tasks() == old(self).tasks().update(
                    tid as int,
                    (Task { priority: old(self).tasks()[tid as int].priority, state: TaskState::Ready }),
                )
            } else {
                r == Err::<(), SpawnError>(SpawnError) && final(self).tasks() == old(self).tasks()
            },
    {
        let t = self.tasks[tid];
        match t.state {
            TaskState::NotStarted => {
                self.tasks.set(tid, Task { priority: t.priority, state: TaskState::Ready });
                Ok(())
            },
            _ => Err(SpawnError),
        }
    }

    /// Parks task `tid` on a suspension point.
    pub fn suspend(&mut self, tid: usize)
        requires
            tid < old(self).tasks().len(),
        ensures
            final(self).exec_priority() == old(self).exec_priority(),
            final(self).tasks() == old(self).tasks().update(
                tid as int,
                (Task {
                    priority: old(self).tasks()[tid as int].priority,
                    state: TaskState::Suspended,
                }),
            ),
    {
        let t = self.tasks[tid];
        self.tasks.set(tid, Task { priority: t.priority, state: TaskState::Suspended });
    }

    /// Makes task `tid` eligible to run again, as a wakeup does.
    pub fn wake(&mut self, tid: usize)
        requires
            tid < old(self).tasks().len(),
        ensures
            final(self).exec_priority() == old(self).exec_priority(),
            final(self).tasks() == old(self).tasks().update(
                tid as int,
                (Task { priority: old(self).tasks()[tid as int].priority, state: TaskState::Ready }),
            ),
    {
        let t = self.tasks[tid];
        self.tasks.set(tid, Task { priority: t.priority, state: TaskState::Ready });
    }

    /// The dispatch decision: the ready task that runs next — the highest
    /// priority among the ready tasks that may preempt the current
    /// execution priority, earliest-declared first on a priority tie — or
    /// nothing, in which case the interrupted context (ultimately idle)
    /// continues.
    pub fn next_runnable(&self) -> (r: Option<usize>)
        ensures
            match r {
                Some(i) => i < self.tasks().len() && self.tasks()[i as int].state
                    == TaskState::Ready && can_preempt(
                    self.tasks()[i as int].priority,
                    self.exec_priority(),
                ) && (forall|j: int|
                    0 <= j < self.tasks().len() && #[trigger] self.tasks()[j].state
                        == TaskState::Ready ==> self.tasks()[j].priority
                        <= self.tasks()[i as int].priority) && (forall|j: int|
                    0 <= j < i as int && #[trigger] self.tasks()[j].state == TaskState::Ready
                        ==> self.tasks()[j].priority < self.tasks()[i as int].priority),
                None => forall|j: int|
                    0 <= j < self.tasks().len() && #[trigger] self.tasks()[j].state
                        == TaskState::Ready ==> !can_preempt(
                        self.tasks()[j].priority,
                        self.exec_priority(),
                    ),
            },
    {
        let mut best: Option<usize> = None;
        let mut i: usize = 0;
        while i < self.tasks.len()
            invariant
                i <= self.tasks().len(),
                match best {
                    Some(b) => b < i && self.tasks()[b as int].state == TaskState::Ready
                        && can_preempt(self.tasks()[b as int].priority, self.exec_priority()) && (
                    forall|j: int|
                        0 <= j < i && #[trigger] self.tasks()[j].state == TaskState::Ready
                            ==> self.tasks()[j].priority <= self.tasks()[b as int].priority) && (
                    forall|j: int|
                        0 <= j < b as int && #[trigger] self.tasks()[j].state == TaskState::Ready
                            ==> self.tasks()[j].priority < self.tasks()[b as int].priority),
                    None => forall|j: int|
                        0 <= j < i && #[trigger] self.tasks()[j].state == TaskState::Ready
                            ==> !can_preempt(self.tasks()[j].priority, self.exec_priority()),
                },
            decreases self.tasks().len() - i,
        {
            let t = self.tasks[i];
            if t.state == TaskState::Ready && t.priority > self.exec_priority {
                best = match best {
                    Some(b) => {
                        if t.priority > self.tasks[b].priority {
                            Some(i)
                        } else {
                            Some(b)
                        }
                    },
                    None => Some(i),
                };
            }
            i = i + 1;
        }
        best
    }

    /// Enters a critical section: raises the execution priority to the
    /// resource's ceiling and hands back the priority to restore on exit.
    pub fn lock_raise(&mut self, ceiling: u8) -> (saved: u8)
        requires
            old(self).exec_priority() <= ceiling,
        ensures
            final(self).tasks() == old(self).tasks(),
            final(self).exec_priority() == ceiling,
            saved == old(self).exec_priority(),
    {
        let saved = self.exec_priority;
        self.exec_priority = ceiling;
        saved
    }

    /// Leaves a critical section: restores the priority saved on entry.
    pub fn lock_restore(&mut self, saved: u8)
        ensures
            final(self).tasks() == old(self).tasks(),
            final(self).exec_priority() == saved,
    {
        self.exec_priority = saved;
    }
}

/// The priority-ceiling exclusion law: while any holder executes at or
/// above a resource's ceiling, no task that can touch the resource — any
/// task whose priority is at most the ceiling — can preempt, so it cannot
/// observe the resource mid-section; mutual exclusion holds with no
/// blocking, no deadlock and no unbounded priority inversion.
pub proof fn lemma_ceiling_excludes(task_priority: u8, ceiling: u8, exec_priority: u8)
    requires
        task_priority <= ceiling,
        exec_priority >= ceiling,
    ensures
        !can_preempt(task_priority, exec_priority),
{
}

} // verus!
