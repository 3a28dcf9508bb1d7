//! Supervision of long-running activities: a process-wide shutdown signal
//! and the state machine by which every supervised task races its own
//! completion against that signal.

use vstd::prelude::*;

verus! {

/// Process-wide notification that a termination request occurred.
/// Firing is idempotent: once fired, the signal stays fired, and every
/// current and future observer sees it.
pub struct ShutdownSignal {
    fired: bool,
}

impl ShutdownSignal {
    pub closed spec fn is_fired(&self) -> bool {
        self.fired
    }

    pub fn new() -> (s: ShutdownSignal)
        ensures
            !s.is_fired(),
    {
        ShutdownSignal { fired: false }
    }

    /// Request termination. Idempotent: a second fire changes nothing.
    pub fn fire(&mut self)
        ensures
            final(self).is_fired(),
    {
        self.fired = true;
    }

    pub fn observe(&self) -> (r: bool)
        ensures
            r == self.is_fired(),
    {
        self.fired
    }
}

/// The possible states of one supervised task.
#[derive(Clone, Copy, Debug, PartialEq, Eq, Structural)]
pub enum TaskStatus {
    /// The wrapped activity is still suspended or working.
    Running,
    /// The wrapped activity ran to its natural completion.
    Finished,
    /// The supervisor ended the task because the shutdown signal fired
    /// (or a per-task cancellation arrived) before the activity completed.
    Stopped,
}

/// One step of the race a supervised task runs at each suspension point:
/// cancellation (global shutdown or a per-task cancel) wins over natural
/// completion, and a task that already left `Running` never moves again.
pub open spec fn spec_supervise_step(
    status: TaskStatus,
    activity_finished: bool,
    cancelled: bool,
) -> TaskStatus {
    match status {
        TaskStatus::Running => {
            if cancelled {
                TaskStatus::Stopped
            } else if activity_finished {
                TaskStatus::Finished
            } else {
                TaskStatus::Running
            }
        },
        _ => status,
    }
}

/// Advance one supervised task by one suspension point.
pub fn supervise_step(status: TaskStatus, activity_finished: bool, cancelled: bool) -> (r:
    TaskStatus)
    ensures
        r == spec_supervise_step(status, activity_finished, cancelled),
{
    match status {
        TaskStatus::Running => {
            if cancelled {
                TaskStatus::Stopped
            } else if activity_finished {
                TaskStatus::Finished
            } else {
                TaskStatus::Running
            }
        },
        TaskStatus::Finished => TaskStatus::Finished,
        TaskStatus::Stopped => TaskStatus::Stopped,
    }
}

/// Once the shutdown signal has fired, no supervised task is still running
/// after its next suspension point, whatever its activity was doing.
pub proof fn lemma_shutdown_stops_every_task(status: TaskStatus, activity_finished: bool)
    ensures
        spec_supervise_step(status, activity_finished, true) != TaskStatus::Running,
{
}

/// A task that has completed (naturally or by cancellation) stays completed:
/// later steps never revive it.
pub proof fn lemma_completion_is_final(
    status: TaskStatus,
    activity_finished: bool,
    cancelled: bool,
)
    requires
        status != TaskStatus::Running,
    ensures
        spec_supervise_step(status, activity_finished, cancelled) == status,
{
}

/// The bookkeeping view of every supervised task in the process, as the
/// runtime that polls them sees it.
pub struct Supervisor {
    tasks: Vec<TaskStatus>,
}

impl Supervisor {
    pub closed spec fn view(&self) -> Seq<TaskStatus> {
        self.tasks@
    }

    pub fn new() -> (s: Supervisor)
        ensures
            s@ == Seq::<TaskStatus>::empty(),
    {
        Supervisor { tasks: Vec::new() }
    }

    /// Register one more activity to run under race-against-shutdown
    /// semantics; returns its slot.
    pub fn supervise(&mut self) -> (idx: usize)
        ensures
            final(self)@ == old(self)@.push(TaskStatus::Running),
            idx == old(self)@.len(),
    {
        let idx = self.tasks.len();
        self.tasks.push(TaskStatus::Running);
        idx
    }

    pub fn status_of(&self, idx: usize) -> (r: TaskStatus)
        requires
            idx < self@.len(),
        ensures
            r == self@[idx as int],
    {
        self.tasks[idx]
    }

    /// Advance one task by one suspension point.
    pub fn step(&mut self, idx: usize, activity_finished: bool, cancelled: bool)
        requires
            idx < old(self)@.len(),
        ensures
            final(self)@ == old(self)@.update(
                idx as int,
                spec_supervise_step(old(self)@[idx as int], activity_finished, cancelled),
            ),
    {
        let next = supervise_step(self.tasks[idx], activity_finished, cancelled);
        self.tasks.set(idx, next);
    }

    /// One polling round after the shutdown signal fired: every task reaches
    /// its next suspension point and leaves `Running`.
    pub fn step_all_on_shutdown(&mut self)
        ensures
            final(self)@.len() == old(self)@.len(),
            forall|i: int|
                0 <= i < final(self)@.len() ==> final(self)@[i] == spec_supervise_step(
                    old(self)@[i],
                    false,
                    true,
                ),
            forall|i: int| 0 <= i < final(self)@.len() ==> final(self)@[i] != TaskStatus::Running,
    {
        let n = self.tasks.len();
        let mut i: usize = 0;
        while i < n
            invariant
                n == old(self)@.len(),
                self@.len() == n,
                i <= n,
                forall|j: int|
                    0 <= j < i ==> self@[j] == spec_supervise_step(old(self)@[j], false, true),
                forall|j: int| i <= j < n ==> self@[j] == old(self)@[j],
            decreases n - i,
    {
            let next = supervise_step(self.tasks[i], false, true);
            self.tasks.set(i, next);
            i = i + 1;
        }
    }
}

} // verus!
