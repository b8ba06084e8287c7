//! Tasks and the executor that runs them.
//!
//! A task is a cooperatively-yieldable unit with a priority; the model
//! gives each task a budget of yields after which its poll completes. The
//! executor keeps its ready tasks in queue order and each `step` dispatches
//! the highest-priority one, earliest first among equals, for one quantum:
//! the task either yields (and is charged one yield) or finishes (and is
//! dropped). The step strictly decreases the executor's remaining work,
//! which is what drives every liveness argument above it.

use vstd::prelude::*;

verus! {

/// A task's scheduling priority; higher is more urgent.
#[derive(Clone, Copy, Debug, PartialEq, Eq, Structural)]
pub struct TaskPriority {
    pub value: u8,
}

impl TaskPriority {
    pub fn new(value: u8) -> (r: Self)
        ensures
            r.value == value,
    {
        TaskPriority { value }
    }
}

/// One cooperatively-scheduled task.
#[derive(Clone, Copy, Debug, PartialEq, Eq, Structural)]
pub struct Task {
    /// Process-wide identity.
    pub id: u64,
    pub priority: u8,
    /// Remaining yields until the task finishes.
    pub yields_left: u64,
}

/// The work one task still holds: its remaining yields plus the final poll.
pub open spec fn task_weight(t: Task) -> int {
    t.yields_left + 1
}

/// The work a sequence of tasks still holds.
pub open spec fn task_sum(s: Seq<Task>) -> int
    decreases s.len(),
{
    if s.len() == 0 {
        0
    } else {
        task_sum(s.drop_last()) + task_weight(s.last())
    }
}

pub proof fn lemma_task_sum_nonneg(s: Seq<Task>)
    ensures
        task_sum(s) >= 0,
    decreases s.len(),
{
    if s.len() > 0 {
        lemma_task_sum_nonneg(s.drop_last());
    }
}

pub proof fn lemma_task_sum_update(s: Seq<Task>, i: int, t: Task)
    requires
        0 <= i < s.len(),
    ensures
        task_sum(s.update(i, t)) == task_sum(s) - task_weight(s[i]) + task_weight(t),
    decreases s.len(),
{
    if i == s.len() - 1 {
        assert(s.update(i, t).drop_last() =~= s.drop_last());
    } else {
        assert(s.update(i, t).last() == s.last());
        assert(s.update(i, t).drop_last() =~= s.drop_last().update(i, t));
        lemma_task_sum_update(s.drop_last(), i, t);
    }
}

pub proof fn lemma_task_sum_remove(s: Seq<Task>, i: int)
    requires
        0 <= i < s.len(),
    ensures
        task_sum(s.remove(i)) == task_sum(s) - task_weight(s[i]),
    decreases s.len(),
{
    if i == s.len() - 1 {
        assert(s.remove(i) =~= s.drop_last());
    } else {
        assert(s.remove(i).last() == s.last());
        assert(s.remove(i).drop_last() =~= s.drop_last().remove(i));
        lemma_task_sum_remove(s.drop_last(), i);
    }
}

/// Where an executor stands.
#[derive(Clone, Copy, Debug, PartialEq, Eq, Structural)]
pub enum ExecutorStatus {
    /// Has, or may receive, runnable tasks.
    Runnable,
    /// All of its tasks have completed.
    Finished,
}

/// A priority queue of ready tasks with an identity, a scheduling priority
/// of its own, and the switch context the runtime saves registers into.
pub struct Executor {
    /// Process-wide identity.
    pub id: u64,
    /// The executor's own priority among its inspector's executors.
    pub priority: u8,
    pub status: ExecutorStatus,
    /// Ready tasks in queue order.
    pub tasks: Vec<Task>,
    /// Priority of the most recently dispatched task.
    pub current_task_priority: u8,
    /// Address of the register-save area used on context switch.
    pub switch_context: u64,
}

impl Executor {
    /// The work this executor still holds.
    pub open spec fn spec_measure(self) -> int {
        task_sum(self.tasks@)
    }

    /// A new, empty executor. The id comes from the platform's process-wide
    /// executor counter, so distinct executors never share one.
    pub fn new(id: u64, priority: u8, switch_context: u64) -> (r: Self)
        ensures
            r.id == id,
            r.priority == priority,
            r.status is Runnable,
            r.tasks@ == Seq::<Task>::empty(),
            r.current_task_priority == 0,
            r.switch_context == switch_context,
    {
        Executor {
            id,
            priority,
            status: ExecutorStatus::Runnable,
            tasks: Vec::new(),
            current_task_priority: 0,
            switch_context,
        }
    }

    /// Make a task ready on this executor.
    pub fn spawn(&mut self, task: Task)
        ensures
            final(self).tasks@ == old(self).tasks@.push(task),
            final(self).status is Runnable,
            *final(self) == (Executor {
                tasks: final(self).tasks,
                status: ExecutorStatus::Runnable,
                ..*old(self)
            }),
    {
        self.tasks.push(task);
        self.status = ExecutorStatus::Runnable;
    }

    /// Priority of the task currently (most recently) on the hart.
    pub fn current_task_priority(&self) -> (r: u8)
        ensures
            r == self.current_task_priority,
    {
        self.current_task_priority
    }

    /// Whether `tasks[i]` is the task dispatched next: maximal priority,
    /// earliest among equals.
    pub open spec fn is_next_task(self, i: int) -> bool {
        &&& 0 <= i < self.tasks@.len()
        &&& forall|j: int|
            0 <= j < self.tasks@.len() ==> self.tasks@[i].priority >= (#[trigger] self.tasks@[j]).priority
        &&& forall|j: int| 0 <= j < i ==> (#[trigger] self.tasks@[j]).priority < self.tasks@[i].priority
    }

    /// Dispatch the highest-priority ready task for one quantum. A task
    /// with yields left yields and stays ready; one without completes and
    /// leaves. When no task remains afterwards — or none was there to run —
    /// the executor is finished. Every step with work strictly decreases
    /// the executor's measure by exactly one.
    #[verifier::loop_isolation(false)]
    pub fn step(&mut self)
        ensures
            final(self).id == old(self).id,
            final(self).priority == old(self).priority,
            final(self).switch_context == old(self).switch_context,
            old(self).tasks@.len() == 0 ==> {
                &&& final(self).tasks@ == old(self).tasks@
                &&& final(self).status is Finished
                &&& final(self).spec_measure() == old(self).spec_measure()
            },
            old(self).tasks@.len() > 0 ==> {
                &&& final(self).spec_measure() == old(self).spec_measure() - 1
                &&& (final(self).status is Finished <==> final(self).tasks@.len() == 0)
                &&& exists|i: int|
                    {
                        &&& #[trigger] old(self).is_next_task(i)
                        &&& final(self).current_task_priority == old(self).tasks@[i].priority
                        &&& (if old(self).tasks@[i].yields_left > 0 {
                            final(self).tasks@ == old(self).tasks@.update(
                                i,
                                (Task {
                                    yields_left: (old(self).tasks@[i].yields_left - 1) as u64,
                                    ..old(self).tasks@[i]
                                }),
                            )
                        } else {
                            final(self).tasks@ == old(self).tasks@.remove(i)
                        })
                    }
            },
    {
        if self.tasks.len() == 0 {
            self.status = ExecutorStatus::Finished;
            return ;
        }
        let mut best: usize = 0;
        let mut k: usize = 1;
        while k < self.tasks.len()
            invariant
                1 <= k <= self.tasks@.len(),
                best < k,
                forall|j: int|
                    0 <= j < k ==> self.tasks@[best as int].priority >= (
                    #[trigger] self.tasks@[j]).priority,
                forall|j: int|
                    0 <= j < best ==> (#[trigger] self.tasks@[j]).priority < self.tasks@[
                    best as int].priority,
            decreases self.tasks@.len() - k,
        {
            if self.tasks[k].priority > self.tasks[best].priority {
                best = k;
            }
            k = k + 1;
        }
        proof {
            assert(old(self).is_next_task(best as int));
        }
        let task = self.tasks[best];
        self.current_task_priority = task.priority;
        if task.yields_left > 0 {
            let updated = Task { yields_left: task.yields_left - 1, ..task };
            self.tasks.set(best, updated);
            proof {
                lemma_task_sum_update(old(self).tasks@, best as int, updated);
            }
        } else {
            self.tasks.remove(best);
            proof {
                lemma_task_sum_remove(old(self).tasks@, best as int);
            }
        }
        if self.tasks.len() == 0 {
            self.status = ExecutorStatus::Finished;
        } else {
            self.status = ExecutorStatus::Runnable;
        }
    }
}

} // verus!
