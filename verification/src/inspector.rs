//! The inspector: the scheduling level between the runtime and the
//! executors.
//!
//! An inspector keeps its executors in queue order and repeatedly switches
//! into the highest-priority one, earliest first among equals, for one
//! quantum; a finished executor is unregistered, any other goes to the back
//! of the queue. In Bootstrap mode the inspector marks itself finished as
//! soon as it holds no executor, which is what lets the runtime's outer
//! loop return.

use vstd::prelude::*;

use crate::error::InternalError;
use crate::executor::{task_sum, Executor, ExecutorStatus};

verus! {

/// The mode an inspector runs in.
#[derive(Clone, Copy, Debug, PartialEq, Eq, Structural)]
pub enum InspectorMode {
    Bootstrap,
}

/// Where an inspector stands; `Running` carries the executor on the hart.
#[derive(Clone, Copy, Debug, PartialEq, Eq, Structural)]
pub enum InspectorStatus {
    Idle,
    Running(u64),
    Finished,
}

/// How far an inspector status is from `Finished`, for termination
/// measures.
pub open spec fn status_flag(s: InspectorStatus) -> int {
    if s is Finished {
        0
    } else {
        1
    }
}

/// The work one executor still holds, plus one for its own teardown.
pub open spec fn exec_weight(e: Executor) -> int {
    task_sum(e.tasks@) + 1
}

/// The work a sequence of executors still holds.
pub open spec fn exec_sum(s: Seq<Executor>) -> int
    decreases s.len(),
{
    if s.len() == 0 {
        0
    } else {
        exec_sum(s.drop_last()) + exec_weight(s.last())
    }
}

pub proof fn lemma_exec_weight_pos(e: Executor)
    ensures
        exec_weight(e) >= 1,
{
    crate::executor::lemma_task_sum_nonneg(e.tasks@);
}

pub proof fn lemma_exec_sum_nonneg(s: Seq<Executor>)
    ensures
        exec_sum(s) >= 0,
    decreases s.len(),
{
    if s.len() > 0 {
        lemma_exec_sum_nonneg(s.drop_last());
        lemma_exec_weight_pos(s.last());
    }
}

pub proof fn lemma_exec_sum_push(s: Seq<Executor>, e: Executor)
    ensures
        exec_sum(s.push(e)) == exec_sum(s) + exec_weight(e),
{
    assert(s.push(e).drop_last() =~= s);
}

pub proof fn lemma_exec_sum_remove(s: Seq<Executor>, i: int)
    requires
        0 <= i < s.len(),
    ensures
        exec_sum(s.remove(i)) == exec_sum(s) - exec_weight(s[i]),
    decreases s.len(),
{
    if i == s.len() - 1 {
        assert(s.remove(i) =~= s.drop_last());
    } else {
        assert(s.remove(i).last() == s.last());
        assert(s.remove(i).drop_last() =~= s.drop_last().remove(i));
        lemma_exec_sum_remove(s.drop_last(), i);
    }
}

/// Identity of an inspector.
#[derive(Clone, Copy, Debug, PartialEq, Eq, Structural)]
pub struct InspectorId {
    pub value: u64,
}

/// One inspector: a registry of executors in queue order, a mode, and a
/// status.
pub struct Inspector {
    pub id: u64,
    pub mode: InspectorMode,
    pub status: InspectorStatus,
    /// Registered executors, in queue order.
    pub executors: Vec<Executor>,
}

impl Inspector {
    /// No executor is registered twice.
    pub open spec fn wf(self) -> bool {
        forall|a: int, b: int|
            0 <= a < b < self.executors@.len() ==> self.executors@[a].id != self.executors@[b].id
    }

    /// The work this inspector still holds.
    pub open spec fn spec_measure(self) -> int {
        exec_sum(self.executors@)
    }

    /// A new inspector holding its root executor. The id comes from the
    /// platform's process-wide inspector counter, so distinct inspectors
    /// never share one; a duplicate is also refused at registration.
    pub fn new(id: u64, mode: InspectorMode, root_executor: Executor) -> (r: Self)
        ensures
            r.wf(),
            r.id == id,
            r.mode == mode,
            r.status is Idle,
            r.executors@ == Seq::<Executor>::empty().push(root_executor),
    {
        let mut executors: Vec<Executor> = Vec::new();
        executors.push(root_executor);
        Inspector { id, mode, status: InspectorStatus::Idle, executors }
    }

    pub fn id(&self) -> (r: u64)
        ensures
            r == self.id,
    {
        self.id
    }

    pub fn mode(&self) -> (r: InspectorMode)
        ensures
            r == self.mode,
    {
        self.mode
    }

    pub fn status(&self) -> (r: InspectorStatus)
        ensures
            r == self.status,
    {
        self.status
    }

    pub fn is_empty(&self) -> (r: bool)
        ensures
            r == (self.executors@.len() == 0),
    {
        self.executors.len() == 0
    }

    pub fn mark_finished(&mut self)
        ensures
            *final(self) == (Inspector { status: InspectorStatus::Finished, ..*old(self) }),
    {
        self.status = InspectorStatus::Finished;
    }

    /// Register an executor at the back of the queue; a second executor
    /// with the same id is refused.
    pub fn register_executor(&mut self, executor: Executor) -> (r: Result<(), InternalError>)
        requires
            old(self).wf(),
        ensures
            final(self).wf(),
            match r {
                Ok(()) => {
                    &&& forall|a: int|
                        0 <= a < old(self).executors@.len() ==> (
                        #[trigger] old(self).executors@[a]).id != executor.id
                    &&& final(self).executors@ == old(self).executors@.push(executor)
                    &&& *final(self) == (Inspector {
                        executors: final(self).executors,
                        ..*old(self)
                    })
                },
                Err(e) => {
                    &&& e == InternalError::DuplicateExecutorId
                    &&& exists|a: int|
                        0 <= a < old(self).executors@.len() && (
                        #[trigger] old(self).executors@[a]).id == executor.id
                    &&& *final(self) == *old(self)
                },
            },
    {
        let mut i: usize = 0;
        while i < self.executors.len()
            invariant
                old(self).wf(),
                *self == *old(self),
                i <= self.executors@.len(),
                forall|a: int|
                    0 <= a < i ==> (#[trigger] self.executors@[a]).id != executor.id,
            decreases self.executors@.len() - i,
        {
            if self.executors[i].id == executor.id {
                return Err(InternalError::DuplicateExecutorId);
            }
            i = i + 1;
        }
        self.executors.push(executor);
        Ok(())
    }

    /// Remove the executor with this id; `InvalidExecutorId` when none has
    /// it.
    pub fn unregister_executor(&mut self, executor_id: u64) -> (r: Result<(), InternalError>)
        requires
            old(self).wf(),
        ensures
            final(self).wf(),
            match r {
                Ok(()) => {
                    exists|i: int|
                        {
                            &&& 0 <= i < old(self).executors@.len()
                            &&& (#[trigger] old(self).executors@[i]).id == executor_id
                            &&& final(self).executors@ == old(self).executors@.remove(i)
                        }
                },
                Err(e) => {
                    &&& e == InternalError::InvalidExecutorId
                    &&& forall|i: int|
                        0 <= i < old(self).executors@.len() ==> (
                        #[trigger] old(self).executors@[i]).id != executor_id
                    &&& *final(self) == *old(self)
                },
            },
    {
        let mut i: usize = 0;
        while i < self.executors.len()
            invariant
                old(self).wf(),
                *self == *old(self),
                i <= self.executors@.len(),
                forall|a: int|
                    0 <= a < i ==> (#[trigger] self.executors@[a]).id != executor_id,
            decreases self.executors@.len() - i,
        {
            if self.executors[i].id == executor_id {
                let ghost pre = self.executors@;
                self.executors.remove(i);
                proof {
                    assert forall|a: int, b: int|
                        0 <= a < b < self.executors@.len() implies self.executors@[a].id
                        != self.executors@[b].id by {
                        let aa = if a < i { a } else { a + 1 };
                        let bb = if b < i { b } else { b + 1 };
                        assert(self.executors@[a] == pre[aa]);
                        assert(self.executors@[b] == pre[bb]);
                    }
                }
                return Ok(());
            }
            i = i + 1;
        }
        Err(InternalError::InvalidExecutorId)
    }

    /// Whether `executors[i]` is the executor dispatched next.
    pub open spec fn is_next_executor(self, i: int) -> bool {
        &&& 0 <= i < self.executors@.len()
        &&& forall|j: int|
            0 <= j < self.executors@.len() ==> self.executors@[i].priority >= (
            #[trigger] self.executors@[j]).priority
        &&& forall|j: int|
            0 <= j < i ==> (#[trigger] self.executors@[j]).priority < self.executors@[i].priority
    }

    /// The inspector's main loop. While not finished: take the
    /// highest-priority executor, mark it running, switch into it for one
    /// quantum, mark idle again; unregister it if it finished, otherwise
    /// re-queue it at the back; and once no executor remains in Bootstrap
    /// mode, mark the inspector finished. The loop provably terminates
    /// because every round strictly decreases the work the inspector holds,
    /// and it returns with the inspector finished — when all spawned tasks
    /// complete, control comes back to the runtime.
    pub fn run(&mut self)
        requires
            old(self).wf(),
        ensures
            final(self).wf(),
            final(self).status is Finished,
            final(self).id == old(self).id,
            final(self).mode == old(self).mode,
            !(old(self).status is Finished) ==> final(self).executors@.len() == 0,
            old(self).status is Finished ==> *final(self) == *old(self),
    {
        loop
            invariant
                self.wf(),
                self.id == old(self).id,
                self.mode == old(self).mode,
                old(self).status is Finished ==> *self == *old(self),
                self.status is Finished ==> (old(self).status is Finished || self.executors@.len()
                    == 0),
            ensures
                self.status is Finished,
                self.wf(),
                self.id == old(self).id,
                self.mode == old(self).mode,
                old(self).status is Finished ==> *self == *old(self),
                self.status is Finished ==> (old(self).status is Finished || self.executors@.len()
                    == 0),
            decreases self.spec_measure(), status_flag(self.status),
        {
            let ghost head = *self;
            proof {
                lemma_exec_sum_nonneg(self.executors@);
            }
            match self.status {
                InspectorStatus::Finished => {
                    break ;
                },
                _ => {},
            }
            if self.executors.len() == 0 {
                if matches!(self.mode, InspectorMode::Bootstrap) {
                    self.status = InspectorStatus::Finished;
                }
                proof {
                    assert(self.spec_measure() == head.spec_measure());
                    assert(status_flag(self.status) < status_flag(head.status));
                }
                continue ;
            }
            let mut best: usize = 0;
            let mut k: usize = 1;
            let ghost pre = *self;
            while k < self.executors.len()
                invariant
                    *self == pre,
                    1 <= k <= self.executors@.len(),
                    best < k,
                    forall|j: int|
                        0 <= j < k ==> self.executors@[best as int].priority >= (
                        #[trigger] self.executors@[j]).priority,
                    forall|j: int|
                        0 <= j < best ==> (#[trigger] self.executors@[j]).priority
                            < self.executors@[best as int].priority,
                decreases self.executors@.len() - k,
            {
                if self.executors[k].priority > self.executors[best].priority {
                    best = k;
                }
                k = k + 1;
            }
            let ex_id = self.executors[best].id;
            self.status = InspectorStatus::Running(ex_id);
            let mut executor = self.executors.remove(best);
            proof {
                lemma_exec_sum_remove(pre.executors@, best as int);
                crate::executor::lemma_task_sum_nonneg(executor.tasks@);
            }
            let ghost w_before = exec_weight(executor);
            executor.step();
            self.status = InspectorStatus::Idle;
            if matches!(executor.status, ExecutorStatus::Finished) {
                // The executor completed all of its tasks: it stays
                // unregistered.
            } else {
                let ghost mid = self.executors@;
                self.executors.push(executor);
                proof {
                    lemma_exec_sum_push(mid, executor);
                    assert forall|a: int, b: int|
                        0 <= a < b < self.executors@.len() implies self.executors@[a].id
                        != self.executors@[b].id by {
                        let n = self.executors@.len() as int;
                        if b == n - 1 {
                            let aa = if a < best { a } else { a + 1 };
                            assert(self.executors@[a] == pre.executors@[aa]);
                        } else {
                            let aa = if a < best { a } else { a + 1 };
                            let bb = if b < best { b } else { b + 1 };
                            assert(self.executors@[a] == pre.executors@[aa]);
                            assert(self.executors@[b] == pre.executors@[bb]);
                        }
                    }
                }
            }
            proof {
                lemma_exec_weight_pos(pre.executors@[best as int]);
                lemma_exec_sum_nonneg(self.executors@);
                assert(exec_sum(self.executors@) < exec_sum(pre.executors@));
                assert(self.spec_measure() < head.spec_measure());
            }
            if self.executors.len() == 0 && matches!(self.mode, InspectorMode::Bootstrap) {
                self.status = InspectorStatus::Finished;
            }
        }
    }
}

} // verus!
