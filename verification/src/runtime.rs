//! The per-hart runtime: the outermost scheduling loop.
//!
//! One runtime exists per hart. It keeps its inspectors in queue order,
//! runs one at a time, destroys an inspector that finished, and re-queues
//! any other. The outer loop returns — reaching `Endpoint` — exactly when
//! no inspector remains, which Bootstrap inspectors guarantee once every
//! spawned task has completed.

use vstd::prelude::*;

use crate::error::InternalError;
use crate::executor::ExecutorStatus;
use crate::inspector::{exec_sum, lemma_exec_sum_nonneg, Inspector, InspectorStatus};

verus! {

/// Where a runtime stands; `Running` carries the inspector on the hart.
#[derive(Clone, Copy, Debug, PartialEq, Eq, Structural)]
pub enum RuntimeStatus {
    Init,
    Running(u64),
    Endpoint,
}

/// The work one inspector still holds, plus one for its own teardown.
pub open spec fn insp_weight(is: Inspector) -> int {
    exec_sum(is.executors@) + 1
}

/// The work a sequence of inspectors still holds.
pub open spec fn insp_sum(s: Seq<Inspector>) -> int
    decreases s.len(),
{
    if s.len() == 0 {
        0
    } else {
        insp_sum(s.drop_last()) + insp_weight(s.last())
    }
}

pub proof fn lemma_insp_weight_pos(is: Inspector)
    ensures
        insp_weight(is) >= 1,
{
    lemma_exec_sum_nonneg(is.executors@);
}

pub proof fn lemma_insp_sum_nonneg(s: Seq<Inspector>)
    ensures
        insp_sum(s) >= 0,
    decreases s.len(),
{
    if s.len() > 0 {
        lemma_insp_sum_nonneg(s.drop_last());
        lemma_insp_weight_pos(s.last());
    }
}

pub proof fn lemma_insp_sum_push(s: Seq<Inspector>, is: Inspector)
    ensures
        insp_sum(s.push(is)) == insp_sum(s) + insp_weight(is),
{
    assert(s.push(is).drop_last() =~= s);
}

pub proof fn lemma_insp_sum_remove(s: Seq<Inspector>, i: int)
    requires
        0 <= i < s.len(),
    ensures
        insp_sum(s.remove(i)) == insp_sum(s) - insp_weight(s[i]),
    decreases s.len(),
{
    if i == s.len() - 1 {
        assert(s.remove(i) =~= s.drop_last());
    } else {
        assert(s.remove(i).last() == s.last());
        assert(s.remove(i).drop_last() =~= s.drop_last().remove(i));
        lemma_insp_sum_remove(s.drop_last(), i);
    }
}

/// How far a runtime status is from `Endpoint`, for termination measures.
pub open spec fn runtime_status_flag(s: RuntimeStatus) -> int {
    if s is Endpoint {
        0
    } else {
        1
    }
}


/// The inspector holding this id, searching the newest registration first.
pub open spec fn spec_find_inspector(s: Seq<Inspector>, id: u64) -> Option<Inspector>
    decreases s.len(),
{
    if s.len() == 0 {
        None
    } else if s.last().id == id {
        Some(s.last())
    } else {
        spec_find_inspector(s.drop_last(), id)
    }
}

/// The executor holding this id, searching the newest registration first.
pub open spec fn spec_find_executor(s: Seq<crate::executor::Executor>, id: u64) -> Option<
    crate::executor::Executor,
>
    decreases s.len(),
{
    if s.len() == 0 {
        None
    } else if s.last().id == id {
        Some(s.last())
    } else {
        spec_find_executor(s.drop_last(), id)
    }
}

/// With pairwise-distinct ids, the find reads off any index holding the id.
pub proof fn lemma_find_inspector_at(s: Seq<Inspector>, id: u64, i: int)
    requires
        forall|a: int, b: int| 0 <= a < b < s.len() ==> s[a].id != s[b].id,
        0 <= i < s.len(),
        s[i].id == id,
    ensures
        spec_find_inspector(s, id) == Some(s[i]),
    decreases s.len(),
{
    if i == s.len() - 1 {
    } else {
        assert(s[i].id != s.last().id);
        assert(s.drop_last()[i] == s[i]);
        lemma_find_inspector_at(s.drop_last(), id, i);
    }
}

/// If no index holds the id, the find comes back empty.
pub proof fn lemma_find_inspector_absent(s: Seq<Inspector>, id: u64)
    requires
        forall|a: int| 0 <= a < s.len() ==> (#[trigger] s[a]).id != id,
    ensures
        spec_find_inspector(s, id) is None,
    decreases s.len(),
{
    if s.len() > 0 {
        assert(forall|a: int|
            0 <= a < s.drop_last().len() ==> (#[trigger] s.drop_last()[a]).id != id);
        lemma_find_inspector_absent(s.drop_last(), id);
    }
}

pub proof fn lemma_find_executor_at(s: Seq<crate::executor::Executor>, id: u64, i: int)
    requires
        forall|a: int, b: int| 0 <= a < b < s.len() ==> s[a].id != s[b].id,
        0 <= i < s.len(),
        s[i].id == id,
    ensures
        spec_find_executor(s, id) == Some(s[i]),
    decreases s.len(),
{
    if i == s.len() - 1 {
    } else {
        assert(s[i].id != s.last().id);
        assert(s.drop_last()[i] == s[i]);
        lemma_find_executor_at(s.drop_last(), id, i);
    }
}

pub proof fn lemma_find_executor_absent(s: Seq<crate::executor::Executor>, id: u64)
    requires
        forall|a: int| 0 <= a < s.len() ==> (#[trigger] s[a]).id != id,
    ensures
        spec_find_executor(s, id) is None,
    decreases s.len(),
{
    if s.len() > 0 {
        assert(forall|a: int|
            0 <= a < s.drop_last().len() ==> (#[trigger] s.drop_last()[a]).id != id);
        lemma_find_executor_absent(s.drop_last(), id);
    }
}

/// One hart's runtime.
pub struct Runtime {
    /// The hart this runtime belongs to.
    pub cpu_id: usize,
    /// Registered inspectors, in queue order.
    pub inspectors: Vec<Inspector>,
    pub status: RuntimeStatus,
    /// Set by a policy to force the current inspector to hand control back.
    pub inspector_switch_pending: bool,
    /// Address of the runtime's register-save area.
    pub switch_context: u64,
}

impl Runtime {
    /// No inspector is registered twice, and each is internally sound.
    pub open spec fn wf(self) -> bool {
        &&& forall|a: int, b: int|
            0 <= a < b < self.inspectors@.len() ==> self.inspectors@[a].id
                != self.inspectors@[b].id
        &&& forall|a: int|
            0 <= a < self.inspectors@.len() ==> (#[trigger] self.inspectors@[a]).wf()
    }

    /// The work this runtime still holds.
    pub open spec fn spec_measure(self) -> int {
        insp_sum(self.inspectors@)
    }

    pub fn new(cpu_id: usize, switch_context: u64) -> (r: Self)
        ensures
            r.wf(),
            r.cpu_id == cpu_id,
            r.inspectors@ == Seq::<Inspector>::empty(),
            r.status is Init,
            !r.inspector_switch_pending,
            r.switch_context == switch_context,
    {
        Runtime {
            cpu_id,
            inspectors: Vec::new(),
            status: RuntimeStatus::Init,
            inspector_switch_pending: false,
            switch_context,
        }
    }

    pub fn status(&self) -> (r: RuntimeStatus)
        ensures
            r == self.status,
    {
        self.status
    }

    pub fn get_inspector_switch_pending(&self) -> (r: bool)
        ensures
            r == self.inspector_switch_pending,
    {
        self.inspector_switch_pending
    }

    pub fn set_inspector_switch_pending(&mut self, value: bool)
        ensures
            *final(self) == (Runtime { inspector_switch_pending: value, ..*old(self) }),
    {
        self.inspector_switch_pending = value;
    }

    /// Register an inspector at the back of the queue; a second inspector
    /// with the same id is refused.
    pub fn register_inspector(&mut self, inspector: Inspector) -> (r: Result<(), InternalError>)
        requires
            old(self).wf(),
            inspector.wf(),
        ensures
            final(self).wf(),
            match r {
                Ok(()) => {
                    &&& forall|a: int|
                        0 <= a < old(self).inspectors@.len() ==> (
                        #[trigger] old(self).inspectors@[a]).id != inspector.id
                    &&& final(self).inspectors@ == old(self).inspectors@.push(inspector)
                    &&& *final(self) == (Runtime {
                        inspectors: final(self).inspectors,
                        ..*old(self)
                    })
                },
                Err(e) => {
                    &&& e == InternalError::DuplicateInspectorId
                    &&& exists|a: int|
                        0 <= a < old(self).inspectors@.len() && (
                        #[trigger] old(self).inspectors@[a]).id == inspector.id
                    &&& *final(self) == *old(self)
                },
            },
    {
        let mut i: usize = 0;
        while i < self.inspectors.len()
            invariant
                old(self).wf(),
                *self == *old(self),
                i <= self.inspectors@.len(),
                forall|a: int|
                    0 <= a < i ==> (#[trigger] self.inspectors@[a]).id != inspector.id,
            decreases self.inspectors@.len() - i,
        {
            if self.inspectors[i].id == inspector.id {
                return Err(InternalError::DuplicateInspectorId);
            }
            i = i + 1;
        }
        self.inspectors.push(inspector);
        Ok(())
    }

    /// The priority of the task currently running on this hart: the chain
    /// runtime → running inspector → running executor → its current task.
    /// Fails with `InvalidRuntimeStatus` whenever any link of the chain is
    /// not in its `Running` state, and with an id error when a `Running`
    /// status names an unregistered id.
    #[verifier::loop_isolation(false)]
    pub fn current_task_priority(&self) -> (r: Result<u8, InternalError>)
        requires
            self.wf(),
        ensures
            match r {
                Ok(p) => {
                    &&& self.status matches RuntimeStatus::Running(iid)
                    &&& spec_find_inspector(self.inspectors@, iid) matches Some(insp)
                    &&& insp.status matches InspectorStatus::Running(eid)
                    &&& spec_find_executor(insp.executors@, eid) matches Some(ex)
                    &&& p == ex.current_task_priority
                },
                Err(e) => {
                    &&& (e == InternalError::InvalidRuntimeStatus || e
                        == InternalError::InvalidInspectorId || e
                        == InternalError::InvalidExecutorId)
                    &&& (e == InternalError::InvalidRuntimeStatus <==> (!(self.status is Running)
                        || (self.status matches RuntimeStatus::Running(iid)
                        && spec_find_inspector(self.inspectors@, iid) matches Some(insp) && !(
                        insp.status is Running))))
                    &&& (e == InternalError::InvalidInspectorId <==> (self.status
                        matches RuntimeStatus::Running(iid) && spec_find_inspector(
                        self.inspectors@,
                        iid,
                    ) is None))
                    &&& (e == InternalError::InvalidExecutorId <==> (self.status
                        matches RuntimeStatus::Running(iid) && spec_find_inspector(
                        self.inspectors@,
                        iid,
                    ) matches Some(insp) && insp.status matches InspectorStatus::Running(eid)
                        && spec_find_executor(insp.executors@, eid) is None))
                },
            },
    {
        let iid = match self.status {
            RuntimeStatus::Running(iid) => iid,
            _ => {
                return Err(InternalError::InvalidRuntimeStatus);
            },
        };
        let mut a: usize = 0;
        while a < self.inspectors.len()
            invariant
                self.wf(),
                a <= self.inspectors@.len(),
                forall|j: int| 0 <= j < a ==> (#[trigger] self.inspectors@[j]).id != iid,
            decreases self.inspectors@.len() - a,
        {
            if self.inspectors[a].id == iid {
                proof {
                    lemma_find_inspector_at(self.inspectors@, iid, a as int);
                }
                let eid = match self.inspectors[a].status {
                    InspectorStatus::Running(eid) => eid,
                    _ => {
                        return Err(InternalError::InvalidRuntimeStatus);
                    },
                };
                let mut b: usize = 0;
                while b < self.inspectors[a].executors.len()
                    invariant
                        self.wf(),
                        a < self.inspectors@.len(),
                        b <= self.inspectors@[a as int].executors@.len(),
                        forall|j: int|
                            0 <= j < b ==> (#[trigger] self.inspectors@[a as int].executors@[j]).id
                                != eid,
                    decreases self.inspectors@[a as int].executors@.len() - b,
                {
                    if self.inspectors[a].executors[b].id == eid {
                        proof {
                            lemma_find_executor_at(
                                self.inspectors@[a as int].executors@,
                                eid,
                                b as int,
                            );
                        }
                        return Ok(self.inspectors[a].executors[b].current_task_priority);
                    }
                    b = b + 1;
                }
                proof {
                    lemma_find_executor_absent(self.inspectors@[a as int].executors@, eid);
                }
                return Err(InternalError::InvalidExecutorId);
            }
            a = a + 1;
        }
        proof {
            lemma_find_inspector_absent(self.inspectors@, iid);
        }
        Err(InternalError::InvalidInspectorId)
    }


    /// The priority the dispatch policies account for this hart: the
    /// current task's priority when the whole chain is running, and the
    /// maximum otherwise — a hart that is not running is treated as
    /// idle-unavailable.
    pub open spec fn spec_policy_priority(self) -> u8 {
        match self.status {
            RuntimeStatus::Running(iid) => match spec_find_inspector(self.inspectors@, iid) {
                Some(insp) => match insp.status {
                    InspectorStatus::Running(eid) => match spec_find_executor(
                        insp.executors@,
                        eid,
                    ) {
                        Some(ex) => ex.current_task_priority,
                        None => 255u8,
                    },
                    _ => 255u8,
                },
                None => 255u8,
            },
            _ => 255u8,
        }
    }

    /// Read the policy priority of this hart.
    #[verifier::loop_isolation(false)]
    pub fn policy_priority(&self) -> (r: u8)
        requires
            self.wf(),
        ensures
            r == self.spec_policy_priority(),
    {
        let iid = match self.status {
            RuntimeStatus::Running(iid) => iid,
            _ => {
                return 255;
            },
        };
        let mut a: usize = 0;
        while a < self.inspectors.len()
            invariant
                a <= self.inspectors@.len(),
                forall|j: int| 0 <= j < a ==> (#[trigger] self.inspectors@[j]).id != iid,
            decreases self.inspectors@.len() - a,
        {
            if self.inspectors[a].id == iid {
                proof {
                    lemma_find_inspector_at(self.inspectors@, iid, a as int);
                }
                let eid = match self.inspectors[a].status {
                    InspectorStatus::Running(eid) => eid,
                    _ => {
                        return 255;
                    },
                };
                let mut b: usize = 0;
                while b < self.inspectors[a].executors.len()
                    invariant
                        a < self.inspectors@.len(),
                        b <= self.inspectors@[a as int].executors@.len(),
                        forall|j: int|
                            0 <= j < b ==> (#[trigger] self.inspectors@[a as int].executors@[j]).id
                                != eid,
                    decreases self.inspectors@[a as int].executors@.len() - b,
                {
                    if self.inspectors[a].executors[b].id == eid {
                        proof {
                            lemma_find_executor_at(
                                self.inspectors@[a as int].executors@,
                                eid,
                                b as int,
                            );
                        }
                        return self.inspectors[a].executors[b].current_task_priority;
                    }
                    b = b + 1;
                }
                proof {
                    lemma_find_executor_absent(self.inspectors@[a as int].executors@, eid);
                }
                return 255;
            }
            a = a + 1;
        }
        proof {
            lemma_find_inspector_absent(self.inspectors@, iid);
        }
        255
    }

    /// The outer scheduling loop. While not at `Endpoint`: take the first
    /// queued inspector, mark it running, run it to its finish, clear the
    /// switch-pending flag, destroy the inspector if it finished and
    /// re-queue it otherwise. When no inspector remains the loop sets
    /// `Endpoint` and returns. Termination is the liveness property: with
    /// Bootstrap inspectors, once all spawned tasks complete every
    /// inspector finishes, the registry drains, and `start` returns.
    pub fn start(&mut self)
        requires
            old(self).wf(),
        ensures
            final(self).wf(),
            final(self).status is Endpoint,
            !(old(self).status is Endpoint) ==> final(self).inspectors@.len() == 0,
            final(self).cpu_id == old(self).cpu_id,
            final(self).switch_context == old(self).switch_context,
            old(self).status is Endpoint ==> *final(self) == *old(self),
            !(old(self).status is Endpoint) && old(self).inspectors@.len() > 0 ==> !final(self).inspector_switch_pending,
            old(self).inspectors@.len() == 0 ==> final(self).inspector_switch_pending == old(self).inspector_switch_pending,
    {
        loop
            invariant
                self.wf(),
                self.cpu_id == old(self).cpu_id,
                self.switch_context == old(self).switch_context,
                old(self).status is Endpoint ==> *self == *old(self),
                self.inspectors@.len() < old(self).inspectors@.len()
                    ==> !self.inspector_switch_pending,
                self.inspectors@.len() <= old(self).inspectors@.len(),
                old(self).inspectors@.len() == 0 ==> self.inspector_switch_pending == old(self).inspector_switch_pending,
                self.status is Endpoint ==> (self.inspectors@.len() == 0 || old(self).status
                    is Endpoint),
            ensures
                self.status is Endpoint,
                self.inspectors@.len() == 0 || old(self).status is Endpoint,
                self.switch_context == old(self).switch_context,
                self.cpu_id == old(self).cpu_id,
                self.wf(),
                old(self).status is Endpoint ==> *self == *old(self),
                self.inspectors@.len() < old(self).inspectors@.len()
                    ==> !self.inspector_switch_pending,
                old(self).inspectors@.len() == 0 ==> self.inspector_switch_pending == old(self).inspector_switch_pending,
            decreases self.spec_measure(), runtime_status_flag(self.status),
        {
            let ghost head = *self;
            proof {
                lemma_insp_sum_nonneg(self.inspectors@);
            }
            match self.status {
                RuntimeStatus::Endpoint => {
                    break ;
                },
                _ => {},
            }
            if self.inspectors.len() == 0 {
                self.status = RuntimeStatus::Endpoint;
                proof {
                    assert(self.spec_measure() == head.spec_measure());
                    assert(runtime_status_flag(self.status) < runtime_status_flag(head.status));
                }
                continue ;
            }
            let iid = self.inspectors[0].id;
            self.status = RuntimeStatus::Running(iid);
            let mut inspector = self.inspectors.remove(0);
            proof {
                lemma_insp_sum_remove(head.inspectors@, 0);
                lemma_insp_weight_pos(head.inspectors@[0]);
            }
            inspector.run();
            self.inspector_switch_pending = false;
            match inspector.status() {
                InspectorStatus::Finished => {
                    // The inspector drained in Bootstrap mode: destroy it.
                },
                _ => {
                    let ghost mid = self.inspectors@;
                    self.inspectors.push(inspector);
                    proof {
                        lemma_insp_sum_push(mid, inspector);
                    }
                },
            }
            self.status = RuntimeStatus::Init;
            proof {
                lemma_insp_sum_nonneg(self.inspectors@);
                assert(self.spec_measure() < head.spec_measure());
            }
        }
    }
}

} // verus!
