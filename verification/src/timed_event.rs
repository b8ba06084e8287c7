//! The per-hart timed-event queue: deadlines, cancellation, and the drain
//! that the timer interrupt performs.
//!
//! The queue keeps its events sorted by deadline, ties broken by creation
//! order, so the drain fires callbacks in deadline order. A callback is a
//! tagged action interpreted by the platform when the event fires or is
//! cancelled.

use vstd::prelude::*;

use crate::error::InternalError;

verus! {

/// The action a timed event performs when it fires or is cancelled. The
/// platform interprets these; `Record` appends a value to the platform's
/// observation log, which is how callers watch firing order.
#[derive(Clone, Copy, Debug, PartialEq, Eq, Structural)]
pub enum EventOp {
    /// Do nothing.
    Noop,
    /// Append the value to the platform's event log.
    Record(u64),
    /// Run one tick of the `min_count` dispatch policy and reschedule it.
    DispatchMinCount,
    /// Run one tick of the `min_load` dispatch policy and reschedule it.
    DispatchMinLoad,
}

/// The pair of actions a timed event carries.
#[derive(Clone, Copy, Debug, PartialEq, Eq, Structural)]
pub struct TimedEventHandler {
    pub on_timeout: EventOp,
    pub on_cancel: EventOp,
}

impl TimedEventHandler {
    pub fn new(on_timeout: EventOp, on_cancel: EventOp) -> (r: Self)
        ensures
            r.on_timeout == on_timeout,
            r.on_cancel == on_cancel,
    {
        TimedEventHandler { on_timeout, on_cancel }
    }
}

/// One scheduled event.
#[derive(Clone, Copy, Debug, PartialEq, Eq, Structural)]
pub struct TimedEvent {
    /// Creation-ordered identity, unique within its queue.
    pub id: u64,
    /// Monotonic-clock deadline, in nanoseconds.
    pub deadline: u64,
    pub handler: TimedEventHandler,
}

/// The handle `create` returns; cancelling goes through the queue by id.
#[derive(Clone, Copy, Debug, PartialEq, Eq, Structural)]
pub struct TimedEventTracker {
    /// The hart whose queue holds the event.
    pub cpu_id: usize,
    pub event_id: u64,
}

/// A deadline-ordered queue of timed events.
pub struct TimedEventQueue {
    /// Events sorted by `(deadline, id)`, soonest first.
    pub events: Vec<TimedEvent>,
    /// The id the next created event receives; all held ids are below it.
    pub next_id: u64,
}

impl TimedEventQueue {
    /// Sorted by deadline, creation order among equals, all ids fresh.
    pub open spec fn wf(self) -> bool {
        &&& forall|i: int, j: int|
            0 <= i < j < self.events@.len() ==> (self.events@[i].deadline < self.events@[j].deadline
                || (self.events@[i].deadline == self.events@[j].deadline && self.events@[i].id
                < self.events@[j].id))
        &&& forall|i: int, j: int|
            0 <= i < j < self.events@.len() ==> self.events@[i].id != self.events@[j].id
        &&& forall|i: int|
            0 <= i < self.events@.len() ==> (#[trigger] self.events@[i]).id < self.next_id
    }

    /// Whether the queue holds an event with this id.
    pub open spec fn spec_has_event(self, id: u64) -> bool {
        exists|i: int| 0 <= i < self.events@.len() && (#[trigger] self.events@[i]).id == id
    }

    pub fn new() -> (r: Self)
        ensures
            r.wf(),
            r.events@ == Seq::<TimedEvent>::empty(),
            r.next_id == 0,
    {
        TimedEventQueue { events: Vec::new(), next_id: 0 }
    }

    pub fn len(&self) -> (r: usize)
        ensures
            r == self.events@.len(),
    {
        self.events.len()
    }

    /// Insert an event with the given deadline and handler; the returned id
    /// is fresh. Among events with equal deadlines the new one fires last.
    pub fn create(&mut self, deadline: u64, handler: TimedEventHandler) -> (id: u64)
        requires
            old(self).wf(),
            old(self).next_id < u64::MAX,
        ensures
            final(self).wf(),
            id == old(self).next_id,
            final(self).next_id == old(self).next_id + 1,
            !old(self).spec_has_event(id),
            exists|p: int|
                {
                    &&& 0 <= p <= old(self).events@.len()
                    &&& final(self).events@ == old(self).events@.insert(
                        p,
                        TimedEvent { id, deadline, handler },
                    )
                },
    {
        let id = self.next_id;
        self.next_id = self.next_id + 1;
        let mut p: usize = 0;
        while p < self.events.len() && self.events[p].deadline <= deadline
            invariant
                p <= self.events@.len(),
                forall|i: int| 0 <= i < p ==> (#[trigger] self.events@[i]).deadline <= deadline,
            decreases self.events@.len() - p,
        {
            p = p + 1;
        }
        let ev = TimedEvent { id, deadline, handler };
        self.events.insert(p, ev);
        proof {
            assert(final(self).events@ == old(self).events@.insert(p as int, ev));
        }
        id
    }

    /// The earliest event whose deadline has passed, without removing it.
    pub fn peek_outdated(&self, now: u64) -> (r: Option<TimedEvent>)
        requires
            self.wf(),
        ensures
            match r {
                Some(ev) => {
                    &&& self.events@.len() > 0
                    &&& ev == self.events@[0]
                    &&& ev.deadline <= now
                },
                None => self.events@.len() == 0 || self.events@[0].deadline > now,
            },
    {
        if self.events.len() > 0 {
            let head = self.events[0];
            if head.deadline <= now {
                return Some(head);
            }
        }
        None
    }

    /// The deadline the timer should be armed for next: the head's, if any.
    pub fn next_deadline(&self) -> (r: Option<u64>)
        ensures
            match r {
                Some(d) => self.events@.len() > 0 && d == self.events@[0].deadline,
                None => self.events@.len() == 0,
            },
    {
        if self.events.len() > 0 {
            Some(self.events[0].deadline)
        } else {
            None
        }
    }

    /// Remove every event whose deadline has passed and hand them back in
    /// firing order: the drained events are exactly the due prefix of the
    /// queue, soonest deadline first.
    pub fn drain_outdated(&mut self, now: u64) -> (fired: Vec<TimedEvent>)
        requires
            old(self).wf(),
        ensures
            final(self).wf(),
            final(self).next_id == old(self).next_id,
            fired@.len() <= old(self).events@.len(),
            forall|i: int|
                0 <= i < fired@.len() ==> (#[trigger] old(self).events@[i]).deadline <= now,
            fired@.len() < old(self).events@.len() ==> old(self).events@[fired@.len() as int].deadline
                > now,
            fired@ == old(self).events@.subrange(0, fired@.len() as int),
            final(self).events@ == old(self).events@.subrange(
                fired@.len() as int,
                old(self).events@.len() as int,
            ),
            forall|i: int|
                0 <= i < final(self).events@.len() ==> (#[trigger] final(self).events@[i]).deadline
                    > now,
    {
        let mut fired: Vec<TimedEvent> = Vec::new();
        let ghost orig = self.events@;
        loop
            invariant
                self.wf(),
                self.next_id == old(self).next_id,
                fired@.len() <= orig.len(),
                fired@ == orig.subrange(0, fired@.len() as int),
                self.events@ == orig.subrange(fired@.len() as int, orig.len() as int),
                forall|i: int| 0 <= i < fired@.len() ==> (#[trigger] orig[i]).deadline <= now,
            ensures
                self.events@.len() > 0 ==> self.events@[0].deadline > now,
                fired@.len() <= orig.len(),
                fired@ == orig.subrange(0, fired@.len() as int),
                self.events@ == orig.subrange(fired@.len() as int, orig.len() as int),
                forall|i: int| 0 <= i < fired@.len() ==> (#[trigger] orig[i]).deadline <= now,
            decreases self.events@.len(),
        {
            if self.events.len() == 0 {
                break ;
            }
            let head = self.events[0];
            if head.deadline > now {
                break ;
            }
            let ev = self.events.remove(0);
            fired.push(ev);
            proof {
                assert(fired@ =~= orig.subrange(0, fired@.len() as int));
                assert(self.events@ =~= orig.subrange(fired@.len() as int, orig.len() as int));
            }
        }
        proof {
            let k = fired@.len() as int;
            assert(k < orig.len() ==> orig[k].deadline > now);
        }
        fired
    }

    /// Cancel the event with this id: remove it and hand back its
    /// cancellation action, exactly once. A second cancel, or a cancel
    /// after the event has fired, finds nothing and reports
    /// `InvalidTimedEventStatus`.
    pub fn cancel(&mut self, event_id: u64) -> (r: Result<EventOp, InternalError>)
        requires
            old(self).wf(),
        ensures
            final(self).wf(),
            final(self).next_id == old(self).next_id,
            match r {
                Ok(op) => {
                    &&& old(self).spec_has_event(event_id)
                    &&& !final(self).spec_has_event(event_id)
                    &&& exists|i: int|
                        {
                            &&& 0 <= i < old(self).events@.len()
                            &&& (#[trigger] old(self).events@[i]).id == event_id
                            &&& op == old(self).events@[i].handler.on_cancel
                            &&& final(self).events@ == old(self).events@.remove(i)
                        }
                },
                Err(e) => {
                    &&& e == InternalError::InvalidTimedEventStatus
                    &&& !old(self).spec_has_event(event_id)
                    &&& *final(self) == *old(self)
                },
            },
    {
        let mut i: usize = 0;
        while i < self.events.len()
            invariant
                old(self).wf(),
                *self == *old(self),
                i <= self.events@.len(),
                forall|j: int| 0 <= j < i ==> (#[trigger] self.events@[j]).id != event_id,
            decreases self.events@.len() - i,
        {
            if self.events[i].id == event_id {
                let ghost pre = self.events@;
                let ev = self.events.remove(i);
                proof {
                    assert forall|j: int|
                        0 <= j < self.events@.len() implies (#[trigger] self.events@[j]).id
                        != event_id by {
                        if j < i {
                            assert(self.events@[j] == pre[j]);
                        } else {
                            assert(self.events@[j] == pre[j + 1]);
                            assert(pre[i as int].id != pre[j + 1].id);
                        }
                    }
                    assert forall|a: int, b: int|
                        0 <= a < b < self.events@.len() implies ((self.events@[a].deadline
                        < self.events@[b].deadline || (self.events@[a].deadline
                        == self.events@[b].deadline && self.events@[a].id < self.events@[b].id))
                        && self.events@[a].id != self.events@[b].id) by {
                        let aa = if a < i { a } else { a + 1 };
                        let bb = if b < i { b } else { b + 1 };
                        assert(self.events@[a] == pre[aa]);
                        assert(self.events@[b] == pre[bb]);
                    }
                }
                return Ok(ev.handler.on_cancel);
            }
            i = i + 1;
        }
        Err(InternalError::InvalidTimedEventStatus)
    }
}

/// The drained prefix fires in deadline order: within what one drain hands
/// back, deadlines never decrease.
pub proof fn lemma_drain_order(q: TimedEventQueue, fired: Seq<TimedEvent>, k: int)
    requires
        q.wf(),
        0 <= k <= q.events@.len(),
        fired == q.events@.subrange(0, k),
    ensures
        forall|i: int, j: int|
            0 <= i < j < fired.len() ==> (fired[i].deadline < fired[j].deadline || (
            fired[i].deadline == fired[j].deadline && fired[i].id < fired[j].id)),
{
}

} // verus!
