//! Small verified helpers shared across the kernel core.

use vstd::prelude::*;

verus! {

/// A vector of `len` copies of `val`.
pub fn repeat_value<T: Copy>(len: usize, val: T) -> (r: Vec<T>)
    ensures
        r@.len() == len,
        forall|i: int| 0 <= i < len ==> r@[i] == val,
{
    let mut v: Vec<T> = Vec::new();
    let mut i: usize = 0;
    while i < len
        invariant
            i <= len,
            v@.len() == i,
            forall|j: int| 0 <= j < i ==> v@[j] == val,
        decreases len - i,
    {
        v.push(val);
        i = i + 1;
    }
    v
}

/// A priority queue of `u64` identifiers with `u8` priorities. `dequeue`
/// hands out an entry of maximal priority; among equal priorities the one
/// enqueued first leaves first.
pub struct FastPriorityQueue {
    /// Entries in arrival order.
    pub items: Vec<(u8, u64)>,
}

impl FastPriorityQueue {
    /// Whether `items[i]` is the entry `dequeue` would hand out: maximal
    /// priority, and first among entries of that priority.
    pub open spec fn is_front(self, i: int) -> bool {
        &&& 0 <= i < self.items@.len()
        &&& forall|j: int| 0 <= j < self.items@.len() ==> self.items@[i].0 >= #[trigger] self.items@[j].0
        &&& forall|j: int| 0 <= j < i ==> #[trigger] self.items@[j].0 < self.items@[i].0
    }

    pub fn new() -> (r: Self)
        ensures
            r.items@ == Seq::<(u8, u64)>::empty(),
    {
        FastPriorityQueue { items: Vec::new() }
    }

    pub fn len(&self) -> (r: usize)
        ensures
            r == self.items@.len(),
    {
        self.items.len()
    }

    pub fn is_empty(&self) -> (r: bool)
        ensures
            r == (self.items@.len() == 0),
    {
        self.items.len() == 0
    }

    /// Add an entry at the back of its priority class.
    pub fn enqueue(&mut self, priority: u8, value: u64)
        ensures
            final(self).items@ == old(self).items@.push((priority, value)),
    {
        self.items.push((priority, value));
    }

    /// Remove and return an entry of maximal priority, the earliest-enqueued
    /// one among equals; nothing when the queue is empty.
    pub fn dequeue(&mut self) -> (r: Option<(u8, u64)>)
        ensures
            match r {
                Some(pv) => {
                    exists|i: int|
                        {
                            &&& #[trigger] old(self).is_front(i)
                            &&& pv == old(self).items@[i]
                            &&& final(self).items@ == old(self).items@.remove(i)
                        }
                },
                None => {
                    &&& old(self).items@.len() == 0
                    &&& final(self).items@ == old(self).items@
                },
            },
    {
        if self.items.len() == 0 {
            return None;
        }
        let mut best: usize = 0;
        let mut k: usize = 1;
        while k < self.items.len()
            invariant
                1 <= k <= self.items@.len(),
                best < k,
                forall|j: int|
                    0 <= j < k ==> self.items@[best as int].0 >= #[trigger] self.items@[j].0,
                forall|j: int| 0 <= j < best ==> #[trigger] self.items@[j].0 < self.items@[best as int].0,
            decreases self.items@.len() - k,
        {
            if self.items[k].0 > self.items[best].0 {
                best = k;
            }
            k = k + 1;
        }
        let entry = self.items[best];
        proof {
            assert(self.is_front(best as int));
        }
        self.items.remove(best);
        Some(entry)
    }
}

/// A monotonic id counter: the source of process-wide task, executor and
/// inspector identities. Every issued id is below `next`, so a fresh id
/// differs from every id issued before — equality implies identity.
pub struct IdAllocator {
    pub next: u64,
}

impl IdAllocator {
    /// Whether this allocator has already issued `id`.
    pub open spec fn spec_issued(self, id: u64) -> bool {
        id < self.next
    }

    pub fn new() -> (r: Self)
        ensures
            r.next == 0,
            forall|j: u64| !r.spec_issued(j),
    {
        IdAllocator { next: 0 }
    }

    /// Issue the next id: fresh against everything issued before.
    pub fn fresh(&mut self) -> (id: u64)
        requires
            old(self).next < u64::MAX,
        ensures
            id == old(self).next,
            final(self).next == old(self).next + 1,
            !old(self).spec_issued(id),
            final(self).spec_issued(id),
            forall|j: u64| old(self).spec_issued(j) ==> final(self).spec_issued(j) && j != id,
    {
        let id = self.next;
        self.next = self.next + 1;
        id
    }
}

} // verus!
