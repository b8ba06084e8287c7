//! The physical-frame allocator.
//!
//! A free list of page-aligned physical addresses. Allocation pops the most
//! recently freed address, so returning a frame and allocating again hands
//! the same page back — dropped frames are reused.

use vstd::prelude::*;

use crate::addr::PhysAddr;
use crate::error::InternalError;

verus! {

/// An owned physical page.
#[derive(Clone, Copy, Debug, PartialEq, Eq, Structural)]
pub struct PhysFrame {
    pub addr: PhysAddr,
}

impl PhysFrame {
    pub fn addr(&self) -> (r: PhysAddr)
        ensures
            r == self.addr,
    {
        self.addr
    }
}

/// What the next allocation returns: the top of the free list.
pub open spec fn spec_alloc_result(free: Seq<u64>) -> Option<u64> {
    if free.len() > 0 {
        Some(free.last())
    } else {
        None
    }
}

/// The free list of physical pages.
pub struct FrameAllocator {
    /// Page-aligned addresses available for allocation; the last entry is
    /// handed out next.
    pub free: Vec<u64>,
}

impl FrameAllocator {
    /// All free addresses are page-aligned and pairwise distinct.
    pub open spec fn wf(self) -> bool {
        &&& forall|i: int| 0 <= i < self.free@.len() ==> (#[trigger] self.free@[i]) % 4096 == 0
        &&& forall|i: int, j: int|
            0 <= i < j < self.free@.len() ==> self.free@[i] != self.free@[j]
    }

    /// An allocator over the contiguous region of `count` pages starting at
    /// `base`, handed out from the start of the region.
    pub fn new(base: u64, count: u64) -> (r: Self)
        requires
            base % 4096 == 0,
            base + count * 4096 <= u64::MAX,
        ensures
            r.wf(),
            r.free@.len() == count,
            forall|i: int|
                0 <= i < count ==> (#[trigger] r.free@[i]) == base + (count - 1 - i) * 4096,
    {
        let mut free: Vec<u64> = Vec::new();
        let mut i: u64 = 0;
        while i < count
            invariant
                i <= count,
                base % 4096 == 0,
                base + count * 4096 <= u64::MAX,
                free@.len() == i,
                forall|j: int|
                    0 <= j < i ==> (#[trigger] free@[j]) == base + (count - 1 - j) * 4096,
            decreases count - i,
        {
            proof {
                assert((count - 1 - i) * 4096 <= count * 4096 && (base + (count - 1 - i) * 4096)
                    % 4096 == 0) by (nonlinear_arith)
                    requires
                        0 <= i < count,
                        base % 4096 == 0,
                ;
            }
            free.push(base + (count - 1 - i) * 4096);
            i = i + 1;
        }
        proof {
            assert forall|a: int, b: int| 0 <= a < b < free@.len() implies free@[a] != free@[b] by {
                assert((count - 1 - a) * 4096 != (count - 1 - b) * 4096) by (nonlinear_arith)
                    requires
                        a != b,
                ;
            }
        }
        FrameAllocator { free }
    }

    /// Take a frame off the free list: the most recently freed page leaves
    /// first. Fails with `NotEnoughMem` exactly when no page is free.
    pub fn allocate(&mut self) -> (r: Result<PhysFrame, InternalError>)
        requires
            old(self).wf(),
        ensures
            final(self).wf(),
            match r {
                Ok(frame) => {
                    &&& spec_alloc_result(old(self).free@) == Some(frame.addr.addr)
                    &&& final(self).free@ == old(self).free@.drop_last()
                    &&& frame.addr.addr % 4096 == 0
                },
                Err(e) => {
                    &&& e == InternalError::NotEnoughMem
                    &&& old(self).free@.len() == 0
                    &&& final(self).free@ == old(self).free@
                },
            },
    {
        match self.free.pop() {
            Some(addr) => {
                proof {
                    assert(old(self).free@[old(self).free@.len() - 1] % 4096 == 0);
                    assert(self.free@ =~= old(self).free@.drop_last());
                    assert(spec_alloc_result(old(self).free@) == Some(addr));
                    assert forall|a: int, b: int|
                        0 <= a < b < self.free@.len() implies self.free@[a] != self.free@[b] by {
                        assert(old(self).free@[a] != old(self).free@[b]);
                    }
                    assert forall|i: int|
                        0 <= i < self.free@.len() implies (#[trigger] self.free@[i]) % 4096
                        == 0 by {
                        assert(self.free@[i] == old(self).free@[i]);
                    }
                }
                Ok(PhysFrame { addr: PhysAddr { addr } })
            },
            None => Err(InternalError::NotEnoughMem),
        }
    }

    /// Return a frame to the free list; the next allocation hands it back.
    pub fn deallocate(&mut self, frame: PhysFrame)
        requires
            old(self).wf(),
            frame.addr.addr % 4096 == 0,
            forall|i: int| 0 <= i < old(self).free@.len() ==> old(self).free@[i] != frame.addr.addr,
        ensures
            final(self).wf(),
            final(self).free@ == old(self).free@.push(frame.addr.addr),
            spec_alloc_result(final(self).free@) == Some(frame.addr.addr),
    {
        self.free.push(frame.addr.addr);
    }
}

/// Frame reuse: once a frame has been returned to the allocator, the very
/// next allocation yields that same previously-used address.
pub proof fn lemma_frame_reuse(pre: Seq<u64>, post: Seq<u64>, addr: u64)
    requires
        post == pre.push(addr),
    ensures
        spec_alloc_result(post) == Some(addr),
        post.drop_last() == pre,
{
    assert(post.last() == addr);
    assert(post.drop_last() =~= pre);
}

} // verus!
