//! The kernel page table and the memory it maps.
//!
//! The table is the partial map it denotes: virtual page number to entry.
//! Memory is one contiguous physical region of 64-bit words. Because the
//! model has no TLB, the mapped view and the direct physical view of a page
//! are coherent at every point; `sync_all` is the point where real hardware
//! re-reads the table, and here changes nothing.

use vstd::prelude::*;

use crate::addr::{PhysAddr, VirtAddr};
use crate::error::InternalError;
use crate::paging::{PagePerm, PageTableEntry, PERM_MASK, PERM_V};
use crate::phys_frame::PhysFrame;

verus! {

/// The entry recorded for a virtual page number, searching the newest
/// record first.
pub open spec fn spec_find(s: Seq<(u64, PageTableEntry)>, vpn: u64) -> Option<PageTableEntry>
    decreases s.len(),
{
    if s.len() == 0 {
        None
    } else if s.last().0 == vpn {
        Some(s.last().1)
    } else {
        spec_find(s.drop_last(), vpn)
    }
}

/// With pairwise-distinct keys, `spec_find` reads off any index holding the
/// key.
pub proof fn lemma_find_at_index(s: Seq<(u64, PageTableEntry)>, vpn: u64, i: int)
    requires
        forall|a: int, b: int| 0 <= a < b < s.len() ==> s[a].0 != s[b].0,
        0 <= i < s.len(),
        s[i].0 == vpn,
    ensures
        spec_find(s, vpn) == Some(s[i].1),
    decreases s.len(),
{
    if i == s.len() - 1 {
    } else {
        assert(s[i].0 != s.last().0);
        assert(s.drop_last()[i] == s[i]);
        lemma_find_at_index(s.drop_last(), vpn, i);
    }
}

/// If no index holds the key, `spec_find` finds nothing.
pub proof fn lemma_find_absent(s: Seq<(u64, PageTableEntry)>, vpn: u64)
    requires
        forall|a: int| 0 <= a < s.len() ==> (#[trigger] s[a]).0 != vpn,
    ensures
        spec_find(s, vpn) is None,
    decreases s.len(),
{
    if s.len() > 0 {
        assert(forall|a: int|
            0 <= a < s.drop_last().len() ==> (#[trigger] s.drop_last()[a]).0 != vpn);
        lemma_find_absent(s.drop_last(), vpn);
    }
}

/// A single-level model of the kernel page table.
pub struct PageTable {
    /// One record per mapped virtual page: its page number and the entry.
    pub entries: Vec<(u64, PageTableEntry)>,
}

impl PageTable {
    /// No virtual page is recorded twice.
    pub open spec fn wf(self) -> bool {
        forall|a: int, b: int|
            0 <= a < b < self.entries@.len() ==> self.entries@[a].0 != self.entries@[b].0
    }

    /// The entry a translation would use.
    pub open spec fn spec_translate(self, vpn: u64) -> Option<PageTableEntry> {
        spec_find(self.entries@, vpn)
    }

    pub fn new() -> (r: Self)
        ensures
            r.wf(),
            r.entries@ == Seq::<(u64, PageTableEntry)>::empty(),
            forall|vpn: u64| #[trigger] r.spec_translate(vpn) is None,
    {
        PageTable { entries: Vec::new() }
    }

    /// Install or replace the mapping of `vaddr`'s page: it now points at
    /// the frame with the given permissions plus the valid bit. Every other
    /// page's mapping is untouched.
    #[verifier::loop_isolation(false)]
    pub fn map(&mut self, vaddr: VirtAddr, frame: PhysFrame, perm: PagePerm) -> (r: Result<
        (),
        InternalError,
    >)
        requires
            old(self).wf(),
            perm.bits <= PERM_MASK,
        ensures
            final(self).wf(),
            r is Ok,
            final(self).spec_translate(vaddr.addr / 4096) == Some(
                PageTableEntry {
                    bits: crate::paging::spec_pte_pack(frame.addr.addr, perm.bits | PERM_V),
                },
            ),
            forall|v: u64|
                v != vaddr.addr / 4096 ==> #[trigger] final(self).spec_translate(v) == old(
                    self,
                ).spec_translate(v),
    {
        let vpn = vaddr.addr / 4096;
        proof {
            let pb = perm.bits;
            assert(pb | 1u64 <= 255u64) by (bit_vector)
                requires
                    pb <= 255u64,
            ;
        }
        let pte = PageTableEntry::new(frame.addr, perm.union(PagePerm { bits: PERM_V }));
        let mut i: usize = 0;
        while i < self.entries.len()
            invariant
                old(self).wf(),
                *self == *old(self),
                i <= self.entries@.len(),
                forall|a: int| 0 <= a < i ==> (#[trigger] self.entries@[a]).0 != vpn,
            decreases self.entries@.len() - i,
        {
            if self.entries[i].0 == vpn {
                let ghost pre = self.entries@;
                self.entries.set(i, (vpn, pte));
                proof {
                    assert forall|a: int, b: int|
                        0 <= a < b < self.entries@.len() implies self.entries@[a].0
                        != self.entries@[b].0 by {
                        assert(pre[a].0 != pre[b].0);
                    }
                    lemma_find_at_index(self.entries@, vpn, i as int);
                    assert forall|v: u64|
                        v != vpn implies #[trigger] spec_find(self.entries@, v) == spec_find(
                        pre,
                        v,
                    ) by {
                        lemma_find_update_other(pre, self.entries@, i as int, v);
                    }
                }
                return Ok(());
            }
            i = i + 1;
        }
        let ghost pre = self.entries@;
        self.entries.push((vpn, pte));
        proof {
            assert forall|a: int, b: int|
                0 <= a < b < self.entries@.len() implies self.entries@[a].0
                != self.entries@[b].0 by {
                if b < pre.len() {
                    assert(pre[a].0 != pre[b].0);
                } else {
                    assert(pre[a].0 != vpn);
                }
            }
            assert(self.entries@.last() == (vpn, pte));
            assert(self.entries@.drop_last() =~= pre);
            assert forall|v: u64|
                v != vpn implies #[trigger] spec_find(self.entries@, v) == spec_find(pre, v) by {
                assert(spec_find(self.entries@, v) == spec_find(self.entries@.drop_last(), v));
            }
        }
        Ok(())
    }

    /// Translate a virtual address: the physical page and permissions its
    /// page was last mapped to, or `InvalidVirtAddr` when the page is not
    /// mapped.
    #[verifier::loop_isolation(false)]
    pub fn translate(&self, vaddr: VirtAddr) -> (r: Result<(PhysAddr, PagePerm), InternalError>)
        requires
            self.wf(),
        ensures
            match r {
                Ok(pp) => {
                    &&& self.spec_translate(vaddr.addr / 4096) matches Some(e)
                    &&& pp.0.addr == ((e.bits << 2u64) & !0xFFFu64)
                    &&& pp.1.bits == (e.bits & 0xFFu64)
                },
                Err(e) => {
                    &&& e == InternalError::InvalidVirtAddr
                    &&& self.spec_translate(vaddr.addr / 4096) is None
                },
            },
    {
        let vpn = vaddr.addr / 4096;
        let mut i: usize = 0;
        while i < self.entries.len()
            invariant
                self.wf(),
                i <= self.entries@.len(),
                forall|a: int| 0 <= a < i ==> (#[trigger] self.entries@[a]).0 != vpn,
            decreases self.entries@.len() - i,
        {
            if self.entries[i].0 == vpn {
                let entry = self.entries[i].1;
                proof {
                    lemma_find_at_index(self.entries@, vpn, i as int);
                }
                let tuple = entry.as_tuple();
                return Ok(tuple);
            }
            i = i + 1;
        }
        proof {
            lemma_find_absent(self.entries@, vpn);
        }
        Err(InternalError::InvalidVirtAddr)
    }

    /// Like `translate`, but hands the physical page back as a frame.
    pub fn lookup(&self, vaddr: VirtAddr) -> (r: Result<(PhysFrame, PagePerm), InternalError>)
        requires
            self.wf(),
        ensures
            match r {
                Ok(fp) => {
                    &&& self.spec_translate(vaddr.addr / 4096) matches Some(e)
                    &&& fp.0.addr.addr == ((e.bits << 2u64) & !0xFFFu64)
                    &&& fp.1.bits == (e.bits & 0xFFu64)
                },
                Err(e) => {
                    &&& e == InternalError::InvalidVirtAddr
                    &&& self.spec_translate(vaddr.addr / 4096) is None
                },
            },
    {
        match self.translate(vaddr) {
            Ok((pa, perm)) => Ok((PhysFrame { addr: pa }, perm)),
            Err(e) => Err(e),
        }
    }


    /// The point where real hardware re-reads the table after a change —
    /// the TLB flush. The model consults the table on every translation,
    /// so the mapped view and the direct physical view are coherent at
    /// every point and the flush changes nothing.
    pub fn sync_all(&mut self)
        ensures
            *final(self) == *old(self),
    {
    }

    /// Remove the mapping of `vaddr`'s page; `InvalidVirtAddr` when it has
    /// none.
    #[verifier::loop_isolation(false)]
    pub fn unmap(&mut self, vaddr: VirtAddr) -> (r: Result<(), InternalError>)
        requires
            old(self).wf(),
        ensures
            final(self).wf(),
            match r {
                Ok(()) => {
                    &&& old(self).spec_translate(vaddr.addr / 4096) is Some
                    &&& final(self).spec_translate(vaddr.addr / 4096) is None
                    &&& forall|v: u64|
                        v != vaddr.addr / 4096 ==> #[trigger] final(self).spec_translate(v) == old(
                            self,
                        ).spec_translate(v)
                },
                Err(e) => {
                    &&& e == InternalError::InvalidVirtAddr
                    &&& old(self).spec_translate(vaddr.addr / 4096) is None
                    &&& final(self).entries@ == old(self).entries@
                },
            },
    {
        let vpn = vaddr.addr / 4096;
        let mut i: usize = 0;
        while i < self.entries.len()
            invariant
                old(self).wf(),
                *self == *old(self),
                i <= self.entries@.len(),
                forall|a: int| 0 <= a < i ==> (#[trigger] self.entries@[a]).0 != vpn,
            decreases self.entries@.len() - i,
        {
            if self.entries[i].0 == vpn {
                let ghost pre = self.entries@;
                proof {
                    lemma_find_at_index(pre, vpn, i as int);
                }
                self.entries.remove(i);
                proof {
                    assert forall|a: int, b: int|
                        0 <= a < b < self.entries@.len() implies self.entries@[a].0
                        != self.entries@[b].0 by {
                        let aa = if a < i { a } else { a + 1 };
                        let bb = if b < i { b } else { b + 1 };
                        assert(self.entries@[a] == pre[aa]);
                        assert(self.entries@[b] == pre[bb]);
                        assert(pre[aa].0 != pre[bb].0);
                    }
                    assert forall|a: int|
                        0 <= a < self.entries@.len() implies (#[trigger] self.entries@[a]).0
                        != vpn by {
                        let aa = if a < i { a } else { a + 1 };
                        assert(self.entries@[a] == pre[aa]);
                        if aa != i {
                            assert(pre[aa].0 != pre[i as int].0);
                        }
                    }
                    lemma_find_absent(self.entries@, vpn);
                    assert forall|v: u64|
                        v != vpn implies #[trigger] spec_find(self.entries@, v) == spec_find(
                        pre,
                        v,
                    ) by {
                        lemma_find_remove_other(pre, self.entries@, i as int, v);
                    }
                }
                return Ok(());
            }
            i = i + 1;
        }
        proof {
            lemma_find_absent(self.entries@, vpn);
        }
        Err(InternalError::InvalidVirtAddr)
    }
}

/// Updating index `i` does not change what `spec_find` returns for any
/// other key, provided the key at `i` is the same before and after.
pub proof fn lemma_find_update_other(
    pre: Seq<(u64, PageTableEntry)>,
    post: Seq<(u64, PageTableEntry)>,
    i: int,
    v: u64,
)
    requires
        0 <= i < pre.len(),
        post.len() == pre.len(),
        forall|a: int| 0 <= a < pre.len() && a != i ==> post[a] == pre[a],
        post[i].0 == pre[i].0,
        v != pre[i].0,
    ensures
        spec_find(post, v) == spec_find(pre, v),
    decreases pre.len(),
{
    if pre.len() > 0 {
        if i == pre.len() - 1 {
            assert(post.drop_last() =~= pre.drop_last());
        } else {
            assert(post.last() == pre.last());
            if pre.last().0 != v {
                lemma_find_update_other(pre.drop_last(), post.drop_last(), i, v);
            }
        }
    }
}

/// Removing index `i` does not change what `spec_find` returns for any key
/// other than the removed one, when keys are pairwise distinct.
pub proof fn lemma_find_remove_other(
    pre: Seq<(u64, PageTableEntry)>,
    post: Seq<(u64, PageTableEntry)>,
    i: int,
    v: u64,
)
    requires
        0 <= i < pre.len(),
        post == pre.remove(i),
        v != pre[i].0,
    ensures
        spec_find(post, v) == spec_find(pre, v),
    decreases pre.len(),
{
    if i == pre.len() - 1 {
        assert(post =~= pre.drop_last());
    } else {
        assert(post.last() == pre.last());
        assert(post.drop_last() =~= pre.drop_last().remove(i));
        if pre.last().0 != v {
            lemma_find_remove_other(pre.drop_last(), post.drop_last(), i, v);
        }
    }
}

/// One contiguous region of physical RAM, as 64-bit words.
pub struct PhysMemory {
    /// Physical address of the first word; 8-byte aligned.
    pub base: u64,
    pub words: Vec<u64>,
}

impl PhysMemory {
    pub open spec fn wf(self) -> bool {
        &&& self.base % 8 == 0
        &&& self.base + self.words@.len() * 8 <= u64::MAX
    }

    /// Whether a physical address names a word of this region.
    pub open spec fn spec_in_range(self, pa: u64) -> bool {
        &&& pa % 8 == 0
        &&& self.base <= pa
        &&& (pa - self.base) / 8 < self.words@.len()
    }

    /// The word stored at a physical address.
    pub open spec fn spec_word(self, pa: u64) -> u64 {
        self.words@[(pa - self.base) / 8]
    }

    /// A zeroed region of `count` words starting at `base`.
    pub fn new(base: u64, count: usize) -> (r: Self)
        requires
            base % 8 == 0,
            base + count * 8 <= u64::MAX,
        ensures
            r.wf(),
            r.base == base,
            r.words@.len() == count,
            forall|i: int| 0 <= i < count ==> r.words@[i] == 0u64,
    {
        PhysMemory { base, words: crate::util::repeat_value(count, 0u64) }
    }

    /// Read one word through the direct physical view.
    pub fn read_phys(&self, pa: u64) -> (r: Result<u64, InternalError>)
        requires
            self.wf(),
        ensures
            match r {
                Ok(w) => self.spec_in_range(pa) && w == self.spec_word(pa),
                Err(e) => e == InternalError::InvalidParam && !self.spec_in_range(pa),
            },
    {
        if pa % 8 == 0 && self.base <= pa {
            let idx = (pa - self.base) / 8;
            if idx < self.words.len() as u64 {
                return Ok(self.words[idx as usize]);
            }
        }
        Err(InternalError::InvalidParam)
    }

    /// Write one word through the direct physical view.
    pub fn write_phys(&mut self, pa: u64, w: u64) -> (r: Result<(), InternalError>)
        requires
            old(self).wf(),
        ensures
            final(self).wf(),
            final(self).base == old(self).base,
            match r {
                Ok(()) => {
                    &&& old(self).spec_in_range(pa)
                    &&& final(self).words@ == old(self).words@.update(
                        (pa - old(self).base) / 8,
                        w,
                    )
                },
                Err(e) => {
                    &&& e == InternalError::InvalidParam
                    &&& !old(self).spec_in_range(pa)
                    &&& final(self).words@ == old(self).words@
                },
            },
    {
        if pa % 8 == 0 && self.base <= pa {
            let idx = (pa - self.base) / 8;
            if idx < self.words.len() as u64 {
                self.words.set(idx as usize, w);
                return Ok(());
            }
        }
        Err(InternalError::InvalidParam)
    }
}

/// The mapping round-trip: after `map(vaddr, frame, perm)` the table
/// translates `vaddr`'s page to exactly the frame's page address with the
/// given permissions plus the valid bit — what a translation unpacks is
/// what the map packed.
pub proof fn lemma_translate_after_map(pt: PageTable, vaddr: VirtAddr, paddr: u64, perm_bits: u64)
    requires
        paddr < 0x100_0000_0000_0000,
        perm_bits <= 0xFF,
        pt.spec_translate(vaddr.addr / 4096) == Some(
            PageTableEntry { bits: crate::paging::spec_pte_pack(paddr, perm_bits | PERM_V) },
        ),
    ensures
        ({
            let e = pt.spec_translate(vaddr.addr / 4096)->0;
            &&& ((e.bits << 2u64) & !0xFFFu64) == crate::addr::spec_page_down(paddr)
            &&& (e.bits & 0xFFu64) == (perm_bits | PERM_V)
            &&& (e.bits & 0xFFu64) & 1u64 == 1u64
        }),
{
    let pb = perm_bits;
    assert(pb <= 0xFF ==> (pb | 1u64) <= 0xFF && ((pb | 1u64) & 1u64) == 1u64) by (bit_vector);
    crate::paging::lemma_pte_roundtrip(paddr, perm_bits | PERM_V);
}

} // verus!
