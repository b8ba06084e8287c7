//! Physical and virtual addresses.
//!
//! Two distinct opaque integer types. The kernel runs at a high virtual base;
//! `REMAP_MEM_OFFSET` is the fixed offset between the virtual kernel view and
//! physical RAM, so conversion is one-way arithmetic at a known offset.

use vstd::prelude::*;

verus! {

/// Bytes per page.
pub const PAGE_SIZE: u64 = 4096;

/// Offset between the kernel's virtual view of RAM and physical RAM.
pub const REMAP_MEM_OFFSET: u64 = 0xFFFF_FFC0_0000_0000;

/// The page-aligned part of an address.
pub open spec fn spec_page_down(a: u64) -> u64 {
    a & !0xFFFu64
}

/// A physical address.
#[derive(Clone, Copy, Debug, PartialEq, Eq, Structural)]
pub struct PhysAddr {
    pub addr: u64,
}

/// A virtual address.
#[derive(Clone, Copy, Debug, PartialEq, Eq, Structural)]
pub struct VirtAddr {
    pub addr: u64,
}

/// What rounding an address down to its page means, stated both through the
/// mask that implements it and through division.
pub proof fn lemma_page_down(a: u64)
    ensures
        spec_page_down(a) == a - a % PAGE_SIZE,
        spec_page_down(a) % PAGE_SIZE == 0,
        spec_page_down(a) <= a,
{
    assert((a & !0xFFFu64) == a - a % 4096 && (a & !0xFFFu64) % 4096 == 0 && (a
        & !0xFFFu64) <= a) by (bit_vector);
}

impl PhysAddr {
    pub fn new(addr: u64) -> (r: Self)
        ensures
            r.addr == addr,
    {
        PhysAddr { addr }
    }

    pub fn as_u64(self) -> (r: u64)
        ensures
            r == self.addr,
    {
        self.addr
    }

    /// Round down to the start of the containing page.
    pub fn align_page_down(self) -> (r: Self)
        ensures
            r.addr == spec_page_down(self.addr),
            r.addr == self.addr - self.addr % PAGE_SIZE,
    {
        proof {
            lemma_page_down(self.addr);
        }
        PhysAddr { addr: self.addr & !0xFFFu64 }
    }

    /// The kernel-space virtual alias of this physical address.
    pub fn to_virt(self) -> (r: VirtAddr)
        requires
            self.addr + REMAP_MEM_OFFSET <= u64::MAX,
        ensures
            r.addr == self.addr + REMAP_MEM_OFFSET,
    {
        VirtAddr { addr: self.addr + REMAP_MEM_OFFSET }
    }
}

impl VirtAddr {
    pub fn new(addr: u64) -> (r: Self)
        ensures
            r.addr == addr,
    {
        VirtAddr { addr }
    }

    pub fn as_u64(self) -> (r: u64)
        ensures
            r == self.addr,
    {
        self.addr
    }

    /// Round down to the start of the containing page.
    pub fn align_page_down(self) -> (r: Self)
        ensures
            r.addr == spec_page_down(self.addr),
            r.addr == self.addr - self.addr % PAGE_SIZE,
    {
        proof {
            lemma_page_down(self.addr);
        }
        VirtAddr { addr: self.addr & !0xFFFu64 }
    }

    /// The physical address aliased by a kernel-space virtual address.
    pub fn to_phys(self) -> (r: PhysAddr)
        requires
            self.addr >= REMAP_MEM_OFFSET,
        ensures
            r.addr == self.addr - REMAP_MEM_OFFSET,
    {
        PhysAddr { addr: self.addr - REMAP_MEM_OFFSET }
    }
}

} // verus!
