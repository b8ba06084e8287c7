//! Page permissions and page-table entries.
//!
//! The entry encoding is the RISC-V one: the physical page number is stored
//! shifted right by two, with the permission flags in the low byte. The
//! packing and unpacking are exact bit-level contracts.

use vstd::prelude::*;

use crate::addr::{spec_page_down, PhysAddr};

verus! {

/// Permission flags of a page-table entry, one bit each.
#[derive(Clone, Copy, Debug, PartialEq, Eq, Structural)]
pub struct PagePerm {
    pub bits: u64,
}

pub const PERM_V: u64 = 1;
pub const PERM_R: u64 = 2;
pub const PERM_W: u64 = 4;
pub const PERM_X: u64 = 8;
pub const PERM_U: u64 = 16;
pub const PERM_G: u64 = 32;
pub const PERM_A: u64 = 64;
pub const PERM_D: u64 = 128;

/// All flag bits together; anything above is not a permission.
pub const PERM_MASK: u64 = 255;

impl PagePerm {
    /// Keep only the defined flag bits.
    pub fn from_bits_truncate(bits: u64) -> (r: Self)
        ensures
            r.bits == bits & 0xFFu64,
            r.bits <= PERM_MASK,
    {
        proof {
            assert(bits & 0xFFu64 <= 255) by (bit_vector);
        }
        PagePerm { bits: bits & PERM_MASK }
    }

    pub fn bits(self) -> (r: u64)
        ensures
            r == self.bits,
    {
        self.bits
    }

    /// The union of two flag sets.
    pub fn union(self, other: Self) -> (r: Self)
        ensures
            r.bits == (self.bits | other.bits),
    {
        PagePerm { bits: self.bits | other.bits }
    }

    /// Whether every flag of `other` is also set in `self`.
    pub fn contains(self, other: Self) -> (r: bool)
        ensures
            r == ((self.bits & other.bits) == other.bits),
    {
        (self.bits & other.bits) == other.bits
    }

    /// Whether the valid bit is set.
    pub open spec fn spec_valid(self) -> bool {
        self.bits & 1u64 == 1u64
    }
}

/// How a physical page address and a flag byte pack into one entry word.
pub open spec fn spec_pte_pack(paddr: u64, perm_bits: u64) -> u64 {
    (spec_page_down(paddr) >> 2u64) | perm_bits
}

/// One page-table entry: physical page number and permission flags packed
/// into a single machine word.
#[derive(Clone, Copy, Debug, PartialEq, Eq, Structural)]
pub struct PageTableEntry {
    pub bits: u64,
}

impl PageTableEntry {
    /// Pack a physical address (rounded down to its page) and a permission
    /// set into an entry.
    pub fn new(phys_addr: PhysAddr, perm: PagePerm) -> (r: Self)
        ensures
            r.bits == spec_pte_pack(phys_addr.addr, perm.bits),
    {
        let page = phys_addr.align_page_down().as_u64();
        PageTableEntry { bits: (page >> 2) | perm.bits }
    }

    /// Unpack the entry into the physical page address and the flags.
    pub fn as_tuple(self) -> (r: (PhysAddr, PagePerm))
        ensures
            r.0.addr == ((self.bits << 2u64) & !0xFFFu64),
            r.1.bits == (self.bits & 0xFFu64),
    {
        let phys_addr = PhysAddr::new((self.bits << 2) & !(0xFFFu64));
        let perm = PagePerm::from_bits_truncate(self.bits);
        (phys_addr, perm)
    }

    /// Whether the entry's valid bit is set.
    pub fn is_valid(self) -> (r: bool)
        ensures
            r == (self.bits & 1u64 == 1u64),
    {
        proof {
            let b = self.bits;
            assert((b & 1u64 != 0u64) == (b & 1u64 == 1u64)) by (bit_vector);
        }
        self.bits & PERM_V != 0
    }
}

/// Packing an aligned physical address with a flag byte and unpacking it
/// again gives back exactly the page address and the flags, as long as the
/// address fits the 56-bit physical space.
pub proof fn lemma_pte_roundtrip(paddr: u64, perm_bits: u64)
    requires
        paddr < 0x100_0000_0000_0000,
        perm_bits <= 0xFF,
    ensures
        (spec_pte_pack(paddr, perm_bits) << 2u64) & !0xFFFu64 == spec_page_down(paddr),
        spec_pte_pack(paddr, perm_bits) & 0xFFu64 == perm_bits,
{
    assert(paddr < 0x100_0000_0000_0000 && perm_bits <= 0xFF ==> ((((paddr & !0xFFFu64)
        >> 2u64) | perm_bits) << 2u64) & !0xFFFu64 == (paddr & !0xFFFu64) && (((paddr
        & !0xFFFu64) >> 2u64) | perm_bits) & 0xFFu64 == perm_bits) by (bit_vector);
}

} // verus!
