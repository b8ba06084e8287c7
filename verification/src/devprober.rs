//! The device-probe registry and the boot-time probe order.
//!
//! The device tree is held as plain values: for each node, its name, its
//! `device_type`, its `compatible` strings, its first `reg` region and its
//! `phandle`. A prober pairs a device identifier with the construction step
//! to run on each matching node. Before any prober runs the list is
//! reordered so that the cpu-INTC comes first, the PLIC second and the
//! memory node third: an interrupt controller must exist before drivers
//! that register devices on it.

use vstd::prelude::*;

use crate::error::InternalError;

verus! {

/// One `reg` region of a device-tree node.
#[derive(Clone, Copy, Debug, PartialEq, Eq, Structural)]
pub struct DtReg {
    pub addr: u64,
    pub size: u64,
}

/// What the probe logic reads out of one device-tree node.
pub struct DtNode {
    pub name: String,
    pub device_type: Option<String>,
    pub compatible: Vec<String>,
    pub reg: Option<DtReg>,
    pub phandle: Option<usize>,
}

/// The flattened device tree as the probe logic consumes it.
pub struct DeviceTree {
    /// First string of the root node's `compatible` property.
    pub root_compatible: String,
    pub nodes: Vec<DtNode>,
}

/// A device identifier: either a `device_type` value or a `compatible`
/// string. Two identifiers are the same only if both the tag and the
/// string agree.
pub enum DevIdent {
    DeviceType(String),
    Compatible(String),
}

impl DevIdent {
    /// Whether this identifier selects the given node.
    pub open spec fn spec_matches(self, node: DtNode) -> bool {
        match self {
            DevIdent::DeviceType(t) => node.device_type matches Some(d) && d@ == t@,
            DevIdent::Compatible(c) => exists|k: int|
                0 <= k < node.compatible@.len() && (#[trigger] node.compatible@[k])@ == c@,
        }
    }

    /// Whether this identifier carries the given tag and string.
    pub open spec fn spec_is_device_type(self, s: Seq<char>) -> bool {
        self matches DevIdent::DeviceType(t) && t@ == s
    }

    pub open spec fn spec_is_compatible(self, s: Seq<char>) -> bool {
        self matches DevIdent::Compatible(c) && c@ == s
    }

    /// Whether this identifier selects the node, decided over the node's
    /// properties.
    pub fn matches_node(&self, node: &DtNode) -> (r: bool)
        ensures
            r == self.spec_matches(*node),
    {
        match self {
            DevIdent::DeviceType(t) => {
                match &node.device_type {
                    Some(d) => *d == *t,
                    None => false,
                }
            },
            DevIdent::Compatible(c) => {
                let mut k: usize = 0;
                let mut found = false;
                while k < node.compatible.len()
                    invariant
                        k <= node.compatible@.len(),
                        found == exists|j: int|
                            0 <= j < k && (#[trigger] node.compatible@[j])@ == c@,
                    decreases node.compatible@.len() - k,
                {
                    if *(&node.compatible[k]) == *c {
                        found = true;
                    }
                    k = k + 1;
                }
                found
            },
        }
    }

    /// Whether this is `Compatible(s)` for the given string.
    pub fn is_compatible_str(&self, s: &String) -> (r: bool)
        ensures
            r == self.spec_is_compatible(s@),
    {
        match self {
            DevIdent::Compatible(c) => *c == *s,
            DevIdent::DeviceType(_) => false,
        }
    }

    /// Whether this is `DeviceType(s)` for the given string.
    pub fn is_device_type_str(&self, s: &String) -> (r: bool)
        ensures
            r == self.spec_is_device_type(s@),
    {
        match self {
            DevIdent::DeviceType(t) => *t == *s,
            DevIdent::Compatible(_) => false,
        }
    }
}

/// The construction step a prober performs on each node it matches.
#[derive(Clone, Copy, Debug, PartialEq, Eq, Structural)]
pub enum ProbeKind {
    /// Instantiate the hart-local interrupt controller.
    CpuIntc,
    /// Instantiate the PLIC and publish it in the IRQ table.
    Plic,
    /// Hand the RAM region to the frame allocator.
    Memory,
    /// Instantiate the NS16550 UART driver.
    Ns16550,
}

/// One registered device prober.
pub struct DevProber {
    pub ident: DevIdent,
    pub kind: ProbeKind,
}

impl DevProber {
    pub fn new(ident: DevIdent, kind: ProbeKind) -> (r: Self)
        ensures
            r.ident == ident,
            r.kind == kind,
    {
        DevProber { ident, kind }
    }
}

/// Whether a prober list opens with the required boot order: the cpu-INTC
/// first, then the PLIC, then memory.
pub open spec fn spec_boot_order(s: Seq<DevProber>) -> bool {
    &&& s.len() >= 3
    &&& s[0].ident.spec_is_compatible("riscv,cpu-intc"@)
    &&& (s[1].ident.spec_is_compatible("sifive,plic-1.0.0"@) || s[1].ident.spec_is_compatible(
        "riscv,plic0"@,
    ))
    &&& s[2].ident.spec_is_device_type("memory"@)
}


/// Whether the registry lacks one of the probers the boot order requires.
pub open spec fn spec_missing_required_prober(s: Seq<DevProber>) -> bool {
    ||| (forall|i: int|
        0 <= i < s.len() ==> !(#[trigger] s[i]).ident.spec_is_compatible("riscv,cpu-intc"@))
    ||| (forall|i: int|
        0 <= i < s.len() ==> !((#[trigger] s[i]).ident.spec_is_compatible("sifive,plic-1.0.0"@)
            || s[i].ident.spec_is_compatible("riscv,plic0"@)))
    ||| (forall|i: int|
        0 <= i < s.len() ==> !(#[trigger] s[i]).ident.spec_is_device_type("memory"@))
}

/// The registered probers with the entries at the three given positions
/// taken out, the others keeping their registration order.
pub open spec fn spec_rest(s: Seq<DevProber>, a: int, b: int, c: int) -> Seq<DevProber> {
    let hi = if a >= b && a >= c { a } else if b >= c { b } else { c };
    let lo = if a <= b && a <= c { a } else if b <= c { b } else { c };
    let mid = a + b + c - hi - lo;
    s.remove(hi).remove(mid).remove(lo)
}

/// Reorder the registered probers into the required boot order: the first
/// cpu-INTC prober moves to the front, the first PLIC prober second, the
/// first memory prober third, and the remainder keeps its registration
/// order behind them. Fails with `DevProbeError`, changing nothing,
/// exactly when one of the three is missing.
#[verifier::rlimit(80)]
pub fn order_probers(probers: &mut Vec<DevProber>) -> (r: Result<(), InternalError>)
    ensures
        match r {
            Ok(()) => {
                &&& spec_boot_order(final(probers)@)
                &&& final(probers)@.len() == old(probers)@.len()
                &&& exists|i0: int, p: int, m: int|
                    {
                        &&& 0 <= i0 < old(probers)@.len()
                        &&& 0 <= p < old(probers)@.len()
                        &&& 0 <= m < old(probers)@.len()
                        &&& i0 != p && i0 != m && p != m
                        &&& (#[trigger] old(probers)@[i0]).ident.spec_is_compatible(
                            "riscv,cpu-intc"@,
                        )
                        &&& ((#[trigger] old(probers)@[p]).ident.spec_is_compatible(
                            "sifive,plic-1.0.0"@,
                        ) || old(probers)@[p].ident.spec_is_compatible("riscv,plic0"@))
                        &&& (#[trigger] old(probers)@[m]).ident.spec_is_device_type("memory"@)
                        &&& final(probers)@ == seq![
                            old(probers)@[i0],
                            old(probers)@[p],
                            old(probers)@[m],
                        ] + spec_rest(old(probers)@, i0, p, m)
                    }
            },
            Err(e) => {
                &&& e == InternalError::DevProbeError
                &&& final(probers)@ == old(probers)@
                &&& spec_missing_required_prober(old(probers)@)
            },
        },
        r is Ok <==> !spec_missing_required_prober(old(probers)@),
{
    let intc_index = match find_compatible(probers, "riscv,cpu-intc") {
        Some(i) => i,
        None => {
            return Err(InternalError::DevProbeError);
        },
    };
    let plic_index = match find_compatible(probers, "sifive,plic-1.0.0") {
        Some(i) => Some(i),
        None => find_compatible(probers, "riscv,plic0"),
    };
    let plic_index = match plic_index {
        Some(i) => i,
        None => {
            return Err(InternalError::DevProbeError);
        },
    };
    let memory_index = match find_device_type(probers, "memory") {
        Some(i) => i,
        None => {
            return Err(InternalError::DevProbeError);
        },
    };
    proof {
        reveal_strlit("riscv,cpu-intc");
        reveal_strlit("sifive,plic-1.0.0");
        reveal_strlit("riscv,plic0");
        assert("riscv,cpu-intc"@.len() == 14);
        assert("sifive,plic-1.0.0"@.len() == 17);
        assert("riscv,plic0"@.len() == 11);
        assert(intc_index != plic_index && intc_index != memory_index && plic_index
            != memory_index);
    }
    // Take the three out, largest position first so the other two stay
    // where they were found.
    let ghost orig = probers@;
    let (hi, mid, lo) = sort3_desc(intc_index, plic_index, memory_index);
    let v_hi = probers.remove(hi);
    let v_mid = probers.remove(mid);
    let v_lo = probers.remove(lo);
    proof {
        assert(probers@ =~= spec_rest(orig, intc_index as int, plic_index as int,
            memory_index as int));
    }
    // Put them back at the front in the required boot order.
    let (intc_p, plic_p, memory_p) = if hi == intc_index {
        if mid == plic_index {
            (v_hi, v_mid, v_lo)
        } else {
            (v_hi, v_lo, v_mid)
        }
    } else if hi == plic_index {
        if mid == intc_index {
            (v_mid, v_hi, v_lo)
        } else {
            (v_lo, v_hi, v_mid)
        }
    } else {
        if mid == intc_index {
            (v_mid, v_lo, v_hi)
        } else {
            (v_lo, v_mid, v_hi)
        }
    };
    probers.insert(0, memory_p);
    probers.insert(0, plic_p);
    probers.insert(0, intc_p);
    proof {
        assert(probers@ =~= seq![orig[intc_index as int], orig[plic_index as int], orig[
            memory_index as int]] + spec_rest(orig, intc_index as int, plic_index as int,
            memory_index as int));
    }
    Ok(())
}

/// The three indices in descending order.
fn sort3_desc(a: usize, b: usize, c: usize) -> (r: (usize, usize, usize))
    ensures
        r.0 >= r.1 >= r.2,
        r.0 + r.1 + r.2 == a + b + c,
        (r.0 == a || r.0 == b || r.0 == c) && (r.1 == a || r.1 == b || r.1 == c) && (r.2 == a
            || r.2 == b || r.2 == c),
        a != b && a != c && b != c ==> r.0 > r.1 > r.2,
{
    if a >= b && a >= c {
        if b >= c {
            (a, b, c)
        } else {
            (a, c, b)
        }
    } else if b >= a && b >= c {
        if a >= c {
            (b, a, c)
        } else {
            (b, c, a)
        }
    } else {
        if a >= b {
            (c, a, b)
        } else {
            (c, b, a)
        }
    }
}

/// Index of the first prober whose identifier is `Compatible(s)`.
fn find_compatible(probers: &Vec<DevProber>, s: &str) -> (r: Option<usize>)
    ensures
        match r {
            Some(i) => {
                &&& i < probers@.len()
                &&& probers@[i as int].ident.spec_is_compatible(s@)
                &&& forall|j: int|
                    0 <= j < i ==> !(#[trigger] probers@[j]).ident.spec_is_compatible(s@)
            },
            None => forall|j: int|
                0 <= j < probers@.len() ==> !(#[trigger] probers@[j]).ident.spec_is_compatible(
                    s@,
                ),
        },
{
    let key = s.to_owned();
    let mut i: usize = 0;
    while i < probers.len()
        invariant
            key@ == s@,
            i <= probers@.len(),
            forall|j: int| 0 <= j < i ==> !(#[trigger] probers@[j]).ident.spec_is_compatible(s@),
        decreases probers@.len() - i,
    {
        if probers[i].ident.is_compatible_str(&key) {
            return Some(i);
        }
        i = i + 1;
    }
    None
}

/// Index of the first prober whose identifier is `DeviceType(s)`.
fn find_device_type(probers: &Vec<DevProber>, s: &str) -> (r: Option<usize>)
    ensures
        match r {
            Some(i) => {
                &&& i < probers@.len()
                &&& probers@[i as int].ident.spec_is_device_type(s@)
                &&& forall|j: int|
                    0 <= j < i ==> !(#[trigger] probers@[j]).ident.spec_is_device_type(s@)
            },
            None => forall|j: int|
                0 <= j < probers@.len() ==> !(#[trigger] probers@[j]).ident.spec_is_device_type(
                    s@,
                ),
        },
{
    let key = s.to_owned();
    let mut i: usize = 0;
    while i < probers.len()
        invariant
            key@ == s@,
            i <= probers@.len(),
            forall|j: int| 0 <= j < i ==> !(#[trigger] probers@[j]).ident.spec_is_device_type(s@),
        decreases probers@.len() - i,
    {
        if probers[i].ident.is_device_type_str(&key) {
            return Some(i);
        }
        i = i + 1;
    }
    None
}

} // verus!
