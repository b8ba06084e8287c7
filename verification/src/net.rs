//! The network-facing plain types the core hands across its boundary.
//!
//! The network stack itself is an external collaborator; the core only
//! carries these values through its interfaces.

use vstd::prelude::*;

verus! {

/// A NIC's ethernet address.
pub struct EthernetAddress(pub [u8; 6]);

/// How a polled socket can be used next.
#[derive(Clone, Copy, Debug, PartialEq, Eq, Structural)]
pub struct PollState {
    /// Whether the socket can be read or accepted on.
    pub readable: bool,
    /// Whether the socket can be written to.
    pub writable: bool,
}

/// A raw network buffer handed between driver and stack: the address of
/// the owning object, the address of the packet bytes, and their length.
#[derive(Clone, Copy, Debug, PartialEq, Eq, Structural)]
pub struct NetBufPtr {
    /// Address of the original buffer object.
    pub obj_addr: u64,
    /// Address of the packet bytes.
    pub buf_ptr: u64,
    pub len: usize,
}

impl NetBufPtr {
    pub fn new(obj_addr: u64, buf_ptr: u64, len: usize) -> (r: Self)
        ensures
            r.obj_addr == obj_addr,
            r.buf_ptr == buf_ptr,
            r.len == len,
    {
        NetBufPtr { obj_addr, buf_ptr, len }
    }

    /// Address of the original buffer object.
    pub fn object_addr(&self) -> (r: u64)
        ensures
            r == self.obj_addr,
    {
        self.obj_addr
    }

    /// Length of the packet held in the buffer.
    pub fn packet_len(&self) -> (r: usize)
        ensures
            r == self.len,
    {
        self.len
    }
}

} // verus!
