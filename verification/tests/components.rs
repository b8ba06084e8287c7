use jrinx_core::dispatch::IrqCounts;
use jrinx_core::error::InternalError;
use jrinx_core::io::{Io, Mmio, ReadOnly, WriteOnly};
use jrinx_core::net::{EthernetAddress, NetBufPtr, PollState};
use jrinx_core::uart::NS16550a;
use jrinx_core::util::FastPriorityQueue;

#[test]
fn mmio_cell_reads_back_writes() {
    let mut reg: Mmio<u32> = Mmio::new(0);
    reg.write(0xDEAD_BEEF);
    assert_eq!(reg.read(), 0xDEAD_BEEF);
}

#[test]
fn read_only_and_write_only_restrict_access() {
    let ro = ReadOnly::new(Mmio::new(7u8));
    assert_eq!(ro.read(), 7);
    let mut wo = WriteOnly::new(Mmio::new(0u8));
    wo.write(9);
    assert_eq!(wo.inner.read(), 9);
}

#[test]
fn priority_queue_orders_by_priority_then_arrival() {
    let mut q = FastPriorityQueue::new();
    assert!(q.is_empty());
    q.enqueue(1, 100);
    q.enqueue(5, 200);
    q.enqueue(5, 201);
    q.enqueue(3, 300);
    assert_eq!(q.len(), 4);
    assert_eq!(q.dequeue(), Some((5, 200)));
    assert_eq!(q.dequeue(), Some((5, 201)));
    assert_eq!(q.dequeue(), Some((3, 300)));
    assert_eq!(q.dequeue(), Some((1, 100)));
    assert_eq!(q.dequeue(), None);
}

#[test]
fn irq_counts_wrap_at_the_type_end() {
    let mut counts = IrqCounts::new();
    counts.inc(10);
    counts.inc(10);
    assert_eq!(counts.get(10), 2);
    counts.set(10, i32::MAX);
    counts.inc(10);
    assert_eq!(counts.get(10), i32::MIN);
}

#[test]
fn uart_read_is_fifo_ordered() {
    let mut uart = NS16550a::new(0x1000_0000);
    assert_eq!(uart.read(), None);
    uart.receive_byte(1);
    uart.receive_byte(2);
    assert_eq!(uart.read(), Some(1));
    assert_eq!(uart.read(), Some(2));
    assert_eq!(uart.read(), None);
    assert_eq!(uart.interrupt_enable, 1);
    assert_eq!(uart.fifo_control, 0xC7);
}

#[test]
fn net_buf_ptr_carries_plain_values() {
    let buf = NetBufPtr::new(0x100, 0x140, 60);
    assert_eq!(buf.object_addr(), 0x100);
    assert_eq!(buf.packet_len(), 60);
    let mac = EthernetAddress([1, 2, 3, 4, 5, 6]);
    assert_eq!(mac.0[5], 6);
    let state = PollState { readable: true, writable: false };
    assert!(state.readable && !state.writable);
}

#[test]
fn error_variants_distinguish() {
    assert_ne!(InternalError::DevProbeError, InternalError::DevWriteError);
    assert_eq!(InternalError::NotEnoughMem, InternalError::NotEnoughMem);
}
