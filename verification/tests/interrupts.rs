use jrinx_core::driver::DeviceDriver;
use jrinx_core::intc::Intc;
use jrinx_core::irq_manager::IrqManager;
use jrinx_core::plic::{get_context_id, ChipKind, Plic};
use jrinx_core::uart::NS16550a;
use jrinx_core::IRQ_MAX;

fn plic_with_contexts() -> Plic {
    // Contexts 0..=11 cover harts 0..5 under the riscv-virtio mapping.
    Plic::new(0xC00_0000, 11, ChipKind::RiscvVirtio)
}

fn enable_word(plic: &Plic, ctx: usize, irq: usize) -> bool {
    let word = plic.inner.enable[ctx * 32 + irq / 32];
    (word >> (irq % 32) as u32) & 1 == 1
}

#[test]
fn context_mapping_riscv_virtio() {
    assert_eq!(get_context_id(ChipKind::RiscvVirtio, 0), Ok(1));
    assert_eq!(get_context_id(ChipKind::RiscvVirtio, 4), Ok(9));
}

#[test]
fn context_mapping_sifive_rejects_hart_zero() {
    assert!(get_context_id(ChipKind::Sifive, 0).is_err());
    assert_eq!(get_context_id(ChipKind::Sifive, 2), Ok(4));
}

#[test]
fn plic_enable_rmw_sets_both_bits() {
    // After enable(h, a) and enable(h, b), both bits are set.
    let mut plic = plic_with_contexts();
    plic.enable(1, 7).unwrap();
    plic.enable(1, 9).unwrap();
    let ctx = 3; // hart 1 -> context 3
    assert!(enable_word(&plic, ctx, 7));
    assert!(enable_word(&plic, ctx, 9));
    // After disable(h, a), only a is cleared; b and far-away bits unchanged.
    plic.enable(2, 100).unwrap();
    plic.disable(1, 7).unwrap();
    assert!(!enable_word(&plic, ctx, 7));
    assert!(enable_word(&plic, ctx, 9));
    assert!(enable_word(&plic, 5, 100));
}

#[test]
fn plic_enable_rejects_bad_inputs() {
    let mut plic = plic_with_contexts();
    assert!(plic.enable(1, 0).is_err());
    assert!(plic.enable(1, IRQ_MAX).is_err());
    // Context 2*100+1 is outside a 12-context controller.
    assert!(plic.enable(100, 7).is_err());
}

#[test]
fn plic_construction_disables_everything() {
    let plic = plic_with_contexts();
    for ctx in 0..11 {
        for irq in [1usize, 8, 10, 31, 32, 1023] {
            assert!(!enable_word(&plic, ctx, irq));
        }
        assert_eq!(plic.inner.threshold[ctx], 0);
    }
}

#[test]
fn irq_manager_binds_in_range_only() {
    let mut manager = IrqManager::new(1, IRQ_MAX);
    manager.register_device(0, 5);
    assert_eq!(manager.table[0], None);
    manager.register_device(IRQ_MAX, 5);
    manager.register_device(10, 5);
    assert_eq!(manager.table[10], Some(5));
    // An existing binding is overwritten.
    manager.register_device(10, 6);
    assert_eq!(manager.table[10], Some(6));
    manager.unregister_device(10);
    assert_eq!(manager.table[10], None);
}

#[test]
fn irq_manager_dispatches_bound_driver_exactly_once() {
    // P1: after register_device(irq, d), handle(irq) runs d's handler
    // exactly once per claim, and handle(0) never runs any driver.
    let mut manager = IrqManager::new(1, IRQ_MAX);
    let mut uart = NS16550a::new(0x1000_0000);
    uart.receive_byte(0x41);
    uart.receive_byte(0x42);
    let mut devices = vec![DeviceDriver::Uart(uart)];
    manager.register_device(10, 0);

    let start = manager.handle_irq(10, &mut devices, 777);
    assert_eq!(start, 777);
    let DeviceDriver::Uart(u) = &devices[0];
    assert_eq!(u.buffer, vec![0x41, 0x42]);
    assert!(u.input_fifo.is_empty());

    // A second dispatch drains nothing more: the first ran exactly once.
    let start = manager.handle_irq(10, &mut devices, 888);
    assert_eq!(start, 888);
    let DeviceDriver::Uart(u) = &devices[0];
    assert_eq!(u.buffer, vec![0x41, 0x42]);

    // IRQ 0 and unbound lines dispatch nothing and report zero.
    assert_eq!(manager.handle_irq(0, &mut devices, 999), 0);
    assert_eq!(manager.handle_irq(55, &mut devices, 999), 0);
}

#[test]
fn plic_claim_prefers_priority_then_lowest_line() {
    let mut plic = plic_with_contexts();
    plic.inner.set_priority(7, 1);
    plic.inner.set_priority(9, 7);
    plic.inner.set_priority(12, 7);
    plic.inner.enable(3, 7);
    plic.inner.enable(3, 9);
    plic.inner.enable(3, 12);
    plic.inner.pending[7] = true;
    plic.inner.pending[9] = true;
    plic.inner.pending[12] = true;
    // Highest priority wins; the lowest line number breaks the tie.
    assert_eq!(plic.inner.get_current_cpu_claim(3), Some(9));
    assert_eq!(plic.inner.claimed[3], Some(9));
    assert!(!plic.inner.pending[9]);
    // Completion must name the claimed line.
    plic.inner.end_of_interrupt(9, 3);
    assert_eq!(plic.inner.claimed[3], None);
    // Next claim takes the next line.
    assert_eq!(plic.inner.get_current_cpu_claim(3), Some(12));
}

#[test]
fn plic_claim_of_nothing_is_none() {
    let mut plic = plic_with_contexts();
    assert_eq!(plic.inner.get_current_cpu_claim(1), None);
}

#[test]
fn intc_enable_sets_exactly_one_bit() {
    let mut intc = Intc::new();
    intc.enable(2, 1).unwrap();
    intc.enable(2, 9).unwrap();
    assert!(intc.sie[2].soft);
    assert!(!intc.sie[2].timer);
    assert!(intc.sie[2].external);
    assert!(!intc.sie[1].soft);
    intc.disable(2, 1).unwrap();
    assert!(!intc.sie[2].soft);
    assert!(intc.sie[2].external);
}

#[test]
fn intc_rejects_unknown_codes() {
    let mut intc = Intc::new();
    assert!(intc.enable(0, 2).is_err());
    assert!(intc.disable(0, 11).is_err());
}

#[test]
fn plic_info_reads_enable_and_threshold() {
    let mut plic = plic_with_contexts();
    plic.enable(1, 7).unwrap();
    let info = plic.info();
    assert_eq!(info.enables.len(), 5);
    assert_eq!(info.thresholds.len(), 5);
    // Hart 1's context has bit 7 of its first enable word set.
    assert_eq!(info.enables[1], 1 << 7);
    assert_eq!(info.enables[0], 0);
    assert_eq!(info.thresholds[1], 0);
}
