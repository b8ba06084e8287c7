use jrinx_core::devprober::{DevIdent, DevProber, DeviceTree, DtNode, DtReg, ProbeKind};
use jrinx_core::executor::{Executor, Task};
use jrinx_core::inspector::{Inspector, InspectorMode};
use jrinx_core::platform::{BootState, Platform, IRQ_NET, IRQ_UART};
use jrinx_core::runtime::{Runtime, RuntimeStatus};
use jrinx_core::driver::DeviceDriver;
use jrinx_core::timed_event::EventOp;

const SECOND: u64 = 1_000_000_000;

fn booted_platform() -> Platform {
    let mut memory = DtNode {
        name: "memory@80000000".to_string(),
        device_type: Some("memory".to_string()),
        compatible: Vec::new(),
        reg: Some(DtReg { addr: 0x8000_0000, size: 0x10_0000 }),
        phandle: None,
    };
    memory.device_type = Some("memory".to_string());
    let tree = DeviceTree {
        root_compatible: "riscv-virtio".to_string(),
        nodes: vec![
            DtNode {
                name: "cpus/cpu@0/interrupt-controller".to_string(),
                device_type: None,
                compatible: vec!["riscv,cpu-intc".to_string()],
                reg: None,
                phandle: None,
            },
            DtNode {
                name: "soc/plic@c000000".to_string(),
                device_type: None,
                compatible: vec!["sifive,plic-1.0.0".to_string()],
                reg: Some(DtReg { addr: 0xC00_0000, size: 0x20B000 }),
                phandle: Some(3),
            },
            memory,
            DtNode {
                name: "soc/serial@10000000".to_string(),
                device_type: None,
                compatible: vec!["ns16550a".to_string()],
                reg: Some(DtReg { addr: 0x1000_0000, size: 0x100 }),
                phandle: None,
            },
        ],
    };
    let mut probers = vec![
        DevProber::new(DevIdent::Compatible("ns16550a".to_string()), ProbeKind::Ns16550),
        DevProber::new(DevIdent::DeviceType("memory".to_string()), ProbeKind::Memory),
        DevProber::new(
            DevIdent::Compatible("sifive,plic-1.0.0".to_string()),
            ProbeKind::Plic,
        ),
        DevProber::new(DevIdent::Compatible("riscv,cpu-intc".to_string()), ProbeKind::CpuIntc),
    ];
    let mut platform = Platform::new();
    platform.probe_all(&tree, &mut probers).unwrap();
    platform
}

fn enable_bit(platform: &Platform, cpu: usize, irq: usize) -> bool {
    let plic = platform.plic.as_ref().unwrap();
    let ctx = cpu * 2 + 1;
    let word = plic.inner.enable[ctx * 32 + irq / 32];
    (word >> (irq % 32) as u32) & 1 == 1
}

#[test]
fn external_irq_round_trip() {
    // With the NS16550 bound to IRQ 10, a byte on the UART input raises the
    // line; the trap path claims 10, the handler drains the FIFO into the
    // driver buffer, completion is written, and the per-IRQ count rises.
    let mut platform = booted_platform();
    let uart_slot = platform.uart_device.unwrap();
    platform.register_device(IRQ_UART, uart_slot).unwrap();
    platform.init_strategy(0).unwrap();
    assert!(enable_bit(&platform, 0, IRQ_UART));

    platform.uart_input(b'x');
    {
        let plic = platform.plic.as_ref().unwrap();
        assert!(plic.inner.pending[IRQ_UART]);
    }

    let start = platform.external_interrupt(0, 42);
    assert_eq!(start, 42);
    let DeviceDriver::Uart(u) = &platform.devices[uart_slot];
    assert_eq!(u.buffer, vec![b'x']);
    assert!(u.input_fifo.is_empty());
    assert_eq!(platform.irq_counts.get(IRQ_UART), 1);
    assert_eq!(platform.interrupt_count[0], 1);
    let plic = platform.plic.as_ref().unwrap();
    assert!(!plic.inner.pending[IRQ_UART]);
    assert_eq!(plic.inner.claimed[1], None);
}

#[test]
fn stray_external_interrupt_claims_zero() {
    // Nothing pending: the claim is empty, no driver runs, the start time
    // reads zero.
    let mut platform = booted_platform();
    platform.init_strategy(0).unwrap();
    let start = platform.external_interrupt(0, 42);
    assert_eq!(start, 0);
    assert_eq!(platform.interrupt_count[0], 1);
    assert_eq!(platform.irq_counts.get(IRQ_UART), 0);
}

#[test]
fn dispatch_policy_min_count() {
    // With interrupt counts [0, 0, 100, 0, 0] and all task priorities
    // equal, one tick of min_count enables IRQ 10 on hart 0 — the lowest
    // id among the tied minima — and disables it on the hart it sat on.
    let mut platform = booted_platform();
    platform.init_strategy(3).unwrap();
    assert!(enable_bit(&platform, 3, IRQ_UART));
    platform.interrupt_count[2] = 100;

    platform.min_count_cpu_strategy_event(0, 0).unwrap();

    assert!(enable_bit(&platform, 0, IRQ_UART));
    assert!(!enable_bit(&platform, 3, IRQ_UART));
    // The network line lands on the runner-up, hart 1.
    assert!(enable_bit(&platform, 1, IRQ_NET));
    assert!(!enable_bit(&platform, 2, IRQ_NET));
    // The policy rescheduled itself one interval ahead.
    let ev = platform.timed_queues[0].peek_outdated(SECOND).unwrap();
    assert_eq!(ev.deadline, SECOND);
    assert_eq!(ev.handler.on_timeout, EventOp::DispatchMinCount);
}

#[test]
fn dispatch_policy_min_load() {
    // The heavier line goes to the lightest hart: with the network count
    // dominating, IRQ 8 lands on the lightest hart and the counts reset.
    let mut platform = booted_platform();
    platform.init_strategy(0).unwrap();
    platform.irq_counts.set(IRQ_NET, 9);
    platform.irq_counts.set(IRQ_UART, 2);

    platform.min_load_strategy_event(0, 0).unwrap();

    // All harts idle: priorities tie at the maximum, so hart 0 is lightest
    // and hart 1 the runner-up.
    assert!(enable_bit(&platform, 0, IRQ_NET));
    assert!(enable_bit(&platform, 1, IRQ_UART));
    assert_eq!(platform.irq_counts.get(IRQ_NET), 0);
    assert_eq!(platform.irq_counts.get(IRQ_UART), 0);
}

#[test]
fn rotate_policy_moves_the_line_around_the_ring() {
    let mut platform = booted_platform();
    platform.init_strategy(0).unwrap();
    assert_eq!(platform.rotate_index, 0);
    platform.rotate_strategy().unwrap();
    assert!(enable_bit(&platform, 0, IRQ_UART));
    assert_eq!(platform.rotate_index, 1);
    platform.rotate_strategy().unwrap();
    assert!(enable_bit(&platform, 1, IRQ_UART));
    assert!(!enable_bit(&platform, 0, IRQ_UART));
    assert_eq!(platform.rotate_index, 2);
}

#[test]
fn primary_task_reaches_first_yield_and_boot_completes() {
    // The primary task starts, yields once, and the bootstrap runtime
    // drains to its endpoint; the boot state counts the ready hart.
    let mut platform = booted_platform();
    let mut root = Executor::new(1, 0, 0);
    root.spawn(Task { id: 1, priority: 10, yields_left: 1 });
    let inspector = Inspector::new(1, InspectorMode::Bootstrap, root);
    let mut runtime = platform.runtimes.remove(0);
    runtime.register_inspector(inspector).unwrap();
    platform.runtimes.insert(0, runtime);
    platform.boot_set_ready();
    assert_eq!(platform.boot_state, BootState::Ready(1));

    let mut runtime = platform.runtimes.remove(0);
    runtime.start();
    assert_eq!(runtime.status(), RuntimeStatus::Endpoint);
    platform.runtimes.insert(0, runtime);
}

#[test]
fn uart_write_str_expands_newlines() {
    let mut platform = booted_platform();
    let slot = platform.uart_device.unwrap();
    let mut dev = platform.devices.remove(slot);
    let DeviceDriver::Uart(u) = &mut dev;
    u.write_str("ok\n");
    assert_eq!(u.output, vec![b'o', b'k', b'\r', b'\n']);
    platform.devices.insert(slot, dev);
}

#[test]
fn timer_interrupt_runs_the_scheduled_policy() {
    // A min_count event fired by the timer rebalances the lines and puts
    // its own successor back on the queue.
    let mut platform = booted_platform();
    platform.init_strategy(3).unwrap();
    platform.interrupt_count[2] = 100;
    platform.min_count_strategy(0, 0);

    let next = platform.timer_interrupt(0, SECOND);

    assert!(enable_bit(&platform, 0, IRQ_UART));
    assert!(!enable_bit(&platform, 3, IRQ_UART));
    assert!(enable_bit(&platform, 1, IRQ_NET));
    // The policy rescheduled itself one interval after its firing time.
    assert_eq!(next, Some(2 * SECOND));
}
