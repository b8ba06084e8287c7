use jrinx_core::devprober::{
    order_probers, DevIdent, DevProber, DeviceTree, DtNode, DtReg, ProbeKind,
};
use jrinx_core::plic::ChipKind;
use jrinx_core::platform::{root_chip, Platform};

fn node(name: &str) -> DtNode {
    DtNode {
        name: name.to_string(),
        device_type: None,
        compatible: Vec::new(),
        reg: None,
        phandle: None,
    }
}

fn compatible_node(name: &str, compat: &str, reg: DtReg, phandle: Option<usize>) -> DtNode {
    DtNode {
        name: name.to_string(),
        device_type: None,
        compatible: vec![compat.to_string()],
        reg: Some(reg),
        phandle,
    }
}

fn standard_probers() -> Vec<DevProber> {
    vec![
        DevProber::new(
            DevIdent::Compatible("ns16550a".to_string()),
            ProbeKind::Ns16550,
        ),
        DevProber::new(
            DevIdent::DeviceType("memory".to_string()),
            ProbeKind::Memory,
        ),
        DevProber::new(
            DevIdent::Compatible("sifive,plic-1.0.0".to_string()),
            ProbeKind::Plic,
        ),
        DevProber::new(
            DevIdent::Compatible("riscv,cpu-intc".to_string()),
            ProbeKind::CpuIntc,
        ),
    ]
}

fn standard_tree() -> DeviceTree {
    let mut memory = node("memory@80000000");
    memory.device_type = Some("memory".to_string());
    memory.reg = Some(DtReg { addr: 0x8000_0000, size: 0x10_0000 });
    DeviceTree {
        root_compatible: "riscv-virtio".to_string(),
        nodes: vec![
            compatible_node(
                "cpus/cpu@0/interrupt-controller",
                "riscv,cpu-intc",
                DtReg { addr: 0, size: 0 },
                None,
            ),
            compatible_node(
                "soc/plic@c000000",
                "sifive,plic-1.0.0",
                DtReg { addr: 0xC00_0000, size: 0x20B000 },
                Some(3),
            ),
            memory,
            compatible_node(
                "soc/serial@10000000",
                "ns16550a",
                DtReg { addr: 0x1000_0000, size: 0x100 },
                None,
            ),
        ],
    }
}

#[test]
fn probe_order_is_intc_plic_memory() {
    // The first prober to run is the cpu-INTC, the second the PLIC, the
    // third memory; the rest keep registration order.
    let mut probers = standard_probers();
    order_probers(&mut probers).unwrap();
    assert!(matches!(probers[0].kind, ProbeKind::CpuIntc));
    assert!(matches!(probers[1].kind, ProbeKind::Plic));
    assert!(matches!(probers[2].kind, ProbeKind::Memory));
    assert!(matches!(probers[3].kind, ProbeKind::Ns16550));
    assert_eq!(probers.len(), 4);
}

#[test]
fn probe_order_fails_without_interrupt_controller() {
    let mut probers = vec![DevProber::new(
        DevIdent::DeviceType("memory".to_string()),
        ProbeKind::Memory,
    )];
    assert!(order_probers(&mut probers).is_err());
    assert_eq!(probers.len(), 1);
}

#[test]
fn identifier_matching_is_tag_and_string() {
    let tree = standard_tree();
    let plic_ident = DevIdent::Compatible("sifive,plic-1.0.0".to_string());
    assert!(plic_ident.matches_node(&tree.nodes[1]));
    assert!(!plic_ident.matches_node(&tree.nodes[0]));
    let mem_ident = DevIdent::DeviceType("memory".to_string());
    assert!(mem_ident.matches_node(&tree.nodes[2]));
    // A compatible string is not a device type, even with equal text.
    let mem_compat = DevIdent::Compatible("memory".to_string());
    assert!(!mem_compat.matches_node(&tree.nodes[2]));
}

#[test]
fn root_compatible_selects_chip() {
    assert_eq!(root_chip(&"riscv-virtio".to_string()), Some(ChipKind::RiscvVirtio));
    assert_eq!(root_chip(&"sifive".to_string()), Some(ChipKind::Sifive));
    assert_eq!(root_chip(&"mystery-board".to_string()), None);
}

#[test]
fn single_hart_boot_probes_all_devices() {
    // One cpu-intc, one PLIC, one memory node, one ns16550a: after the
    // probe walk every core registry is populated.
    let mut platform = Platform::new();
    let tree = standard_tree();
    let mut probers = standard_probers();
    platform.probe_all(&tree, &mut probers).unwrap();

    assert_eq!(platform.root_compatible.as_deref(), Some("riscv-virtio"));
    assert_eq!(platform.chip, Some(ChipKind::RiscvVirtio));
    assert!(platform.intc.is_some());
    let plic = platform.plic.as_ref().unwrap();
    // (0x20B000 - 0x200000) / 0x1000 - 1 = 10, so 11 contexts.
    assert_eq!(plic.inner.n_contexts, 11);
    assert_eq!(platform.plic_phandle, Some(3));
    assert_eq!(platform.uart_device, Some(0));
    assert_eq!(platform.devices.len(), 1);
    let fa = platform.frame_allocator.as_ref().unwrap();
    assert_eq!(fa.free.len(), 0x100);
}

#[test]
fn probe_fails_on_plic_without_reg() {
    let mut platform = Platform::new();
    let mut tree = standard_tree();
    tree.nodes[1].reg = None;
    let mut probers = standard_probers();
    assert!(platform.probe_all(&tree, &mut probers).is_err());
}
