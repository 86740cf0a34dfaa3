use dillo::devtree::{Node, Property};
use dillo::platform::error::{ControllerKind, SurveyError};
use dillo::platform::plan::{overlaps, RegionKind, ResourcePlan};
use dillo::platform::survey::Machine;
use dillo::platform::topology::Arch;
use dillo::substrate::{Aarch64Substrate, GicParams, SubstrateError, WhpX86Substrate};

trait BuildProperty {
    fn with_u32(self, value: u32) -> Self;
    fn with_u32s(self, values: &[u32]) -> Self;
    fn with_str(self, value: &str) -> Self;
    fn with_strs(self, values: &[&str]) -> Self;
    fn set_u32(&mut self, value: u32);
    fn set_u32s(&mut self, values: &[u32]);
}

impl BuildProperty for Property {
    fn with_u32(self, value: u32) -> Self {
        self.with_u32s(&[value])
    }

    fn with_u32s(mut self, values: &[u32]) -> Self {
        self.set_u32s(values);
        self
    }

    fn with_str(self, value: &str) -> Self {
        self.with_strs(&[value])
    }

    fn with_strs(mut self, values: &[&str]) -> Self {
        for value in values {
            self.value.extend_from_slice(value.as_bytes());
            self.value.push(0);
        }
        self
    }

    fn set_u32(&mut self, value: u32) {
        self.set_u32s(&[value]);
    }

    fn set_u32s(&mut self, values: &[u32]) {
        self.value.clear();
        for value in values {
            self.value.extend_from_slice(&value.to_be_bytes());
        }
    }
}

trait BuildNode {
    fn with_property(self, property: Property) -> Self;
    fn with_child(self, child: Node) -> Self;
    fn set_property(&mut self, property: Property);
    fn set_child(&mut self, child: Node);
    fn remove_child(&mut self, name: &str);
    fn child_mut(&mut self, name: &str) -> Option<&mut Node>;
    fn property_mut(&mut self, name: &str) -> Option<&mut Property>;
}

impl BuildNode for Node {
    fn with_property(mut self, property: Property) -> Self {
        self.set_property(property);
        self
    }

    fn with_child(mut self, child: Node) -> Self {
        self.set_child(child);
        self
    }

    fn set_property(&mut self, property: Property) {
        self.properties.retain(|p| p.name != property.name);
        self.properties.push(property);
    }

    fn set_child(&mut self, child: Node) {
        self.children.retain(|c| c.name != child.name);
        self.children.push(child);
    }

    fn remove_child(&mut self, name: &str) {
        self.children.retain(|c| c.name != name);
    }

    fn child_mut(&mut self, name: &str) -> Option<&mut Node> {
        self.children.iter_mut().find(|c| c.name == name)
    }

    fn property_mut(&mut self, name: &str) -> Option<&mut Property> {
        self.properties.iter_mut().find(|p| p.name == name)
    }
}

// GICD 0x0800_0000/0x1_0000, GICR 0x0810_0000/0x200_0000.
const GICD_BASE: u64 = 0x0800_0000;
const GICR_BASE: u64 = 0x0810_0000;
const V2M_BASE: u64 = 0x0A10_0000;
const SERIAL_BASE: u64 = 0x0A20_0000;
const VIRTIO_BASE: u64 = 0x0A30_0000;
const ECAM_BASE: u64 = 0x0C00_0000;
const PCI_MMIO_BASE: u64 = 0x0C10_0000;

fn reg2(base: u64, size: u64) -> Vec<u32> {
    vec![
        (base >> 32) as u32,
        base as u32,
        (size >> 32) as u32,
        size as u32,
    ]
}

/// An aarch64 base tree with a serial port and one virtio-mmio slot.
fn base_root() -> Node {
    let mut intc_reg = reg2(GICD_BASE, 0x1_0000);
    intc_reg.extend(reg2(GICR_BASE, 0x200_0000));

    let intc = Node::new("interrupt-controller@8000000")
        .with_property(Property::new("compatible").with_str("arm,gic-v3"))
        .with_property(Property::new("#interrupt-cells").with_u32(3))
        .with_property(Property::new("interrupt-controller"))
        .with_property(Property::new("reg").with_u32s(&intc_reg))
        .with_property(Property::new("phandle").with_u32(1));

    let v2m = Node::new("msi-controller@a100000")
        .with_property(Property::new("compatible").with_str("arm,gic-v2m-frame"))
        .with_property(Property::new("msi-controller"))
        .with_property(Property::new("reg").with_u32s(&reg2(V2M_BASE, 0x1_0000)))
        .with_property(Property::new("arm,msi-base-spi").with_u32(64))
        .with_property(Property::new("arm,msi-num-spis").with_u32(32))
        .with_property(Property::new("phandle").with_u32(3));

    let timer = Node::new("timer")
        .with_property(Property::new("compatible").with_str("arm,armv8-timer"))
        .with_property(
            Property::new("interrupts")
                .with_u32s(&[1, 13, 0xff08, 1, 14, 0xff08, 1, 11, 0xff08, 1, 10, 0xff08]),
        )
        .with_property(Property::new("interrupt-parent").with_u32(1))
        .with_property(Property::new("always-on"));

    let psci = Node::new("psci")
        .with_property(
            Property::new("compatible").with_strs(&["arm,psci-1.0", "arm,psci-0.2"]),
        )
        .with_property(Property::new("method").with_str("hvc"));

    let serial = Node::new("serial@9000000")
        .with_property(Property::new("compatible").with_str("ns16550a"))
        .with_property(Property::new("reg").with_u32s(&reg2(SERIAL_BASE, 0x1000)))
        .with_property(Property::new("reg-shift").with_u32(2))
        .with_property(Property::new("reg-io-width").with_u32(4))
        .with_property(Property::new("clock-frequency").with_u32(3_686_400))
        .with_property(Property::new("current-speed").with_u32(115_200))
        .with_property(Property::new("interrupt-parent").with_u32(1))
        .with_property(Property::new("interrupts").with_u32s(&[0, 1, 4]));

    let virtio = Node::new("virtio_mmio@a000000")
        .with_property(Property::new("compatible").with_str("virtio,mmio"))
        .with_property(Property::new("reg").with_u32s(&reg2(VIRTIO_BASE, 0x200)))
        .with_property(Property::new("interrupt-parent").with_u32(1))
        .with_property(Property::new("interrupts").with_u32s(&[0, 16, 1]));

    let pci = Node::new("pcie@c000000")
        .with_property(Property::new("compatible").with_str("pci-host-ecam-generic"))
        .with_property(Property::new("device_type").with_str("pci"))
        .with_property(Property::new("reg").with_u32s(&reg2(ECAM_BASE, 0x10_0000)))
        .with_property(Property::new("bus-range").with_u32s(&[0, 0]))
        .with_property(Property::new("#address-cells").with_u32(3))
        .with_property(Property::new("#size-cells").with_u32(2))
        .with_property(Property::new("ranges").with_u32s(&[
            0x0300_0000,
            0,
            PCI_MMIO_BASE as u32,
            0,
            PCI_MMIO_BASE as u32,
            0,
            0x03F0_0000,
        ]))
        .with_property(Property::new("dma-coherent"))
        .with_property(Property::new("msi-parent").with_u32(3));

    Node::new("")
        .with_property(Property::new("#address-cells").with_u32(2))
        .with_property(Property::new("#size-cells").with_u32(2))
        .with_property(Property::new("model").with_str("Arma Virtual Platform"))
        .with_property(Property::new("compatible").with_str("arma,v1"))
        .with_child(
            Node::new("chosen")
                .with_property(
                    Property::new("bootargs").with_str("earlycon console=ttyS0"),
                )
                .with_property(Property::new("stdout-path").with_str("serial0:115200n8")),
        )
        .with_child(
            Node::new("aliases")
                .with_property(Property::new("serial0").with_str("/serial@9000000")),
        )
        .with_child(intc)
        .with_child(v2m)
        .with_child(timer)
        .with_child(psci)
        .with_child(serial)
        .with_child(virtio)
        .with_child(pci)
}

#[test]
fn base_drains_to_empty_and_binds_devices() {
    let m = Machine::survey(base_root(), Arch::Aarch64).expect("survey ok");

    let uart = m.uart.as_ref().expect("uart present");
    assert_eq!(uart.base, SERIAL_BASE);
    assert_eq!(uart.size, 0x1000);
    assert_eq!(uart.reg_shift, 2);
    assert_eq!(uart.irq, 1);

    assert_eq!(m.virtio_mmio.len(), 1);
    assert_eq!(m.virtio_mmio[0].base, VIRTIO_BASE);
    assert_eq!(m.virtio_mmio[0].size, 0x200);
    assert_eq!(m.virtio_mmio[0].irq, 16);

    assert!(m.has_pcie);
    assert_eq!(m.pcie.ecam_base, ECAM_BASE);
    assert_eq!(m.pcie.mmio_base, PCI_MMIO_BASE);

    // Regions: GICD, GICR, MSI frame, serial, virtio-mmio, ECAM, PCI MMIO.
    assert_eq!(m.plan.regions().len(), 7);
    assert_eq!(
        m.placement_regions(),
        vec![
            (GICD_BASE, 0x1_0000),
            (GICR_BASE, 0x200_0000),
            (V2M_BASE, 0x1_0000),
            (SERIAL_BASE, 0x1000),
            (VIRTIO_BASE, 0x200),
            (ECAM_BASE, 0x10_0000),
            (PCI_MMIO_BASE, 0x03F0_0000),
        ]
    );
    assert_eq!(
        m.min_addr_space_bits(),
        (PCI_MMIO_BASE + 2 * 0x03F0_0000)
            .next_power_of_two()
            .ilog2()
    );
}

#[test]
fn base_without_serial_has_no_uart_and_still_drains() {
    let mut root = base_root();
    root.remove_child("serial@9000000");
    let m = Machine::survey(root, Arch::Aarch64).expect("survey ok");
    assert!(m.uart.is_none());
    // GICD, GICR, MSI frame, virtio-mmio, ECAM, PCI MMIO; no serial.
    assert_eq!(m.plan.regions().len(), 6);
}

#[test]
fn firecracker_style_no_pci_drains_to_empty() {
    // A microVM with no PCIe bridge and several virtio-mmio slots.
    let mut root = base_root();
    root.remove_child("pcie@c000000");
    for (i, addr) in [0x0A40_0000u64, 0x0A41_0000, 0x0A42_0000]
        .iter()
        .enumerate()
    {
        root.set_child(
            Node::new(&format!("virtio_mmio@{addr:x}"))
                .with_property(Property::new("compatible").with_str("virtio,mmio"))
                .with_property(Property::new("reg").with_u32s(&reg2(*addr, 0x200)))
                .with_property(Property::new("interrupt-parent").with_u32(1))
                .with_property(Property::new("interrupts").with_u32s(&[
                    0,
                    17 + i as u32,
                    1,
                ])),
        );
    }
    let m = Machine::survey(root, Arch::Aarch64).expect("survey ok");
    assert!(!m.has_pcie);
    assert_eq!(m.pcie.ecam_base, 0); // ZEROED sentinel
    assert_eq!(m.virtio_mmio.len(), 4);
    assert_eq!(
        m.virtio_mmio
            .iter()
            .map(|slot| slot.irq)
            .collect::<Vec<_>>(),
        vec![16, 17, 18, 19]
    );
    assert_eq!(
        m.min_addr_space_bits(),
        (0x0A42_0000u64 + 0x200).next_power_of_two().ilog2()
    );
    // GICD, GICR, MSI frame, serial, four virtio-mmio (1 base + 3 added).
    assert_eq!(m.plan.regions().len(), 8);
}

#[test]
fn aarch64_missing_interrupt_parent_is_rejected() {
    let mut root = base_root();
    root.child_mut("serial@9000000")
        .unwrap()
        .remove_property("interrupt-parent");

    let err = Machine::survey(root, Arch::Aarch64).unwrap_err();
    assert!(
        matches!(
            err,
            SurveyError::MissingProperty {
                ref node,
                prop: "interrupt-parent"
            } if node == "/serial"
        ),
        "got {err:?}"
    );
}

#[test]
fn aarch64_unknown_interrupt_parent_is_rejected() {
    let mut root = base_root();
    root.child_mut("serial@9000000")
        .unwrap()
        .property_mut("interrupt-parent")
        .unwrap()
        .set_u32(99);

    let err = Machine::survey(root, Arch::Aarch64).unwrap_err();
    assert!(
        matches!(
            err,
            SurveyError::UnknownPhandle {
                node: "/serial",
                prop: "interrupt-parent",
                phandle: 99
            }
        ),
        "got {err:?}"
    );
}

#[test]
fn aarch64_interrupt_cells_must_match_parent() {
    let mut root = base_root();
    root.child_mut("virtio_mmio@a000000")
        .unwrap()
        .property_mut("interrupts")
        .unwrap()
        .set_u32s(&[0, 16]);

    let err = Machine::survey(root, Arch::Aarch64).unwrap_err();
    assert!(
        matches!(
            err,
            SurveyError::BadProperty {
                node: "/virtio_mmio",
                prop: "interrupts",
                ..
            }
        ),
        "got {err:?}"
    );
}

#[test]
fn aarch64_missing_msi_parent_is_rejected() {
    let mut root = base_root();
    root.child_mut("pcie@c000000")
        .unwrap()
        .remove_property("msi-parent");

    let err = Machine::survey(root, Arch::Aarch64).unwrap_err();
    assert!(
        matches!(
            err,
            SurveyError::MissingProperty {
                ref node,
                prop: "msi-parent"
            } if node == "/pcie"
        ),
        "got {err:?}"
    );
}

#[test]
fn pci_dma_ranges_is_rejected_until_modeled() {
    let mut root = base_root();
    root.child_mut("pcie@c000000").unwrap().set_property(
        Property::new("dma-ranges").with_u32s(&[
            0x0300_0000,
            0,
            PCI_MMIO_BASE as u32,
            0,
            PCI_MMIO_BASE as u32,
            0,
            0x03F0_0000,
        ]),
    );

    let err = Machine::survey(root, Arch::Aarch64).unwrap_err();
    assert!(
        matches!(
            err,
            SurveyError::Unsupported {
                node: "/pcie",
                prop: "dma-ranges",
                ..
            }
        ),
        "got {err:?}"
    );
}

#[test]
fn extra_node_is_uncovered() {
    let mut root = base_root();
    root.set_child(
        Node::new("bogus@0").with_property(Property::new("foo").with_u32(1)),
    );
    let err = Machine::survey(root, Arch::Aarch64).unwrap_err();
    assert!(matches!(err, SurveyError::Uncovered(_)), "got {err:?}");
}

#[test]
fn empty_namesake_does_not_cover_a_node() {
    let mut root = base_root();
    root.children.push(Node::new("bogus@0"));
    assert!(Machine::survey(root, Arch::Aarch64).is_ok());
    let mut root = base_root();
    root.children.push(Node::new("bogus@0"));
    root.children.push(
        Node::new("bogus@0").with_property(Property::new("foo").with_u32(1)),
    );
    let err = Machine::survey(root, Arch::Aarch64).unwrap_err();
    assert!(matches!(err, SurveyError::Uncovered(_)), "got {err:?}");
}

#[test]
fn extra_property_is_left_over() {
    let mut root = base_root();
    root.child_mut("timer")
        .unwrap()
        .set_property(Property::new("surprise").with_u32(1));
    let err = Machine::survey(root, Arch::Aarch64).unwrap_err();
    assert!(
        matches!(
            err,
            SurveyError::Leftover { .. } | SurveyError::Uncovered(_)
        ),
        "got {err:?}"
    );
}

#[test]
fn base_with_cpus_is_rejected() {
    let mut root = base_root();
    root.set_child(
        Node::new("cpus").with_property(Property::new("#address-cells").with_u32(1)),
    );
    let err = Machine::survey(root, Arch::Aarch64).unwrap_err();
    assert!(matches!(err, SurveyError::BaseHasCpus), "got {err:?}");
}

#[test]
fn overlapping_regions_are_rejected() {
    let mut root = base_root();
    // Move the serial onto the ECAM window so two declared regions overlap.
    root.child_mut("serial@9000000")
        .unwrap()
        .property_mut("reg")
        .unwrap()
        .set_u32s(&reg2(ECAM_BASE, 0x1000));
    let err = Machine::survey(root, Arch::Aarch64).unwrap_err();
    assert!(matches!(err, SurveyError::Overlap { .. }), "got {err:?}");
}

#[test]
fn cross_validate_loads_rejects_declared_region_overlap() {
    let m = Machine::survey(base_root(), Arch::Aarch64).expect("survey ok");

    let pa_bits = m.min_addr_space_bits();
    let err = m
        .plan
        .cross_validate_loads(&[("kernel".to_string(), SERIAL_BASE, 0x1000)], pa_bits)
        .unwrap_err();

    assert!(
        matches!(
            err,
            SurveyError::LoadOverlapsRegion {
                ref section,
                ref region,
                region_start: SERIAL_BASE,
                ..
            } if section == "kernel" && region == "/serial:reg"
        ),
        "got {err:?}"
    );
}

#[test]
fn cross_validate_loads_accepts_zero_sized_sections() {
    let m = Machine::survey(base_root(), Arch::Aarch64).expect("survey ok");

    let pa_bits = m.min_addr_space_bits();
    m.plan
        .cross_validate_loads(&[("zero".to_string(), SERIAL_BASE, 0)], pa_bits)
        .expect("zero-sized section ignored");
}

#[test]
fn cross_validate_loads_rejects_address_above_guest_width() {
    let m = Machine::survey(base_root(), Arch::Aarch64).expect("survey ok");

    // An address at 2^48 exceeds the test platform's declared address
    // width, so it is rejected by the derived bound.
    let pa_bits = m.min_addr_space_bits();
    assert!(pa_bits < 48);
    let err = m
        .plan
        .cross_validate_loads(&[("too-high".to_string(), 1u64 << 48, 1)], pa_bits)
        .unwrap_err();

    assert!(
        matches!(
            err,
            SurveyError::LoadAddressOverflow { ref section, .. } if section == "too-high"
        ),
        "got {err:?}"
    );
}

const LAPIC_BASE: u64 = 0xFEE0_0000;
const IOAPIC_BASE: u64 = 0xFEC0_0000;
const POWEROFF_BASE: u64 = 0x0901_0000;
const REBOOT_BASE: u64 = 0x0902_0000;
const X86_SERIAL_BASE: u64 = 0x0900_0000;
const X86_ECAM_BASE: u64 = 0xB000_0000;
const X86_PCI_MMIO_BASE: u64 = 0xC000_0000;

/// An x86-64 base tree with a serial port.
fn x86_base_root() -> Node {
    let lapic = Node::new("interrupt-controller@fee00000")
        .with_property(Property::new("compatible").with_str("intel,ce4100-lapic"))
        .with_property(Property::new("reg").with_u32s(&reg2(LAPIC_BASE, 0x1000)))
        .with_property(Property::new("#interrupt-cells").with_u32(2))
        .with_property(Property::new("interrupt-controller"))
        .with_property(Property::new("phandle").with_u32(1));

    let ioapic = Node::new("interrupt-controller@fec00000")
        .with_property(Property::new("compatible").with_str("intel,ce4100-ioapic"))
        .with_property(Property::new("reg").with_u32s(&reg2(IOAPIC_BASE, 0x1000)))
        .with_property(Property::new("#interrupt-cells").with_u32(2))
        .with_property(Property::new("interrupt-controller"))
        .with_property(Property::new("phandle").with_u32(2));

    let poweroff = Node::new("poweroff@9010000")
        .with_property(Property::new("compatible").with_str("syscon-poweroff"))
        .with_property(Property::new("reg").with_u32s(&reg2(POWEROFF_BASE, 0x4)))
        .with_property(Property::new("value").with_u32(0x34));

    let reboot = Node::new("reboot@9020000")
        .with_property(Property::new("compatible").with_str("syscon-reboot"))
        .with_property(Property::new("reg").with_u32s(&reg2(REBOOT_BASE, 0x4)))
        .with_property(Property::new("value").with_u32(0x1));

    let serial = Node::new("serial@9000000")
        .with_property(Property::new("compatible").with_str("ns16550a"))
        .with_property(Property::new("reg").with_u32s(&reg2(X86_SERIAL_BASE, 0x1000)))
        .with_property(Property::new("reg-shift").with_u32(2))
        .with_property(Property::new("reg-io-width").with_u32(4))
        .with_property(Property::new("clock-frequency").with_u32(3_686_400))
        .with_property(Property::new("current-speed").with_u32(115_200))
        .with_property(Property::new("interrupt-parent").with_u32(2))
        .with_property(Property::new("interrupts").with_u32s(&[4, 1]));

    let pci = Node::new("pcie@b0000000")
        .with_property(Property::new("compatible").with_str("pci-host-ecam-generic"))
        .with_property(Property::new("device_type").with_str("pci"))
        .with_property(Property::new("reg").with_u32s(&reg2(X86_ECAM_BASE, 0x10_0000)))
        .with_property(Property::new("bus-range").with_u32s(&[0, 0]))
        .with_property(Property::new("#address-cells").with_u32(3))
        .with_property(Property::new("#size-cells").with_u32(2))
        .with_property(Property::new("ranges").with_u32s(&[
            0x0300_0000,
            0,
            X86_PCI_MMIO_BASE as u32,
            0,
            X86_PCI_MMIO_BASE as u32,
            0,
            0x1000_0000,
        ]));

    Node::new("")
        .with_property(Property::new("#address-cells").with_u32(2))
        .with_property(Property::new("#size-cells").with_u32(2))
        .with_property(Property::new("model").with_str("Arma Virtual Platform"))
        .with_property(Property::new("compatible").with_str("arma,v1"))
        .with_child(
            Node::new("chosen")
                .with_property(
                    Property::new("bootargs").with_str("earlycon console=ttyS0"),
                )
                .with_property(Property::new("stdout-path").with_str("serial0:115200n8")),
        )
        .with_child(
            Node::new("aliases")
                .with_property(Property::new("serial0").with_str("/serial@9000000")),
        )
        .with_child(lapic)
        .with_child(ioapic)
        .with_child(poweroff)
        .with_child(reboot)
        .with_child(serial)
        .with_child(pci)
}

#[test]
fn x86_base_drains_and_binds() {
    let m = Machine::survey(x86_base_root(), Arch::X86_64).expect("survey ok");

    let po = m.poweroff.expect("poweroff");
    assert_eq!((po.base, po.value, po.mask), (POWEROFF_BASE, 0x34, 0xFF));
    let rb = m.reboot.expect("reboot");
    assert_eq!((rb.base, rb.value), (REBOOT_BASE, 0x1));
    // Serial is the shared MMIO ns16550a; on x86 the IRQ is the IO-APIC pin.
    let s = m.uart.expect("serial");
    assert_eq!((s.base, s.irq), (X86_SERIAL_BASE, 4));
    assert!(m.has_pcie);
    assert_eq!(m.pcie.ecam_base, X86_ECAM_BASE);
    assert_eq!(m.pcie.mmio_base, X86_PCI_MMIO_BASE);
    // LAPIC, IOAPIC, poweroff, reboot, serial, ECAM, PCI MMIO.
    assert_eq!(m.plan.regions().len(), 7);
}

#[test]
fn x86_base_without_serial_has_no_uart_and_still_drains() {
    let mut root = x86_base_root();
    root.remove_child("serial@9000000");
    let m = Machine::survey(root, Arch::X86_64).expect("survey ok");
    assert!(m.uart.is_none());
}

#[test]
fn x86_virtio_mmio_interrupt_uses_ioapic_pin_cell() {
    let mut root = x86_base_root();
    root.set_child(
        Node::new("virtio_mmio@9100000")
            .with_property(Property::new("compatible").with_str("virtio,mmio"))
            .with_property(Property::new("reg").with_u32s(&reg2(0x0910_0000, 0x200)))
            .with_property(Property::new("interrupt-parent").with_u32(2))
            .with_property(Property::new("interrupts").with_u32s(&[16, 1])),
    );

    let m = Machine::survey(root, Arch::X86_64).expect("survey ok");
    assert_eq!(m.virtio_mmio.len(), 1);
    assert_eq!(m.virtio_mmio[0].irq, 16);
}

#[test]
fn x86_interrupt_parent_must_be_ioapic() {
    let mut root = x86_base_root();
    root.child_mut("serial@9000000")
        .unwrap()
        .property_mut("interrupt-parent")
        .unwrap()
        .set_u32(1);

    let err = Machine::survey(root, Arch::X86_64).unwrap_err();
    assert!(
        matches!(
            err,
            SurveyError::UnexpectedController {
                node: "/serial",
                prop: "interrupt-parent",
                actual: ControllerKind::Lapic,
                expected: ControllerKind::IoApic
            }
        ),
        "got {err:?}"
    );
}

#[test]
fn x86_interrupt_cells_must_match_ioapic_parent() {
    let mut root = x86_base_root();
    root.child_mut("serial@9000000")
        .unwrap()
        .property_mut("interrupts")
        .unwrap()
        .set_u32s(&[4, 1, 0]);

    let err = Machine::survey(root, Arch::X86_64).unwrap_err();
    assert!(
        matches!(
            err,
            SurveyError::BadProperty {
                node: "/serial",
                prop: "interrupts",
                ..
            }
        ),
        "got {err:?}"
    );
}

#[test]
fn x86_extra_node_is_uncovered() {
    let mut root = x86_base_root();
    root.set_child(
        Node::new("bogus@0").with_property(Property::new("foo").with_u32(1)),
    );
    let err = Machine::survey(root, Arch::X86_64).unwrap_err();
    assert!(matches!(err, SurveyError::Uncovered(_)), "got {err:?}");
}

#[test]
fn overlaps_share_an_address() {
    assert!(overlaps(0x1000, 0x100, 0x10ff, 1));
    assert!(!overlaps(0x1000, 0x100, 0x1100, 1));
    assert!(!overlaps(0x1000, 0, 0x1000, 1));
}

#[test]
fn declared_regions_tell_their_origin() {
    let mut plan = ResourcePlan::new();
    let reg = Property::new("reg").with_u32s(&reg2(0x1000, 0x100));
    plan.declare_from(&reg, "/serial", 0x1000, 0x100, RegionKind::Mmio);
    assert_eq!(plan.regions()[0].origin.to_text(), "/serial:reg");
    assert!(plan.check_disjoint().is_ok());
    plan.declare_from(&reg, "/other", 0x10ff, 0x100, RegionKind::Mmio);
    match plan.check_disjoint() {
        Err(SurveyError::Overlap { a, b }) => {
            assert_eq!((a.as_str(), b.as_str()), ("/serial:reg", "/other:reg"));
        }
        other => panic!("got {other:?}"),
    }
    // The last address of a section has to lie below the limit.
    assert!(ResourcePlan::new().cross_validate_loads(&[("k".into(), 0xfff, 1)], 12).is_ok());
    assert!(ResourcePlan::new().cross_validate_loads(&[("k".into(), 0xfff, 2)], 12).is_err());
}

#[test]
fn missing_nodes_are_named() {
    let mut root = base_root();
    root.remove_child("timer");
    let err = Machine::survey(root, Arch::Aarch64).unwrap_err();
    assert!(matches!(err, SurveyError::MissingNode(_)), "got {err:?}");
}

#[test]
fn virtio_slots_are_sorted_by_address() {
    let mut root = base_root();
    for (i, addr) in [0x0A41_0000u64, 0x0A40_0000].iter().enumerate() {
        root.set_child(
            Node::new(&format!("virtio_mmio@{addr:x}"))
                .with_property(Property::new("compatible").with_str("virtio,mmio"))
                .with_property(Property::new("reg").with_u32s(&reg2(*addr, 0x200)))
                .with_property(Property::new("interrupt-parent").with_u32(1))
                .with_property(Property::new("interrupts").with_u32s(&[0, 17 + i as u32, 1])),
        );
    }
    let m = Machine::survey(root, Arch::Aarch64).expect("survey ok");
    let bases: Vec<u64> = m.virtio_mmio.iter().map(|slot| slot.base).collect();
    assert_eq!(bases, vec![VIRTIO_BASE, 0x0A40_0000, 0x0A41_0000]);
}

#[test]
fn property_values_are_decoded() {
    let p = Property::new("reg").with_u32s(&[1, 2, 3, 4, 5, 6, 7, 8]);
    assert_eq!(p.as_u32s(), Some(vec![1, 2, 3, 4, 5, 6, 7, 8]));
    assert_eq!(p.as_u32(), None);
    assert_eq!(p.reg_pair(0), Some((0x1_0000_0002, 0x3_0000_0004)));
    assert_eq!(p.reg_pair(1), Some((0x5_0000_0006, 0x7_0000_0008)));
    assert_eq!(p.reg_pair(2), None);
    let s = Property::new("compatible").with_strs(&["arm,psci-1.0", "arm,psci-0.2"]);
    assert!(s.has_string_prefixed("arm,psci-0"));
    assert!(!s.has_string_prefixed("psci"));
    assert_eq!(Property::new("m").with_str("hvc").as_str(), Some("hvc".to_string()));
    let mut bad = Property::new("m");
    bad.value = vec![0xff, 0];
    assert_eq!(bad.as_str(), None);
}

#[test]
fn substrates_come_from_the_interrupt_controllers() {
    let mut root = base_root();
    let gic = Aarch64Substrate::from_devtree(&mut root).expect("gic").expect("present");
    assert_eq!((gic.dist_base, gic.redist_base), (GICD_BASE, GICR_BASE));

    let mut root = base_root();
    let params = GicParams::from_devtree(&mut root).expect("gic").expect("present");
    assert_eq!((params.dist_base, params.redist_base), (GICD_BASE, GICR_BASE));
    assert_eq!(params.msi_base, V2M_BASE);

    let mut root = x86_base_root();
    let apic = WhpX86Substrate::from_devtree(&mut root).expect("ioapic").expect("present");
    assert_eq!((apic.base, apic.size), (IOAPIC_BASE, 0x1000));

    let mut root = base_root();
    root.child_mut("interrupt-controller@8000000").unwrap().remove_property("reg");
    assert!(matches!(
        Aarch64Substrate::from_devtree(&mut root),
        Err(SubstrateError::BadProperty { prop: "reg", .. })
    ));
}

#[test]
fn address_space_ends_at_a_power_of_two() {
    let mut m = Machine::survey(base_root(), Arch::Aarch64).expect("survey ok");
    assert!(m.address_space_fits());
    m.pcie.mmio_base = 1 << 62;
    m.pcie.mmio_size = 1 << 61;
    assert!(m.address_space_fits());
    assert_eq!(m.min_addr_space_bits(), 63);
    m.pcie.mmio_size = (1 << 61) + 1;
    assert!(!m.address_space_fits());
    m.pcie.mmio_size = u64::MAX;
    assert!(!m.address_space_fits());
}
