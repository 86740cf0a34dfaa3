use std::cell::{Cell, RefCell};
use std::rc::Rc;

use dillo::interrupts::{
    Interrupt, InterruptError, InterruptLine, MessageInterrupt, MessageInterruptDomain,
    MsixInterruptAdapter, OffsetMsixNotifier,
};
use dillo::mmio::{
    MessageInterruptSource, MmioDevice, MmioError, MmioInterruptRequirement, MmioWindow,
};
use dillo::pci::address::parse_ecam_offset;
use dillo::pci::bus::{BarRegion, HostBridge, PciBus, PciDevice, PciError, SlotHost};
use dillo::pci::configuration::PciConfiguration;
use dillo::pci::legacy_pio::{
    decode_cf8, pio_read, pio_write, LegacyPciState, CF8_PORT, CF8_PORT_END, CFC_PORT_BASE,
};
use dillo::pci::msix::{MsixNotifier, MsixTableEntry};
use dillo::pci::root::PciRoot;

const BAR_REGIONS: [BarRegion; 1] =
    [BarRegion { bar_idx: 2, base_gpa: 0x8000_0000, size: 0x1000 }];

const ECAM: MmioWindow = MmioWindow { name: "pci-ecam", base: 0x3000_0000, size: 0x1000_0000 };

struct BarDevice;

impl PciDevice for BarDevice {
    type Host = ();

    fn config_read(&self, _reg_idx: usize) -> u32 {
        0
    }

    fn config_write(&mut self, _reg_idx: usize, _offset: u64, _data: &[u8]) -> Result<(), PciError> {
        Ok(())
    }

    fn name(&self) -> &str {
        "bar-device"
    }

    fn bar_regions(&self) -> &[BarRegion] {
        &BAR_REGIONS
    }

    fn msix_vectors(&self) -> u16 {
        0
    }

    fn bar_read(&mut self, bar_idx: u8, offset: u64, data: &mut [u8]) -> Result<(), PciError> {
        data[0] = bar_idx;
        data[1] = offset as u8;
        Ok(())
    }

    fn bar_write(&mut self, _bar_idx: u8, _offset: u64, _data: &[u8]) -> Result<(), PciError> {
        Err(PciError::Unsupported)
    }

    fn set_host(&mut self, _host: SlotHost<()>) {}
}

#[test]
fn empty_slots_return_all_ones() {
    let bus: PciBus<BarDevice> = PciBus::new();
    assert_eq!(bus.config_read(0, 0, 0, 0), 0xFFFF_FFFF);
    assert_eq!(bus.config_read(0, 31, 0, 0), 0xFFFF_FFFF);
}

#[test]
fn host_bridge_vendor_device() {
    let bus: PciBus<BarDevice> = PciBus::new_with_host_bridge();
    // Reg 0 = vendor (low 16) + device (high 16).
    let val = bus.config_read(0, 0, 0, 0);
    assert_eq!(val, 0x1237_8086);
}

#[test]
fn non_zero_bus_function_returns_all_ones() {
    let bus: PciBus<BarDevice> = PciBus::new_with_host_bridge();
    assert_eq!(bus.config_read(1, 0, 0, 0), 0xFFFF_FFFF);
    assert_eq!(bus.config_read(0, 0, 1, 0), 0xFFFF_FFFF);
}

#[test]
fn out_of_range_device_returns_all_ones() {
    let bus: PciBus<BarDevice> = PciBus::new_with_host_bridge();
    assert_eq!(bus.config_read(0, 32, 0, 0), 0xFFFF_FFFF);
}

#[test]
fn pci_root_ecam_reads_host_bridge_config() {
    let mut root: PciRoot<BarDevice> = PciRoot::new(ECAM);
    let mut data = [0u8; 4];

    root.read(ECAM, 0, &mut data).expect("host bridge read");

    assert_eq!(u32::from_le_bytes(data), root.config_read(0, 0, 0, 0));
    assert_eq!(data, [0x86, 0x80, 0x37, 0x12]);
}

#[test]
fn pci_root_ecam_reads_unaligned_bytes() {
    let mut root: PciRoot<BarDevice> = PciRoot::new(ECAM);
    let mut data = [0u8; 2];

    root.read(ECAM, 1, &mut data).expect("unaligned host bridge read");

    assert_eq!(data, [0x80, 0x37]);
}

#[test]
fn pci_root_windows_include_ecam_and_bars() {
    let mut root = PciRoot::new(ECAM);
    root.register(1, BarDevice);

    let windows = root.windows();

    assert!(windows.contains(&ECAM));
    assert!(windows.iter().any(|w| w.base == 0x8000_0000 && w.size == 0x1000));
}

#[test]
fn pci_root_routes_bar_window_reads() {
    let mut root = PciRoot::new(ECAM);
    root.register(1, BarDevice);
    let bar_window =
        root.windows().iter().copied().find(|w| w.base == 0x8000_0000).expect("BAR window");
    let mut data = [0u8; 2];

    root.read(bar_window, 0x42, &mut data).expect("BAR read routed");

    assert_eq!(data, [2, 0x42]);
}

#[test]
fn pci_root_refuses_foreign_windows_and_reports_bars() {
    let mut root = PciRoot::new(ECAM);
    root.register(1, BarDevice);
    assert!(!root.is_free(0));
    assert!(!root.is_free(1));
    assert!(root.is_free(2));
    assert!(!root.is_free(32));
    assert_eq!(root.enumerate_bars(), vec![(1, BAR_REGIONS[0])]);
    let other = MmioWindow { name: "other", base: 0x10, size: 0x10 };
    let mut data = [0u8; 2];
    assert_eq!(root.read(other, 0, &mut data), Err(MmioError::Unsupported));
    assert_eq!(root.bar_read(2, 2, 0, &mut data), Err(PciError::Unsupported));
    assert_eq!(root.bar_write(1, 2, 0, &data), Err(PciError::Unsupported));
}

struct HostAwareDevice {
    observed_host: Rc<Cell<bool>>,
}

impl PciDevice for HostAwareDevice {
    type Host = ();

    fn config_read(&self, _reg_idx: usize) -> u32 {
        0
    }

    fn config_write(&mut self, _reg_idx: usize, _offset: u64, _data: &[u8]) -> Result<(), PciError> {
        Ok(())
    }

    fn name(&self) -> &str {
        "host-aware-device"
    }

    fn bar_regions(&self) -> &[BarRegion] {
        &[]
    }

    fn msix_vectors(&self) -> u16 {
        0
    }

    fn bar_read(&mut self, _bar_idx: u8, _offset: u64, _data: &mut [u8]) -> Result<(), PciError> {
        Err(PciError::Unsupported)
    }

    fn bar_write(&mut self, _bar_idx: u8, _offset: u64, _data: &[u8]) -> Result<(), PciError> {
        Err(PciError::Unsupported)
    }

    fn set_host(&mut self, _host: SlotHost<()>) {
        self.observed_host.set(true);
    }
}

#[test]
fn pci_root_attachment_reaches_endpoints() {
    let observed_host = Rc::new(Cell::new(false));
    let mut root = PciRoot::new(ECAM);
    root.register(1, HostAwareDevice { observed_host: Rc::clone(&observed_host) });

    root.set_attachment(());

    assert!(observed_host.get());
}

struct NoLine;

impl InterruptLine for NoLine {
    fn signal(&mut self) {}

    fn set_level(&mut self, _level: bool) -> Result<(), InterruptError> {
        Err(InterruptError::UnsupportedDeassert)
    }
}

// Domain that records the (global) vector index of every update.
#[derive(Clone)]
struct RecordingDomain {
    updates: Rc<RefCell<Vec<u16>>>,
}

impl MessageInterruptDomain for RecordingDomain {
    type Line = NoLine;

    fn update(&mut self, vector: u16, _msg: MessageInterrupt) -> Result<(), InterruptError> {
        self.updates.borrow_mut().push(vector);
        Ok(())
    }

    fn enabled(&mut self, _enabled: bool) -> Result<(), InterruptError> {
        Ok(())
    }

    fn interrupt(&self, _vector: u16) -> Option<Interrupt<NoLine>> {
        None
    }
}

// Device that reports a configurable MSI-X vector count and captures the
// per-slot host it was handed at set_host time.
struct RecordingDevice {
    vectors: u16,
    host: Rc<RefCell<Option<SlotHost<RecordingDomain>>>>,
}

impl PciDevice for RecordingDevice {
    type Host = RecordingDomain;

    fn config_read(&self, _reg_idx: usize) -> u32 {
        0
    }

    fn config_write(&mut self, _reg_idx: usize, _offset: u64, _data: &[u8]) -> Result<(), PciError> {
        Ok(())
    }

    fn name(&self) -> &str {
        "rec"
    }

    fn bar_regions(&self) -> &[BarRegion] {
        &[]
    }

    fn msix_vectors(&self) -> u16 {
        self.vectors
    }

    fn bar_read(&mut self, _bar_idx: u8, _offset: u64, _data: &mut [u8]) -> Result<(), PciError> {
        Err(PciError::Unsupported)
    }

    fn bar_write(&mut self, _bar_idx: u8, _offset: u64, _data: &[u8]) -> Result<(), PciError> {
        Err(PciError::Unsupported)
    }

    fn set_host(&mut self, host: SlotHost<RecordingDomain>) {
        *self.host.borrow_mut() = Some(host);
    }
}

fn notifier_of(
    host: &Rc<RefCell<Option<SlotHost<RecordingDomain>>>>,
) -> OffsetMsixNotifier<MsixInterruptAdapter<RecordingDomain>> {
    let slot = host.borrow_mut().take().expect("host handed over");
    OffsetMsixNotifier {
        slot: SlotHost {
            inner: MsixInterruptAdapter::new(slot.inner),
            vector_base: slot.vector_base,
        },
    }
}

#[test]
fn two_msix_functions_get_disjoint_domain_vectors() {
    let domain = RecordingDomain { updates: Rc::new(RefCell::new(Vec::new())) };

    let mut root = PciRoot::with_interrupt_requirement(
        ECAM,
        MmioInterruptRequirement::MessageDomain {
            source: MessageInterruptSource { controller: 0 },
            vectors: 0,
        },
    );

    let host_a = Rc::new(RefCell::new(None));
    let host_b = Rc::new(RefCell::new(None));
    root.register(1, RecordingDevice { vectors: 3, host: Rc::clone(&host_a) });
    root.register(2, RecordingDevice { vectors: 2, host: Rc::clone(&host_b) });

    // The root sized its requested domain to the sum of both functions.
    assert!(matches!(
        root.interrupts(),
        [MmioInterruptRequirement::MessageDomain { vectors: 5, .. }]
    ));

    root.set_attachment(domain.clone());

    // Both functions program their device-local vector 0; they must land on
    // distinct global vectors (0 for slot 1, base 3 for slot 2).
    let entry = MsixTableEntry::default();
    notifier_of(&host_a).vector_updated(0, &entry);
    notifier_of(&host_b).vector_updated(0, &entry);

    assert_eq!(
        domain.updates.borrow().as_slice(),
        &[0, 3],
        "function MSI-X vectors must not alias in the shared domain"
    );
}

struct FakeDomain {
    updates: Vec<(u16, MessageInterrupt)>,
    enabled: bool,
}

impl MessageInterruptDomain for FakeDomain {
    type Line = NoLine;

    fn update(&mut self, vector: u16, msg: MessageInterrupt) -> Result<(), InterruptError> {
        self.updates.push((vector, msg));
        Ok(())
    }

    fn enabled(&mut self, enabled: bool) -> Result<(), InterruptError> {
        self.enabled = enabled;
        Ok(())
    }

    fn interrupt(&self, _vector: u16) -> Option<Interrupt<NoLine>> {
        None
    }
}

#[test]
fn msix_adapter_updates_message_domain() {
    let mut adapter =
        MsixInterruptAdapter::new(FakeDomain { updates: Vec::new(), enabled: false });

    adapter.vector_updated(
        2,
        &MsixTableEntry {
            msg_addr_lo: 0xFEE0_1000,
            msg_addr_hi: 0,
            msg_data: 0x45,
            vector_ctl: 1,
        },
    );
    adapter.msix_enabled(true);

    assert_eq!(
        adapter.domain.updates.as_slice(),
        &[(2, MessageInterrupt { address: 0xFEE0_1000, data: 0x45, masked: true })]
    );
    assert!(adapter.domain.enabled);
    assert!(adapter.interrupt_for(2).is_none());
}

#[test]
fn an_interrupt_line_can_be_a_function() {
    let count = Rc::new(Cell::new(0));
    let seen = Rc::clone(&count);
    let mut line = Interrupt::from_fn(move || seen.set(seen.get() + 1));
    line.signal();
    assert_eq!(count.get(), 1);
    assert!(line.set_level(true).is_ok());
    assert_eq!(count.get(), 2);
    assert!(line.set_level(false).is_ok());
    assert_eq!(count.get(), 2);
}

#[test]
fn decode_cf8_disable_bit_clear() {
    assert!(decode_cf8(0x0000_0000).is_none());
    assert!(decode_cf8(0x7FFF_FFFF).is_none());
}

#[test]
fn decode_cf8_byte_offset_in_low_bits() {
    let (_, _, _, _, off) = decode_cf8(0x8000_0003).unwrap();
    assert_eq!(off, 3);
}

#[test]
fn decode_cf8_fields() {
    // bus=1, dev=2, func=3, reg=4
    let cf8 = 0x8000_0000 | (1 << 16) | (2 << 11) | (3 << 8) | (4 << 2);
    let (b, d, f, r, off) = decode_cf8(cf8).unwrap();
    assert_eq!((b, d, f, r, off), (1, 2, 3, 4, 0));
}

#[test]
fn cf8_latch_accepts_byte_writes() {
    let mut state = LegacyPciState::new();
    let mut bus: PciRoot<BarDevice> = PciRoot::new(ECAM);

    pio_write(&mut state, &mut bus, CF8_PORT, &[0, 0, 0, 0]);
    pio_write(&mut state, &mut bus, CF8_PORT_END, &[0x80]);

    assert_eq!(pio_read(&state, &bus, CF8_PORT, 4), 0x8000_0000);
    assert_eq!(pio_read(&state, &bus, CF8_PORT_END, 1), 0x80);
}

#[test]
fn legacy_cfc_and_ecam_return_identical_config_bytes() {
    let mut state = LegacyPciState::new();
    let mut root: PciRoot<BarDevice> = PciRoot::new(ECAM);
    let cf8 = 0x8000_0000u32;
    pio_write(&mut state, &mut root, CF8_PORT, &cf8.to_le_bytes());

    let mut ecam = [0u8; 4];
    let ecam_window = root.windows()[0];
    root.read(ecam_window, 0, &mut ecam).expect("ECAM read routed");

    assert_eq!(pio_read(&state, &root, CFC_PORT_BASE, 4).to_le_bytes(), ecam);
}

#[test]
fn legacy_ports_without_an_address() {
    let state = LegacyPciState::default();
    let root: PciRoot<BarDevice> = PciRoot::new(ECAM);
    assert_eq!(pio_read(&state, &root, 0xcf0, 4), 0);
    assert_eq!(pio_read(&state, &root, CFC_PORT_BASE, 4), 0xFFFF_FFFF);
}

#[test]
fn ecam_offset_zero() {
    assert_eq!(parse_ecam_offset(0), (0, 0, 0, 0));
}

#[test]
fn ecam_offset_device1() {
    // Device 1: offset = 1 << 15 = 0x8000 = 32768
    assert_eq!(parse_ecam_offset(0x8000), (0, 1, 0, 0));
}

#[test]
fn ecam_offset_with_register() {
    assert_eq!(parse_ecam_offset(4), (0, 0, 0, 4));
}

#[test]
fn ecam_offset_fields() {
    assert_eq!(parse_ecam_offset((5 << 20) | (6 << 15) | (7 << 12) | 0x123), (5, 6, 7, 0x123));
}

#[test]
fn configuration_writes_keep_read_only_bits() {
    let mut config = PciConfiguration::new();
    config.set_vendor_device(0x1af4, 0x1042);
    config.set_reg(1, 0x0010_0000);
    config.set_reg_writable_bits(1, 0x0000_ffff);
    config.write_reg(1, 0, &[0x06, 0x04, 0xff, 0xff]);
    assert_eq!(config.read_reg(1), 0x0010_0406);
    config.write_reg(1, 1, &[0x05]);
    assert_eq!(config.read_reg(1), 0x0010_0506);
    config.write_reg(0, 0, &[0, 0, 0, 0]);
    assert_eq!(config.read_reg(0), 0x1042_1af4);
    assert_eq!(config.read_reg(64), 0xffff_ffff);
    let first = config.add_capability(0x09, 16);
    let second = config.add_capability(0x11, 12);
    assert_eq!((first, second), (0x40 / 4, 0x50 / 4));
    assert_eq!(config.read_reg(0x34 / 4) & 0xff, 0x40);
    assert_eq!(config.read_reg(0x40 / 4) & 0xffff, 0x5009);
    assert_eq!(config.read_reg(0x50 / 4) & 0xffff, 0x0011);
}

#[test]
fn host_bridge_has_configuration_space_alone() {
    let mut bridge = HostBridge::default();
    assert_eq!(bridge.name(), "host-bridge");
    assert_eq!(bridge.config_read(0), 0x1237_8086);
    assert_eq!(bridge.config_read(2), 0x0600_0000);
    assert!(bridge.bar_regions().is_empty());
    assert_eq!(bridge.msix_vectors(), 0);
    let mut data = [0xa5u8; 4];
    assert_eq!(bridge.bar_read(0, 0, &mut data), Err(PciError::Unsupported));
    assert_eq!(data, [0xa5u8; 4]);
    assert_eq!(bridge.bar_write(0, 0, &data), Err(PciError::Unsupported));
    assert_eq!(bridge.config_write(0, 0, &[0xff, 0xff]), Ok(()));
    assert_eq!(bridge.config_read(0), 0x1237_8086);
}

#[test]
fn legacy_ports_and_window_agree_on_every_byte_and_size() {
    let mut state = LegacyPciState::new();
    let mut root: PciRoot<BarDevice> = PciRoot::new(ECAM);
    for low in 0..4u64 {
        let cf8 = 0x8000_0000u32 + low as u32;
        pio_write(&mut state, &mut root, CF8_PORT, &cf8.to_le_bytes());
        for k in 0..4 - low {
            for size in [1usize, 2, 4] {
                let mut window = vec![0u8; size];
                root.read(ECAM, low + k, &mut window).expect("ECAM read routed");
                let value = pio_read(&state, &root, CFC_PORT_BASE + k as u16, size as u8);
                assert_eq!(value.to_le_bytes()[..size], window[..]);
                assert_eq!(value.to_le_bytes()[size..], [0u8; 4][size..]);
            }
        }
    }
    // Behind the end of the register both give ones.
    pio_write(&mut state, &mut root, CF8_PORT, &0x8000_0000u32.to_le_bytes());
    assert_eq!(pio_read(&state, &root, CFC_PORT_BASE + 3, 4), 0xFFFF_FF12);
    pio_write(&mut state, &mut root, CF8_PORT, &0x8000_0003u32.to_le_bytes());
    assert_eq!(pio_read(&state, &root, CFC_PORT_BASE, 2), 0xFF12);
}

#[test]
fn data_ports_behind_the_register_start_over() {
    let mut state = LegacyPciState::new();
    let mut root: PciRoot<BarDevice> = PciRoot::new(ECAM);
    pio_write(&mut state, &mut root, CF8_PORT, &0x8000_0003u32.to_le_bytes());
    assert_eq!(pio_read(&state, &root, CFC_PORT_BASE + 1, 1), 0x86);
    assert_eq!(pio_read(&state, &root, CFC_PORT_BASE + 1, 2), 0x8086);
    assert_eq!(pio_read(&state, &root, CFC_PORT_BASE + 1, 4), 0x1237_8086);
    assert_eq!(pio_read(&state, &root, CFC_PORT_BASE + 2, 1), 0x80);
    assert_eq!(pio_read(&state, &root, CFC_PORT_BASE + 2, 4), 0x0012_3780);
    assert_eq!(pio_read(&state, &root, CFC_PORT_BASE + 3, 2), 0x1237);
}
