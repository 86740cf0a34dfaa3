use std::cell::RefCell;
use std::rc::Rc;

use dillo::mmio::{MmioDevice, MmioWindow};
use dillo::mmio_virtio::{VirtioMmio, WiredIrq};
use dillo::pci::bus::{PciDevice, SlotHost};
use dillo::pci::msix::NoopNotifier;
use dillo::pci_virtio::adapter::VirtioPciAdapter;
use dillo::pci_virtio::transport::VirtioPciDevice;
use dillo::virtio::{ActivationOutcome, TransportAction, VirtioDevice, VIRTIO_F_VERSION_1};

struct MockVirtioDevice {
    device_type: u32,
    queue_max_sizes: Vec<u16>,
    features: u64,
    config_data: Vec<u8>,
}

impl MockVirtioDevice {
    fn new(device_type: u32, num_queues: usize, features: u64) -> Self {
        Self {
            device_type,
            queue_max_sizes: vec![256; num_queues],
            features,
            config_data: vec![0u8; 64],
        }
    }
}

impl VirtioDevice for MockVirtioDevice {
    fn device_type(&self) -> u32 {
        self.device_type
    }

    fn num_queues(&self) -> usize {
        self.queue_max_sizes.len()
    }

    fn queue_max_sizes(&self) -> &[u16] {
        &self.queue_max_sizes
    }

    fn features(&self) -> u64 {
        self.features
    }

    fn read_config(&self, offset: u64, data: &mut [u8]) {
        let off = offset as usize;
        for (i, d) in data.iter_mut().enumerate() {
            *d = if off + i < self.config_data.len() { self.config_data[off + i] } else { 0 };
        }
    }

    fn write_config(&mut self, offset: u64, data: &[u8]) {
        let off = offset as usize;
        for (i, &b) in data.iter().enumerate() {
            if off + i < self.config_data.len() {
                self.config_data[off + i] = b;
            }
        }
    }
}

type TestDevice = VirtioPciDevice<MockVirtioDevice, NoopNotifier, ()>;

const BAR0_GPA: u64 = 0xD000_0000;
const BAR2_GPA: u64 = 0xD000_1000;

fn make_test_device(num_queues: usize) -> TestDevice {
    let features = VIRTIO_F_VERSION_1 | (1 << 29); // VERSION_1 + EVENT_IDX
    let mock = MockVirtioDevice::new(3, num_queues, features); // console device
    let msix_vectors = num_queues as u16 + 1; // one per queue + config
    VirtioPciDevice::new(mock, msix_vectors, BAR0_GPA, BAR2_GPA, NoopNotifier)
}

// Helper to read a u16 from BAR 0
fn bar0_read_u16(dev: &mut TestDevice, offset: u64) -> u16 {
    let mut buf = [0u8; 2];
    dev.bar_read(0, offset, &mut buf);
    u16::from_le_bytes(buf)
}

// Helper to write a u16 to BAR 0
fn bar0_write_u16(dev: &mut TestDevice, offset: u64, val: u16) {
    dev.bar_write(0, offset, &val.to_le_bytes());
}

// Helper to read a u32 from BAR 0
fn bar0_read_u32(dev: &mut TestDevice, offset: u64) -> u32 {
    let mut buf = [0u8; 4];
    dev.bar_read(0, offset, &mut buf);
    u32::from_le_bytes(buf)
}

// Helper to write a u32 to BAR 0
fn bar0_write_u32(dev: &mut TestDevice, offset: u64, val: u32) {
    dev.bar_write(0, offset, &val.to_le_bytes());
}

// Helper to read a u8 from BAR 0
fn bar0_read_u8(dev: &mut TestDevice, offset: u64) -> u8 {
    let mut buf = [0u8; 1];
    dev.bar_read(0, offset, &mut buf);
    buf[0]
}

// Helper to write a u8 to BAR 0
fn bar0_write_u8(dev: &mut TestDevice, offset: u64, val: u8) {
    dev.bar_write(0, offset, &[val]);
}

// Common config offsets.
const CC_DEVICE_FEATURE_SELECT: u64 = 0x00; // u32
const CC_DEVICE_FEATURE: u64 = 0x04; // u32
const CC_DRIVER_FEATURE_SELECT: u64 = 0x08; // u32
const CC_DRIVER_FEATURE: u64 = 0x0C; // u32
const CC_NUM_QUEUES: u64 = 0x12; // u16
const CC_DEVICE_STATUS: u64 = 0x14; // u8
const CC_QUEUE_SELECT: u64 = 0x16; // u16
const CC_QUEUE_SIZE: u64 = 0x18; // u16
const CC_QUEUE_NOTIFY_OFF: u64 = 0x1E; // u16
const CC_QUEUE_DESC_LO: u64 = 0x20; // u32
const CC_QUEUE_DESC_HI: u64 = 0x24; // u32
const CC_QUEUE_AVAIL_LO: u64 = 0x28; // u32
const CC_QUEUE_AVAIL_HI: u64 = 0x2C; // u32
const CC_QUEUE_USED_LO: u64 = 0x30; // u32
const CC_QUEUE_USED_HI: u64 = 0x34; // u32

// BAR 0 region offsets
const COMMON_CFG_OFFSET: u64 = 0x000;
const ISR_CFG_OFFSET: u64 = 0x038;
const DEVICE_CFG_OFFSET: u64 = 0x040;
const NOTIFY_CFG_OFFSET: u64 = 0x100;

// Device status bits
const STATUS_ACKNOWLEDGE: u8 = 1;
const STATUS_DRIVER: u8 = 2;
const STATUS_FEATURES_OK: u8 = 8;
const STATUS_DRIVER_OK: u8 = 4;

#[test]
fn capabilities_five_vendor_caps_present() {
    let dev = make_test_device(2);

    // Walk the capability linked list and collect cfg_type values
    let mut cfg_types = Vec::new();
    let cap_ptr = (dev.config_read(13) & 0xFF) as usize;
    assert!(cap_ptr >= 64, "cap pointer should be in extended space");

    let mut offset = cap_ptr;
    let mut count = 0;
    while offset != 0 && count < 20 {
        let dw0 = dev.config_read(offset / 4);
        let cap_id = dw0 & 0xFF;
        let next = ((dw0 >> 8) & 0xFF) as usize;

        if cap_id == 0x09 {
            // Vendor-specific capability: cfg_type is in byte 3 of dword 0
            let cfg_type = ((dw0 >> 24) & 0xFF) as u8;
            cfg_types.push(cfg_type);
        }

        offset = next;
        count += 1;
    }

    // Must have all 5 virtio capability types
    assert!(cfg_types.contains(&1), "missing common config cap (type 1)");
    assert!(cfg_types.contains(&2), "missing notify cap (type 2)");
    assert!(cfg_types.contains(&3), "missing ISR cap (type 3)");
    assert!(cfg_types.contains(&4), "missing device config cap (type 4)");
    assert!(
        cfg_types.contains(&5),
        "missing PCI cfg access cap (type 5)"
    );
    assert_eq!(cfg_types.len(), 5, "should have exactly 5 vendor caps");
}

#[test]
fn capability_bar_offsets_correct() {
    let dev = make_test_device(2);

    // Walk caps and check BAR/offset/length for each cfg_type
    let cap_ptr = (dev.config_read(13) & 0xFF) as usize;
    let mut offset = cap_ptr;
    let mut count = 0;

    while offset != 0 && count < 20 {
        let dw0 = dev.config_read(offset / 4);
        let cap_id = dw0 & 0xFF;
        let next = ((dw0 >> 8) & 0xFF) as usize;

        if cap_id == 0x09 {
            let cfg_type = ((dw0 >> 24) & 0xFF) as u8;
            // dword 1: bar(8) + padding(24)
            let dw1 = dev.config_read(offset / 4 + 1);
            let bar = (dw1 & 0xFF) as u8;
            // dword 2: offset within BAR
            let bar_offset = dev.config_read(offset / 4 + 2);
            // dword 3: length
            let length = dev.config_read(offset / 4 + 3);

            match cfg_type {
                1 => {
                    // Common config
                    assert_eq!(bar, 0, "common config should be in BAR 0");
                    assert_eq!(bar_offset, COMMON_CFG_OFFSET as u32);
                    assert_eq!(length, 0x38, "common config is 56 bytes");
                }
                2 => {
                    // Notify
                    assert_eq!(bar, 0, "notify should be in BAR 0");
                    assert_eq!(bar_offset, NOTIFY_CFG_OFFSET as u32);
                }
                3 => {
                    // ISR
                    assert_eq!(bar, 0, "ISR should be in BAR 0");
                    assert_eq!(bar_offset, ISR_CFG_OFFSET as u32);
                    assert_eq!(length, 4);
                }
                4 => {
                    // Device config
                    assert_eq!(bar, 0, "device config should be in BAR 0");
                    assert_eq!(bar_offset, DEVICE_CFG_OFFSET as u32);
                    assert_eq!(length, 64);
                }
                5 => {
                    // PCI cfg access -- no BAR mapping expected
                }
                _ => panic!("unexpected cfg_type {cfg_type}"),
            }
        }

        offset = next;
        count += 1;
    }
}

#[test]
fn notify_cap_has_20_byte_length() {
    let dev = make_test_device(2);

    // Find notify cap (cfg_type=2) and check it has 20-byte cap_len
    let cap_ptr = (dev.config_read(13) & 0xFF) as usize;
    let mut offset = cap_ptr;
    let mut found = false;

    while offset != 0 {
        let dw0 = dev.config_read(offset / 4);
        let cap_id = dw0 & 0xFF;
        let next = ((dw0 >> 8) & 0xFF) as usize;

        if cap_id == 0x09 {
            let cap_len = ((dw0 >> 16) & 0xFF) as u8;
            let cfg_type = ((dw0 >> 24) & 0xFF) as u8;

            if cfg_type == 2 {
                assert_eq!(
                    cap_len, 20,
                    "notify cap should be 20 bytes (16 base + 4 multiplier)"
                );
                // dword 4 (5th dword) is notify_off_multiplier
                let multiplier = dev.config_read(offset / 4 + 4);
                assert_eq!(multiplier, 2, "notify_off_multiplier should be 2");
                found = true;
            }
        }
        offset = next;
    }
    assert!(found, "notify capability not found");
}

#[test]
fn common_config_num_queues() {
    let mut dev = make_test_device(2);
    let num_queues = bar0_read_u16(&mut dev, CC_NUM_QUEUES);
    assert_eq!(num_queues, 2);
}

#[test]
fn common_config_device_status_initial() {
    let mut dev = make_test_device(2);
    let status = bar0_read_u8(&mut dev, CC_DEVICE_STATUS);
    assert_eq!(status, 0, "initial device status should be 0");
}

#[test]
fn common_config_device_features_low() {
    let mut dev = make_test_device(2);
    // Select feature page 0 (low 32 bits)
    bar0_write_u32(&mut dev, CC_DEVICE_FEATURE_SELECT, 0);
    let features_lo = bar0_read_u32(&mut dev, CC_DEVICE_FEATURE);
    // Should have EVENT_IDX bit (bit 29)
    assert!(
        features_lo & (1 << 29) != 0,
        "EVENT_IDX should be in low features"
    );
}

#[test]
fn common_config_device_features_high() {
    let mut dev = make_test_device(2);
    // Select feature page 1 (high 32 bits)
    bar0_write_u32(&mut dev, CC_DEVICE_FEATURE_SELECT, 1);
    let features_hi = bar0_read_u32(&mut dev, CC_DEVICE_FEATURE);
    // Should have VERSION_1 bit (bit 32 overall = bit 0 of high word)
    assert!(features_hi & 1 != 0, "VERSION_1 should be in high features");
}

#[test]
fn feature_negotiation_accepts_version_1() {
    let mut dev = make_test_device(2);

    // ACKNOWLEDGE
    bar0_write_u8(&mut dev, CC_DEVICE_STATUS, STATUS_ACKNOWLEDGE);
    // DRIVER
    bar0_write_u8(
        &mut dev,
        CC_DEVICE_STATUS,
        STATUS_ACKNOWLEDGE | STATUS_DRIVER,
    );

    // Write driver features: set VERSION_1 (high word bit 0)
    bar0_write_u32(&mut dev, CC_DRIVER_FEATURE_SELECT, 1);
    bar0_write_u32(&mut dev, CC_DRIVER_FEATURE, 1); // VERSION_1

    // Write FEATURES_OK
    bar0_write_u8(
        &mut dev,
        CC_DEVICE_STATUS,
        STATUS_ACKNOWLEDGE | STATUS_DRIVER | STATUS_FEATURES_OK,
    );

    // Should retain FEATURES_OK
    let status = bar0_read_u8(&mut dev, CC_DEVICE_STATUS);
    assert!(
        status & STATUS_FEATURES_OK != 0,
        "FEATURES_OK should be set with VERSION_1"
    );
}

#[test]
fn feature_negotiation_rejects_missing_version_1() {
    let mut dev = make_test_device(2);

    // ACKNOWLEDGE + DRIVER
    bar0_write_u8(&mut dev, CC_DEVICE_STATUS, STATUS_ACKNOWLEDGE);
    bar0_write_u8(
        &mut dev,
        CC_DEVICE_STATUS,
        STATUS_ACKNOWLEDGE | STATUS_DRIVER,
    );

    // Don't set any driver features (VERSION_1 missing)

    // Write FEATURES_OK
    bar0_write_u8(
        &mut dev,
        CC_DEVICE_STATUS,
        STATUS_ACKNOWLEDGE | STATUS_DRIVER | STATUS_FEATURES_OK,
    );

    // FEATURES_OK should be cleared
    let status = bar0_read_u8(&mut dev, CC_DEVICE_STATUS);
    assert!(
        status & STATUS_FEATURES_OK == 0,
        "FEATURES_OK should be cleared without VERSION_1"
    );
}

#[test]
fn driver_features_anded_with_device_features() {
    let mut dev = make_test_device(2);

    // Try to set a feature bit NOT offered by device (e.g., bit 5)
    bar0_write_u32(&mut dev, CC_DRIVER_FEATURE_SELECT, 0);
    bar0_write_u32(&mut dev, CC_DRIVER_FEATURE, 0xFFFF_FFFF); // all bits

    // Read back -- should be AND'd with device features
    bar0_write_u32(&mut dev, CC_DRIVER_FEATURE_SELECT, 0);
    let accepted = bar0_read_u32(&mut dev, CC_DRIVER_FEATURE);
    // Device offers VIRTIO_F_RING_EVENT_IDX (bit 29) in low word
    // Other bits should NOT be set
    let device_features_lo = (VIRTIO_F_VERSION_1 | (1 << 29)) as u32;
    assert_eq!(accepted, device_features_lo);
}

#[test]
fn status_fsm_full_sequence() {
    let mut dev = make_test_device(2);

    // ACKNOWLEDGE
    bar0_write_u8(&mut dev, CC_DEVICE_STATUS, STATUS_ACKNOWLEDGE);
    assert_eq!(bar0_read_u8(&mut dev, CC_DEVICE_STATUS), STATUS_ACKNOWLEDGE);

    // DRIVER
    bar0_write_u8(
        &mut dev,
        CC_DEVICE_STATUS,
        STATUS_ACKNOWLEDGE | STATUS_DRIVER,
    );
    assert_eq!(
        bar0_read_u8(&mut dev, CC_DEVICE_STATUS),
        STATUS_ACKNOWLEDGE | STATUS_DRIVER
    );

    // Set VERSION_1 feature
    bar0_write_u32(&mut dev, CC_DRIVER_FEATURE_SELECT, 1);
    bar0_write_u32(&mut dev, CC_DRIVER_FEATURE, 1);

    // FEATURES_OK
    bar0_write_u8(
        &mut dev,
        CC_DEVICE_STATUS,
        STATUS_ACKNOWLEDGE | STATUS_DRIVER | STATUS_FEATURES_OK,
    );
    let status = bar0_read_u8(&mut dev, CC_DEVICE_STATUS);
    assert!(status & STATUS_FEATURES_OK != 0);

    // DRIVER_OK -- no backend notifier in unit tests, but status should be set.
    bar0_write_u8(
        &mut dev,
        CC_DEVICE_STATUS,
        STATUS_ACKNOWLEDGE | STATUS_DRIVER | STATUS_FEATURES_OK | STATUS_DRIVER_OK,
    );
    let status = bar0_read_u8(&mut dev, CC_DEVICE_STATUS);
    assert!(status & STATUS_DRIVER_OK != 0);
}

#[test]
fn queue_select_switches_active_queue() {
    let mut dev = make_test_device(2);

    // Queue 0 max size
    bar0_write_u16(&mut dev, CC_QUEUE_SELECT, 0);
    let q0_size = bar0_read_u16(&mut dev, CC_QUEUE_SIZE);
    assert_eq!(q0_size, 256);

    // Queue 1 max size
    bar0_write_u16(&mut dev, CC_QUEUE_SELECT, 1);
    let q1_size = bar0_read_u16(&mut dev, CC_QUEUE_SIZE);
    assert_eq!(q1_size, 256);
}

#[test]
fn queue_gpas_stored_per_queue() {
    let mut dev = make_test_device(2);

    // Set queue 0 GPAs
    bar0_write_u16(&mut dev, CC_QUEUE_SELECT, 0);
    bar0_write_u32(&mut dev, CC_QUEUE_DESC_LO, 0x1000);
    bar0_write_u32(&mut dev, CC_QUEUE_DESC_HI, 0);
    bar0_write_u32(&mut dev, CC_QUEUE_AVAIL_LO, 0x2000);
    bar0_write_u32(&mut dev, CC_QUEUE_AVAIL_HI, 0);
    bar0_write_u32(&mut dev, CC_QUEUE_USED_LO, 0x3000);
    bar0_write_u32(&mut dev, CC_QUEUE_USED_HI, 0);

    // Set queue 1 GPAs to different values
    bar0_write_u16(&mut dev, CC_QUEUE_SELECT, 1);
    bar0_write_u32(&mut dev, CC_QUEUE_DESC_LO, 0xA000);

    // Switch back to queue 0 and verify GPAs preserved
    bar0_write_u16(&mut dev, CC_QUEUE_SELECT, 0);
    assert_eq!(bar0_read_u32(&mut dev, CC_QUEUE_DESC_LO), 0x1000);
    assert_eq!(bar0_read_u32(&mut dev, CC_QUEUE_AVAIL_LO), 0x2000);
    assert_eq!(bar0_read_u32(&mut dev, CC_QUEUE_USED_LO), 0x3000);

    // Switch to queue 1 and verify its GPA
    bar0_write_u16(&mut dev, CC_QUEUE_SELECT, 1);
    assert_eq!(bar0_read_u32(&mut dev, CC_QUEUE_DESC_LO), 0xA000);
}

#[test]
fn queue_notify_off_matches_queue_index() {
    let mut dev = make_test_device(4);

    for i in 0..4u16 {
        bar0_write_u16(&mut dev, CC_QUEUE_SELECT, i);
        let notify_off = bar0_read_u16(&mut dev, CC_QUEUE_NOTIFY_OFF);
        assert_eq!(
            notify_off, i,
            "queue {i} notify_off should equal queue index"
        );
    }
}

#[test]
fn isr_read_clears_status() {
    let mut dev = make_test_device(2);

    // Set ISR status
    dev.set_isr(0x03);

    // First read should return the value
    let mut buf = [0u8; 4];
    dev.bar_read(0, ISR_CFG_OFFSET, &mut buf);
    assert_eq!(buf[0], 0x03);

    // Second read should return 0 (cleared)
    dev.bar_read(0, ISR_CFG_OFFSET, &mut buf);
    assert_eq!(buf[0], 0x00);
}

#[test]
fn device_config_read_delegates_to_device() {
    let mut dev = make_test_device(2);

    // MockVirtioDevice returns 0 for all config reads initially
    let mut buf = [0xFFu8; 4];
    dev.bar_read(0, DEVICE_CFG_OFFSET, &mut buf);
    assert_eq!(buf, [0, 0, 0, 0]);
}

#[test]
fn device_config_write_delegates_to_device() {
    let mut dev = make_test_device(2);

    // Write to device config region
    dev.bar_write(0, DEVICE_CFG_OFFSET, &[0xAA, 0xBB, 0xCC, 0xDD]);

    // Read it back
    let mut buf = [0u8; 4];
    dev.bar_read(0, DEVICE_CFG_OFFSET, &mut buf);
    assert_eq!(buf, [0xAA, 0xBB, 0xCC, 0xDD]);
}

#[test]
fn bar_regions_returns_bar0_and_bar2() {
    let dev = make_test_device(2);
    let regions = dev.bar_regions();
    assert_eq!(regions.len(), 2);

    let bar0 = regions.iter().find(|r| r.0 == 0).unwrap();
    assert_eq!(bar0.1, BAR0_GPA);
    assert_eq!(bar0.2, 4096);

    let bar2 = regions.iter().find(|r| r.0 == 2).unwrap();
    assert_eq!(bar2.1, BAR2_GPA);
    assert_eq!(bar2.2, 4096);
}

#[test]
fn pci_vendor_device_id() {
    let dev = make_test_device(2);
    let val = dev.config_read(0);
    // Vendor: 0x1AF4 (Red Hat)
    assert_eq!(val & 0xFFFF, 0x1AF4, "vendor ID");
    // Device: 0x1040 + device_type (3 for console) = 0x1043
    assert_eq!(val >> 16, 0x1043, "device ID for console");
}

#[test]
fn config_write_dispatches() {
    let mut dev = make_test_device(2);
    // Write to command register (reg 1) -- should be writable
    dev.config_write(1, 0, &[0x07, 0x00]);
    let val = dev.config_read(1);
    assert_eq!(val & 0xFFFF, 0x0007);
}

#[test]
fn common_config_byte_access() {
    let mut dev = make_test_device(2);

    // Write device_status as single byte
    bar0_write_u8(&mut dev, CC_DEVICE_STATUS, STATUS_ACKNOWLEDGE);
    assert_eq!(bar0_read_u8(&mut dev, CC_DEVICE_STATUS), STATUS_ACKNOWLEDGE);

    // Write queue_select as u16
    bar0_write_u16(&mut dev, CC_QUEUE_SELECT, 1);
    assert_eq!(bar0_read_u16(&mut dev, CC_QUEUE_SELECT), 1);
}

fn negotiate(dev: &mut TestDevice) {
    bar0_write_u8(dev, CC_DEVICE_STATUS, STATUS_ACKNOWLEDGE | STATUS_DRIVER);
    bar0_write_u32(dev, CC_DRIVER_FEATURE_SELECT, 1);
    bar0_write_u32(dev, CC_DRIVER_FEATURE, 1);
    bar0_write_u8(
        dev,
        CC_DEVICE_STATUS,
        STATUS_ACKNOWLEDGE | STATUS_DRIVER | STATUS_FEATURES_OK,
    );
    bar0_write_u8(
        dev,
        CC_DEVICE_STATUS,
        STATUS_ACKNOWLEDGE | STATUS_DRIVER | STATUS_FEATURES_OK | STATUS_DRIVER_OK,
    );
}

#[test]
fn running_device_is_kicked_and_stopped() {
    let mut dev = make_test_device(2);
    dev.set_host(SlotHost { inner: (), vector_base: None });
    bar0_write_u16(&mut dev, CC_QUEUE_SELECT, 1);
    bar0_write_u32(&mut dev, CC_QUEUE_DESC_LO, 0xA000);
    bar0_write_u32(&mut dev, CC_QUEUE_DESC_HI, 1);
    bar0_write_u16(&mut dev, 0x1c, 1);
    negotiate(&mut dev);
    assert_eq!(dev.take_actions(), vec![TransportAction::Activate]);
    let queues = dev.activation_queues();
    // Only queues that the driver enabled are handed over.
    assert_eq!(queues.len(), 1);
    assert_eq!(queues[0].desc_table, 0x1_0000_A000);
    assert!(queues[0].ready);
    dev.activation_done(ActivationOutcome::Running(1));

    bar0_write_u16(&mut dev, NOTIFY_CFG_OFFSET, 0);
    assert_eq!(dev.take_actions(), vec![TransportAction::Kick(0)]);
    bar0_write_u16(&mut dev, NOTIFY_CFG_OFFSET + 2, 1);
    assert!(dev.take_actions().is_empty());

    bar0_write_u8(&mut dev, CC_DEVICE_STATUS, 0);
    assert_eq!(dev.take_actions(), vec![TransportAction::Stop]);
    bar0_write_u16(&mut dev, CC_QUEUE_SELECT, 1);
    assert_eq!(bar0_read_u32(&mut dev, CC_QUEUE_DESC_LO), 0);
}

#[test]
fn msix_table_lies_in_bar_two() {
    let mut dev = make_test_device(2);
    assert_eq!(dev.msix_vectors(), 3);
    assert!(dev.bar_write(2, 8, &0x45u32.to_le_bytes()));
    let mut buf = [0u8; 4];
    assert!(dev.bar_read(2, 8, &mut buf));
    assert_eq!(u32::from_le_bytes(buf), 0x45);
    assert!(!dev.bar_read(1, 0, &mut buf));
    // The capability enables the table through its message control word.
    let cap = dev.config_read(37);
    assert_eq!(cap & 0xFF, 0x11);
    dev.config_write(37, 2, &[0x02, 0x80]);
    assert_eq!(dev.config_read(37) >> 31, 1);
}

#[test]
fn adapter_reports_bars_and_vectors() {
    let mut adapter = VirtioPciAdapter::new(make_test_device(1));
    assert_eq!(adapter.msix_vectors(), 2);
    let bars = adapter.bar_regions();
    assert_eq!(bars.len(), 2);
    assert_eq!((bars[0].bar_idx, bars[0].base_gpa, bars[0].size), (0, BAR0_GPA, 4096));
    assert_eq!(adapter.config_read(0), 0x1043_1AF4);
    assert_eq!(adapter.bar_write(0, CC_DEVICE_STATUS, &[STATUS_ACKNOWLEDGE]), Ok(()));
    let mut data = [0u8; 1];
    assert_eq!(adapter.bar_read(0, CC_DEVICE_STATUS, &mut data), Ok(()));
    assert_eq!(data, [STATUS_ACKNOWLEDGE]);
    assert!(adapter.take_actions().is_empty());
}

#[test]
fn reconnected_transport_is_fresh() {
    let mut dev = make_test_device(1);
    negotiate(&mut dev);
    dev.reset_for_reconnect();
    assert_eq!(bar0_read_u8(&mut dev, CC_DEVICE_STATUS), 0);
}

const MMIO_WINDOW: MmioWindow = MmioWindow { name: "virtio-mmio", base: 0xA00_0000, size: 0x200 };

fn mmio_u32(dev: &impl Fn(u64, &mut [u8]) -> bool, offset: u64) -> u32 {
    let mut buf = [0u8; 4];
    assert!(dev(offset, &mut buf));
    u32::from_le_bytes(buf)
}

#[test]
fn mmio_transport_registers() {
    let levels = Rc::new(RefCell::new(Vec::new()));
    let seen = Rc::clone(&levels);
    let irq = WiredIrq::new(33, move |intid: u32, level: bool| {
        seen.borrow_mut().push((intid, level))
    });
    assert_eq!(irq.intid(), 33);
    let mock = MockVirtioDevice::new(2, 1, VIRTIO_F_VERSION_1 | 0x40);
    let mut dev = VirtioMmio::new(MMIO_WINDOW, mock, 0, irq);
    dev.set_attachment(());
    {
        let read = |offset: u64, data: &mut [u8]| dev.read(offset, data);
        assert_eq!(mmio_u32(&read, 0x000), 0x7472_6976);
        assert_eq!(mmio_u32(&read, 0x004), 2);
        assert_eq!(mmio_u32(&read, 0x008), 2);
        assert_eq!(mmio_u32(&read, 0x00c), 0x554d_4551);
        assert_eq!(mmio_u32(&read, 0x010), 0x40);
        assert_eq!(mmio_u32(&read, 0x034), 256);
        assert_eq!(mmio_u32(&read, 0x070), 0);
    }
    assert!(dev.write(0x014, &1u32.to_le_bytes()));
    assert_eq!(mmio_u32(&|o: u64, d: &mut [u8]| dev.read(o, d), 0x010), 1);

    // Set up queue 0 and start the device.
    dev.write(0x030, &0u32.to_le_bytes());
    dev.write(0x038, &128u32.to_le_bytes());
    dev.write(0x080, &0x1000u32.to_le_bytes());
    dev.write(0x084, &2u32.to_le_bytes());
    dev.write(0x044, &1u32.to_le_bytes());
    dev.write(0x070, &4u32.to_le_bytes());
    assert_eq!(dev.take_actions(), vec![TransportAction::Activate]);
    let queues = dev.activation_queues();
    assert_eq!(queues.len(), 1);
    assert_eq!((queues[0].size, queues[0].desc_table), (128, 0x2_0000_1000));
    dev.activation_done(ActivationOutcome::Running(1));
    dev.write(0x050, &0u32.to_le_bytes());
    assert_eq!(dev.take_actions(), vec![TransportAction::Kick(0)]);

    // An interrupt is raised and acknowledged.
    dev.interrupt();
    assert_eq!(dev.take_actions(), vec![TransportAction::SetLevel(true)]);
    dev.drive(true);
    assert_eq!(mmio_u32(&|o: u64, d: &mut [u8]| dev.read(o, d), 0x060), 1);
    // An acknowledgement that leaves a bit does not lower the line.
    dev.write(0x064, &2u32.to_le_bytes());
    assert!(dev.take_actions().is_empty());
    assert_eq!(mmio_u32(&|o: u64, d: &mut [u8]| dev.read(o, d), 0x060), 1);
    dev.write(0x064, &1u32.to_le_bytes());
    assert_eq!(mmio_u32(&|o: u64, d: &mut [u8]| dev.read(o, d), 0x060), 0);
    assert_eq!(dev.take_actions(), vec![TransportAction::SetLevel(false)]);
    dev.drive(false);
    assert_eq!(*levels.borrow(), vec![(33, true), (33, false)]);

    // The configuration of the device lies behind the registers.
    dev.write(0x104, &[7, 8, 9, 10]);
    assert_eq!(mmio_u32(&|o: u64, d: &mut [u8]| dev.read(o, d), 0x104), 0x0a09_0807);
    assert_eq!(dev.windows()[0], MMIO_WINDOW);
}
