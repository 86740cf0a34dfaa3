use std::cell::Cell;
use std::rc::Rc;

use dillo::mmio::{
    AddressRange, FixedSharedMemoryError, MmioBus, MmioDevice, MmioError, MmioWindow,
    MmioWriteOutcome, SharedAccess, SharedMemoryRequirement,
};
use dillo::syscon::{SysconAction, SysconDevice, SysconRegister};

struct TestDevice {
    window: [MmioWindow; 1],
    written: Rc<Cell<u64>>,
}

impl TestDevice {
    fn new(name: &'static str, base: u64, size: u64) -> Self {
        Self { window: [MmioWindow { name, base, size }], written: Rc::new(Cell::new(0)) }
    }
}

impl MmioDevice for TestDevice {
    fn windows(&self) -> &[MmioWindow] {
        &self.window
    }

    fn read(&mut self, _window: MmioWindow, offset: u64, data: &mut [u8]) -> Result<(), MmioError> {
        data.fill(offset as u8);
        Ok(())
    }

    fn write(
        &mut self,
        _window: MmioWindow,
        offset: u64,
        data: &[u8],
    ) -> Result<MmioWriteOutcome, MmioError> {
        let mut buf = [0u8; 8];
        let n = data.len().min(8);
        buf[..n].copy_from_slice(&data[..n]);
        self.written.set(offset | (u64::from_le_bytes(buf) << 32));
        Ok(MmioWriteOutcome::Continue)
    }
}

#[test]
fn read_dispatches_with_offset() {
    let mut bus = MmioBus::new();
    bus.register_device(TestDevice::new("test", 0x1000, 0x100));
    let mut buf = [0u8; 4];
    assert!(bus.read(0x1042, &mut buf));
    assert_eq!(buf, [0x42; 4]);
    assert!(!bus.read(0x900, &mut buf));
}

#[test]
fn write_dispatches() {
    let device = TestDevice::new("test", 0x2000, 0x100);
    let written = Rc::clone(&device.written);
    let mut bus = MmioBus::new();
    bus.register_device(device);
    assert!(bus.write(0x2080, &[0xAA, 0xBB]));
    assert_eq!(written.get() & 0xFFFF_FFFF, 0x80);
}

#[test]
fn device_read_dispatches_with_offset() {
    let mut bus = MmioBus::new();
    bus.register_device(TestDevice::new("device", 0x3000, 0x100));

    let mut buf = [0u8; 4];
    assert!(bus.read(0x3042, &mut buf));
    assert_eq!(buf, [0x42; 4]);
    assert!(!bus.read(0x2fff, &mut buf));
}

#[test]
fn device_write_dispatches_with_offset() {
    let device = TestDevice::new("device", 0x4000, 0x100);
    let written = Rc::clone(&device.written);
    let mut bus = MmioBus::new();
    bus.register_device(device);

    assert!(bus.write(0x4080, &[0xAA, 0xBB]));
    assert_eq!(written.get() & 0xFFFF_FFFF, 0x80);
}

#[test]
fn overlapping_windows_are_not_accepted() {
    let mut bus = MmioBus::new();
    bus.register_device(TestDevice::new("a", 0x1000, 0x100));
    let at = |base: u64, size: u64| [MmioWindow { name: "b", base, size }];
    assert!(!bus.accepts(&at(0x1080, 0x100)));
    assert!(!bus.accepts(&at(0xf81, 0x80)));
    assert!(bus.accepts(&at(0x1100, 0x100)));
    assert!(bus.accepts(&at(0xf00, 0x100)));
    assert!(!bus.accepts(&at(u64::MAX, 2)));
}

#[test]
fn an_access_goes_to_one_device() {
    let mut bus = MmioBus::new();
    bus.register_device(TestDevice::new("a", 0x1000, 0x100));
    bus.register_device(TestDevice::new("b", 0x2000, 0x100));
    assert_eq!(bus.find(0x1000, 4), Some(0));
    assert_eq!(bus.find(0x20fc, 4), Some(1));
    assert_eq!(bus.find(0x20fd, 4), None);
    assert_eq!(bus.find(u64::MAX, 2), None);
    assert_eq!(bus.dispatch_write(0x3000, &[1]), None);
    assert_eq!(bus.dispatch_write(0x2000, &[1]), Some(Ok(MmioWriteOutcome::Continue)));
}

#[test]
fn fixed_shared_memory_is_refused() {
    let fixed = [SharedMemoryRequirement {
        range: AddressRange { base: 0, size: 0x1000 },
        access: SharedAccess::ReadOnly,
    }];
    let mut bus = MmioBus::new();
    assert_eq!(
        bus.attach_device(TestDevice::new("a", 0x1000, 0x100), &fixed),
        Err(FixedSharedMemoryError { requested: 1 })
    );
    assert_eq!(bus.find(0x1000, 4), None);
    assert_eq!(bus.attach_device(TestDevice::new("a", 0x1000, 0x100), &[]), Ok(()));
    assert_eq!(bus.find(0x1000, 4), Some(0));
}

#[test]
fn address_ranges_subtract() {
    let range = AddressRange { base: 0x1000, size: 0x1000 };
    assert_eq!(
        range.subtract(AddressRange { base: 0x1100, size: 0x200 }),
        vec![
            AddressRange { base: 0x1000, size: 0x100 },
            AddressRange { base: 0x1300, size: 0xd00 },
        ]
    );
    assert_eq!(range.subtract(AddressRange { base: 0x800, size: 0x2000 }), vec![]);
    assert_eq!(range.subtract(AddressRange { base: 0x2000, size: 0x10 }), vec![range]);
    assert_eq!(range.end(), Some(0x2000));
    assert_eq!(AddressRange { base: u64::MAX, size: 2 }.end(), None);
    assert!(range.contains(0x1000, 0x1000));
    assert!(!range.contains(0x1001, 0x1000));
}

#[test]
fn access_modes() {
    assert!(SharedAccess::ReadOnly.permits_read());
    assert!(!SharedAccess::ReadOnly.permits_write());
    assert!(!SharedAccess::WriteOnly.permits_read());
    assert!(SharedAccess::WriteOnly.permits_write());
    assert!(SharedAccess::ReadWrite.includes(SharedAccess::WriteOnly));
    assert!(!SharedAccess::ReadOnly.includes(SharedAccess::ReadWrite));
}

fn syscon() -> SysconRegister {
    SysconRegister { base: 0x901_0000, offset: 0x10, value: 0xCAFE, mask: 0xFFFF }
}

#[test]
fn matching_write_records_action() {
    let mut device = SysconDevice::new(syscon(), SysconAction::Poweroff);
    let window = device.windows()[0];

    let outcome = device.write(window, 0x10, &0xCAFEu32.to_le_bytes()).expect("syscon write");

    assert_eq!(outcome, MmioWriteOutcome::GuestPoweroff);
}

#[test]
fn non_matching_write_is_claimed_without_action() {
    let mut device = SysconDevice::new(syscon(), SysconAction::Reboot);
    let window = device.windows()[0];

    let outcome = device.write(window, 0x14, &0xCAFEu32.to_le_bytes()).expect("syscon write");

    assert_eq!(outcome, MmioWriteOutcome::Continue);
}

#[test]
fn syscon_compares_under_the_mask() {
    let mut device = SysconDevice::new(syscon(), SysconAction::Reboot);
    let window = device.windows()[0];
    assert_eq!(window.base, 0x901_0000);
    assert_eq!(
        device.write(window, 0x10, &0x1234_CAFEu32.to_le_bytes()),
        Ok(MmioWriteOutcome::GuestReset)
    );
    assert_eq!(
        device.write(window, 0x10, &0x1234_CAFFu32.to_le_bytes()),
        Ok(MmioWriteOutcome::Continue)
    );
    let mut data = [0xffu8; 4];
    assert_eq!(device.read(window, 0, &mut data), Ok(()));
    assert_eq!(data, [0; 4]);
    assert!(SysconDevice::matches_poweroff(syscon(), 0x901_0010, &0xCAFEu32.to_le_bytes()));
    assert!(!SysconDevice::matches_poweroff(syscon(), 0x901_0014, &0xCAFEu32.to_le_bytes()));
}
