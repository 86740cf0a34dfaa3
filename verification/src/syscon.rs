//! Power devices: the guest writes a declared value to a declared register.
use vstd::prelude::*;

use crate::mmio::{MmioDevice, MmioError, MmioWindow, MmioWriteOutcome};

verus! {

/// The size of a power device's window.
pub const WINDOW_SIZE: u64 = 0x1000;

/// What a power device does.
#[derive(Debug, Clone, Copy, PartialEq, Eq, Structural)]
pub enum SysconAction {
    Poweroff,
    Reboot,
}

/// A power register as the device tree declares it.
#[derive(Debug, Clone, Copy, PartialEq, Eq, Structural)]
pub struct SysconRegister {
    pub base: u64,
    pub offset: u64,
    pub value: u32,
    pub mask: u32,
}

/// A power device.
#[derive(Debug)]
pub struct SysconDevice {
    window: [MmioWindow; 1],
    offset: u64,
    value: u32,
    mask: u32,
    action: SysconAction,
}

/// Written data read as a little-endian number; only one, two and four bytes
/// can be.
pub open spec fn written_value(data: Seq<u8>) -> Option<u32> {
    if data.len() == 1 {
        Some(data[0] as u32)
    } else if data.len() == 2 {
        Some((data[0] + data[1] * 0x100) as u32)
    } else if data.len() == 4 {
        Some((data[0] + data[1] * 0x100 + data[2] * 0x1_0000 + data[3] * 0x100_0000) as u32)
    } else {
        None
    }
}

/// Whether a write at `offset` triggers a register: it is at the register's
/// offset and agrees with its value under the mask.
pub open spec fn triggers(register: SysconRegister, offset: u64, data: Seq<u8>) -> bool {
    offset == register.offset && match written_value(data) {
        Some(v) => v & register.mask == register.value & register.mask,
        None => false,
    }
}

/// What an action means for the run of the guest.
pub open spec fn action_outcome(action: SysconAction) -> MmioWriteOutcome {
    match action {
        SysconAction::Poweroff => MmioWriteOutcome::GuestPoweroff,
        SysconAction::Reboot => MmioWriteOutcome::GuestReset,
    }
}

impl SysconDevice {
    /// The register of the device.
    pub closed spec fn register(&self) -> SysconRegister {
        SysconRegister {
            base: self.window@[0].base,
            offset: self.offset,
            value: self.value,
            mask: self.mask,
        }
    }

    /// The action of the device.
    pub closed spec fn acts(&self) -> SysconAction {
        self.action
    }

    pub fn new(syscon: SysconRegister, action: SysconAction) -> (r: SysconDevice)
        ensures
            r.register() == syscon,
            r.acts() == action,
            r.window_list().len() == 1,
            r.window_list()[0].base == syscon.base,
            r.window_list()[0].size == WINDOW_SIZE,
    {
        SysconDevice {
            window: [MmioWindow { name: "syscon", base: syscon.base, size: WINDOW_SIZE }],
            offset: syscon.offset,
            value: syscon.value,
            mask: syscon.mask,
            action,
        }
    }

    /// Whether a write triggers the device.
    pub fn matches(&self, offset: u64, data: &[u8]) -> (r: bool)
        ensures
            r == triggers(self.register(), offset, data@),
    {
        if offset != self.offset {
            return false;
        }
        let n: usize = data.len();
        let value: u32 = if n == 1 {
            data[0] as u32
        } else if n == 2 {
            (data[0] as u32) + (data[1] as u32) * 0x100
        } else if n == 4 {
            (data[0] as u32) + (data[1] as u32) * 0x100 + (data[2] as u32) * 0x1_0000 + (
            data[3] as u32) * 0x100_0000
        } else {
            return false;
        };
        (value & self.mask) == (self.value & self.mask)
    }

    /// Whether a write at a guest address triggers a power-off register.
    pub fn matches_poweroff(poweroff: SysconRegister, addr: u64, data: &[u8]) -> (r: bool)
        ensures
            r == (addr >= poweroff.base && triggers(
                poweroff,
                (addr - poweroff.base) as u64,
                data@,
            )),
    {
        let device = SysconDevice::new(poweroff, SysconAction::Poweroff);
        match addr.checked_sub(poweroff.base) {
            Some(offset) => device.matches(offset, data),
            None => false,
        }
    }
}

impl MmioDevice for SysconDevice {
    open spec fn wf(&self) -> bool {
        true
    }

    closed spec fn window_list(&self) -> Seq<MmioWindow> {
        self.window@
    }

    /// A read gives zeros.
    open spec fn read_step(
        before: SysconDevice,
        window: MmioWindow,
        offset: u64,
        data: Seq<u8>,
        after: SysconDevice,
        out: Seq<u8>,
        r: Result<(), MmioError>,
    ) -> bool {
        after == before && out == Seq::new(data.len(), |i: int| 0u8) && r is Ok
    }

    /// A write that triggers the device reports its action; any other is taken
    /// and does nothing.
    open spec fn write_step(
        before: SysconDevice,
        window: MmioWindow,
        offset: u64,
        data: Seq<u8>,
        after: SysconDevice,
        r: Result<MmioWriteOutcome, MmioError>,
    ) -> bool {
        after == before && r == Ok::<_, MmioError>(
            if triggers(before.register(), offset, data) {
                action_outcome(before.acts())
            } else {
                MmioWriteOutcome::Continue
            },
        )
    }

    fn windows(&self) -> (r: &[MmioWindow]) {
        vstd::array::array_as_slice(&self.window)
    }

    fn read(&mut self, window: MmioWindow, offset: u64, data: &mut [u8]) -> (r: Result<
        (),
        MmioError,
    >) {
        crate::bytes::fill(data, 0);
        Ok(())
    }

    fn write(&mut self, window: MmioWindow, offset: u64, data: &[u8]) -> (r: Result<
        MmioWriteOutcome,
        MmioError,
    >) {
        if self.matches(offset, data) {
            match self.action {
                SysconAction::Poweroff => Ok(MmioWriteOutcome::GuestPoweroff),
                SysconAction::Reboot => Ok(MmioWriteOutcome::GuestReset),
            }
        } else {
            Ok(MmioWriteOutcome::Continue)
        }
    }
}

/// A written number is read lowest byte first, and only numbers of one, two and four
/// bytes are read.
pub proof fn law_written_number(value: u32, data: Seq<u8>)
    ensures
        written_value(crate::bytes::le_bytes(value)) == Some(value),
        value < 0x1_0000 ==> written_value(crate::bytes::le_bytes(value).take(2)) == Some(value),
        value < 0x100 ==> written_value(crate::bytes::le_bytes(value).take(1)) == Some(value),
        written_value(data) is Some <==> data.len() == 1 || data.len() == 2 || data.len() == 4,
{
    crate::bytes::law_le_round_trip(value);
    let b = crate::bytes::le_bytes(value);
    assert(b.take(1)[0] == b[0] && b.take(2)[0] == b[0] && b.take(2)[1] == b[1]);
}

/// A register is triggered exactly by a write at its offset of a number that differs from
/// its value in no bit of the mask: with a whole mask by its value, with an empty one by
/// every number.
pub proof fn law_trigger_compares_under_the_mask(
    register: SysconRegister,
    offset: u64,
    value: u32,
)
    ensures
        triggers(register, offset, crate::bytes::le_bytes(value)) <==> offset == register.offset
            && (value ^ register.value) & register.mask == 0,
        offset != register.offset ==> !triggers(register, offset, crate::bytes::le_bytes(value)),
        action_outcome(SysconAction::Poweroff) == MmioWriteOutcome::GuestPoweroff,
        action_outcome(SysconAction::Reboot) == MmioWriteOutcome::GuestReset,
{
    law_written_number(value, Seq::empty());
    let (v, m) = (register.value, register.mask);
    assert((value & m == v & m) == ((value ^ v) & m == 0)) by (bit_vector);
}

/// A guest write powers the machine off exactly at the address of the register, with a
/// number that triggers it.
pub proof fn law_poweroff_is_at_its_address(
    poweroff: SysconRegister,
    addr: u64,
    value: u32,
    data: &[u8],
    r: bool,
)
    requires
        data@ == crate::bytes::le_bytes(value),
        call_ensures(SysconDevice::matches_poweroff, (poweroff, addr, data), r),
    ensures
        r <==> addr == poweroff.base + poweroff.offset && (value ^ poweroff.value)
            & poweroff.mask == 0,
{
    law_trigger_compares_under_the_mask(poweroff, poweroff.offset, value);
}

/// A power device takes one window of four kibibytes at the base of its register, and
/// keeps its register and its action.
pub proof fn law_power_device_window(
    register: SysconRegister,
    action: SysconAction,
    d: SysconDevice,
)
    requires
        call_ensures(SysconDevice::new, (register, action), d),
    ensures
        d.window_list().len() == 1,
        d.window_list()[0].base == register.base,
        d.window_list()[0].size == 0x1000,
        d.register() == register,
        d.acts() == action,
{
}

} // verus!
