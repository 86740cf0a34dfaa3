//! Virtio capabilities in configuration space.
use vstd::prelude::*;

use crate::bytes::{from_le_bytes, le_u32};
use crate::pci::configuration::{ConfigView, PciConfiguration, CAP_ID_VENDOR};

verus! {

/// The first register of a virtio capability: id, pointer to the next, length
/// and type.
pub open spec fn cap_header(len: u8, cfg_type: u8) -> u32 {
    le_u32(seq![CAP_ID_VENDOR, 0, len, cfg_type])
}

/// A configuration with a virtio capability added: a range of a BAR.
pub open spec fn with_virtio_cap(
    c: ConfigView,
    cfg_type: u8,
    bar: u8,
    offset: u32,
    length: u32,
) -> ConfigView {
    let at = c.next_capability / 4;
    c.with_capability(CAP_ID_VENDOR, 16).with_reg(at, cap_header(16, cfg_type)).with_reg(
        at + 1,
        bar as u32,
    ).with_reg(at + 2, offset).with_reg(at + 3, length)
}

/// A configuration with a notify capability added: a range of a BAR and the
/// distance between the notify registers of two queues.
pub open spec fn with_notify_cap(
    c: ConfigView,
    bar: u8,
    offset: u32,
    length: u32,
    multiplier: u32,
) -> ConfigView {
    let at = c.next_capability / 4;
    c.with_capability(CAP_ID_VENDOR, 20).with_reg(at, cap_header(20, 2)).with_reg(
        at + 1,
        bar as u32,
    ).with_reg(at + 2, offset).with_reg(at + 3, length).with_reg(at + 4, multiplier)
}

/// Adds a virtio capability.
pub fn add_virtio_cap(
    config: &mut PciConfiguration,
    cfg_type: u8,
    bar: u8,
    offset: u32,
    length: u32,
)
    requires
        old(config)@.wf(),
        old(config)@.has_room(16),
    ensures
        final(config)@ == with_virtio_cap(old(config)@, cfg_type, bar, offset, length),
        final(config)@.wf(),
        final(config)@.next_capability == old(config)@.next_capability + 16,
{
    let reg: usize = config.add_capability(CAP_ID_VENDOR, 16);
    config.set_reg(reg, from_le_bytes(CAP_ID_VENDOR, 0, 16, cfg_type));
    config.set_reg(reg + 1, bar as u32);
    config.set_reg(reg + 2, offset);
    config.set_reg(reg + 3, length);
}

/// Adds a notify capability.
pub fn add_virtio_notify_cap(
    config: &mut PciConfiguration,
    bar: u8,
    offset: u32,
    length: u32,
    multiplier: u32,
)
    requires
        old(config)@.wf(),
        old(config)@.has_room(20),
    ensures
        final(config)@ == with_notify_cap(old(config)@, bar, offset, length, multiplier),
        final(config)@.wf(),
        final(config)@.next_capability == old(config)@.next_capability + 20,
{
    let reg: usize = config.add_capability(CAP_ID_VENDOR, 20);
    config.set_reg(reg, from_le_bytes(CAP_ID_VENDOR, 0, 20, 2));
    config.set_reg(reg + 1, bar as u32);
    config.set_reg(reg + 2, offset);
    config.set_reg(reg + 3, length);
    config.set_reg(reg + 4, multiplier);
}

} // verus!
