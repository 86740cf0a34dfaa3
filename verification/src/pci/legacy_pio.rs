//! Configuration access through the legacy I/O ports: an address port and a data
//! window.
use vstd::prelude::*;

use crate::bytes::{byte_of, from_le_bytes, le_byte, le_u32, lemma_le_bytes_of};
use crate::pci::address::{ecam_parts, law_ecam_offset_round_trip};
use crate::pci::bus::{config_at, config_write_step, PciDevice, Slot};
use crate::pci::configuration::{law_written_bytes_land_in_order, overwritten};
use crate::pci::root::{ecam_byte, ecam_register, PciRoot};

verus! {

pub const CF8_PORT: u16 = 0xcf8;

pub const CF8_PORT_END: u16 = 0xcfb;

/// The first port of the four-byte data window.
pub const CFC_PORT_BASE: u16 = 0xcfc;

pub const CFC_PORT_END: u16 = 0xcff;

/// The latched configuration address.
#[derive(Debug)]
pub struct LegacyPciState {
    pub cf8: u32,
}

impl Default for LegacyPciState {
    fn default() -> (r: LegacyPciState)
        ensures
            r.cf8 == 0,
    {
        LegacyPciState { cf8: 0 }
    }
}

impl LegacyPciState {
    pub fn new() -> (r: LegacyPciState)
        ensures
            r.cf8 == 0,
    {
        LegacyPciState { cf8: 0 }
    }
}

/// What a latched address names, if its enable bit is set: bus, device, function,
/// register and the byte of the register.
pub open spec fn cf8_parts(cf8: u32) -> Option<(u8, u8, u8, usize, usize)> {
    if cf8 < 0x8000_0000 {
        None
    } else {
        Some(
            (
                (cf8 / 0x1_0000 % 0x100) as u8,
                (cf8 / 0x800 % 0x20) as u8,
                (cf8 / 0x100 % 8) as u8,
                (cf8 / 4 % 0x40) as usize,
                (cf8 % 4) as usize,
            ),
        )
    }
}

/// Decodes a latched address.
pub fn decode_cf8(cf8: u32) -> (r: Option<(u8, u8, u8, usize, usize)>)
    ensures
        r == cf8_parts(cf8),
{
    proof {
        assert((cf8 & 0x8000_0000 == 0) == (cf8 < 0x8000_0000) && (cf8 >> 16) & 0xff == cf8
            / 0x1_0000 % 0x100 && (cf8 >> 11) & 0x1f == cf8 / 0x800 % 0x20 && (cf8 >> 8) & 0x07
            == cf8 / 0x100 % 8 && (cf8 >> 2) & 0x3f == cf8 / 4 % 0x40 && cf8 & 0x3 == cf8 % 4)
            by (bit_vector);
    }
    if cf8 & 0x8000_0000 == 0 {
        return None;
    }
    let bus: u8 = ((cf8 >> 16) & 0xff) as u8;
    let dev: u8 = ((cf8 >> 11) & 0x1f) as u8;
    let func: u8 = ((cf8 >> 8) & 0x07) as u8;
    let reg_idx: usize = ((cf8 >> 2) & 0x3f) as usize;
    let byte_off: usize = (cf8 & 0x3) as usize;
    Some((bus, dev, func, reg_idx, byte_off))
}

/// The low `size` bytes of a number from byte `at` on.
pub open spec fn sized_bytes(value: u32, at: int, size: u8) -> u32 {
    let v = value >> ((8 * at) as u32);
    if size == 1 {
        v & 0xff
    } else if size == 2 {
        v & 0xffff
    } else {
        v
    }
}

/// The low `size` bytes of a number from byte `at` on.
fn take_bytes(value: u32, at: u32, size: u8) -> (r: u32)
    requires
        at < 4,
    ensures
        r == sized_bytes(value, at as int, size),
{
    let v: u32 = value >> (8 * at);
    if size == 1 {
        v & 0xff
    } else if size == 2 {
        v & 0xffff
    } else {
        v
    }
}

/// How many bytes an access of `size` takes.
pub open spec fn width(size: u8) -> int {
    if size == 1 {
        1
    } else if size == 2 {
        2
    } else {
        4
    }
}

/// Byte `i` of an access to a register from its byte `at` on: ones behind the end
/// of the register.
pub open spec fn window_byte(value: u32, at: int, i: int) -> u8 {
    if at + i < 4 {
        le_byte(value, at + i)
    } else {
        0xff
    }
}

/// What an access of `size` to a register gives from its byte `at` on.
pub open spec fn window_value(value: u32, at: int, size: u8) -> u32 {
    le_u32(
        Seq::new(
            4,
            |i: int|
                if i < width(size) {
                    window_byte(value, at, i)
                } else {
                    0
                },
        ),
    )
}

fn take_byte(value: u32, at: usize, i: usize) -> (r: u8)
    requires
        at < 4,
        i < 4,
    ensures
        r == window_byte(value, at as int, i as int),
{
    if at + i < 4 {
        byte_of(value, at + i)
    } else {
        0xff
    }
}

/// What an access of `size` to a register gives from its byte `at` on.
fn take_window(value: u32, at: usize, size: u8) -> (r: u32)
    requires
        at < 4,
    ensures
        r == window_value(value, at as int, size),
{
    let b0: u8 = take_byte(value, at, 0);
    let b1: u8 = if size == 1 {
        0
    } else {
        take_byte(value, at, 1)
    };
    let b2: u8 = if size == 1 || size == 2 {
        0
    } else {
        take_byte(value, at, 2)
    };
    let b3: u8 = if size == 1 || size == 2 {
        0
    } else {
        take_byte(value, at, 3)
    };
    assert(seq![b0, b1, b2, b3] =~= Seq::new(
        4,
        |i: int|
            if i < width(size) {
                window_byte(value, at as int, i)
            } else {
                0
            },
    ));
    from_le_bytes(b0, b1, b2, b3)
}

/// What an access of `size` to a register gives from byte `at` on, where the address
/// and the port name it. Byte numbers behind the register start over at its first
/// byte, and such an access has zeros behind the end of the register.
pub open spec fn data_value(value: u32, at: int, size: u8) -> u32 {
    if at < 4 {
        window_value(value, at, size)
    } else {
        sized_bytes(value, at - 4, size)
    }
}

/// What reading a port gives.
pub open spec fn port_value<D: PciDevice>(
    cf8: u32,
    slots: Seq<Slot<D>>,
    port: u16,
    size: u8,
) -> u32 {
    if CF8_PORT <= port <= CF8_PORT_END {
        sized_bytes(cf8, port - CF8_PORT, size)
    } else if CFC_PORT_BASE <= port <= CFC_PORT_END {
        match cf8_parts(cf8) {
            None => 0xffff_ffff,
            Some((b, d, f, reg, base_off)) => data_value(
                config_at(slots, b, d, f, reg),
                base_off + (port - CFC_PORT_BASE),
                size,
            ),
        }
    } else {
        0
    }
}

/// Takes a guest port read of `size` bytes.
pub fn pio_read<D: PciDevice>(
    state: &LegacyPciState,
    bus: &PciRoot<D>,
    port: u16,
    size: u8,
) -> (r: u32)
    requires
        bus.inv(),
    ensures
        r == port_value(state.cf8, bus.slot_list(), port, size),
{
    if CF8_PORT <= port && port <= CF8_PORT_END {
        take_bytes(state.cf8, (port - CF8_PORT) as u32, size)
    } else if CFC_PORT_BASE <= port && port <= CFC_PORT_END {
        match decode_cf8(state.cf8) {
            None => 0xffff_ffff,
            Some((b, d, f, reg, base_off)) => {
                let dword: u32 = bus.config_read(b, d, f, reg);
                let off: usize = base_off + (port - CFC_PORT_BASE) as usize;
                if off < 4 {
                    take_window(dword, off, size)
                } else {
                    take_bytes(dword, (off - 4) as u32, size)
                }
            },
        }
    } else {
        0
    }
}

/// The latched address after a port write of `data` at byte `at`.
pub open spec fn latched(cf8: u32, at: int, data: Seq<u8>) -> u32 {
    overwritten(
        cf8,
        at,
        if data.len() <= 4 - at {
            data
        } else {
            data.take(4 - at)
        },
    )
}

/// Takes a guest port write.
pub fn pio_write<D: PciDevice>(
    state: &mut LegacyPciState,
    bus: &mut PciRoot<D>,
    port: u16,
    data: &[u8],
)
    requires
        old(bus).inv(),
    ensures
        final(bus).inv(),
        if CF8_PORT <= port <= CF8_PORT_END {
            &&& final(state).cf8 == latched(old(state).cf8, port - CF8_PORT, data@)
            &&& *final(bus) == *old(bus)
        } else if CFC_PORT_BASE <= port <= CFC_PORT_END && cf8_parts(old(state).cf8) is Some {
            let (b, d, f, reg, base_off) = cf8_parts(old(state).cf8)->0;
            &&& *final(state) == *old(state)
            &&& config_write_step(
                old(bus).slot_list(),
                b,
                d,
                f,
                reg,
                (base_off + (port - CFC_PORT_BASE)) as u64,
                data@,
                final(bus).slot_list(),
            )
        } else {
            *final(state) == *old(state) && *final(bus) == *old(bus)
        },
{
    if CF8_PORT <= port && port <= CF8_PORT_END {
        let at: usize = (port - CF8_PORT) as usize;
        let n: usize = data.len();
        let before: u32 = state.cf8;
        let b0: u8 = if at == 0 && n > 0 {
            data[0]
        } else {
            byte_of(before, 0)
        };
        let b1: u8 = if at <= 1 && 1 - at < n {
            data[1 - at]
        } else {
            byte_of(before, 1)
        };
        let b2: u8 = if at <= 2 && 2 - at < n {
            data[2 - at]
        } else {
            byte_of(before, 2)
        };
        let b3: u8 = if 3 - at < n {
            data[3 - at]
        } else {
            byte_of(before, 3)
        };
        state.cf8 = from_le_bytes(b0, b1, b2, b3);
        assert(state.cf8 == latched(before, at as int, data@));
    } else if CFC_PORT_BASE <= port && port <= CFC_PORT_END {
        match decode_cf8(state.cf8) {
            None => {},
            Some((b, d, f, reg, base_off)) => {
                let off: usize = base_off + (port - CFC_PORT_BASE) as usize;
                bus.config_write(b, d, f, reg, off as u64, data);
            },
        }
    }
}

/// The latched address of a register: the enable bit, bus, device, function and
/// register.
pub open spec fn cf8_of(bus: u8, device: u8, function: u8, reg: int) -> u32 {
    (0x8000_0000 + bus * 0x1_0000 + device * 0x800 + function * 0x100 + reg * 4) as u32
}

/// The offset of a register in the configuration window.
pub open spec fn ecam_of(bus: u8, device: u8, function: u8, reg: int) -> u64 {
    (bus * 0x10_0000 + device * 0x8000 + function * 0x1000 + reg * 4) as u64
}

/// The data ports and the configuration window give the same bytes of a register,
/// whichever of its bytes the address, the port and the size of the access name.
pub proof fn law_ports_and_window_agree<D: PciDevice>(
    slots: Seq<Slot<D>>,
    bus: u8,
    device: u8,
    function: u8,
    reg: int,
    low: int,
    k: int,
    size: u8,
    i: int,
)
    requires
        device < 32,
        function < 8,
        0 <= reg < 64,
        0 <= low,
        0 <= k,
        low + k < 4,
        0 <= i < width(size),
    ensures
        le_byte(
            port_value(
                (cf8_of(bus, device, function, reg) + low) as u32,
                slots,
                (CFC_PORT_BASE + k) as u16,
                size,
            ),
            i,
        ) == ecam_byte(slots, (ecam_of(bus, device, function, reg) + low + k) as u64, i),
{
    let (b, d, f) = (bus as int, device as int, function as int);
    let cf8 = 0x8000_0000 + b * 0x1_0000 + d * 0x800 + f * 0x100 + reg * 4 + low;
    assert(cf8 / 0x1_0000 % 0x100 == b && cf8 / 0x800 % 0x20 == d && cf8 / 0x100 % 8 == f && cf8
        / 4 % 0x40 == reg && cf8 % 4 == low && cf8 <= 0xffff_ffff) by (nonlinear_arith)
        requires
            cf8 == 0x8000_0000 + b * 0x1_0000 + d * 0x800 + f * 0x100 + reg * 4 + low,
            0 <= b < 0x100,
            0 <= d < 32,
            0 <= f < 8,
            0 <= reg < 64,
            0 <= low < 4,
    ;
    let at = low + k;
    let register = (reg * 4 + at) as u16;
    law_ecam_offset_round_trip(bus, device, function, register);
    let offset = (ecam_of(bus, device, function, reg) + low + k) as u64;
    assert(ecam_parts(offset) == (bus, device, function, register));
    assert(offset % 0x1000 == register);
    assert(offset % 4 == at) by (nonlinear_arith)
        requires
            offset % 0x1000 == register,
            register == reg * 4 + at,
            0 <= at < 4,
    ;
    assert(ecam_register(offset) == reg as usize);
    let value = config_at(slots, bus, device, function, reg as usize);
    lemma_le_bytes_of(
        Seq::new(
            4,
            |i: int|
                if i < width(size) {
                    window_byte(value, at, i)
                } else {
                    0
                },
        ),
    );
}

/// The address port latches the bytes that are written from the port on and keeps the
/// others; bytes behind the port's four are dropped.
pub proof fn law_address_port_latches_its_bytes(cf8: u32, at: int, data: Seq<u8>, k: int)
    requires
        0 <= at < 4,
        0 <= k < 4,
    ensures
        at <= k < at + data.len() ==> le_byte(latched(cf8, at, data), k) == data[k - at],
        !(at <= k < at + data.len()) ==> le_byte(latched(cf8, at, data), k) == le_byte(cf8, k),
{
    let kept = if data.len() <= 4 - at {
        data
    } else {
        data.take(4 - at)
    };
    law_written_bytes_land_in_order(cf8, at, kept, k);
}

/// An address names its register by the bus in bits 16 to 23, the device in bits 11 to
/// 15, the function in bits 8 to 10 and the register in bits 2 to 7, with the byte
/// below; without the highest bit it names nothing.
pub proof fn law_address_names_a_register(
    bus: u8,
    device: u8,
    function: u8,
    reg: int,
    low: int,
    cf8: u32,
)
    requires
        device < 32,
        function < 8,
        0 <= reg < 64,
        0 <= low < 4,
    ensures
        cf8_parts(
            (0x8000_0000 + bus * 0x1_0000 + device * 0x800 + function * 0x100 + reg * 4
                + low) as u32,
        ) == Some((bus, device, function, reg as usize, low as usize)),
        cf8_parts(cf8) is None <==> cf8 / 0x8000_0000 == 0,
{
    let (b, d, f) = (bus as int, device as int, function as int);
    let x = 0x8000_0000 + b * 0x1_0000 + d * 0x800 + f * 0x100 + reg * 4 + low;
    assert(x / 0x1_0000 % 0x100 == b && x / 0x800 % 0x20 == d && x / 0x100 % 8 == f && x / 4 % 0x40
        == reg && x % 4 == low && x <= 0xffff_ffff) by (nonlinear_arith)
        requires
            x == 0x8000_0000 + b * 0x1_0000 + d * 0x800 + f * 0x100 + reg * 4 + low,
            0 <= b < 0x100,
            0 <= d < 32,
            0 <= f < 8,
            0 <= reg < 64,
            0 <= low < 4,
    ;
}

/// The address port gives back the latched number from the byte of the port on, cut to
/// the size of the access.
pub proof fn law_address_port_reads_back<D: PciDevice>(cf8: u32, slots: Seq<Slot<D>>, port: u16)
    ensures
        port_value(cf8, slots, 0xcf8, 4) == cf8,
        port_value(cf8, slots, 0xcf8, 2) == cf8 % 0x1_0000,
        port_value(cf8, slots, 0xcf8, 1) == cf8 % 0x100,
        port_value(cf8, slots, 0xcf9, 1) == cf8 / 0x100 % 0x100,
        port_value(cf8, slots, 0xcfa, 1) == cf8 / 0x1_0000 % 0x100,
        port_value(cf8, slots, 0xcfa, 2) == cf8 / 0x1_0000,
        port_value(cf8, slots, 0xcfb, 1) == cf8 / 0x100_0000,
        0xcfc <= port <= 0xcff && cf8 < 0x8000_0000 ==> port_value(cf8, slots, port, 4)
            == 0xffff_ffff,
        port < 0xcf8 || port > 0xcff ==> port_value(cf8, slots, port, 4) == 0,
{
    assert(cf8 >> 0 == cf8 && (cf8 >> 0) & 0xffff == cf8 % 0x1_0000 && (cf8 >> 0) & 0xff == cf8
        % 0x100 && (cf8 >> 8) & 0xff == cf8 / 0x100 % 0x100 && (cf8 >> 16) & 0xff == cf8 / 0x1_0000
        % 0x100 && (cf8 >> 16) & 0xffff == cf8 / 0x1_0000 && (cf8 >> 24) & 0xff == cf8
        / 0x100_0000) by (bit_vector);
}

/// A write to the address port latches its bytes and touches no device; one to the data
/// ports goes to the named register, at the byte that the address and the port name, and
/// keeps the address; one to another port, or without a valid address, does nothing.
pub proof fn law_port_writes_reach_the_register<D: PciDevice>(
    state: &mut LegacyPciState,
    bus: &mut PciRoot<D>,
    port: u16,
    data: &[u8],
    b: u8,
    d: u8,
    f: u8,
    reg: int,
    low: int,
)
    requires
        old(bus).inv(),
        call_ensures(pio_write::<D>, (state, bus, port, data), ()),
        d < 32,
        f < 8,
        0 <= reg < 64,
        0 <= low < 4,
    ensures
        0xcf8 <= port < 0xcfc ==> final(bus).slot_list() == old(bus).slot_list(),
        port == 0xcf8 && data@.len() == 4 ==> final(state).cf8 == data@[0] + data@[1] * 256
            + data@[2] * 65536 + data@[3] * 16777216,
        0xcfc <= port <= 0xcff && old(state).cf8 == 0x8000_0000 + b * 0x1_0000 + d * 0x800 + f
            * 0x100 + reg * 4 + low ==> final(state).cf8 == old(state).cf8 && config_write_step(
            old(bus).slot_list(),
            b,
            d,
            f,
            reg as usize,
            (low + (port - 0xcfc)) as u64,
            data@,
            final(bus).slot_list(),
        ),
        port < 0xcf8 || port > 0xcff || (0xcfc <= port && old(state).cf8 < 0x8000_0000) ==> final(state).cf8 == old(state).cf8 && final(bus).slot_list() == old(bus).slot_list(),
{
    law_address_names_a_register(b, d, f, reg, low, old(state).cf8);
}

} // verus!
