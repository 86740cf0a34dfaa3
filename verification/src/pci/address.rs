//! ECAM address decoding.
use vstd::prelude::*;

verus! {

/// Splits an ECAM offset into bus, device, function and register byte.
pub fn parse_ecam_offset(offset: u64) -> (r: (u8, u8, u8, u16))
    ensures
        r == ecam_parts(offset),
{
    let bus: u8 = ((offset >> 20) & 0xff) as u8;
    let device: u8 = ((offset >> 15) & 0x1f) as u8;
    let function: u8 = ((offset >> 12) & 0x7) as u8;
    let register: u16 = (offset & 0xfff) as u16;
    proof {
        assert((offset >> 20) & 0xff == offset / 0x10_0000 % 0x100 && (offset >> 15) & 0x1f
            == offset / 0x8000 % 0x20 && (offset >> 12) & 0x7 == offset / 0x1000 % 8 && offset
            & 0xfff == offset % 0x1000) by (bit_vector);
    }
    (bus, device, function, register)
}

/// The parts of an ECAM offset: each bus takes a mebibyte, each device on it
/// 32 kibibytes, each function of that four kibibytes.
pub open spec fn ecam_parts(offset: u64) -> (u8, u8, u8, u16) {
    (
        (offset / 0x10_0000 % 0x100) as u8,
        (offset / 0x8000 % 0x20) as u8,
        (offset / 0x1000 % 8) as u8,
        (offset % 0x1000) as u16,
    )
}

/// Every address on the bus has an ECAM offset of its own.
pub proof fn law_ecam_offset_round_trip(bus: u8, device: u8, function: u8, register: u16)
    requires
        device < 32,
        function < 8,
        register < 0x1000,
    ensures
        ecam_parts(
            (bus * 0x10_0000 + device * 0x8000 + function * 0x1000 + register) as u64,
        ) == (bus, device, function, register),
{
    let (b, d, f, r) = (bus as int, device as int, function as int, register as int);
    let offset = b * 0x10_0000 + d * 0x8000 + f * 0x1000 + r;
    assert(offset / 0x10_0000 % 0x100 == b && offset / 0x8000 % 0x20 == d && offset / 0x1000 % 8
        == f && offset % 0x1000 == r) by (nonlinear_arith)
        requires
            offset == b * 0x10_0000 + d * 0x8000 + f * 0x1000 + r,
            0 <= b < 0x100,
            0 <= d < 32,
            0 <= f < 8,
            0 <= r < 0x1000,
    ;
}

} // verus!
