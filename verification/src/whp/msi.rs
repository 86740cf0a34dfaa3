//! Message interrupts as requests to a local APIC.
use vstd::prelude::*;

use crate::message_table::MessageTable;

verus! {

/// A message.
#[derive(Debug, Clone, Copy, PartialEq, Eq, Structural)]
pub struct FixedMessage {
    pub address: u64,
    pub data: u32,
    pub masked: bool,
}

/// A fixed, edge-triggered interrupt of a local APIC.
#[derive(Debug, Clone, Copy, PartialEq, Eq, Structural)]
pub struct FixedMsi {
    pub destination: u32,
    pub vector: u8,
}

/// The interrupt that a message asks for. Only messages to a local APIC count
/// that ask for fixed delivery and an edge.
pub open spec fn fixed_msi(address: u64, data: u32) -> Option<FixedMsi> {
    if address / 0x10_0000 % 0x1000 != 0xfee {
        None
    } else if data / 0x100 % 8 != 0 {
        None
    } else if data / 0x4000 % 4 != 0 {
        None
    } else {
        Some(
            FixedMsi {
                destination: (address / 0x1000 % 0x100) as u32,
                vector: (data % 0x100) as u8,
            },
        )
    }
}

pub fn decode_fixed_msi(message: FixedMessage) -> (r: Option<FixedMsi>)
    ensures
        r == fixed_msi(message.address, message.data),
{
    if message.address / 0x10_0000 % 0x1000 != 0xfee {
        return None;
    }
    if message.data / 0x100 % 8 != 0 {
        return None;
    }
    if message.data / 0x4000 % 4 != 0 {
        return None;
    }
    Some(
        FixedMsi {
            destination: (message.address / 0x1000 % 0x100) as u32,
            vector: (message.data % 0x100) as u8,
        },
    )
}

/// The interrupt that a vector of a domain asks for.
pub fn fixed_message_for(table: &MessageTable, vector: u16) -> (r: Option<FixedMsi>)
    ensures
        r == match table@.message(vector) {
            Some(m) => fixed_msi(m.address, m.data),
            None => None,
        },
{
    match table.message_for(vector) {
        Some(m) => decode_fixed_msi(
            FixedMessage { address: m.address, data: m.data, masked: m.masked },
        ),
        None => None,
    }
}

/// The message of a destination and a vector asks for them.
pub proof fn law_fixed_msi_round_trip(destination: u32, vector: u8)
    requires
        destination < 0x100,
    ensures
        fixed_msi((0xfee0_0000 + destination * 0x1000) as u64, vector as u32) == Some(
            FixedMsi { destination, vector },
        ),
{
}

/// The fields of a message: address bits 31:20 name the local APICs and bits 19:12 one
/// of them; data bits 7:0 are the vector, and bits 10:8 and 15:14 have to be clear.
pub proof fn law_message_fields(address: u64, data: u32)
    ensures
        match fixed_msi(address, data) {
            Some(msi) => {
                &&& (address >> 20) & 0xfff == 0xfee
                &&& (data >> 8) & 7 == 0
                &&& (data >> 14) & 3 == 0
                &&& msi.destination == (address >> 12) & 0xff
                &&& msi.vector == data & 0xff
            },
            None => (address >> 20) & 0xfff != 0xfee || (data >> 8) & 7 != 0 || (data >> 14) & 3
                != 0,
        },
{
    assert((address >> 20) & 0xfff == address / 0x10_0000 % 0x1000 && (address >> 12) & 0xff
        == address / 0x1000 % 0x100 && (data >> 8) & 7 == data / 0x100 % 8 && (data >> 14) & 3
        == data / 0x4000 % 4 && data & 0xff == data % 0x100) by (bit_vector);
}

} // verus!
