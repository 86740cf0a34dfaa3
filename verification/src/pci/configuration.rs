//! A 256-byte type 0 configuration space.
use vstd::prelude::*;

use crate::bytes::{byte_of, from_le_bytes, le_byte, le_u32, lemma_le_bytes_of};

verus! {

/// Capability id of a vendor-specific capability.
pub const CAP_ID_VENDOR: u8 = 0x09;

/// Capability id of MSI-X.
pub const CAP_ID_MSIX: u8 = 0x11;

/// How many 32-bit registers a configuration space has.
pub const NUM_REGISTERS: usize = 64;

/// Where the first capability stands.
pub const FIRST_CAPABILITY: usize = 0x40;

/// What reading a register that does not exist gives.
pub const NO_REGISTER: u32 = 0xffff_ffff;

/// Configuration registers with the bits of each that the guest may write, and
/// the end of the capability list.
#[derive(Debug)]
pub struct PciConfiguration {
    registers: [u32; 64],
    writable: [u32; 64],
    /// Where the next capability goes.
    next_capability: usize,
    /// The register at which the last capability starts.
    last_capability: Option<usize>,
}

/// A [`PciConfiguration`] as sequences.
pub struct ConfigView {
    pub registers: Seq<u32>,
    pub writable: Seq<u32>,
    pub next_capability: int,
    pub last_capability: Option<int>,
}

/// A number with `data` written over its bytes from byte `at` on.
pub open spec fn overwritten(value: u32, at: int, data: Seq<u8>) -> u32 {
    le_u32(
        Seq::new(
            4,
            |i: int|
                if at <= i < at + data.len() {
                    data[i - at]
                } else {
                    le_byte(value, i)
                },
        ),
    )
}

/// A register after a write of `value`: only the writable bits change.
pub open spec fn masked_write(before: u32, writable: u32, value: u32) -> u32 {
    (before & !writable) | (value & writable)
}

/// A capability pointer put into the second byte of a capability, or into the
/// first byte of the pointer register.
pub open spec fn with_next(value: u32, next: u32) -> u32 {
    (value & 0xffff_00ff) | (next << 8)
}

impl ConfigView {
    pub open spec fn wf(self) -> bool {
        &&& self.registers.len() == NUM_REGISTERS
        &&& self.writable.len() == NUM_REGISTERS
        &&& FIRST_CAPABILITY <= self.next_capability <= 4 * NUM_REGISTERS
        &&& self.next_capability % 4 == 0
        &&& self.last_capability matches Some(r) ==> 0 <= r < NUM_REGISTERS
    }

    /// Reading a register.
    pub open spec fn reg(self, i: int) -> u32 {
        if 0 <= i < NUM_REGISTERS {
            self.registers[i]
        } else {
            NO_REGISTER
        }
    }

    pub open spec fn with_reg(self, i: int, value: u32) -> ConfigView {
        ConfigView { registers: self.registers.update(i, value), ..self }
    }

    pub open spec fn with_writable(self, i: int, mask: u32) -> ConfigView {
        ConfigView { writable: self.writable.update(i, mask), ..self }
    }

    /// A guest write of `data` at byte `offset` of register `i`. One that is
    /// empty, does not fit the register or names none changes nothing.
    pub open spec fn written(self, i: int, offset: u64, data: Seq<u8>) -> ConfigView {
        if 0 <= i < NUM_REGISTERS && offset + data.len() <= 4 {
            self.with_reg(
                i,
                masked_write(
                    self.registers[i],
                    self.writable[i],
                    overwritten(self.registers[i], offset as int, data),
                ),
            )
        } else {
            self
        }
    }

    /// Whether a capability of `len` bytes fits.
    pub open spec fn has_room(self, len: int) -> bool {
        self.next_capability + (len + 3) / 4 * 4 <= 4 * NUM_REGISTERS
    }

    /// The configuration with a capability added at the end of the list.
    pub open spec fn with_capability(self, id: u8, len: int) -> ConfigView {
        let at = self.next_capability;
        let linked = match self.last_capability {
            Some(last) => self.with_reg(last, with_next(self.registers[last], at as u32)),
            None => self.with_reg(13, (self.registers[13] & 0xffff_ff00) | (at as u32)).with_reg(
                1,
                self.registers[1] | 0x0010_0000,
            ),
        };
        ConfigView {
            next_capability: at + (len + 3) / 4 * 4,
            last_capability: Some(at / 4),
            ..linked.with_reg(at / 4, id as u32)
        }
    }

    /// An empty configuration: all zeros, with a writable command register.
    pub open spec fn empty() -> ConfigView {
        ConfigView {
            registers: Seq::new(NUM_REGISTERS as nat, |i: int| 0u32),
            writable: Seq::new(
                NUM_REGISTERS as nat,
                |i: int|
                    if i == 1 {
                        0xffffu32
                    } else {
                        0u32
                    },
            ),
            next_capability: FIRST_CAPABILITY as int,
            last_capability: None,
        }
    }
}

impl View for PciConfiguration {
    type V = ConfigView;

    closed spec fn view(&self) -> ConfigView {
        ConfigView {
            registers: self.registers@,
            writable: self.writable@,
            next_capability: self.next_capability as int,
            last_capability: match self.last_capability {
                Some(r) => Some(r as int),
                None => None,
            },
        }
    }
}

impl PciConfiguration {
    pub fn new() -> (r: PciConfiguration)
        ensures
            r@ == ConfigView::empty(),
            r@.wf(),
    {
        let mut writable: [u32; 64] = [0u32;64];
        writable[1] = 0xffff;
        let r = PciConfiguration {
            registers: [0u32;64],
            writable,
            next_capability: FIRST_CAPABILITY,
            last_capability: None,
        };
        assert(r@.registers =~= ConfigView::empty().registers);
        assert(r@.writable =~= ConfigView::empty().writable);
        r
    }

    pub fn read_reg(&self, reg_idx: usize) -> (r: u32)
        ensures
            r == self@.reg(reg_idx as int),
    {
        if reg_idx < NUM_REGISTERS {
            self.registers[reg_idx]
        } else {
            NO_REGISTER
        }
    }

    pub fn set_reg(&mut self, reg_idx: usize, value: u32)
        requires
            reg_idx < NUM_REGISTERS,
        ensures
            final(self)@ == old(self)@.with_reg(reg_idx as int, value),
    {
        self.registers[reg_idx] = value;
        assert(self@.registers =~= old(self)@.registers.update(reg_idx as int, value));
    }

    pub fn set_reg_writable_bits(&mut self, reg_idx: usize, mask: u32)
        requires
            reg_idx < NUM_REGISTERS,
        ensures
            final(self)@ == old(self)@.with_writable(reg_idx as int, mask),
    {
        self.writable[reg_idx] = mask;
        assert(self@.writable =~= old(self)@.writable.update(reg_idx as int, mask));
    }

    /// Vendor id in the low half of register 0, device id in the high half.
    pub fn set_vendor_device(&mut self, vendor: u16, device: u16)
        ensures
            final(self)@ == old(self)@.with_reg(0, (vendor + device * 0x1_0000) as u32),
    {
        self.set_reg(0, (vendor as u32) + (device as u32) * 0x1_0000);
    }

    /// Class, subclass, programming interface and revision in register 2.
    pub fn set_class(&mut self, class: u8, subclass: u8, prog_if: u8, revision: u8)
        ensures
            final(self)@ == old(self)@.with_reg(
                2,
                le_u32(seq![revision, prog_if, subclass, class]),
            ),
    {
        self.set_reg(2, from_le_bytes(revision, prog_if, subclass, class));
    }

    /// The header type in the third byte of register 3.
    pub fn set_header_type(&mut self, header_type: u8)
        ensures
            final(self)@ == old(self)@.with_reg(
                3,
                overwritten(old(self)@.reg(3), 2, seq![header_type]),
            ),
    {
        let v: u32 = self.read_reg(3);
        let value: u32 = from_le_bytes(byte_of(v, 0), byte_of(v, 1), header_type, byte_of(v, 3));
        assert(value == overwritten(v, 2, seq![header_type]));
        self.set_reg(3, value);
    }

    /// Base address register `bar`.
    pub fn set_bar(&mut self, bar: usize, value: u32)
        requires
            bar < 6,
        ensures
            final(self)@ == old(self)@.with_reg(4 + bar, value),
    {
        self.set_reg(4 + bar, value);
    }

    pub fn set_bar_writable_bits(&mut self, bar: usize, mask: u32)
        requires
            bar < 6,
        ensures
            final(self)@ == old(self)@.with_writable(4 + bar, mask),
    {
        self.set_reg_writable_bits(4 + bar, mask);
    }

    /// Takes a guest write.
    pub fn write_reg(&mut self, reg_idx: usize, offset: u64, data: &[u8])
        ensures
            final(self)@ == old(self)@.written(reg_idx as int, offset, data@),
    {
        if reg_idx >= NUM_REGISTERS || offset > 4 || data.len() > 4 - offset as usize {
            return;
        }
        let at: usize = offset as usize;
        let before: u32 = self.registers[reg_idx];
        let n: usize = data.len();
        let b0: u8 = if at == 0 && n > 0 {
            data[0]
        } else {
            byte_of(before, 0)
        };
        let b1: u8 = if at <= 1 && 1 - at < n {
            data[1 - at]
        } else {
            byte_of(before, 1)
        };
        let b2: u8 = if at <= 2 && 2 - at < n {
            data[2 - at]
        } else {
            byte_of(before, 2)
        };
        let b3: u8 = if at <= 3 && 3 - at < n {
            data[3 - at]
        } else {
            byte_of(before, 3)
        };
        let value: u32 = from_le_bytes(b0, b1, b2, b3);
        assert(value == overwritten(before, offset as int, data@));
        let w: u32 = self.writable[reg_idx];
        self.registers[reg_idx] = (before & !w) | (value & w);
        assert(self@.registers =~= old(self)@.written(reg_idx as int, offset, data@).registers);
    }

    /// Adds a capability of `len` bytes at the end of the list and gives the
    /// register at which it starts.
    pub fn add_capability(&mut self, id: u8, len: usize) -> (r: usize)
        requires
            old(self)@.wf(),
            4 <= len <= 256,
            old(self)@.has_room(len as int),
        ensures
            final(self)@ == old(self)@.with_capability(id, len as int),
            final(self)@.wf(),
            4 * r == old(self)@.next_capability,
            4 * r + len <= 4 * NUM_REGISTERS,
    {
        let at: usize = self.next_capability;
        match self.last_capability {
            Some(last) => {
                let v: u32 = self.read_reg(last);
                self.set_reg(last, (v & 0xffff_00ff) | ((at as u32) << 8));
            },
            None => {
                let pointer: u32 = self.read_reg(13);
                let status: u32 = self.read_reg(1);
                self.set_reg(13, (pointer & 0xffff_ff00) | (at as u32));
                self.set_reg(1, status | 0x0010_0000);
            },
        }
        self.set_reg(at / 4, id as u32);
        self.next_capability = at + (len + 3) / 4 * 4;
        self.last_capability = Some(at / 4);
        at / 4
    }
}

/// A guest write changes no bit that is not writable.
pub proof fn law_write_keeps_read_only_bits(c: ConfigView, i: int, offset: u64, data: Seq<u8>)
    requires
        c.wf(),
        0 <= i < NUM_REGISTERS,
    ensures
        c.written(i, offset, data).registers[i] & !c.writable[i] == c.registers[i]
            & !c.writable[i],
        forall|k: int|
            0 <= k < NUM_REGISTERS && k != i ==> #[trigger] c.written(
                i,
                offset,
                data,
            ).registers[k] == c.registers[k],
{
    let before = c.registers[i];
    let w = c.writable[i];
    let value = overwritten(before, offset as int, data);
    assert(((before & !w) | (value & w)) & !w == before & !w) by (bit_vector);
}

/// Writing over a number replaces the bytes that are written, in their order, and
/// keeps the others.
pub proof fn law_written_bytes_land_in_order(value: u32, at: int, data: Seq<u8>, k: int)
    requires
        0 <= at,
        at + data.len() <= 4,
        0 <= k < 4,
    ensures
        at <= k < at + data.len() ==> le_byte(overwritten(value, at, data), k) == data[k - at],
        !(at <= k < at + data.len()) ==> le_byte(overwritten(value, at, data), k) == le_byte(
            value,
            k,
        ),
{
    lemma_le_bytes_of(
        Seq::new(
            4,
            |i: int|
                if at <= i < at + data.len() {
                    data[i - at]
                } else {
                    le_byte(value, i)
                },
        ),
    );
}

/// A guest write puts its bits where they are writable and no others: a register of
/// which all bits are writable takes the bytes as they are, one without writable bits
/// stays as it is, and in between each bit is from the one or the other.
pub proof fn law_write_changes_the_writable_bits(
    c: ConfigView,
    i: int,
    offset: u64,
    data: Seq<u8>,
    bit: u32,
)
    requires
        c.wf(),
        0 <= i < 64,
        bit < 32,
    ensures
        ({
            let after = c.written(i, offset, data).registers[i];
            let over = overwritten(c.registers[i], offset as int, data);
            &&& offset + data.len() > 4 ==> after == c.registers[i]
            &&& c.writable[i] == 0 ==> after == c.registers[i]
            &&& c.writable[i] == 0xffff_ffff && offset + data.len() <= 4 ==> after == over
            &&& offset + data.len() <= 4 ==> (after >> bit) & 1 == if (c.writable[i] >> bit) & 1
                == 1 {
                (over >> bit) & 1
            } else {
                (c.registers[i] >> bit) & 1
            }
        }),
        c.written(i, offset, data).writable == c.writable,
{
    let before = c.registers[i];
    let w = c.writable[i];
    let v = overwritten(before, offset as int, data);
    assert((w == 0 ==> (before & !w) | (v & w) == before) && (w == 0xffff_ffff ==> (before & !w)
        | (v & w) == v) && (bit < 32 ==> (((before & !w) | (v & w)) >> bit) & 1 == if (w >> bit)
        & 1 == 1 {
        (v >> bit) & 1
    } else {
        (before >> bit) & 1
    })) by (bit_vector);
}

/// The capability list: the first capability is pointed to by the low byte of register
/// 13, with bit 20 of register 1 set; each further one by the second byte of the one
/// before. A capability starts with its identity, points nowhere itself, and the next
/// one starts behind its bytes, at a multiple of four.
pub proof fn law_capabilities_are_chained(c: ConfigView, id: u8, len: int, first: u8, second: u8)
    requires
        c.wf(),
        4 <= len,
        c.has_room(len),
    ensures
        ({
            let d = c.with_capability(id, len);
            let at = c.next_capability / 4;
            &&& 4 * at == c.next_capability
            &&& d.last_capability == Some(at)
            &&& at != 13 && at != 1
            &&& c.last_capability != Some(at) ==> {
                &&& le_byte(d.registers[at], 0) == id
                &&& le_byte(d.registers[at], 1) == 0
                &&& c.last_capability matches Some(last) ==> le_byte(d.registers[last], 1)
                    == c.next_capability && le_byte(d.registers[last], 0) == le_byte(
                    c.registers[last],
                    0,
                )
                &&& c.last_capability is None ==> le_byte(d.registers[13], 0) == c.next_capability
                    && d.registers[1] / 0x10_0000 % 2 == 1
            }
            &&& d.next_capability % 4 == 0
            &&& c.next_capability + len <= d.next_capability < c.next_capability + len + 4
        }),
{
    let at = c.next_capability as u32;
    let (v, p, s) = (
        match c.last_capability {
            Some(last) => c.registers[last],
            None => 0,
        },
        c.registers[13],
        c.registers[1],
    );
    assert(at < 0x100 ==> ((v & 0xffff_00ff) | (at << 8)) / 0x100 % 0x100 == at && ((v
        & 0xffff_00ff) | (at << 8)) % 0x100 == v % 0x100 && ((p & 0xffff_ff00) | at) % 0x100 == at
        && (s | 0x0010_0000) / 0x10_0000 % 2 == 1) by (bit_vector);
}

/// The identity of a device: the vendor in the low half of register 0 and the device
/// in the high half, the class in the highest byte of register 2.
pub proof fn law_identity_registers(vendor: u16, device: u16, class: u8, subclass: u8)
    ensures
        (vendor + device * 0x1_0000) as u32 % 0x1_0000 == vendor,
        (vendor + device * 0x1_0000) as u32 / 0x1_0000 == device,
        le_u32(seq![0u8, 0u8, subclass, class]) / 0x100_0000 == class as u32,
        le_u32(seq![0u8, 0u8, subclass, class]) / 0x1_0000 % 0x100 == subclass as u32,
{
    lemma_le_bytes_of(seq![0u8, 0u8, subclass, class]);
    let v = le_u32(seq![0u8, 0u8, subclass, class]);
    assert(le_byte(v, 3) == class && le_byte(v, 2) == subclass);
    assert(v / 0x100_0000 < 0x100) by (nonlinear_arith)
        requires
            v <= 0xffff_ffff,
    ;
}

} // verus!
