//! What a 16550 needs on top of a register model that asserts the
//! transmitter-empty interrupt only when a byte is sent: the transmitter of a
//! virtual port is always empty, so the interrupt is due as soon as the driver
//! enables it, and for as long as it stays enabled.
use vstd::prelude::*;

verus! {

/// Transmit holding register.
pub const REG_THR: u8 = 0;

/// Interrupt enable register.
pub const REG_IER: u8 = 1;

/// Interrupt identification register.
pub const REG_IIR: u8 = 2;

/// Line control register.
pub const REG_LCR: u8 = 3;

/// Enables the transmitter-empty interrupt.
pub const IER_THRE: u8 = 2;

/// Set while no interrupt is pending.
pub const IIR_NO_INT: u8 = 1;

/// Identifies the transmitter-empty interrupt.
pub const IIR_THRE: u8 = 2;

/// Set while the FIFO is enabled.
pub const IIR_FIFO: u8 = 0xc0;

/// Maps the divisor latch over the first two registers.
pub const LCR_DLAB: u8 = 0x80;

/// What has to follow a register write.
#[derive(Debug, Clone, Copy, PartialEq, Eq, Structural)]
pub enum UartAction {
    Nothing,
    /// Flush the output, so that the byte is seen at once.
    Flush,
    /// Pulse the interrupt.
    Pulse,
}

/// The part of a 16550 that this module adds.
#[derive(Debug, Clone, Copy, PartialEq, Eq, Structural)]
pub struct Ns16550State {
    pub reg_shift: u32,
    /// Whether the driver has the transmitter-empty interrupt enabled.
    pub thri_enabled: bool,
}

impl Ns16550State {
    pub fn new(reg_shift: u32) -> (r: Ns16550State)
        ensures
            r == (Ns16550State { reg_shift, thri_enabled: false }),
    {
        Ns16550State { reg_shift, thri_enabled: false }
    }

    /// The register at an offset of the window.
    pub open spec fn register_at(self, offset: u64) -> u8 {
        (offset >> self.reg_shift) as u8
    }

    /// The register at an offset of the window.
    pub fn register(&self, offset: u64) -> (r: u8)
        requires
            self.reg_shift < 64,
        ensures
            r == self.register_at(offset),
    {
        (offset >> self.reg_shift) as u8
    }

    /// The register and the byte that a write of the window carries: only the
    /// first byte counts.
    pub fn request(&self, offset: u64, data: &[u8]) -> (r: Option<(u8, u8)>)
        requires
            self.reg_shift < 64,
        ensures
            r == if data@.len() == 0 {
                None
            } else {
                Some((self.register_at(offset), data@[0]))
            },
    {
        if data.len() == 0 {
            return None;
        }
        Some((self.register(offset), data[0]))
    }

    /// Whether a line control value maps the divisor latch.
    pub fn dlab(lcr: u8) -> (r: bool)
        ensures
            r == (lcr & LCR_DLAB != 0),
    {
        lcr & LCR_DLAB != 0
    }

    /// Whether a write enables or disables the interrupt; while the divisor latch
    /// is mapped, no write does.
    pub open spec fn sets_thri(reg: u8, byte: u8, dlab: bool) -> Option<bool> {
        if reg == REG_IER && !dlab {
            Some(byte & IER_THRE != 0)
        } else {
            None
        }
    }

    /// Takes note of a register write, made while the divisor latch was mapped or
    /// not, and says what has to follow.
    pub fn written(&mut self, reg: u8, byte: u8, dlab: bool) -> (r: UartAction)
        ensures
            final(self).reg_shift == old(self).reg_shift,
            final(self).thri_enabled == match Self::sets_thri(reg, byte, dlab) {
                Some(now) => now,
                None => old(self).thri_enabled,
            },
            r == if reg == REG_THR && !dlab {
                UartAction::Flush
            } else if Self::sets_thri(reg, byte, dlab) == Some(true) && !old(self).thri_enabled {
                UartAction::Pulse
            } else {
                UartAction::Nothing
            },
    {
        if dlab {
            return UartAction::Nothing;
        }
        if reg == REG_THR {
            return UartAction::Flush;
        }
        if reg == REG_IER {
            let now: bool = byte & IER_THRE != 0;
            let before: bool = self.thri_enabled;
            self.thri_enabled = now;
            if now && !before {
                return UartAction::Pulse;
            }
        }
        UartAction::Nothing
    }

    /// What the driver reads where the register model reads `value`: with nothing
    /// else pending, the transmitter-empty interrupt while it is enabled.
    pub open spec fn surfaced(self, reg: u8, value: u8) -> u8 {
        if reg == REG_IIR && value & IIR_NO_INT != 0 && self.thri_enabled {
            IIR_THRE | IIR_FIFO
        } else {
            value
        }
    }

    /// What the driver reads where the register model reads `value`.
    pub fn surface(&self, reg: u8, value: u8) -> (r: u8)
        ensures
            r == self.surfaced(reg, value),
    {
        if reg == REG_IIR && value & IIR_NO_INT != 0 && self.thri_enabled {
            return IIR_THRE | IIR_FIFO;
        }
        value
    }
}

/// While the interrupt is enabled, the driver never reads that nothing is
/// pending; while it is disabled, it reads what the register model reads.
pub proof fn law_interrupt_is_due_while_enabled(s: Ns16550State, value: u8)
    ensures
        s.thri_enabled ==> s.surfaced(REG_IIR, value) & IIR_NO_INT == 0,
        !s.thri_enabled ==> s.surfaced(REG_IIR, value) == value,
{
    assert((2u8 | 0xc0u8) & 1u8 == 0) by (bit_vector);
}

/// A register lies at the multiple of a power of two that its number is.
pub proof fn law_register_spacing(s: Ns16550State, reg: u8)
    requires
        s.reg_shift < 8,
    ensures
        s.register_at((reg as u64) << (s.reg_shift as u64)) == reg,
{
    let (n, r) = (s.reg_shift as u64, reg as u64);
    let shift = s.reg_shift;
    assert(((r << n) >> shift) as u8 == reg) by (bit_vector)
        requires
            n < 8,
            n == shift,
            r == reg,
    ;
}

/// The interrupt is turned on or off by bit 1 of a write to register 1, and by no other
/// write; what the driver reads differs from the register model only in register 2, where
/// it reads the transmitter's interrupt with the FIFO bits in place of none.
pub proof fn law_transmitter_interrupt(s: Ns16550State, reg: u8, byte: u8, dlab: bool)
    ensures
        Ns16550State::sets_thri(reg, byte, dlab) is Some <==> reg == 1 && !dlab,
        reg == 1 && !dlab ==> Ns16550State::sets_thri(reg, byte, dlab) == Some(byte / 2 % 2 == 1),
        s.surfaced(reg, byte) != byte ==> reg == 2 && s.thri_enabled && byte % 2 == 1
            && s.surfaced(reg, byte) == 0xc2,
        reg == 2 && s.thri_enabled && byte % 2 == 1 ==> s.surfaced(reg, byte) == 0xc2,
        (byte & 0x80 != 0) == (byte >= 128),
{
    assert((byte & 2 != 0) == (byte / 2 % 2 == 1) && (byte & 1 != 0) == (byte % 2 == 1) && 2u8
        | 0xc0u8 == 0xc2 && (byte & 0x80 != 0) == (byte >= 128)) by (bit_vector);
}

/// The highest bit of the line control register maps the divisor latch, and a write of
/// the window carries its first byte to the register at its offset.
pub proof fn law_writes_of_the_window(
    s: &Ns16550State,
    lcr: u8,
    mapped: bool,
    offset: u64,
    data: &[u8],
    r: Option<(u8, u8)>,
)
    requires
        s.reg_shift < 64,
        call_ensures(Ns16550State::dlab, (lcr,), mapped),
        call_ensures(Ns16550State::request, (s, offset, data), r),
    ensures
        mapped <==> lcr >= 128,
        r is None <==> data@.len() == 0,
        r matches Some((reg, byte)) ==> byte == data@[0] && reg == s.register_at(offset),
{
    law_transmitter_interrupt(*s, 0, lcr, mapped);
}

/// A pulse follows a write exactly where it turns the interrupt on, and a flush exactly
/// where it sends a byte; while the divisor latch is mapped a write does neither and
/// changes nothing.
pub proof fn law_what_follows_a_write(
    s: &mut Ns16550State,
    reg: u8,
    byte: u8,
    dlab: bool,
    r: UartAction,
)
    requires
        call_ensures(Ns16550State::written, (s, reg, byte, dlab), r),
    ensures
        r == UartAction::Pulse <==> !old(s).thri_enabled && final(s).thri_enabled,
        r == UartAction::Flush <==> reg == 0 && !dlab,
        dlab ==> *final(s) == *old(s),
        reg != 1 ==> *final(s) == *old(s),
        reg == 1 && !dlab ==> final(s).thri_enabled == (byte / 2 % 2 == 1),
        final(s).reg_shift == old(s).reg_shift,
{
    law_transmitter_interrupt(*old(s), reg, byte, dlab);
}

} // verus!
