//! Wired interrupts and message-interrupt domains.
use vstd::prelude::*;

use crate::pci::bus::{shifted, SlotHost};
use crate::pci::msix::{MsixNotifier, MsixTableEntry};

verus! {

/// Error of interrupt delivery.
#[derive(Debug)]
pub enum InterruptError {
    /// The interrupt cannot be deasserted.
    UnsupportedDeassert,
    /// Delivery failed.
    Delivery(String),
}

/// A wired interrupt of a machine backend.
///
/// An implementation says by its step functions how a call may turn the line; one
/// that it leaves out allows anything.
pub trait InterruptLine: Sized {
    /// Whether the line can be driven.
    open spec fn ready(&self) -> bool {
        true
    }

    open spec fn signal_step(before: Self, after: Self) -> bool {
        true
    }

    open spec fn level_step(before: Self, level: bool, after: Self, r: Result<(), InterruptError>) -> bool {
        true
    }

    /// Pulses the line.
    fn signal(&mut self)
        requires
            old(self).ready(),
        ensures
            final(self).ready(),
            Self::signal_step(*old(self), *final(self)),
    ;

    /// Sets the level of the line.
    fn set_level(&mut self, level: bool) -> (r: Result<(), InterruptError>)
        requires
            old(self).ready(),
        ensures
            final(self).ready(),
            Self::level_step(*old(self), level, *final(self), r),
    ;
}

/// A resolved interrupt.
#[derive(Debug, Clone)]
pub struct Interrupt<L>(pub L);

impl<L: InterruptLine> Interrupt<L> {
    pub fn new(line: L) -> (r: Interrupt<L>)
        ensures
            r.0 == line,
    {
        Interrupt(line)
    }

    /// Pulses the line.
    pub fn signal(&mut self)
        requires
            old(self).0.ready(),
        ensures
            final(self).0.ready(),
            L::signal_step(old(self).0, final(self).0),
    {
        self.0.signal();
    }

    /// Sets the level of the line.
    pub fn set_level(&mut self, level: bool) -> (r: Result<(), InterruptError>)
        requires
            old(self).0.ready(),
        ensures
            final(self).0.ready(),
            L::level_step(old(self).0, level, final(self).0, r),
    {
        self.0.set_level(level)
    }
}

/// A line that calls a function when it is pulsed.
pub struct FnInterruptLine<F> {
    pub call: F,
}

impl<F: Fn()> Interrupt<FnInterruptLine<F>> {
    /// An interrupt that calls `call` when it is pulsed or raised.
    pub fn from_fn(call: F) -> (r: Interrupt<FnInterruptLine<F>>)
        ensures
            r.0.call == call,
    {
        Interrupt(FnInterruptLine { call })
    }
}

impl<F: Fn()> InterruptLine for FnInterruptLine<F> {
    open spec fn ready(&self) -> bool {
        call_requires(self.call, ())
    }

    /// A pulse is one call.
    open spec fn signal_step(before: FnInterruptLine<F>, after: FnInterruptLine<F>) -> bool {
        after == before && call_ensures(before.call, (), ())
    }

    /// A raised level is a pulse, a lowered one asks for none, and neither fails. That
    /// nothing is called for a lowered level is not said: of a function that may be
    /// called any number of times, only a call that was made can be stated.
    open spec fn level_step(
        before: FnInterruptLine<F>,
        level: bool,
        after: FnInterruptLine<F>,
        r: Result<(), InterruptError>,
    ) -> bool {
        &&& r is Ok
        &&& after == before
        &&& level ==> Self::signal_step(before, after)
    }

    fn signal(&mut self) {
        (self.call)();
    }

    fn set_level(&mut self, level: bool) -> (r: Result<(), InterruptError>) {
        if level {
            self.signal();
        }
        Ok(())
    }
}

/// One vector of a message-interrupt domain.
#[derive(Debug, Clone, Copy, PartialEq, Eq, Structural)]
pub struct MessageInterrupt {
    pub address: u64,
    pub data: u32,
    pub masked: bool,
}

/// A message-interrupt domain of a machine backend.
///
/// An implementation says by its step functions how a call may turn the domain;
/// one that it leaves out allows anything.
pub trait MessageInterruptDomain: Sized {
    /// The lines that deliver the vectors of the domain.
    type Line;

    open spec fn update_step(
        before: Self,
        vector: u16,
        msg: MessageInterrupt,
        after: Self,
        r: Result<(), InterruptError>,
    ) -> bool {
        true
    }

    open spec fn enabled_step(
        before: Self,
        enabled: bool,
        after: Self,
        r: Result<(), InterruptError>,
    ) -> bool {
        true
    }

    /// The interrupt of a vector.
    open spec fn line_of(&self, vector: u16) -> Option<Interrupt<Self::Line>> {
        arbitrary()
    }

    /// Routes a vector.
    fn update(&mut self, vector: u16, msg: MessageInterrupt) -> (r: Result<(), InterruptError>)
        ensures
            Self::update_step(*old(self), vector, msg, *final(self), r),
    ;

    /// Turns the domain on or off.
    fn enabled(&mut self, enabled: bool) -> (r: Result<(), InterruptError>)
        ensures
            Self::enabled_step(*old(self), enabled, *final(self), r),
    ;

    fn interrupt(&self, vector: u16) -> (r: Option<Interrupt<Self::Line>>)
        ensures
            r == self.line_of(vector),
    ;
}

/// An interrupt resource of an attached device.
#[derive(Debug, Clone)]
pub enum MmioInterrupt<L, D> {
    Line(Interrupt<L>),
    MessageDomain(D),
}

/// Routes MSI-X vectors into a message-interrupt domain.
#[derive(Debug)]
pub struct MsixInterruptAdapter<D> {
    pub domain: D,
}

/// The message of a vector-table entry.
pub open spec fn entry_message(entry: MsixTableEntry) -> MessageInterrupt {
    MessageInterrupt {
        address: (entry.msg_addr_hi * 0x1_0000_0000 + entry.msg_addr_lo) as u64,
        data: entry.msg_data,
        masked: entry.masked(),
    }
}

impl<D: MessageInterruptDomain> MsixInterruptAdapter<D> {
    pub fn new(domain: D) -> (r: MsixInterruptAdapter<D>)
        ensures
            r.domain == domain,
    {
        MsixInterruptAdapter { domain }
    }

    /// The interrupt of a device completion on `vector`.
    pub fn interrupt_for(&self, vector: u16) -> (r: Option<Interrupt<D::Line>>)
        ensures
            r == self.domain.line_of(vector),
    {
        self.domain.interrupt(vector)
    }
}

/// A refused update or switch is not reported to the guest.
impl<D: MessageInterruptDomain> MsixNotifier for MsixInterruptAdapter<D> {
    open spec fn vector_step(
        before: MsixInterruptAdapter<D>,
        vector: u16,
        entry: MsixTableEntry,
        after: MsixInterruptAdapter<D>,
    ) -> bool {
        exists|r: Result<(), InterruptError>| #[trigger]
            D::update_step(before.domain, vector, entry_message(entry), after.domain, r)
    }

    open spec fn enable_step(
        before: MsixInterruptAdapter<D>,
        enabled: bool,
        after: MsixInterruptAdapter<D>,
    ) -> bool {
        exists|r: Result<(), InterruptError>| #[trigger]
            D::enabled_step(before.domain, enabled, after.domain, r)
    }

    fn vector_updated(&mut self, vector: u16, entry: &MsixTableEntry) {
        let msg = MessageInterrupt {
            address: (entry.msg_addr_hi as u64) * 0x1_0000_0000 + entry.msg_addr_lo as u64,
            data: entry.msg_data,
            masked: entry.is_masked(),
        };
        let r = self.domain.update(vector, msg);
        assert(D::update_step(old(self).domain, vector, entry_message(*entry), self.domain, r));
    }

    fn msix_enabled(&mut self, enabled: bool) {
        let r = self.domain.enabled(enabled);
        assert(D::enabled_step(old(self).domain, enabled, self.domain, r));
    }
}

/// A notifier that shifts the vectors of one slot into the slot's range of the
/// domain behind it.
#[derive(Debug)]
pub struct OffsetMsixNotifier<N> {
    pub slot: SlotHost<N>,
}

/// The domain vector of a device vector.
pub open spec fn domain_vector(base: Option<u16>, vector: u16) -> u16 {
    match base {
        Some(base) => shifted(vector, base),
        None => vector,
    }
}

impl<N: MsixNotifier> MsixNotifier for OffsetMsixNotifier<N> {
    open spec fn vector_step(
        before: OffsetMsixNotifier<N>,
        vector: u16,
        entry: MsixTableEntry,
        after: OffsetMsixNotifier<N>,
    ) -> bool {
        &&& after.slot.vector_base == before.slot.vector_base
        &&& N::vector_step(
            before.slot.inner,
            domain_vector(before.slot.vector_base, vector),
            entry,
            after.slot.inner,
        )
    }

    open spec fn enable_step(
        before: OffsetMsixNotifier<N>,
        enabled: bool,
        after: OffsetMsixNotifier<N>,
    ) -> bool {
        &&& after.slot.vector_base == before.slot.vector_base
        &&& N::enable_step(before.slot.inner, enabled, after.slot.inner)
    }

    fn vector_updated(&mut self, vector: u16, entry: &MsixTableEntry) {
        let shifted: u16 = self.slot.update_vector(vector);
        self.slot.inner.vector_updated(shifted, entry);
    }

    fn msix_enabled(&mut self, enabled: bool) {
        self.slot.inner.msix_enabled(enabled);
    }
}

/// The message of a vector is what its entry holds: the address in two halves, the data
/// as it is, and masked where the lowest bit of the control word is set.
pub proof fn law_message_is_what_the_entry_holds(entry: MsixTableEntry)
    ensures
        entry_message(entry).address % 0x1_0000_0000 == entry.msg_addr_lo,
        entry_message(entry).address / 0x1_0000_0000 == entry.msg_addr_hi,
        entry_message(entry).data == entry.msg_data,
        entry_message(entry).masked == (entry.vector_ctl % 2 == 1),
{
    let (hi, lo) = (entry.msg_addr_hi as int, entry.msg_addr_lo as int);
    let address = hi * 0x1_0000_0000 + lo;
    assert(address % 0x1_0000_0000 == lo && address / 0x1_0000_0000 == hi) by (nonlinear_arith)
        requires
            address == hi * 0x1_0000_0000 + lo,
            0 <= lo < 0x1_0000_0000,
            0 <= hi,
    ;
}

/// The vectors of a slot keep their distances in the domain: they stand behind the
/// slot's base, and without a base they are the domain's own.
pub proof fn law_slot_vectors_keep_their_distances(base: u16, v: u16, w: u16)
    requires
        base + v <= 0xffff,
        base + w <= 0xffff,
    ensures
        domain_vector(Some(base), v) - domain_vector(Some(base), w) == v - w,
        domain_vector(Some(base), 0) == base,
        domain_vector(None, v) == v,
{
}

} // verus!
