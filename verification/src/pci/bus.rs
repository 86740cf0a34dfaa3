//! A single PCI bus of single-function endpoints.
use vstd::pervasive::cloned;
use vstd::prelude::*;

use crate::pci::configuration::{ConfigView, PciConfiguration};

verus! {

/// One BAR of a device, in guest-physical terms.
#[derive(Debug, Clone, Copy, PartialEq, Eq, Structural)]
pub struct BarRegion {
    pub bar_idx: u8,
    pub base_gpa: u64,
    pub size: u64,
}

/// Error of an endpoint access.
#[derive(Debug, Clone, Copy, PartialEq, Eq, Structural)]
pub enum PciError {
    /// The routed endpoint does not support the access.
    Unsupported,
}

/// The number of the vector that means no interrupt.
pub const MSI_NO_VECTOR: u16 = 0xffff;

/// The host service that a slot gets: the service of the root, and where the
/// vectors of the slot start in the root's message-interrupt domain. A slot
/// without vectors gets the service as it is.
#[derive(Debug)]
pub struct SlotHost<H> {
    pub inner: H,
    pub vector_base: Option<u16>,
}

/// The domain vector of a device vector.
pub open spec fn shifted(vector: u16, base: u16) -> u16 {
    if vector + base > u16::MAX {
        u16::MAX
    } else {
        (vector + base) as u16
    }
}

impl<H> SlotHost<H> {
    /// The domain vector that a device vector updates.
    pub fn update_vector(&self, vector: u16) -> (r: u16)
        ensures
            r == match self.vector_base {
                Some(base) => shifted(vector, base),
                None => vector,
            },
    {
        match self.vector_base {
            Some(base) => vector.saturating_add(base),
            None => vector,
        }
    }

    /// The domain vector that a device vector interrupts on. With a vector range
    /// of its own, a device that has no vector interrupts on none.
    pub fn interrupt_vector(&self, vector: u16) -> (r: Option<u16>)
        ensures
            r == match self.vector_base {
                Some(base) => if vector == MSI_NO_VECTOR {
                    None
                } else {
                    Some(shifted(vector, base))
                },
                None => Some(vector),
            },
    {
        match self.vector_base {
            Some(base) => {
                if vector == MSI_NO_VECTOR {
                    None
                } else {
                    Some(vector.saturating_add(base))
                }
            },
            None => Some(vector),
        }
    }
}

/// A device on the bus, one per slot.
///
/// An implementation says by its step functions how an access may turn the
/// device and the data; one that it leaves out allows anything. The bus promises
/// which access reaches which device.
pub trait PciDevice: Sized {
    /// The service that the root hands to its devices.
    type Host: Clone;

    /// What the device keeps between accesses.
    open spec fn wf(&self) -> bool {
        true
    }

    /// The name of the device.
    open spec fn label(&self) -> Seq<char> {
        arbitrary()
    }

    /// The value of a configuration register.
    open spec fn config_value(&self, reg_idx: usize) -> u32 {
        arbitrary()
    }

    open spec fn config_write_step(
        before: Self,
        reg_idx: usize,
        offset: u64,
        data: Seq<u8>,
        after: Self,
        r: Result<(), PciError>,
    ) -> bool {
        true
    }

    /// The BARs of the device.
    open spec fn bars(&self) -> Seq<BarRegion> {
        arbitrary()
    }

    /// How many MSI-X vectors the device has.
    open spec fn vector_count(&self) -> u16 {
        arbitrary()
    }

    open spec fn bar_read_step(
        before: Self,
        bar_idx: u8,
        offset: u64,
        data: Seq<u8>,
        after: Self,
        out: Seq<u8>,
        r: Result<(), PciError>,
    ) -> bool {
        true
    }

    open spec fn bar_write_step(
        before: Self,
        bar_idx: u8,
        offset: u64,
        data: Seq<u8>,
        after: Self,
        r: Result<(), PciError>,
    ) -> bool {
        true
    }

    open spec fn host_step(before: Self, host: SlotHost<Self::Host>, after: Self) -> bool {
        true
    }

    /// Reads a 32-bit configuration register.
    fn config_read(&self, reg_idx: usize) -> (r: u32)
        requires
            self.wf(),
        ensures
            r == self.config_value(reg_idx),
    ;

    /// Writes at byte `offset` of a configuration register.
    fn config_write(&mut self, reg_idx: usize, offset: u64, data: &[u8]) -> (r: Result<
        (),
        PciError,
    >)
        requires
            old(self).wf(),
        ensures
            final(self).wf(),
            Self::config_write_step(*old(self), reg_idx, offset, data@, *final(self), r),
    ;

    /// A name for logs.
    fn name(&self) -> (r: &str)
        ensures
            r@ == self.label(),
    ;

    fn bar_regions(&self) -> (r: &[BarRegion])
        requires
            self.wf(),
        ensures
            r@ == self.bars(),
    ;

    fn msix_vectors(&self) -> (r: u16)
        requires
            self.wf(),
        ensures
            r == self.vector_count(),
    ;

    fn bar_read(&mut self, bar_idx: u8, offset: u64, data: &mut [u8]) -> (r: Result<(), PciError>)
        requires
            old(self).wf(),
        ensures
            final(self).wf(),
            final(data)@.len() == old(data)@.len(),
            Self::bar_read_step(
                *old(self),
                bar_idx,
                offset,
                old(data)@,
                *final(self),
                final(data)@,
                r,
            ),
    ;

    fn bar_write(&mut self, bar_idx: u8, offset: u64, data: &[u8]) -> (r: Result<(), PciError>)
        requires
            old(self).wf(),
        ensures
            final(self).wf(),
            Self::bar_write_step(*old(self), bar_idx, offset, data@, *final(self), r),
    ;

    /// Takes the host service of the slot.
    fn set_host(&mut self, host: SlotHost<Self::Host>)
        requires
            old(self).wf(),
        ensures
            final(self).wf(),
            Self::host_step(*old(self), host, *final(self)),
    ;
}

/// The host service of a device that uses none.
#[derive(Debug, Clone, Copy)]
pub struct NoHost;

/// A host bridge: configuration space alone, so that the guest finds something
/// at the first address of the bus.
#[derive(Debug)]
pub struct HostBridge {
    config: PciConfiguration,
}

impl HostBridge {
    pub closed spec fn config(&self) -> ConfigView {
        self.config@
    }

    pub fn new() -> (r: HostBridge)
        ensures
            r.config() == bridge_config(),
            r.config().wf(),
    {
        let mut config = PciConfiguration::new();
        config.set_vendor_device(0x8086, 0x1237);
        config.set_class(0x06, 0x00, 0x00, 0x00);
        config.set_header_type(0x00);
        HostBridge { config }
    }
}

impl Default for HostBridge {
    fn default() -> (r: HostBridge)
        ensures
            r.config() == bridge_config(),
            r.config().wf(),
    {
        HostBridge::new()
    }
}

impl PciDevice for HostBridge {
    type Host = NoHost;

    open spec fn label(&self) -> Seq<char> {
        "host-bridge"@
    }

    open spec fn config_value(&self, reg_idx: usize) -> u32 {
        self.config().reg(reg_idx as int)
    }

    open spec fn config_write_step(
        before: HostBridge,
        reg_idx: usize,
        offset: u64,
        data: Seq<u8>,
        after: HostBridge,
        r: Result<(), PciError>,
    ) -> bool {
        &&& r is Ok
        &&& after.config() == before.config().written(reg_idx as int, offset, data)
    }

    open spec fn bars(&self) -> Seq<BarRegion> {
        Seq::empty()
    }

    open spec fn vector_count(&self) -> u16 {
        0
    }

    open spec fn bar_read_step(
        before: HostBridge,
        bar_idx: u8,
        offset: u64,
        data: Seq<u8>,
        after: HostBridge,
        out: Seq<u8>,
        r: Result<(), PciError>,
    ) -> bool {
        after == before && out == data && r == Err::<(), _>(PciError::Unsupported)
    }

    open spec fn bar_write_step(
        before: HostBridge,
        bar_idx: u8,
        offset: u64,
        data: Seq<u8>,
        after: HostBridge,
        r: Result<(), PciError>,
    ) -> bool {
        after == before && r == Err::<(), _>(PciError::Unsupported)
    }

    open spec fn host_step(before: HostBridge, host: SlotHost<NoHost>, after: HostBridge) -> bool {
        after == before
    }

    fn config_read(&self, reg_idx: usize) -> (r: u32) {
        self.config.read_reg(reg_idx)
    }

    fn config_write(&mut self, reg_idx: usize, offset: u64, data: &[u8]) -> (r: Result<
        (),
        PciError,
    >) {
        self.config.write_reg(reg_idx, offset, data);
        Ok(())
    }

    fn name(&self) -> (r: &str) {
        "host-bridge"
    }

    fn bar_regions(&self) -> (r: &[BarRegion]) {
        let none: &[BarRegion] = &[];
        none
    }

    fn msix_vectors(&self) -> (r: u16) {
        0
    }

    fn bar_read(&mut self, bar_idx: u8, offset: u64, data: &mut [u8]) -> (r: Result<
        (),
        PciError,
    >) {
        Err(PciError::Unsupported)
    }

    fn bar_write(&mut self, bar_idx: u8, offset: u64, data: &[u8]) -> (r: Result<(), PciError>) {
        Err(PciError::Unsupported)
    }

    fn set_host(&mut self, host: SlotHost<NoHost>) {
    }
}

/// The configuration of a fresh host bridge: an Intel 440FX.
pub open spec fn bridge_config() -> ConfigView {
    let c = ConfigView::empty().with_reg(0, 0x1237_8086).with_reg(
        2,
        crate::bytes::le_u32(seq![0x00u8, 0x00u8, 0x00u8, 0x06u8]),
    );
    c.with_reg(3, crate::pci::configuration::overwritten(c.reg(3), 2, seq![0x00u8]))
}

/// Number of slots on the bus.
pub const NUM_SLOTS: usize = 32;

/// What a configuration read gives where there is no device.
pub const NO_DEVICE: u32 = 0xffff_ffff;

/// What a slot holds.
#[derive(Debug)]
pub enum Slot<D> {
    Empty,
    Bridge(HostBridge),
    Device(D),
}

impl<D: PciDevice> Slot<D> {
    pub open spec fn wf(&self) -> bool {
        self matches Slot::Device(d) ==> d.wf()
    }

    pub open spec fn config_value(&self, reg_idx: usize) -> u32 {
        match self {
            Slot::Empty => NO_DEVICE,
            Slot::Bridge(b) => b.config().reg(reg_idx as int),
            Slot::Device(d) => d.config_value(reg_idx),
        }
    }

    pub open spec fn bars(&self) -> Seq<BarRegion> {
        match self {
            Slot::Device(d) => d.bars(),
            _ => Seq::empty(),
        }
    }

    pub open spec fn vector_count(&self) -> u16 {
        match self {
            Slot::Device(d) => d.vector_count(),
            _ => 0,
        }
    }

    /// Whether a configuration write may take a slot from `before` to `after`.
    pub open spec fn config_write_step(
        before: Slot<D>,
        reg_idx: usize,
        offset: u64,
        data: Seq<u8>,
        after: Slot<D>,
    ) -> bool {
        match before {
            Slot::Empty => after == before,
            Slot::Bridge(b) => after matches Slot::Bridge(c) && c.config() == b.config().written(
                reg_idx as int,
                offset,
                data,
            ),
            Slot::Device(d) => after matches Slot::Device(e) && exists|r: Result<(), PciError>|
                #[trigger] D::config_write_step(d, reg_idx, offset, data, e, r),
        }
    }

    /// Whether handing out the host service may take a slot from `before` to
    /// `after`.
    pub open spec fn host_step(
        before: Slot<D>,
        host: D::Host,
        vector_base: Option<u16>,
        after: Slot<D>,
    ) -> bool {
        match before {
            Slot::Device(d) => after matches Slot::Device(e) && exists|h: SlotHost<D::Host>|
                cloned(host, h.inner) && h.vector_base == vector_base && #[trigger] D::host_step(
                    d,
                    h,
                    e,
                ),
            _ => after == before,
        }
    }
}

impl<D: PciDevice> Slot<D> {
    /// Writes a configuration register.
    fn config_write(&mut self, reg_idx: usize, offset: u64, data: &[u8])
        requires
            old(self).wf(),
        ensures
            final(self).wf(),
            Slot::config_write_step(*old(self), reg_idx, offset, data@, *final(self)),
    {
        match self {
            Slot::Empty => {},
            Slot::Bridge(b) => {
                let _r = b.config_write(reg_idx, offset, data);
            },
            Slot::Device(d) => {
                let r = d.config_write(reg_idx, offset, data);
                assert(exists|x: Result<(), PciError>| #[trigger]
                    D::config_write_step(old(self)->Device_0, reg_idx, offset, data@, *d, x));
            },
        }
    }

    /// Hands the host service to the slot; gives the number of its vectors.
    fn set_host(&mut self, host: &D::Host, base: u16) -> (n: u16)
        requires
            old(self).wf(),
        ensures
            final(self).wf(),
            n == old(self).vector_count(),
            Slot::host_step(
                *old(self),
                *host,
                if n == 0 {
                    None
                } else {
                    Some(base)
                },
                *final(self),
            ),
    {
        match self {
            Slot::Device(d) => {
                let n: u16 = d.msix_vectors();
                let slot_host = SlotHost {
                    inner: host.clone(),
                    vector_base: if n == 0 {
                        None
                    } else {
                        Some(base)
                    },
                };
                d.set_host(slot_host);
                n
            },
            _ => 0,
        }
    }
}

/// A bus with a device or nothing in each slot. Slot 0 holds the host bridge.
#[derive(Debug)]
pub struct PciBus<D> {
    slots: Vec<Slot<D>>,
}

/// How many vectors the first `n` slots have.
pub open spec fn vector_sum<D: PciDevice>(slots: Seq<Slot<D>>, n: int) -> nat
    decreases n,
{
    if n <= 0 {
        0
    } else {
        vector_sum(slots, n - 1) + slots[n - 1].vector_count() as nat
    }
}

/// A number of vectors as the domain counts it.
pub open spec fn capped(n: nat) -> u16 {
    if n > u16::MAX {
        u16::MAX
    } else {
        n as u16
    }
}

/// Where the vectors of a slot start.
pub open spec fn slot_base<D: PciDevice>(slots: Seq<Slot<D>>, i: int) -> Option<u16> {
    if slots[i].vector_count() == 0 {
        None
    } else {
        Some(capped(vector_sum(slots, i)))
    }
}

/// The BARs of a slot with the slot's number.
pub open spec fn slot_bars<D: PciDevice>(slots: Seq<Slot<D>>, i: int) -> Seq<(u8, BarRegion)> {
    slots[i].bars().map_values(|b: BarRegion| (i as u8, b))
}

/// The BARs of the first `n` slots.
pub open spec fn all_bars<D: PciDevice>(slots: Seq<Slot<D>>, n: int) -> Seq<(u8, BarRegion)>
    decreases n,
{
    if n <= 0 {
        Seq::empty()
    } else {
        all_bars(slots, n - 1) + slot_bars(slots, n - 1)
    }
}

/// The slot that a configuration access goes to: there is one bus, and its
/// devices have one function.
pub open spec fn config_slot(bus: u8, device: u8, function: u8) -> Option<int> {
    if bus == 0 && function == 0 && device < NUM_SLOTS {
        Some(device as int)
    } else {
        None
    }
}

/// What a configuration read gives.
pub open spec fn config_at<D: PciDevice>(
    slots: Seq<Slot<D>>,
    bus: u8,
    device: u8,
    function: u8,
    reg_idx: usize,
) -> u32 {
    match config_slot(bus, device, function) {
        Some(i) => slots[i].config_value(reg_idx),
        None => NO_DEVICE,
    }
}

/// Whether a configuration write may take the slots from `before` to `after`.
pub open spec fn config_write_step<D: PciDevice>(
    before: Seq<Slot<D>>,
    bus: u8,
    device: u8,
    function: u8,
    reg_idx: usize,
    offset: u64,
    data: Seq<u8>,
    after: Seq<Slot<D>>,
) -> bool {
    match config_slot(bus, device, function) {
        Some(i) => after == before.update(i, after[i]) && Slot::config_write_step(
            before[i],
            reg_idx,
            offset,
            data,
            after[i],
        ),
        None => after == before,
    }
}

/// Whether a BAR read may take the slots from `before` to `after`.
pub open spec fn bar_read_step<D: PciDevice>(
    before: Seq<Slot<D>>,
    slot: u8,
    bar_idx: u8,
    offset: u64,
    data: Seq<u8>,
    after: Seq<Slot<D>>,
    out: Seq<u8>,
    r: Result<(), PciError>,
) -> bool {
    if slot < before.len() && before[slot as int] is Device {
        &&& after == before.update(slot as int, after[slot as int])
        &&& after[slot as int] is Device
        &&& D::bar_read_step(
            before[slot as int]->Device_0,
            bar_idx,
            offset,
            data,
            after[slot as int]->Device_0,
            out,
            r,
        )
    } else {
        after == before && out == data && r == Err::<(), _>(PciError::Unsupported)
    }
}

/// Whether a BAR write may take the slots from `before` to `after`.
pub open spec fn bar_write_step<D: PciDevice>(
    before: Seq<Slot<D>>,
    slot: u8,
    bar_idx: u8,
    offset: u64,
    data: Seq<u8>,
    after: Seq<Slot<D>>,
    r: Result<(), PciError>,
) -> bool {
    if slot < before.len() && before[slot as int] is Device {
        &&& after == before.update(slot as int, after[slot as int])
        &&& after[slot as int] is Device
        &&& D::bar_write_step(
            before[slot as int]->Device_0,
            bar_idx,
            offset,
            data,
            after[slot as int]->Device_0,
            r,
        )
    } else {
        after == before && r == Err::<(), _>(PciError::Unsupported)
    }
}

impl<D: PciDevice> PciBus<D> {
    /// The slots of the bus.
    pub closed spec fn slot_list(&self) -> Seq<Slot<D>> {
        self.slots@
    }

    /// What every bus keeps: it has all its slots, and its devices are in order.
    pub open spec fn wf(&self) -> bool {
        &&& self.slot_list().len() == NUM_SLOTS
        &&& forall|i: int| 0 <= i < NUM_SLOTS ==> (#[trigger] self.slot_list()[i]).wf()
    }

    /// A bus without devices.
    pub fn new() -> (r: PciBus<D>)
        ensures
            r.wf(),
            forall|i: int| 0 <= i < NUM_SLOTS ==> #[trigger] r.slot_list()[i] == Slot::<D>::Empty,
    {
        let mut slots: Vec<Slot<D>> = Vec::new();
        let mut i: usize = 0;
        while i < NUM_SLOTS
            invariant
                i <= NUM_SLOTS,
                slots@.len() == i,
                forall|k: int| 0 <= k < i ==> #[trigger] slots@[k] == Slot::<D>::Empty,
            decreases NUM_SLOTS - i,
        {
            slots.push(Slot::Empty);
            i = i + 1;
        }
        PciBus { slots }
    }

    /// A bus with a host bridge in slot 0.
    pub fn new_with_host_bridge() -> (r: PciBus<D>)
        ensures
            r.wf(),
            r.slot_list()[0] matches Slot::Bridge(b) && b.config() == bridge_config(),
            forall|i: int| 1 <= i < NUM_SLOTS ==> #[trigger] r.slot_list()[i] == Slot::<D>::Empty,
    {
        let mut bus = PciBus::<D>::new();
        bus.slots.set(0, Slot::Bridge(HostBridge::new()));
        bus
    }

    /// Whether a slot exists and is empty.
    pub fn is_free(&self, slot: u8) -> (r: bool)
        requires
            self.wf(),
        ensures
            r == (slot < NUM_SLOTS && self.slot_list()[slot as int] is Empty),
    {
        (slot as usize) < NUM_SLOTS && matches!(self.slots[slot as usize], Slot::Empty)
    }

    /// Puts a device into an empty slot.
    pub fn register(&mut self, slot: u8, device: D)
        requires
            old(self).wf(),
            device.wf(),
            slot < NUM_SLOTS,
            old(self).slot_list()[slot as int] is Empty,
        ensures
            final(self).wf(),
            final(self).slot_list() == old(self).slot_list().update(
                slot as int,
                Slot::Device(device),
            ),
    {
        self.slots.set(slot as usize, Slot::Device(device));
    }

    /// How many vectors the domain of the bus must have.
    pub fn total_msix_vectors(&self) -> (r: u16)
        requires
            self.wf(),
        ensures
            r == capped(vector_sum(self.slot_list(), NUM_SLOTS as int)),
    {
        let mut total: u16 = 0;
        let mut i: usize = 0;
        while i < NUM_SLOTS
            invariant
                self.wf(),
                i <= NUM_SLOTS,
                total == capped(vector_sum(self.slots@, i as int)),
            decreases NUM_SLOTS - i,
        {
            assert(self.slot_list()[i as int].wf());
            let n: u16 = match &self.slots[i] {
                Slot::Device(d) => d.msix_vectors(),
                _ => 0,
            };
            total = total.saturating_add(n);
            i = i + 1;
        }
        total
    }

    /// Hands the host service to every device, each with a vector base of its
    /// own: the number of vectors of the slots before it.
    pub fn set_host(&mut self, host: D::Host)
        requires
            old(self).wf(),
        ensures
            final(self).wf(),
            forall|i: int|
                0 <= i < NUM_SLOTS ==> Slot::host_step(
                    #[trigger] old(self).slot_list()[i],
                    host,
                    slot_base(old(self).slot_list(), i),
                    final(self).slot_list()[i],
                ),
    {
        let ghost before = self.slots@;
        let mut base: u16 = 0;
        let mut i: usize = 0;
        while i < NUM_SLOTS
            invariant
                i <= NUM_SLOTS,
                self.slots@.len() == NUM_SLOTS,
                before == old(self).slot_list(),
                forall|k: int| 0 <= k < NUM_SLOTS ==> (#[trigger] self.slots@[k]).wf(),
                forall|k: int| i <= k < NUM_SLOTS ==> #[trigger] self.slots@[k] == before[k],
                base == capped(vector_sum(before, i as int)),
                forall|k: int|
                    0 <= k < i ==> Slot::host_step(
                        #[trigger] before[k],
                        host,
                        slot_base(before, k),
                        self.slots@[k],
                    ),
            decreases NUM_SLOTS - i,
        {
            assert(self.slots@[i as int].wf());
            assert(self.slots@[i as int] == before[i as int]);
            let n: u16 = self.slots[i].set_host(&host, base);
            base = base.saturating_add(n);
            assert(Slot::host_step(
                before[i as int],
                host,
                slot_base(before, i as int),
                self.slots@[i as int],
            ));
            i = i + 1;
        }
    }

    /// Reads a configuration register; all ones where there is no device.
    pub fn config_read(&self, bus: u8, device: u8, function: u8, reg_idx: usize) -> (r: u32)
        requires
            self.wf(),
        ensures
            r == config_at(self.slot_list(), bus, device, function, reg_idx),
    {
        if bus != 0 || function != 0 || (device as usize) >= NUM_SLOTS {
            return NO_DEVICE;
        }
        assert(self.slot_list()[device as int].wf());
        match &self.slots[device as usize] {
            Slot::Empty => NO_DEVICE,
            Slot::Bridge(b) => b.config_read(reg_idx),
            Slot::Device(d) => d.config_read(reg_idx),
        }
    }

    /// Writes a configuration register; nothing happens where there is no device.
    pub fn config_write(
        &mut self,
        bus: u8,
        device: u8,
        function: u8,
        reg_idx: usize,
        offset: u64,
        data: &[u8],
    )
        requires
            old(self).wf(),
        ensures
            final(self).wf(),
            config_write_step(
                old(self).slot_list(),
                bus,
                device,
                function,
                reg_idx,
                offset,
                data@,
                final(self).slot_list(),
            ),
    {
        if bus != 0 || function != 0 || (device as usize) >= NUM_SLOTS {
            return;
        }
        assert(self.slot_list()[device as int].wf());
        self.slots[device as usize].config_write(reg_idx, offset, data);
        proof {
            assert(self.slots@ =~= old(self).slots@.update(
                device as int,
                self.slots@[device as int],
            ));
        }
    }

    /// The BARs of all slots, in slot order.
    pub fn enumerate_bars(&self) -> (r: Vec<(u8, BarRegion)>)
        requires
            self.wf(),
        ensures
            r@ == all_bars(self.slot_list(), NUM_SLOTS as int),
    {
        let mut out: Vec<(u8, BarRegion)> = Vec::new();
        let mut i: usize = 0;
        while i < NUM_SLOTS
            invariant
                self.wf(),
                i <= NUM_SLOTS,
                out@ == all_bars(self.slots@, i as int),
            decreases NUM_SLOTS - i,
        {
            assert(self.slot_list()[i as int].wf());
            match &self.slots[i] {
                Slot::Device(d) => {
                    let bars = d.bar_regions();
                    let ghost mine = slot_bars(self.slots@, i as int);
                    let ghost start = out@;
                    let mut k: usize = 0;
                    assert(start + mine.take(0) =~= start);
                    while k < bars.len()
                        invariant
                            k <= bars@.len(),
                            i < NUM_SLOTS,
                            mine == bars@.map_values(|b: BarRegion| (i as u8, b)),
                            out@ == start + mine.take(k as int),
                        decreases bars@.len() - k,
                    {
                        out.push((i as u8, bars[k]));
                        assert(mine.take(k + 1) =~= mine.take(k as int).push(mine[k as int]));
                        assert(out@ =~= start + mine.take(k + 1));
                        k = k + 1;
                    }
                    assert(mine.take(k as int) =~= mine);
                },
                _ => {
                    assert(slot_bars(self.slots@, i as int) =~= Seq::<(u8, BarRegion)>::empty());
                    assert(out@ + Seq::<(u8, BarRegion)>::empty() =~= out@);
                },
            }
            i = i + 1;
        }
        out
    }

    /// Hands a BAR read to a device.
    pub fn bar_read(&mut self, slot: u8, bar_idx: u8, offset: u64, data: &mut [u8]) -> (r: Result<
        (),
        PciError,
    >)
        requires
            old(self).wf(),
        ensures
            final(self).wf(),
            final(data)@.len() == old(data)@.len(),
            bar_read_step(
                old(self).slot_list(),
                slot,
                bar_idx,
                offset,
                old(data)@,
                final(self).slot_list(),
                final(data)@,
                r,
            ),
    {
        if (slot as usize) >= NUM_SLOTS {
            return Err(PciError::Unsupported);
        }
        assert(self.slot_list()[slot as int].wf());
        let r = match &mut self.slots[slot as usize] {
            Slot::Device(d) => d.bar_read(bar_idx, offset, data),
            _ => Err(PciError::Unsupported),
        };
        proof {
            assert(self.slots@ =~= old(self).slots@.update(slot as int, self.slots@[slot as int]));
            if !(old(self).slots@[slot as int] is Device) {
                assert(self.slots@ =~= old(self).slots@);
            }
        }
        r
    }

    /// Hands a BAR write to a device.
    pub fn bar_write(&mut self, slot: u8, bar_idx: u8, offset: u64, data: &[u8]) -> (r: Result<
        (),
        PciError,
    >)
        requires
            old(self).wf(),
        ensures
            final(self).wf(),
            bar_write_step(
                old(self).slot_list(),
                slot,
                bar_idx,
                offset,
                data@,
                final(self).slot_list(),
                r,
            ),
    {
        if (slot as usize) >= NUM_SLOTS {
            return Err(PciError::Unsupported);
        }
        assert(self.slot_list()[slot as int].wf());
        let r = match &mut self.slots[slot as usize] {
            Slot::Device(d) => d.bar_write(bar_idx, offset, data),
            _ => Err(PciError::Unsupported),
        };
        proof {
            assert(self.slots@ =~= old(self).slots@.update(slot as int, self.slots@[slot as int]));
            if !(old(self).slots@[slot as int] is Device) {
                assert(self.slots@ =~= old(self).slots@);
            }
        }
        r
    }
}

proof fn lemma_vector_sum<D: PciDevice>(slots: Seq<Slot<D>>, i: int, j: int)
    requires
        0 <= i < j <= slots.len(),
    ensures
        vector_sum(slots, i) + slots[i].vector_count() <= vector_sum(slots, j),
    decreases j,
{
    if i < j - 1 {
        lemma_vector_sum(slots, i, j - 1);
    }
}

/// As long as the bus has no more vectors than a domain can number, two devices
/// never share a domain vector, and every device vector is one of the domain's.
pub proof fn law_slots_get_disjoint_vectors<D: PciDevice>(
    slots: Seq<Slot<D>>,
    i: int,
    v: u16,
    j: int,
    w: u16,
)
    requires
        slots.len() == NUM_SLOTS,
        0 <= i < j < NUM_SLOTS,
        v < slots[i].vector_count(),
        w < slots[j].vector_count(),
        vector_sum(slots, NUM_SLOTS as int) <= u16::MAX,
    ensures
        slot_base(slots, i) is Some,
        slot_base(slots, j) is Some,
        shifted(v, slot_base(slots, i)->0) < shifted(w, slot_base(slots, j)->0),
        shifted(w, slot_base(slots, j)->0) < vector_sum(slots, NUM_SLOTS as int),
{
    lemma_vector_sum(slots, i, j);
    lemma_vector_sum(slots, j, NUM_SLOTS as int);
}

/// The BARs of a bus are those of its devices, each with the number of its slot.
pub proof fn law_bars_are_those_of_the_devices<D: PciDevice>(
    slots: Seq<Slot<D>>,
    n: int,
    x: (u8, BarRegion),
)
    requires
        0 <= n <= slots.len(),
        n <= 0x100,
    ensures
        all_bars(slots, n).contains(x) <==> x.0 < n && slots[x.0 as int] is Device
            && slots[x.0 as int]->Device_0.bars().contains(x.1),
    decreases n,
{
    if n > 0 {
        law_bars_are_those_of_the_devices(slots, n - 1, x);
        let before = all_bars(slots, n - 1);
        let mine = slot_bars(slots, n - 1);
        let now = all_bars(slots, n);
        if before.contains(x) {
            let k = choose|k: int| 0 <= k < before.len() && before[k] == x;
            assert(now[k] == x);
        }
        let own = slots[n - 1].bars();
        if x.0 == n - 1 && own.contains(x.1) {
            let k = choose|k: int| 0 <= k < own.len() && own[k] == x.1;
            assert(mine[k] == x);
            assert(now[before.len() + k] == x);
        }
        if now.contains(x) {
            let k = choose|k: int| 0 <= k < now.len() && now[k] == x;
            if k < before.len() {
                assert(before[k] == x);
            } else {
                assert(mine[k - before.len()] == x);
                assert(own[k - before.len()] == x.1);
            }
        }
    }
}

/// Only function 0 of the devices of bus 0 answers: any other address, and an empty
/// slot, reads as all ones.
pub proof fn law_other_addresses_read_as_ones<D: PciDevice>(
    slots: Seq<Slot<D>>,
    bus: u8,
    device: u8,
    function: u8,
    reg: usize,
)
    requires
        slots.len() == 32,
    ensures
        bus != 0 || function != 0 || device >= 32 ==> config_at(slots, bus, device, function, reg)
            == 0xffff_ffff,
        device < 32 && slots[device as int] is Empty ==> config_at(slots, 0, device, 0, reg)
            == 0xffff_ffff,
        device < 32 && slots[device as int] is Device ==> config_at(slots, 0, device, 0, reg)
            == slots[device as int]->Device_0.config_value(reg),
        device < 32 && slots[device as int] is Bridge && reg < 64 ==> config_at(
            slots,
            0,
            device,
            0,
            reg,
        ) == slots[device as int]->Bridge_0.config().registers[reg as int],
{
}

/// A configuration write reaches the addressed slot alone, and one to an address that
/// does not answer reaches none.
pub proof fn law_configuration_write_reaches_one_slot<D: PciDevice>(
    before: Seq<Slot<D>>,
    bus: u8,
    device: u8,
    function: u8,
    reg: usize,
    offset: u64,
    data: Seq<u8>,
    after: Seq<Slot<D>>,
    k: int,
)
    requires
        before.len() == 32,
        config_write_step(before, bus, device, function, reg, offset, data, after),
        0 <= k < 32,
    ensures
        after.len() == 32,
        !(bus == 0 && function == 0 && k == device) ==> after[k] == before[k],
        bus == 0 && function == 0 && k == device && before[k] is Device ==> after[k] is Device
            && exists|r: Result<(), PciError>| #[trigger]
            D::config_write_step(before[k]->Device_0, reg, offset, data, after[k]->Device_0, r),
        bus == 0 && function == 0 && k == device && before[k] is Bridge ==> after[k] is Bridge
            && after[k]->Bridge_0.config() == before[k]->Bridge_0.config().written(
            reg as int,
            offset,
            data,
        ),
        before[k] is Empty ==> after[k] is Empty,
{
}

/// A BAR access reaches the device in the named slot alone; where there is none it is
/// refused.
pub proof fn law_bar_access_reaches_one_slot<D: PciDevice>(
    before: Seq<Slot<D>>,
    slot: u8,
    bar: u8,
    offset: u64,
    data: Seq<u8>,
    after: Seq<Slot<D>>,
    out: Seq<u8>,
    r: Result<(), PciError>,
    k: int,
)
    requires
        before.len() == 32,
        0 <= k < 32,
    ensures
        bar_read_step(before, slot, bar, offset, data, after, out, r) ==> {
            &&& k != slot ==> after[k] == before[k]
            &&& slot >= 32 || before[slot as int] !is Device ==> r is Err && after == before && out
                == data
            &&& slot < 32 && before[slot as int] is Device ==> D::bar_read_step(
                before[slot as int]->Device_0,
                bar,
                offset,
                data,
                after[slot as int]->Device_0,
                out,
                r,
            )
        },
        bar_write_step(before, slot, bar, offset, data, after, r) ==> {
            &&& k != slot ==> after[k] == before[k]
            &&& slot >= 32 || before[slot as int] !is Device ==> r is Err && after == before
            &&& slot < 32 && before[slot as int] is Device ==> D::bar_write_step(
                before[slot as int]->Device_0,
                bar,
                offset,
                data,
                after[slot as int]->Device_0,
                r,
            )
        },
{
}

/// The vectors of the devices stand in the domain one behind the other, without gaps:
/// those of the first device with vectors start at zero, and those of the next one
/// behind its last.
pub proof fn law_vectors_are_numbered_without_gaps<D: PciDevice>(
    slots: Seq<Slot<D>>,
    i: int,
    j: int,
)
    requires
        slots.len() == 32,
        0 <= i < j < 32,
        slots[j].vector_count() > 0,
        forall|k: int| i < k < j ==> (#[trigger] slots[k]).vector_count() == 0,
        vector_sum(slots, 32) <= 0xffff,
    ensures
        slots[i].vector_count() > 0 ==> slot_base(slots, j) == Some(
            (slot_base(slots, i)->0 + slots[i].vector_count()) as u16,
        ),
        (forall|k: int| 0 <= k <= i ==> (#[trigger] slots[k]).vector_count() == 0) ==> slot_base(
            slots,
            j,
        ) == Some(0u16),
        slots[i].vector_count() == 0 ==> slot_base(slots, i) is None,
{
    lemma_vector_sum(slots, j, 32);
    lemma_vector_sum(slots, i, 32);
    lemma_no_vectors(slots, i + 1, j);
    if forall|k: int| 0 <= k <= i ==> (#[trigger] slots[k]).vector_count() == 0 {
        lemma_no_vectors(slots, 0, i + 1);
    }
}

proof fn lemma_no_vectors<D: PciDevice>(slots: Seq<Slot<D>>, i: int, j: int)
    requires
        0 <= i <= j <= slots.len(),
        forall|k: int| i <= k < j ==> (#[trigger] slots[k]).vector_count() == 0,
    ensures
        vector_sum(slots, j) == vector_sum(slots, i),
    decreases j - i,
{
    if i < j {
        lemma_no_vectors(slots, i, j - 1);
    }
}

/// What the guest finds of the host bridge: vendor 8086, device 1237, the class of a
/// bridge, an ordinary header, and a command register that it may write.
pub proof fn law_host_bridge_registers()
    ensures
        bridge_config().registers[0] == 0x1237_8086,
        bridge_config().registers[2] == 0x0600_0000,
        bridge_config().registers[3] == 0,
        bridge_config().registers.len() == 64,
        forall|i: int|
            0 <= i < 64 && i != 0 && i != 2 ==> #[trigger] bridge_config().registers[i] == 0,
        bridge_config().writable[1] == 0xffff,
        forall|i: int| 0 <= i < 64 && i != 1 ==> #[trigger] bridge_config().writable[i] == 0,
        bridge_config().next_capability == 0x40,
{
    let c = ConfigView::empty().with_reg(0, 0x1237_8086).with_reg(
        2,
        crate::bytes::le_u32(seq![0x00u8, 0x00u8, 0x00u8, 0x06u8]),
    );
    assert(c.reg(3) == 0);
    assert(crate::pci::configuration::overwritten(0, 2, seq![0x00u8]) == 0);
}

/// The vectors of a slot stand behind its base in the domain; a device that names no
/// vector, by 0xffff, interrupts on none of them. Without a base the vectors are the
/// domain's own.
pub proof fn law_slot_vectors<H>(h: &SlotHost<H>, v: u16, updated: u16, r: Option<u16>)
    requires
        call_ensures(SlotHost::<H>::update_vector, (h, v), updated),
        call_ensures(SlotHost::<H>::interrupt_vector, (h, v), r),
        h.vector_base matches Some(base) ==> v == 0xffff || base + v <= 0xffff,
    ensures
        h.vector_base is None ==> updated == v && r == Some(v),
        h.vector_base matches Some(base) ==> {
            &&& v == 0xffff ==> r is None
            &&& v != 0xffff ==> updated - base == v && r == Some(updated)
        },
{
}

} // verus!
