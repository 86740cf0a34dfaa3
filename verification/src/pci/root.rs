//! The root complex: the configuration window and the BAR windows of one bus.
use vstd::prelude::*;

use crate::bytes::{byte_of, le_byte};
use crate::mmio::{
    MmioDevice, MmioError, MmioInterruptRequirement, MmioWindow, MmioWriteOutcome,
};
use crate::pci::address::{ecam_parts, law_ecam_offset_round_trip, parse_ecam_offset};
use crate::pci::bus::{
    all_bars, bar_read_step, bar_write_step, bridge_config, capped, config_at, config_write_step,
    law_bars_are_those_of_the_devices, slot_base, vector_sum, BarRegion, PciBus, PciDevice, PciError, Slot, NUM_SLOTS,
};

verus! {

/// A PCIe root complex.
#[derive(Debug)]
pub struct PciRoot<D> {
    window: MmioWindow,
    windows: Vec<MmioWindow>,
    interrupts: Vec<MmioInterruptRequirement>,
    bus: PciBus<D>,
}

/// The window of a BAR.
pub open spec fn bar_window(bar: BarRegion) -> MmioWindow {
    MmioWindow { name: "pci-bar", base: bar.base_gpa, size: bar.size }
}

/// The windows of a root: its configuration window and the windows of the BARs.
pub open spec fn root_windows(window: MmioWindow, bars: Seq<(u8, BarRegion)>) -> Seq<MmioWindow> {
    seq![window] + bars.map_values(|b: (u8, BarRegion)| bar_window(b.1))
}

/// A requirement with its domain sized to `total` vectors.
pub open spec fn sized(req: MmioInterruptRequirement, total: u16) -> MmioInterruptRequirement {
    match req {
        MmioInterruptRequirement::MessageDomain { source, .. } =>
            MmioInterruptRequirement::MessageDomain { source, vectors: total },
        MmioInterruptRequirement::Line { .. } => req,
    }
}

/// Whether two windows are the same range.
pub open spec fn same_range(window: MmioWindow, base: u64, size: u64) -> bool {
    window.base == base && window.size == size
}

/// The slot and the BAR that a window belongs to: the first, from `i` on.
pub open spec fn find_bar(bars: Seq<(u8, BarRegion)>, window: MmioWindow, i: int) -> Option<
    (u8, u8),
>
    decreases bars.len() - i,
{
    if i < 0 || i >= bars.len() {
        None
    } else if same_range(window, bars[i].1.base_gpa, bars[i].1.size) {
        Some((bars[i].0, bars[i].1.bar_idx))
    } else {
        find_bar(bars, window, i + 1)
    }
}

/// The register of an ECAM offset.
pub open spec fn ecam_register(offset: u64) -> usize {
    (offset % 0x1000 / 4) as usize
}

/// What reading the configuration window gives at byte `i`: the bytes of the
/// register from the one that is named, and ones behind it.
pub open spec fn ecam_byte<D: PciDevice>(slots: Seq<Slot<D>>, offset: u64, i: int) -> u8 {
    let (bus, device, function, _) = ecam_parts(offset);
    let value = config_at(slots, bus, device, function, ecam_register(offset));
    if offset % 4 + i < 4 {
        le_byte(value, offset % 4 + i)
    } else {
        0xff
    }
}

impl<D: PciDevice> PciRoot<D> {
    pub closed spec fn slot_list(&self) -> Seq<Slot<D>> {
        self.bus.slot_list()
    }

    /// The configuration window.
    pub closed spec fn ecam(&self) -> MmioWindow {
        self.window
    }

    pub closed spec fn interrupt_list(&self) -> Seq<MmioInterruptRequirement> {
        self.interrupts@
    }

    pub closed spec fn bus_wf(&self) -> bool {
        self.bus.wf()
    }

    /// What every root keeps: its bus has all its slots, and its devices are in
    /// order.
    pub open spec fn inv(&self) -> bool {
        &&& self.bus_wf()
        &&& self.slot_list().len() == NUM_SLOTS
    }

    /// A root with a host bridge and without an interrupt requirement.
    pub fn new(window: MmioWindow) -> (r: PciRoot<D>)
        ensures
            r.inv(),
            r.ecam() == window,
            r.window_list() == seq![window],
            r.interrupt_list() == Seq::<MmioInterruptRequirement>::empty(),
            r.slot_list()[0] matches Slot::Bridge(b) && b.config() == bridge_config(),
            forall|i: int| 1 <= i < NUM_SLOTS ==> #[trigger] r.slot_list()[i] == Slot::<D>::Empty,
    {
        let windows: Vec<MmioWindow> = vec![window];
        assert(windows@ =~= seq![window]);
        PciRoot {
            window,
            windows,
            interrupts: Vec::new(),
            bus: PciBus::new_with_host_bridge(),
        }
    }

    /// A root with a host bridge and one interrupt requirement.
    pub fn with_interrupt_requirement(
        window: MmioWindow,
        interrupt: MmioInterruptRequirement,
    ) -> (r: PciRoot<D>)
        ensures
            r.inv(),
            r.ecam() == window,
            r.window_list() == seq![window],
            r.interrupt_list() == seq![interrupt],
            r.slot_list()[0] matches Slot::Bridge(b) && b.config() == bridge_config(),
            forall|i: int| 1 <= i < NUM_SLOTS ==> #[trigger] r.slot_list()[i] == Slot::<D>::Empty,
    {
        let windows: Vec<MmioWindow> = vec![window];
        let interrupts: Vec<MmioInterruptRequirement> = vec![interrupt];
        assert(windows@ =~= seq![window]);
        assert(interrupts@ =~= seq![interrupt]);
        PciRoot { window, windows, interrupts, bus: PciBus::new_with_host_bridge() }
    }

    /// Whether a slot exists and is empty.
    pub fn is_free(&self, slot: u8) -> (r: bool)
        requires
            self.inv(),
        ensures
            r == (slot < NUM_SLOTS && self.slot_list()[slot as int] is Empty),
    {
        self.bus.is_free(slot)
    }

    /// Puts a device into an empty slot; the windows then cover its BARs and the
    /// interrupt requirements its vectors.
    pub fn register(&mut self, slot: u8, device: D)
        requires
            old(self).inv(),
            device.wf(),
            slot < NUM_SLOTS,
            old(self).slot_list()[slot as int] is Empty,
        ensures
            final(self).inv(),
            final(self).ecam() == old(self).ecam(),
            final(self).slot_list() == old(self).slot_list().update(
                slot as int,
                Slot::Device(device),
            ),
            final(self).window_list() == root_windows(
                old(self).ecam(),
                all_bars(final(self).slot_list(), NUM_SLOTS as int),
            ),
            final(self).interrupt_list() == old(self).interrupt_list().map_values(
                |req: MmioInterruptRequirement|
                    sized(
                        req,
                        capped(vector_sum(final(self).slot_list(), NUM_SLOTS as int)),
                    ),
            ),
    {
        self.bus.register(slot, device);
        self.refresh_windows();
        self.refresh_interrupts();
    }

    /// Hands a host service to every device; see [`PciBus::set_host`].
    pub fn set_attachment(&mut self, host: D::Host)
        requires
            old(self).inv(),
        ensures
            final(self).inv(),
            final(self).ecam() == old(self).ecam(),
            final(self).window_list() == old(self).window_list(),
            final(self).interrupt_list() == old(self).interrupt_list(),
            forall|i: int|
                0 <= i < NUM_SLOTS ==> Slot::host_step(
                    #[trigger] old(self).slot_list()[i],
                    host,
                    slot_base(old(self).slot_list(), i),
                    final(self).slot_list()[i],
                ),
    {
        self.bus.set_host(host);
    }

    pub fn config_read(&self, bus: u8, device: u8, function: u8, reg_idx: usize) -> (r: u32)
        requires
            self.inv(),
        ensures
            r == config_at(self.slot_list(), bus, device, function, reg_idx),
    {
        self.bus.config_read(bus, device, function, reg_idx)
    }

    pub fn config_write(
        &mut self,
        bus: u8,
        device: u8,
        function: u8,
        reg_idx: usize,
        offset: u64,
        data: &[u8],
    )
        requires
            old(self).inv(),
        ensures
            final(self).inv(),
            final(self).ecam() == old(self).ecam(),
            final(self).window_list() == old(self).window_list(),
            final(self).interrupt_list() == old(self).interrupt_list(),
            config_write_step(
                old(self).slot_list(),
                bus,
                device,
                function,
                reg_idx,
                offset,
                data@,
                final(self).slot_list(),
            ),
    {
        self.bus.config_write(bus, device, function, reg_idx, offset, data);
    }

    pub fn enumerate_bars(&self) -> (r: Vec<(u8, BarRegion)>)
        requires
            self.inv(),
        ensures
            r@ == all_bars(self.slot_list(), NUM_SLOTS as int),
    {
        self.bus.enumerate_bars()
    }

    pub fn bar_read(&mut self, slot: u8, bar_idx: u8, offset: u64, data: &mut [u8]) -> (r: Result<
        (),
        PciError,
    >)
        requires
            old(self).inv(),
        ensures
            final(self).inv(),
            final(self).ecam() == old(self).ecam(),
            final(self).window_list() == old(self).window_list(),
            final(self).interrupt_list() == old(self).interrupt_list(),
            final(data)@.len() == old(data)@.len(),
            bar_read_step(
                old(self).slot_list(),
                slot,
                bar_idx,
                offset,
                old(data)@,
                final(self).slot_list(),
                final(data)@,
                r,
            ),
    {
        self.bus.bar_read(slot, bar_idx, offset, data)
    }

    pub fn bar_write(&mut self, slot: u8, bar_idx: u8, offset: u64, data: &[u8]) -> (r: Result<
        (),
        PciError,
    >)
        requires
            old(self).inv(),
        ensures
            final(self).inv(),
            final(self).ecam() == old(self).ecam(),
            final(self).window_list() == old(self).window_list(),
            final(self).interrupt_list() == old(self).interrupt_list(),
            bar_write_step(
                old(self).slot_list(),
                slot,
                bar_idx,
                offset,
                data@,
                final(self).slot_list(),
                r,
            ),
    {
        self.bus.bar_write(slot, bar_idx, offset, data)
    }

    /// The interrupt requirements of the root.
    pub fn interrupts(&self) -> (r: &[MmioInterruptRequirement])
        ensures
            r@ == self.interrupt_list(),
    {
        self.interrupts.as_slice()
    }

    fn refresh_windows(&mut self)
        requires
            old(self).inv(),
        ensures
            final(self).inv(),
            final(self).ecam() == old(self).ecam(),
            final(self).slot_list() == old(self).slot_list(),
            final(self).interrupt_list() == old(self).interrupt_list(),
            final(self).window_list() == root_windows(
                old(self).ecam(),
                all_bars(old(self).slot_list(), NUM_SLOTS as int),
            ),
    {
        let bars = self.bus.enumerate_bars();
        let mut windows: Vec<MmioWindow> = Vec::new();
        windows.push(self.window);
        let mut i: usize = 0;
        while i < bars.len()
            invariant
                i <= bars@.len(),
                windows@.len() == i + 1,
                windows@[0] == self.window,
                forall|k: int| 0 <= k < i ==> #[trigger] windows@[k + 1] == bar_window(bars@[k].1),
            decreases bars@.len() - i,
        {
            windows.push(
                MmioWindow {
                    name: "pci-bar",
                    base: bars[i].1.base_gpa,
                    size: bars[i].1.size,
                },
            );
            i = i + 1;
        }
        proof {
            let want = root_windows(self.window, bars@);
            assert forall|k: int| 0 <= k < want.len() implies windows@[k] == want[k] by {
                if k > 0 {
                    assert(windows@[(k - 1) + 1] == bar_window(bars@[k - 1].1));
                }
            }
            assert(windows@ =~= want);
        }
        self.windows = windows;
    }

    /// Sizes the requested message-interrupt domain to the vectors of all slots.
    fn refresh_interrupts(&mut self)
        requires
            old(self).inv(),
        ensures
            final(self).inv(),
            final(self).ecam() == old(self).ecam(),
            final(self).slot_list() == old(self).slot_list(),
            final(self).window_list() == old(self).window_list(),
            final(self).interrupt_list() == old(self).interrupt_list().map_values(
                |req: MmioInterruptRequirement|
                    sized(req, capped(vector_sum(old(self).slot_list(), NUM_SLOTS as int))),
            ),
    {
        let total: u16 = self.bus.total_msix_vectors();
        let mut out: Vec<MmioInterruptRequirement> = Vec::new();
        let mut i: usize = 0;
        while i < self.interrupts.len()
            invariant
                i <= self.interrupts@.len(),
                out@.len() == i,
                forall|k: int|
                    0 <= k < i ==> #[trigger] out@[k] == sized(self.interrupts@[k], total),
            decreases self.interrupts@.len() - i,
        {
            let req = match self.interrupts[i] {
                MmioInterruptRequirement::MessageDomain { source, .. } =>
                    MmioInterruptRequirement::MessageDomain { source, vectors: total },
                MmioInterruptRequirement::Line { source } => MmioInterruptRequirement::Line {
                    source,
                },
            };
            out.push(req);
            i = i + 1;
        }
        self.interrupts = out;
        assert(self.interrupts@ =~= old(self).interrupts@.map_values(
            |req: MmioInterruptRequirement| sized(req, total),
        ));
    }

    /// The slot and the BAR that a window belongs to.
    fn bar_route(&self, window: MmioWindow) -> (r: Option<(u8, u8)>)
        requires
            self.inv(),
        ensures
            r == find_bar(all_bars(self.slot_list(), NUM_SLOTS as int), window, 0),
    {
        let bars = self.bus.enumerate_bars();
        let mut i: usize = 0;
        while i < bars.len()
            invariant
                i <= bars@.len(),
                bars@ == all_bars(self.slot_list(), NUM_SLOTS as int),
                find_bar(bars@, window, 0) == find_bar(bars@, window, i as int),
            decreases bars@.len() - i,
        {
            let bar = bars[i].1;
            if bar.base_gpa == window.base && bar.size == window.size {
                return Some((bars[i].0, bar.bar_idx));
            }
            i = i + 1;
        }
        None
    }

    /// Reads the configuration window.
    fn ecam_read(&self, offset: u64, data: &mut [u8])
        requires
            self.inv(),
        ensures
            final(data)@ == Seq::new(
                old(data)@.len(),
                |i: int| ecam_byte(self.slot_list(), offset, i),
            ),
    {
        let (bus, device, function, register) = parse_ecam_offset(offset);
        assert(register as int / 4 == offset % 0x1000 / 4 && register as int % 4 == offset % 4)
            by {
            assert(offset % 0x1000 % 4 == offset % 4) by (nonlinear_arith);
        }
        let value: u32 = self.bus.config_read(bus, device, function, (register / 4) as usize);
        let at: usize = (register % 4) as usize;
        let n: usize = data.len();
        let mut i: usize = 0;
        while i < n
            invariant
                n == data@.len(),
                n == old(data)@.len(),
                i <= n,
                at == offset % 4,
                value == config_at(
                    self.slot_list(),
                    ecam_parts(offset).0,
                    ecam_parts(offset).1,
                    ecam_parts(offset).2,
                    ecam_register(offset),
                ),
                forall|k: int|
                    0 <= k < i ==> #[trigger] data@[k] == ecam_byte(self.slot_list(), offset, k),
            decreases n - i,
        {
            data[i] = if i < 4 - at {
                byte_of(value, at + i)
            } else {
                0xff
            };
            i = i + 1;
        }
        assert(data@ =~= Seq::new(
            old(data)@.len(),
            |i: int| ecam_byte(self.slot_list(), offset, i),
        ));
    }
}

impl<D: PciDevice> MmioDevice for PciRoot<D> {
    open spec fn wf(&self) -> bool {
        self.inv()
    }

    closed spec fn window_list(&self) -> Seq<MmioWindow> {
        self.windows@
    }

    /// A read of the configuration window gives configuration bytes; a read of a
    /// BAR window goes to the BAR's device; no other window is served.
    open spec fn read_step(
        before: PciRoot<D>,
        window: MmioWindow,
        offset: u64,
        data: Seq<u8>,
        after: PciRoot<D>,
        out: Seq<u8>,
        r: Result<(), MmioError>,
    ) -> bool {
        &&& after.ecam() == before.ecam()
        &&& after.window_list() == before.window_list()
        &&& after.interrupt_list() == before.interrupt_list()
        &&& if same_range(before.ecam(), window.base, window.size) {
            &&& after.slot_list() == before.slot_list()
            &&& out == Seq::new(data.len(), |i: int| ecam_byte(before.slot_list(), offset, i))
            &&& r is Ok
        } else {
            match find_bar(all_bars(before.slot_list(), NUM_SLOTS as int), window, 0) {
                Some((slot, bar_idx)) => exists|res: Result<(), PciError>|
                    r == unsupported_if(res) && #[trigger] bar_read_step(
                        before.slot_list(),
                        slot,
                        bar_idx,
                        offset,
                        data,
                        after.slot_list(),
                        out,
                        res,
                    ),
                None => {
                    &&& after.slot_list() == before.slot_list()
                    &&& out == data
                    &&& r == Err::<(), _>(MmioError::Unsupported)
                },
            }
        }
    }

    /// A write of the configuration window is a configuration write; a write of a
    /// BAR window goes to the BAR's device; no other window is served.
    open spec fn write_step(
        before: PciRoot<D>,
        window: MmioWindow,
        offset: u64,
        data: Seq<u8>,
        after: PciRoot<D>,
        r: Result<MmioWriteOutcome, MmioError>,
    ) -> bool {
        &&& after.ecam() == before.ecam()
        &&& after.window_list() == before.window_list()
        &&& after.interrupt_list() == before.interrupt_list()
        &&& if same_range(before.ecam(), window.base, window.size) {
            let (bus, device, function, _) = ecam_parts(offset);
            &&& config_write_step(
                before.slot_list(),
                bus,
                device,
                function,
                ecam_register(offset),
                offset % 4,
                data,
                after.slot_list(),
            )
            &&& r == Ok::<_, MmioError>(MmioWriteOutcome::Continue)
        } else {
            match find_bar(all_bars(before.slot_list(), NUM_SLOTS as int), window, 0) {
                Some((slot, bar_idx)) => exists|res: Result<(), PciError>|
                    r == continue_if(res) && #[trigger] bar_write_step(
                        before.slot_list(),
                        slot,
                        bar_idx,
                        offset,
                        data,
                        after.slot_list(),
                        res,
                    ),
                None => {
                    &&& after.slot_list() == before.slot_list()
                    &&& r == Err::<MmioWriteOutcome, _>(MmioError::Unsupported)
                },
            }
        }
    }

    fn windows(&self) -> (r: &[MmioWindow]) {
        self.windows.as_slice()
    }

    fn read(&mut self, window: MmioWindow, offset: u64, data: &mut [u8]) -> (r: Result<
        (),
        MmioError,
    >) {
        if window.base == self.window.base && window.size == self.window.size {
            self.ecam_read(offset, data);
            return Ok(());
        }
        match self.bar_route(window) {
            Some((slot, bar_idx)) => match self.bar_read(slot, bar_idx, offset, data) {
                Ok(()) => Ok(()),
                Err(_) => Err(MmioError::Unsupported),
            },
            None => Err(MmioError::Unsupported),
        }
    }

    fn write(&mut self, window: MmioWindow, offset: u64, data: &[u8]) -> (r: Result<
        MmioWriteOutcome,
        MmioError,
    >) {
        if window.base == self.window.base && window.size == self.window.size {
            let (bus, device, function, register) = parse_ecam_offset(offset);
            assert(register as int / 4 == offset % 0x1000 / 4 && register as int % 4 == offset % 4)
                by {
                assert(offset % 0x1000 % 4 == offset % 4) by (nonlinear_arith);
            }
            self.config_write(
                bus,
                device,
                function,
                (register / 4) as usize,
                (register % 4) as u64,
                data,
            );
            return Ok(MmioWriteOutcome::Continue);
        }
        match self.bar_route(window) {
            Some((slot, bar_idx)) => match self.bar_write(slot, bar_idx, offset, data) {
                Ok(()) => Ok(MmioWriteOutcome::Continue),
                Err(_) => Err(MmioError::Unsupported),
            },
            None => Err(MmioError::Unsupported),
        }
    }
}

/// An endpoint's answer to a read as the bus reports it.
pub open spec fn unsupported_if(res: Result<(), PciError>) -> Result<(), MmioError> {
    match res {
        Ok(_) => Ok(()),
        Err(_) => Err(MmioError::Unsupported),
    }
}

/// An endpoint's answer to a write as the bus reports it.
pub open spec fn continue_if(res: Result<(), PciError>) -> Result<MmioWriteOutcome, MmioError> {
    match res {
        Ok(_) => Ok(MmioWriteOutcome::Continue),
        Err(_) => Err(MmioError::Unsupported),
    }
}

proof fn lemma_find_bar(bars: Seq<(u8, BarRegion)>, window: MmioWindow, i: int)
    requires
        0 <= i,
    ensures
        match find_bar(bars, window, i) {
            Some((slot, bar)) => exists|k: int|
                i <= k < bars.len() && (#[trigger] bars[k]).0 == slot && bars[k].1.bar_idx == bar
                    && bars[k].1.base_gpa == window.base && bars[k].1.size == window.size,
            None => forall|k: int|
                i <= k < bars.len() ==> !((#[trigger] bars[k]).1.base_gpa == window.base
                    && bars[k].1.size == window.size),
        },
    decreases bars.len() - i,
{
    if i < bars.len() {
        if same_range(window, bars[i].1.base_gpa, bars[i].1.size) {
            let (slot, _) = find_bar(bars, window, i)->0;
            assert(bars[i].0 == slot);
        } else {
            lemma_find_bar(bars, window, i + 1);
        }
    }
}

/// Every BAR of a device has a window of the root, with its address and size, behind
/// the configuration window; and an access to that window goes to the slot and the
/// BAR, as long as no other BAR has the same range.
pub proof fn law_bars_are_reached_through_their_windows<D: PciDevice>(
    slots: Seq<Slot<D>>,
    ecam: MmioWindow,
    slot: u8,
    bar: BarRegion,
)
    requires
        slots.len() == 32,
        slot < 32,
        slots[slot as int] is Device,
        slots[slot as int]->Device_0.bars().contains(bar),
        forall|i: u8, x: BarRegion|
            i < 32 && slots[i as int] is Device && #[trigger] slots[i as int]->Device_0.bars().contains(
                x,
            ) && x.base_gpa == bar.base_gpa && x.size == bar.size ==> i == slot && x.bar_idx
                == bar.bar_idx,
    ensures
        ({
            let bars = all_bars(slots, 32);
            let windows = root_windows(ecam, bars);
            &&& windows[0] == ecam
            &&& windows.len() == bars.len() + 1
            &&& exists|k: int|
                1 <= k < windows.len() && (#[trigger] windows[k]).base == bar.base_gpa
                    && windows[k].size == bar.size
            &&& forall|w: MmioWindow|
                w.base == bar.base_gpa && w.size == bar.size ==> #[trigger] find_bar(bars, w, 0)
                    == Some((slot, bar.bar_idx))
        }),
{
    let bars = all_bars(slots, 32);
    let windows = root_windows(ecam, bars);
    law_bars_are_those_of_the_devices(slots, 32, (slot, bar));
    let k = choose|k: int| 0 <= k < bars.len() && bars[k] == (slot, bar);
    assert(windows[k + 1] == bar_window(bars[k].1));
    assert forall|w: MmioWindow|
        w.base == bar.base_gpa && w.size == bar.size implies #[trigger] find_bar(bars, w, 0)
        == Some((slot, bar.bar_idx)) by {
        lemma_find_bar(bars, w, 0);
        assert(bars[k].1.base_gpa == w.base);
        let (s, b) = find_bar(bars, w, 0)->0;
        let j = choose|j: int|
            0 <= j < bars.len() && (#[trigger] bars[j]).0 == s && bars[j].1.bar_idx == b
                && bars[j].1.base_gpa == w.base && bars[j].1.size == w.size;
        law_bars_are_those_of_the_devices(slots, 32, bars[j]);
        assert(bars.contains(bars[j]));
    }
}

/// A window that is no BAR goes to no device.
pub proof fn law_other_windows_reach_no_device<D: PciDevice>(slots: Seq<Slot<D>>, w: MmioWindow)
    requires
        slots.len() == 32,
        forall|i: u8, x: BarRegion|
            i < 32 && slots[i as int] is Device && #[trigger] slots[i as int]->Device_0.bars().contains(
                x,
            ) ==> x.base_gpa != w.base || x.size != w.size,
    ensures
        find_bar(all_bars(slots, 32), w, 0) is None,
{
    let bars = all_bars(slots, 32);
    lemma_find_bar(bars, w, 0);
    if find_bar(bars, w, 0) is Some {
        let (s, b) = find_bar(bars, w, 0)->0;
        let j = choose|j: int|
            0 <= j < bars.len() && (#[trigger] bars[j]).0 == s && bars[j].1.bar_idx == b
                && bars[j].1.base_gpa == w.base && bars[j].1.size == w.size;
        law_bars_are_those_of_the_devices(slots, 32, bars[j]);
        assert(bars.contains(bars[j]));
    }
}

/// The configuration window gives the bytes of a register from the lowest on; behind
/// the register it gives ones. A bus takes a mebibyte of the window, a device 32
/// kibibytes, a function four, and a register four bytes.
pub proof fn law_window_gives_the_register<D: PciDevice>(
    slots: Seq<Slot<D>>,
    bus: u8,
    device: u8,
    function: u8,
    reg: usize,
    k: int,
    i: int,
)
    requires
        device < 32,
        function < 8,
        reg < 0x400,
        0 <= k < 4,
        0 <= i,
    ensures
        ({
            let offset = (bus * 0x10_0000 + device * 0x8000 + function * 0x1000 + reg * 4
                + k) as u64;
            let value = config_at(slots, bus, device, function, reg);
            &&& k + i == 0 ==> ecam_byte(slots, offset, i) == value % 256
            &&& k + i == 1 ==> ecam_byte(slots, offset, i) == value / 256 % 256
            &&& k + i == 2 ==> ecam_byte(slots, offset, i) == value / 65536 % 256
            &&& k + i == 3 ==> ecam_byte(slots, offset, i) == value / 16777216
            &&& k + i >= 4 ==> ecam_byte(slots, offset, i) == 255
        }),
{
    let register = (reg * 4 + k) as u16;
    law_ecam_offset_round_trip(bus, device, function, register);
    let offset = (bus * 0x10_0000 + device * 0x8000 + function * 0x1000 + reg * 4 + k) as u64;
    assert(offset % 0x1000 == register);
    assert(offset % 4 == k && offset % 0x1000 / 4 == reg) by (nonlinear_arith)
        requires
            offset % 0x1000 == reg * 4 + k,
            0 <= k < 4,
            0 <= reg,
    ;
}

/// Every message domain of a root is as large as the vectors of all its devices
/// together, and keeps its source; a line stays as it is.
pub proof fn law_domain_has_all_vectors<D: PciDevice>(
    slots: Seq<Slot<D>>,
    req: MmioInterruptRequirement,
)
    requires
        slots.len() == 32,
        vector_sum(slots, 32) <= 0xffff,
    ensures
        match (req, sized(req, capped(vector_sum(slots, 32)))) {
            (
                MmioInterruptRequirement::MessageDomain { source, .. },
                MmioInterruptRequirement::MessageDomain { source: kept, vectors },
            ) => kept == source && vectors == vector_sum(slots, 32),
            (
                MmioInterruptRequirement::Line { source },
                MmioInterruptRequirement::Line { source: kept },
            ) => kept == source,
            _ => false,
        },
{
}

} // verus!
