//! Devices that both architectures share: serial port, virtio-mmio slots, PCIe
//! host bridge, and the root's own grammar.
use vstd::prelude::*;

use crate::devtree::{
    cells_of, find_child, find_prefixed, join_u32, lemma_find_prefixed, pair_at, property_of,
    without_property, Node, Property,
};
use crate::platform::arm::{bad, state_of, SurveyState};
use crate::platform::claim::{drained, need, need_compatible, need_reg, need_u32};
use crate::platform::error::{texts, ControllerKind, SurveyError, SurveyErrorView};
use crate::platform::plan::{RegionKind, RegionView, ResourcePlan};
use crate::platform::topology::{
    interrupt_parent_kind, need_msi_parent, need_wired, parent_kind, Arch, MsiParentage,
    MsiParentageView, Topology, TopologyView, WiredInterrupt, WiredView,
};

verus! {

/// The serial port: a 16550 over MMIO.
#[derive(Debug)]
pub struct Uart {
    pub base: u64,
    pub size: u64,
    /// The register stride is `1 << reg_shift` bytes.
    pub reg_shift: u32,
    /// IO-APIC pin or GIC interrupt number.
    pub irq: u32,
    pub interrupt: WiredInterrupt,
}

/// A [`Uart`] with its interrupt as a view.
pub struct UartView {
    pub base: u64,
    pub size: u64,
    pub reg_shift: u32,
    pub irq: u32,
    pub interrupt: WiredView,
}

impl View for Uart {
    type V = UartView;

    open spec fn view(&self) -> UartView {
        UartView {
            base: self.base,
            size: self.size,
            reg_shift: self.reg_shift,
            irq: self.irq,
            interrupt: self.interrupt@,
        }
    }
}

/// A region of device registers.
pub open spec fn registers(node: Seq<char>, r: (u64, u64)) -> RegionView {
    RegionView { gpa: r.0, size: r.1, kind: RegionKind::Mmio, node, prop: "reg"@ }
}

/// What a serial node declares: a register region, a register stride and one
/// wired interrupt, and nothing else that is not known.
pub open spec fn uart_node(n: Node, arch: Arch, topology: TopologyView) -> Result<
    UartView,
    SurveyErrorView,
> {
    let node = "/serial"@;
    match need_compatible(n.properties@, node, "ns16550a"@) {
        Err(e) => Err(e),
        Ok(rest) => match need_reg(rest, node, "missing reg pair"@) {
            Err(e) => Err(e),
            Ok((reg, rest)) => match need_u32(rest, "reg-shift"@, node) {
                Err(e) => Err(e),
                Ok((reg_shift, rest)) => match need_wired(
                    rest,
                    topology,
                    node,
                    parent_kind(arch),
                ) {
                    Err(e) => Err(e),
                    Ok((interrupt, rest)) => match drained(
                        n.name@,
                        without_property(
                            without_property(
                                without_property(rest, "reg-io-width"@),
                                "clock-frequency"@,
                            ),
                            "current-speed"@,
                        ),
                        n.children@,
                    ) {
                        Err(e) => Err(e),
                        Ok(_) => Ok(
                            UartView {
                                base: reg.0,
                                size: reg.1,
                                reg_shift,
                                irq: interrupt.irq,
                                interrupt,
                            },
                        ),
                    },
                },
            },
        },
    }
}

/// Claiming the serial port, where there is one.
pub open spec fn uart_step(s: SurveyState, arch: Arch) -> Result<
    (Option<UartView>, SurveyState),
    SurveyErrorView,
> {
    match find_prefixed(s.children, "serial@"@, 0) {
        None => Ok((None, s)),
        Some(i) => match uart_node(s.children[i], arch, s.topology) {
            Err(e) => Err(e),
            Ok(u) => Ok(
                (
                    Some(u),
                    SurveyState {
                        children: s.children.remove(i),
                        regions: s.regions.push(registers("/serial"@, (u.base, u.size))),
                        topology: s.topology,
                    },
                ),
            ),
        },
    }
}

impl Uart {
    /// Claims the serial port, where there is one.
    pub fn from_tree(
        root: &mut Node,
        plan: &mut ResourcePlan,
        arch: Arch,
        topology: &Topology,
    ) -> (r: Result<Option<Uart>, SurveyError>)
        ensures
            final(root).name == old(root).name,
            final(root).properties == old(root).properties,
            match r {
                Ok(u) => uart_step(state_of(*old(root), *old(plan), *topology), arch) == Ok::<
                    _,
                    SurveyErrorView,
                >(
                    (
                        match u {
                            Some(u) => Some(u@),
                            None => None,
                        },
                        state_of(*final(root), *final(plan), *topology),
                    ),
                ),
                Err(e) => uart_step(state_of(*old(root), *old(plan), *topology), arch) == Err::<
                    (Option<UartView>, SurveyState),
                    _,
                >(e@),
            },
    {
        let i: usize = match root.prefixed_index("serial@") {
            Some(i) => i,
            None => {
                return Ok(None);
            },
        };
        let mut serial = root.children.remove(i);
        match serial.require_compatible("/serial", "ns16550a") {
            Ok(_) => {},
            Err(e) => {
                return Err(e);
            },
        }
        let (reg, window) = match serial.require_reg("/serial", "missing reg pair") {
            Ok(x) => x,
            Err(e) => {
                return Err(e);
            },
        };
        plan.declare_from(&reg, "/serial", window.0, window.1, RegionKind::Mmio);
        let reg_shift: u32 = match serial.require_u32("reg-shift", "/serial") {
            Ok(v) => v,
            Err(e) => {
                return Err(e);
            },
        };
        let interrupt = match topology.claim_wired_interrupt(
            &mut serial,
            "/serial",
            interrupt_parent_kind(arch),
        ) {
            Ok(w) => w,
            Err(e) => {
                return Err(e);
            },
        };
        serial.ack("reg-io-width");
        serial.ack("clock-frequency");
        serial.ack("current-speed");
        match serial.ensure_drained() {
            Ok(_) => {},
            Err(e) => {
                return Err(e);
            },
        }
        Ok(
            Some(
                Uart {
                    base: window.0,
                    size: window.1,
                    reg_shift,
                    irq: interrupt.irq,
                    interrupt,
                },
            ),
        )
    }
}

/// A virtio-mmio transport slot: a register window and its wired interrupt.
#[derive(Debug)]
pub struct VirtioMmio {
    pub base: u64,
    pub size: u64,
    /// IO-APIC pin or GIC interrupt number.
    pub irq: u32,
    pub interrupt: WiredInterrupt,
}

/// A [`VirtioMmio`] with its interrupt as a view.
pub struct VirtioMmioView {
    pub base: u64,
    pub size: u64,
    pub irq: u32,
    pub interrupt: WiredView,
}

impl View for VirtioMmio {
    type V = VirtioMmioView;

    open spec fn view(&self) -> VirtioMmioView {
        VirtioMmioView {
            base: self.base,
            size: self.size,
            irq: self.irq,
            interrupt: self.interrupt@,
        }
    }
}

/// The views of a list of slots.
pub open spec fn slot_views(slots: Seq<VirtioMmio>) -> Seq<VirtioMmioView> {
    slots.map_values(|s: VirtioMmio| s@)
}

/// What a virtio-mmio node declares: a register region and one wired interrupt,
/// and nothing else.
pub open spec fn virtio_node(n: Node, arch: Arch, topology: TopologyView) -> Result<
    VirtioMmioView,
    SurveyErrorView,
> {
    let node = "/virtio_mmio"@;
    match need_compatible(n.properties@, node, "virtio,mmio"@) {
        Err(e) => Err(e),
        Ok(rest) => match need_reg(rest, node, "missing reg pair"@) {
            Err(e) => Err(e),
            Ok((reg, rest)) => match need_wired(rest, topology, node, parent_kind(arch)) {
                Err(e) => Err(e),
                Ok((interrupt, rest)) => match drained(n.name@, rest, n.children@) {
                    Err(e) => Err(e),
                    Ok(_) => Ok(
                        VirtioMmioView {
                            base: reg.0,
                            size: reg.1,
                            irq: interrupt.irq,
                            interrupt,
                        },
                    ),
                },
            },
        },
    }
}

/// Claiming every virtio-mmio slot, in tree order.
pub open spec fn virtio_claims(s: SurveyState, arch: Arch) -> Result<
    (Seq<VirtioMmioView>, SurveyState),
    SurveyErrorView,
>
    decreases s.children.len(),
{
    match find_prefixed(s.children, "virtio_mmio@"@, 0) {
        None => Ok((Seq::empty(), s)),
        Some(i) => match virtio_node(s.children[i], arch, s.topology) {
            Err(e) => Err(e),
            Ok(v) => {
                proof {
                    lemma_find_prefixed(s.children, "virtio_mmio@"@, 0);
                }
                let next = SurveyState {
                    children: s.children.remove(i),
                    regions: s.regions.push(registers("/virtio_mmio"@, (v.base, v.size))),
                    topology: s.topology,
                };
                match virtio_claims(next, arch) {
                    Err(e) => Err(e),
                    Ok((rest, s)) => Ok((seq![v] + rest, s)),
                }
            },
        },
    }
}

/// Where a slot with base `base` goes in a list sorted by base, looking from `i`
/// on: before the first slot with a higher base.
pub open spec fn slot_position(slots: Seq<VirtioMmioView>, base: u64, i: int) -> int
    decreases slots.len() - i,
{
    if i < 0 || i >= slots.len() {
        slots.len() as int
    } else if slots[i].base > base {
        i
    } else {
        slot_position(slots, base, i + 1)
    }
}

/// Slots in the order of their bases; slots with one base keep their order.
pub open spec fn sorted_slots(slots: Seq<VirtioMmioView>) -> Seq<VirtioMmioView>
    decreases slots.len(),
{
    if slots.len() == 0 {
        slots
    } else {
        let sorted = sorted_slots(slots.drop_last());
        sorted.insert(slot_position(sorted, slots.last().base, 0), slots.last())
    }
}

/// Claiming every virtio-mmio slot.
pub open spec fn virtio_step(s: SurveyState, arch: Arch) -> Result<
    (Seq<VirtioMmioView>, SurveyState),
    SurveyErrorView,
> {
    match virtio_claims(s, arch) {
        Err(e) => Err(e),
        Ok((slots, s)) => Ok((sorted_slots(slots), s)),
    }
}

proof fn lemma_slot_position(slots: Seq<VirtioMmioView>, base: u64, i: int)
    requires
        0 <= i <= slots.len(),
    ensures
        i <= slot_position(slots, base, i) <= slots.len(),
        forall|k: int|
            i <= k < slot_position(slots, base, i) ==> (#[trigger] slots[k]).base <= base,
        slot_position(slots, base, i) < slots.len() ==> slots[slot_position(slots, base, i)].base
            > base,
    decreases slots.len() - i,
{
    if i < slots.len() && slots[i].base <= base {
        lemma_slot_position(slots, base, i + 1);
    }
}

/// The surveyed slots are those of the tree, in ascending order of their bases.
pub proof fn law_slots_are_sorted(slots: Seq<VirtioMmioView>)
    ensures
        sorted_slots(slots).to_multiset() == slots.to_multiset(),
        forall|i: int, j: int|
            0 <= i <= j < sorted_slots(slots).len() ==> (#[trigger] sorted_slots(slots)[i]).base
                <= (#[trigger] sorted_slots(slots)[j]).base,
    decreases slots.len(),
{
    broadcast use vstd::seq_lib::group_to_multiset_ensures;

    if slots.len() > 0 {
        let last = slots.last();
        let sorted = sorted_slots(slots.drop_last());
        let k = slot_position(sorted, last.base, 0);
        law_slots_are_sorted(slots.drop_last());
        lemma_slot_position(sorted, last.base, 0);
        vstd::seq_lib::to_multiset_insert(sorted, k, last);
        assert(slots =~= slots.drop_last().push(last));
    }
}

/// Every virtio-mmio transport slot of a board.
pub struct VirtioMmioSlots;

impl VirtioMmioSlots {
    /// Claims one slot.
    fn claim_slot(
        root: &mut Node,
        i: usize,
        plan: &mut ResourcePlan,
        arch: Arch,
        topology: &Topology,
    ) -> (r: Result<VirtioMmio, SurveyError>)
        requires
            i < old(root).children@.len(),
        ensures
            final(root).name == old(root).name,
            final(root).properties == old(root).properties,
            match r {
                Ok(v) => {
                    &&& virtio_node(old(root).children@[i as int], arch, topology@) == Ok::<
                        _,
                        SurveyErrorView,
                    >(v@)
                    &&& final(root).children@ == old(root).children@.remove(i as int)
                    &&& final(plan)@ == old(plan)@.push(
                        registers("/virtio_mmio"@, (v.base, v.size)),
                    )
                },
                Err(e) => virtio_node(old(root).children@[i as int], arch, topology@) == Err::<
                    VirtioMmioView,
                    _,
                >(e@),
            },
    {
        let mut node = root.children.remove(i);
        match node.require_compatible("/virtio_mmio", "virtio,mmio") {
            Ok(_) => {},
            Err(e) => {
                return Err(e);
            },
        }
        let (reg, window) = match node.require_reg("/virtio_mmio", "missing reg pair") {
            Ok(x) => x,
            Err(e) => {
                return Err(e);
            },
        };
        plan.declare_from(&reg, "/virtio_mmio", window.0, window.1, RegionKind::Mmio);
        let interrupt = match topology.claim_wired_interrupt(
            &mut node,
            "/virtio_mmio",
            interrupt_parent_kind(arch),
        ) {
            Ok(w) => w,
            Err(e) => {
                return Err(e);
            },
        };
        match node.ensure_drained() {
            Ok(_) => {},
            Err(e) => {
                return Err(e);
            },
        }
        Ok(VirtioMmio { base: window.0, size: window.1, irq: interrupt.irq, interrupt })
    }

    /// Sorts slots by base.
    fn sort(slots: Vec<VirtioMmio>) -> (r: Vec<VirtioMmio>)
        ensures
            slot_views(r@) == sorted_slots(slot_views(slots@)),
    {
        let mut slots = slots;
        let ghost all = slot_views(slots@);
        let mut out: Vec<VirtioMmio> = Vec::new();
        let ghost mut done: int = 0;
        assert(slot_views(out@) =~= sorted_slots(all.take(0)));
        while slots.len() > 0
            invariant
                0 <= done <= all.len(),
                slot_views(slots@) == all.skip(done),
                slot_views(out@) == sorted_slots(all.take(done)),
            decreases slots@.len(),
        {
            let ghost before = slot_views(out@);
            let ghost rest = slot_views(slots@);
            assert(rest.len() == all.len() - done);
            let slot = slots.remove(0);
            assert(slot@ == rest[0]);
            let mut k: usize = 0;
            while k < out.len() && out[k].base <= slot.base
                invariant
                    k <= out@.len(),
                    before == slot_views(out@),
                    slot_position(before, slot.base, 0) == slot_position(
                        before,
                        slot.base,
                        k as int,
                    ),
                decreases out@.len() - k,
            {
                assert(before[k as int] == out@[k as int]@);
                k = k + 1;
            }
            proof {
                if k < out@.len() {
                    assert(before[k as int] == out@[k as int]@);
                }
                assert(slot_position(before, slot.base, 0) == k);
                assert(all.take(done + 1).drop_last() =~= all.take(done));
                assert(all.take(done + 1).last() == slot@);
            }
            out.insert(k, slot);
            proof {
                assert(slot_views(out@) =~= before.insert(k as int, slot@));
                assert(slot_views(slots@) =~= rest.remove(0));
                assert(rest.remove(0) =~= all.skip(done + 1));
                done = done + 1;
            }
        }
        assert(all.take(done) =~= all);
        out
    }

    /// Claims every `virtio_mmio@` node, plugged or not, sorted by base.
    pub fn from_tree(
        root: &mut Node,
        plan: &mut ResourcePlan,
        arch: Arch,
        topology: &Topology,
    ) -> (r: Result<Vec<VirtioMmio>, SurveyError>)
        ensures
            final(root).name == old(root).name,
            final(root).properties == old(root).properties,
            match r {
                Ok(v) => virtio_step(state_of(*old(root), *old(plan), *topology), arch) == Ok::<
                    _,
                    SurveyErrorView,
                >((slot_views(v@), state_of(*final(root), *final(plan), *topology))),
                Err(e) => virtio_step(state_of(*old(root), *old(plan), *topology), arch) == Err::<
                    (Seq<VirtioMmioView>, SurveyState),
                    _,
                >(e@),
            },
    {
        let mut slots: Vec<VirtioMmio> = Vec::new();
        let ghost start = state_of(*root, *plan, *topology);
        proof {
            assert(slot_views(slots@) =~= Seq::<VirtioMmioView>::empty());
            if virtio_claims(start, arch) is Ok {
                let rest = (virtio_claims(start, arch)->Ok_0).0;
                assert(slot_views(slots@) + rest =~= rest);
            }
        }
        loop
            invariant
                root.name == old(root).name,
                root.properties == old(root).properties,
                start == state_of(*old(root), *old(plan), *topology),
                match virtio_claims(state_of(*root, *plan, *topology), arch) {
                    Ok((rest, s)) => virtio_claims(start, arch) == Ok::<_, SurveyErrorView>(
                        (slot_views(slots@) + rest, s),
                    ),
                    Err(e) => virtio_claims(start, arch) == Err::<
                        (Seq<VirtioMmioView>, SurveyState),
                        _,
                    >(e),
                },
            ensures
                root.name == old(root).name,
                root.properties == old(root).properties,
                virtio_claims(start, arch) == Ok::<_, SurveyErrorView>(
                    (slot_views(slots@), state_of(*root, *plan, *topology)),
                ),
            decreases root.children@.len(),
        {
            let i: usize = match root.prefixed_index("virtio_mmio@") {
                Some(i) => i,
                None => {
                    assert(slot_views(slots@) + Seq::<VirtioMmioView>::empty() =~= slot_views(
                        slots@,
                    ));
                    break;
                },
            };
            let ghost before = state_of(*root, *plan, *topology);
            match VirtioMmioSlots::claim_slot(root, i, plan, arch, topology) {
                Ok(slot) => {
                    proof {
                        let old_views = slot_views(slots@);
                        let now = state_of(*root, *plan, *topology);
                        if virtio_claims(now, arch) is Ok {
                            let rest = (virtio_claims(now, arch)->Ok_0).0;
                            assert(old_views + (seq![slot@] + rest) =~= old_views.push(slot@)
                                + rest);
                        }
                        assert(slot_views(slots@.push(slot)) =~= old_views.push(slot@));
                    }
                    slots.push(slot);
                },
                Err(e) => {
                    return Err(e);
                },
            }
        }
        Ok(VirtioMmioSlots::sort(slots))
    }
}

/// The PCIe host bridge.
#[derive(Debug)]
pub struct Pcie {
    pub ecam_base: u64,
    pub ecam_size: u64,
    pub bus_min: u8,
    pub bus_max: u8,
    pub mmio_base: u64,
    pub mmio_size: u64,
    pub msi: Option<MsiParentage>,
}

/// A [`Pcie`] with its MSI parentage as a view.
pub struct PcieView {
    pub ecam_base: u64,
    pub ecam_size: u64,
    pub bus_min: u8,
    pub bus_max: u8,
    pub mmio_base: u64,
    pub mmio_size: u64,
    pub msi: Option<MsiParentageView>,
}

impl View for Pcie {
    type V = PcieView;

    open spec fn view(&self) -> PcieView {
        PcieView {
            ecam_base: self.ecam_base,
            ecam_size: self.ecam_size,
            bus_min: self.bus_min,
            bus_max: self.bus_max,
            mmio_base: self.mmio_base,
            mmio_size: self.mmio_size,
            msi: match self.msi {
                Some(m) => Some(m@),
                None => None,
            },
        }
    }
}

/// The first window of a `ranges` value: a three-cell PCI address, then the CPU
/// address and the size, two cells each.
pub open spec fn window_of(bytes: Seq<u8>) -> Option<(u64, u64)> {
    match cells_of(bytes) {
        Some(cells) => if cells.len() >= 7 {
            Some(pair_at(cells, 3))
        } else {
            None
        },
        None => None,
    }
}

/// The first window of a `ranges` property.
fn pci_window(prop: &Property) -> (r: Option<(u64, u64)>)
    ensures
        r == window_of(prop.value@),
{
    match prop.as_u32s() {
        Some(w) => {
            if w.len() < 7 {
                return None;
            }
            Some((join_u32(w[3], w[4]), join_u32(w[5], w[6])))
        },
        None => None,
    }
}

/// The properties of a bridge that are known and carry no modelled value.
pub open spec fn pcie_acked(props: Seq<Property>) -> Seq<Property> {
    without_property(
        without_property(
            without_property(without_property(props, "device_type"@), "#address-cells"@),
            "#size-cells"@,
        ),
        "dma-coherent"@,
    )
}

/// What a host bridge node declares: a configuration window, a BAR window, a bus
/// range and its MSI controller, and nothing else that is not known.
pub open spec fn pcie_node(n: Node, topology: TopologyView) -> Result<PcieView, SurveyErrorView> {
    let node = "/pcie"@;
    match need_compatible(n.properties@, node, "pci-host-ecam-generic"@) {
        Err(e) => Err(e),
        Ok(rest) => match need_reg(rest, node, "missing ECAM pair"@) {
            Err(e) => Err(e),
            Ok((ecam, rest)) => match need(rest, "ranges"@, node) {
                Err(e) => Err(e),
                Ok((ranges, rest)) => match window_of(ranges.value@) {
                    None => Err(
                        bad(node, "ranges"@, "expected at least one 7-cell window"@),
                    ),
                    Some(mmio) => match need(rest, "bus-range"@, node) {
                        Err(e) => Err(e),
                        Ok((bus, rest)) => match cells_of(bus.value@) {
                            None => Err(bad(node, "bus-range"@, "not u32 cells"@)),
                            Some(cells) => if cells.len() != 2 {
                                Err(bad(node, "bus-range"@, "expected two cells"@))
                            } else {
                                pcie_tail(n, pcie_acked(rest), topology, ecam, mmio, cells)
                            },
                        },
                    },
                },
            },
        },
    }
}

/// The last checks of a host bridge node.
pub open spec fn pcie_tail(
    n: Node,
    props: Seq<Property>,
    topology: TopologyView,
    ecam: (u64, u64),
    mmio: (u64, u64),
    bus: Seq<u32>,
) -> Result<PcieView, SurveyErrorView> {
    let node = "/pcie"@;
    if property_of(props, "dma-ranges"@) is Some {
        Err(SurveyErrorView::Unsupported { node, prop: "dma-ranges"@, value: "present"@ })
    } else {
        match need_msi_parent(props, topology, node, ControllerKind::GicV2mFrame) {
            Err(e) => Err(e),
            Ok((msi, rest)) => match drained(n.name@, rest, n.children@) {
                Err(e) => Err(e),
                Ok(_) => Ok(
                    PcieView {
                        ecam_base: ecam.0,
                        ecam_size: ecam.1,
                        bus_min: bus[0] as u8,
                        bus_max: bus[1] as u8,
                        mmio_base: mmio.0,
                        mmio_size: mmio.1,
                        msi,
                    },
                ),
            },
        }
    }
}

/// Claiming the host bridge, where there is one.
pub open spec fn pcie_step(s: SurveyState) -> Result<
    (Option<PcieView>, SurveyState),
    SurveyErrorView,
> {
    match find_prefixed(s.children, "pcie@"@, 0) {
        None => Ok((None, s)),
        Some(i) => match pcie_node(s.children[i], s.topology) {
            Err(e) => Err(e),
            Ok(p) => Ok(
                (
                    Some(p),
                    SurveyState {
                        children: s.children.remove(i),
                        regions: s.regions.push(
                            RegionView {
                                gpa: p.ecam_base,
                                size: p.ecam_size,
                                kind: RegionKind::EcamWindow,
                                node: "/pcie"@,
                                prop: "reg"@,
                            },
                        ).push(
                            RegionView {
                                gpa: p.mmio_base,
                                size: p.mmio_size,
                                kind: RegionKind::BarWindow,
                                node: "/pcie"@,
                                prop: "ranges"@,
                            },
                        ),
                        topology: s.topology,
                    },
                ),
            ),
        },
    }
}

impl Pcie {
    /// What stands for the bridge of a machine that has none.
    pub fn zeroed() -> (r: Pcie)
        ensures
            r@ == no_pcie(),
    {
        Pcie {
            ecam_base: 0,
            ecam_size: 0,
            bus_min: 0,
            bus_max: 0,
            mmio_base: 0,
            mmio_size: 0,
            msi: None,
        }
    }

    /// Claims the `pcie@` host bridge, where there is one.
    pub fn from_tree(root: &mut Node, plan: &mut ResourcePlan, topology: &Topology) -> (r: Result<
        Option<Pcie>,
        SurveyError,
    >)
        ensures
            final(root).name == old(root).name,
            final(root).properties == old(root).properties,
            match r {
                Ok(p) => pcie_step(state_of(*old(root), *old(plan), *topology)) == Ok::<
                    _,
                    SurveyErrorView,
                >(
                    (
                        match p {
                            Some(p) => Some(p@),
                            None => None,
                        },
                        state_of(*final(root), *final(plan), *topology),
                    ),
                ),
                Err(e) => pcie_step(state_of(*old(root), *old(plan), *topology)) == Err::<
                    (Option<PcieView>, SurveyState),
                    _,
                >(e@),
            },
    {
        let i: usize = match root.prefixed_index("pcie@") {
            Some(i) => i,
            None => {
                return Ok(None);
            },
        };
        let mut pci = root.children.remove(i);
        match pci.require_compatible("/pcie", "pci-host-ecam-generic") {
            Ok(_) => {},
            Err(e) => {
                return Err(e);
            },
        }
        let (reg, ecam) = match pci.require_reg("/pcie", "missing ECAM pair") {
            Ok(x) => x,
            Err(e) => {
                return Err(e);
            },
        };
        plan.declare_from(&reg, "/pcie", ecam.0, ecam.1, RegionKind::EcamWindow);
        let ranges = match pci.require("ranges", "/pcie") {
            Ok(p) => p,
            Err(e) => {
                return Err(e);
            },
        };
        let mmio: (u64, u64) = match pci_window(&ranges) {
            Some(w) => w,
            None => {
                return Err(
                    SurveyError::BadProperty {
                        node: "/pcie",
                        prop: "ranges",
                        reason: "expected at least one 7-cell window",
                    },
                );
            },
        };
        plan.declare_from(&ranges, "/pcie", mmio.0, mmio.1, RegionKind::BarWindow);
        let bus = match pci.require("bus-range", "/pcie") {
            Ok(p) => p,
            Err(e) => {
                return Err(e);
            },
        };
        let cells: Vec<u32> = match bus.as_u32s() {
            Some(cells) => cells,
            None => {
                return Err(
                    SurveyError::BadProperty {
                        node: "/pcie",
                        prop: "bus-range",
                        reason: "not u32 cells",
                    },
                );
            },
        };
        if cells.len() != 2 {
            return Err(
                SurveyError::BadProperty {
                    node: "/pcie",
                    prop: "bus-range",
                    reason: "expected two cells",
                },
            );
        }
        pci.ack("device_type");
        pci.ack("#address-cells");
        pci.ack("#size-cells");
        pci.ack("dma-coherent");
        match pci.reject("dma-ranges", "/pcie") {
            Ok(_) => {},
            Err(e) => {
                return Err(e);
            },
        }
        let msi = match topology.claim_msi_parent(&mut pci, "/pcie", ControllerKind::GicV2mFrame) {
            Ok(m) => m,
            Err(e) => {
                return Err(e);
            },
        };
        match pci.ensure_drained() {
            Ok(_) => {},
            Err(e) => {
                return Err(e);
            },
        }
        Ok(
            Some(
                Pcie {
                    ecam_base: ecam.0,
                    ecam_size: ecam.1,
                    bus_min: cells[0] as u8,
                    bus_max: cells[1] as u8,
                    mmio_base: mmio.0,
                    mmio_size: mmio.1,
                    msi,
                },
            ),
        )
    }
}

/// The bridge of a machine that has none.
pub open spec fn no_pcie() -> PcieView {
    PcieView {
        ecam_base: 0,
        ecam_size: 0,
        bus_min: 0,
        bus_max: 0,
        mmio_base: 0,
        mmio_size: 0,
        msi: None,
    }
}

/// The root's own grammar, `/chosen` and `/aliases`.
pub struct CoreVm;

/// The root properties without those that every tree may have.
pub open spec fn root_acked(props: Seq<Property>) -> Seq<Property> {
    without_property(
        without_property(
            without_property(without_property(props, "#address-cells"@), "#size-cells"@),
            "model"@,
        ),
        "compatible"@,
    )
}

/// The properties of `/chosen` without those that it may have.
pub open spec fn chosen_acked(props: Seq<Property>) -> Seq<Property> {
    without_property(
        without_property(
            without_property(
                without_property(
                    without_property(props, "bootargs"@),
                    "linux,initrd-start"@,
                ),
                "linux,initrd-end"@,
            ),
            "stdout-path"@,
        ),
        "kaslr-seed"@,
    )
}

/// Claiming `/chosen`, where there is one.
pub open spec fn chosen_step(children: Seq<Node>) -> Result<Seq<Node>, SurveyErrorView> {
    match find_child(children, "chosen"@, 0) {
        None => Ok(children),
        Some(i) => match drained(
            children[i].name@,
            chosen_acked(children[i].properties@),
            children[i].children@,
        ) {
            Err(e) => Err(e),
            Ok(_) => Ok(children.remove(i)),
        },
    }
}

/// Claiming `/aliases`, where there is one.
pub open spec fn aliases_step(children: Seq<Node>) -> Result<Seq<Node>, SurveyErrorView> {
    match find_child(children, "aliases"@, 0) {
        None => Ok(children),
        Some(i) => match drained(
            children[i].name@,
            without_property(children[i].properties@, "serial0"@),
            children[i].children@,
        ) {
            Err(e) => Err(e),
            Ok(_) => Ok(children.remove(i)),
        },
    }
}

/// Whether a node has neither properties nor children.
pub open spec fn is_empty_node(n: Node) -> bool {
    n.properties@.len() == 0 && n.children@.len() == 0
}

/// The names of the empty nodes among the first `n`.
pub open spec fn empty_names(children: Seq<Node>, n: int) -> Seq<Seq<char>>
    decreases n,
{
    if n <= 0 {
        Seq::empty()
    } else if is_empty_node(children[n - 1]) {
        empty_names(children, n - 1).push(children[n - 1].name@)
    } else {
        empty_names(children, n - 1)
    }
}

/// Children without the first one called `name`.
pub open spec fn without_child(children: Seq<Node>, name: Seq<char>) -> Seq<Node> {
    match find_child(children, name, 0) {
        Some(i) => children.remove(i),
        None => children,
    }
}

/// Children after the first `n` names are taken out, one child each.
pub open spec fn without_children(children: Seq<Node>, names: Seq<Seq<char>>, n: int) -> Seq<Node>
    decreases n,
{
    if n <= 0 {
        children
    } else {
        without_child(without_children(children, names, n - 1), names[n - 1])
    }
}

/// Children without the empty containers.
pub open spec fn swept(children: Seq<Node>) -> Seq<Node> {
    let names = empty_names(children, children.len() as int);
    without_children(children, names, names.len() as int)
}

/// Claiming the root's own grammar: the root properties and children that are
/// left.
pub open spec fn core_step(props: Seq<Property>, children: Seq<Node>) -> Result<
    (Seq<Property>, Seq<Node>),
    SurveyErrorView,
> {
    if find_child(children, "cpus"@, 0) is Some {
        Err(SurveyErrorView::BaseHasCpus)
    } else {
        match chosen_step(children) {
            Err(e) => Err(e),
            Ok(children) => match aliases_step(children) {
                Err(e) => Err(e),
                Ok(children) => Ok((root_acked(props), swept(children))),
            },
        }
    }
}

impl CoreVm {
    /// Takes the empty containers out of the root.
    fn sweep(root: &mut Node)
        ensures
            final(root).name == old(root).name,
            final(root).properties == old(root).properties,
            final(root).children@ == swept(old(root).children@),
    {
        let ghost all = root.children@;
        let mut names: Vec<String> = Vec::new();
        let mut i: usize = 0;
        assert(texts(names@) =~= empty_names(all, 0));
        while i < root.children.len()
            invariant
                root.children@ == all,
                root.name == old(root).name,
                root.properties == old(root).properties,
                i <= all.len(),
                texts(names@) == empty_names(all, i as int),
            decreases all.len() - i,
        {
            let ghost before = names@;
            let c = &root.children[i];
            if c.properties.len() == 0 && c.children.len() == 0 {
                names.push(c.name.clone());
                assert(texts(names@) =~= texts(before).push(c.name@));
            }
            i = i + 1;
        }
        let mut k: usize = 0;
        while k < names.len()
            invariant
                k <= names@.len(),
                root.name == old(root).name,
                root.properties == old(root).properties,
                root.children@ == without_children(all, texts(names@), k as int),
            decreases names@.len() - k,
        {
            assert(texts(names@)[k as int] == names@[k as int]@);
            match root.child_index(names[k].as_str()) {
                Some(i) => {
                    let _ = root.children.remove(i);
                },
                None => {},
            }
            k = k + 1;
        }
    }

    /// Claims the root's own grammar and takes the empty containers out.
    pub fn from_tree(root: &mut Node) -> (r: Result<(), SurveyError>)
        ensures
            match r {
                Ok(_) => core_step(old(root).properties@, old(root).children@) == Ok::<
                    _,
                    SurveyErrorView,
                >((final(root).properties@, final(root).children@)),
                Err(e) => core_step(old(root).properties@, old(root).children@) == Err::<
                    (Seq<Property>, Seq<Node>),
                    _,
                >(e@),
            },
    {
        if root.child_index("cpus").is_some() {
            return Err(SurveyError::BaseHasCpus);
        }
        root.ack("#address-cells");
        root.ack("#size-cells");
        root.ack("model");
        root.ack("compatible");
        match root.child_index("chosen") {
            Some(i) => {
                let mut chosen = root.children.remove(i);
                chosen.ack("bootargs");
                chosen.ack("linux,initrd-start");
                chosen.ack("linux,initrd-end");
                chosen.ack("stdout-path");
                chosen.ack("kaslr-seed");
                match chosen.ensure_drained() {
                    Ok(_) => {},
                    Err(e) => {
                        return Err(e);
                    },
                }
            },
            None => {},
        }
        match root.child_index("aliases") {
            Some(i) => {
                let mut aliases = root.children.remove(i);
                aliases.ack("serial0");
                match aliases.ensure_drained() {
                    Ok(_) => {},
                    Err(e) => {
                        return Err(e);
                    },
                }
            },
            None => {},
        }
        CoreVm::sweep(root);
        Ok(())
    }
}

} // verus!
