//! The survey itself, and the machine that it gives.
use vstd::arithmetic::power2::pow2;
use vstd::prelude::*;

use crate::devtree::{find_child, Node, Property};
use crate::platform::arm::{
    gic_step, psci_step, state_of, timer_step, GicConfig, Psci, SurveyState, Timer,
};
use crate::platform::devices::{
    core_step, no_pcie, pcie_step, slot_views, uart_step, virtio_step, CoreVm, Pcie, PcieView,
    Uart, UartView, VirtioMmio, VirtioMmioSlots, VirtioMmioView,
};
use crate::platform::error::{
    collect_property_names, property_names, Residual, ResidualNode, SurveyError,
    SurveyErrorView,
};
use crate::platform::plan::{
    disjoint, disjoint_check, range_end, DeclaredRegion, RegionKind, RegionView, ResourcePlan,
};
use crate::platform::topology::{
    Arch, Topology, TopologyView,
};
use crate::platform::x86::{x86_intc_step, x86_syscon_step, Syscon, X86Intc, X86Syscon};

verus! {

/// A fully surveyed machine: every node of the base was claimed, every region
/// traces to a property, and the regions are pairwise disjoint.
#[derive(Debug)]
pub struct Machine {
    pub arch: Arch,
    /// The PCIe host bridge; all zeros unless `has_pcie`.
    pub pcie: Pcie,
    /// Whether the base declares a PCIe host bridge.
    pub has_pcie: bool,
    pub plan: ResourcePlan,
    /// The serial port, where the base has one.
    pub uart: Option<Uart>,
    /// The virtio-mmio slots, in ascending order of their bases.
    pub virtio_mmio: Vec<VirtioMmio>,
    pub poweroff: Option<Syscon>,
    pub reboot: Option<Syscon>,
}

/// A [`Machine`] with its parts as views.
pub struct MachineView {
    pub arch: Arch,
    pub pcie: PcieView,
    pub has_pcie: bool,
    pub regions: Seq<RegionView>,
    pub uart: Option<UartView>,
    pub virtio_mmio: Seq<VirtioMmioView>,
    pub poweroff: Option<Syscon>,
    pub reboot: Option<Syscon>,
}

impl View for Machine {
    type V = MachineView;

    open spec fn view(&self) -> MachineView {
        MachineView {
            arch: self.arch,
            pcie: self.pcie@,
            has_pcie: self.has_pcie,
            regions: self.plan@,
            uart: match self.uart {
                Some(u) => Some(u@),
                None => None,
            },
            virtio_mmio: slot_views(self.virtio_mmio@),
            poweroff: self.poweroff,
            reboot: self.reboot,
        }
    }
}

/// The state before any device is claimed.
pub open spec fn fresh(root: Node) -> SurveyState {
    SurveyState {
        children: root.children@,
        regions: Seq::empty(),
        topology: TopologyView { interrupt: Seq::empty(), msi: Seq::empty() },
    }
}

/// Claiming the substrate of an architecture: its power actions and the state
/// after it.
pub open spec fn substrate_step(s: SurveyState, arch: Arch) -> Result<
    (Option<Syscon>, Option<Syscon>, SurveyState),
    SurveyErrorView,
> {
    match arch {
        Arch::Aarch64 => match gic_step(s) {
            Err(e) => Err(e),
            Ok((_, s)) => match timer_step(s) {
                Err(e) => Err(e),
                Ok(s) => match psci_step(s) {
                    Err(e) => Err(e),
                    Ok((_, s)) => Ok((None, None, s)),
                },
            },
        },
        Arch::X86_64 => match x86_intc_step(s) {
            Err(e) => Err(e),
            Ok((_, _, s)) => match x86_syscon_step(s) {
                Err(e) => Err(e),
                Ok((poweroff, reboot, s)) => Ok((Some(poweroff), reboot, s)),
            },
        },
    }
}

/// What is left over, as the survey reports it.
pub open spec fn residual(props: Seq<Property>, children: Seq<Node>) -> SurveyErrorView {
    SurveyErrorView::Uncovered {
        props: property_names(props),
        nodes: children.map_values(|n: Node| (n.name@, property_names(n.properties@))),
    }
}

/// The machine that a base tree describes, or the first thing that is wrong with
/// it, up to overlapping regions.
pub open spec fn surveyed(root: Node, arch: Arch) -> Result<MachineView, SurveyErrorView> {
    if find_child(root.children@, "cpus"@, 0) is Some {
        Err(SurveyErrorView::BaseHasCpus)
    } else {
        match substrate_step(fresh(root), arch) {
            Err(e) => Err(e),
            Ok((poweroff, reboot, s)) => match uart_step(s, arch) {
                Err(e) => Err(e),
                Ok((uart, s)) => match virtio_step(s, arch) {
                    Err(e) => Err(e),
                    Ok((virtio_mmio, s)) => match pcie_step(s) {
                        Err(e) => Err(e),
                        Ok((pcie, s)) => match core_step(root.properties@, s.children) {
                            Err(e) => Err(e),
                            Ok((props, children)) => if props.len() != 0 || children.len() != 0 {
                                Err(residual(props, children))
                            } else {
                                Ok(
                                    MachineView {
                                        arch,
                                        pcie: match pcie {
                                            Some(p) => p,
                                            None => no_pcie(),
                                        },
                                        has_pcie: pcie is Some,
                                        regions: s.regions,
                                        uart,
                                        virtio_mmio,
                                        poweroff,
                                        reboot,
                                    },
                                )
                            },
                        },
                    },
                },
            },
        }
    }
}

/// What is left of a tree.
fn residual_report(root: &Node) -> (r: Residual)
    ensures
        SurveyError::Uncovered(r)@ == residual(root.properties@, root.children@),
{
    let props: Vec<String> = collect_property_names(&root.properties);
    let mut nodes: Vec<ResidualNode> = Vec::new();
    let mut i: usize = 0;
    while i < root.children.len()
        invariant
            i <= root.children@.len(),
            nodes@.len() == i,
            forall|k: int|
                0 <= k < i ==> (#[trigger] nodes@[k])@ == (
                    root.children@[k].name@,
                    property_names(root.children@[k].properties@),
                ),
        decreases root.children@.len() - i,
    {
        let c = &root.children[i];
        nodes.push(
            ResidualNode { name: c.name.clone(), props: collect_property_names(&c.properties) },
        );
        i = i + 1;
    }
    let r = Residual { props, nodes };
    assert(r.nodes@.map_values(|n: ResidualNode| n@) =~= root.children@.map_values(
        |n: Node| (n.name@, property_names(n.properties@)),
    ));
    r
}

impl Machine {
    /// Surveys a base tree, claiming every node and property of it.
    pub fn survey(tree: Node, arch: Arch) -> (r: Result<Machine, SurveyError>)
        ensures
            match surveyed(tree, arch) {
                Ok(m) => match r {
                    Ok(machine) => machine@ == m && disjoint(m.regions),
                    Err(e) => disjoint_check(m.regions, Err(e@)),
                },
                Err(e) => r matches Err(x) && x@ == e,
            },
    {
        let mut t = tree;
        if t.child_index("cpus").is_some() {
            return Err(SurveyError::BaseHasCpus);
        }
        let mut plan = ResourcePlan::new();
        let mut topology = Topology::new();
        let mut poweroff: Option<Syscon> = None;
        let mut reboot: Option<Syscon> = None;
        assert(state_of(t, plan, topology) == fresh(tree));
        match arch {
            Arch::Aarch64 => {
                match GicConfig::from_tree(&mut t, &mut plan, &mut topology) {
                    Ok(_) => {},
                    Err(e) => {
                        return Err(e);
                    },
                }
                match Timer::from_tree(&mut t, &plan, &topology) {
                    Ok(_) => {},
                    Err(e) => {
                        return Err(e);
                    },
                }
                match Psci::from_tree(&mut t, &plan, &topology) {
                    Ok(_) => {},
                    Err(e) => {
                        return Err(e);
                    },
                }
            },
            Arch::X86_64 => {
                match X86Intc::from_tree(&mut t, &mut plan, &mut topology) {
                    Ok(_) => {},
                    Err(e) => {
                        return Err(e);
                    },
                }
                match X86Syscon::from_tree(&mut t, &mut plan, &topology) {
                    Ok((po, rb)) => {
                        poweroff = Some(po);
                        reboot = rb;
                    },
                    Err(e) => {
                        return Err(e);
                    },
                }
            },
        }
        let uart = match Uart::from_tree(&mut t, &mut plan, arch, &topology) {
            Ok(u) => u,
            Err(e) => {
                return Err(e);
            },
        };
        let virtio_mmio = match VirtioMmioSlots::from_tree(&mut t, &mut plan, arch, &topology) {
            Ok(v) => v,
            Err(e) => {
                return Err(e);
            },
        };
        let (pcie, has_pcie) = match Pcie::from_tree(&mut t, &mut plan, &topology) {
            Ok(Some(p)) => (p, true),
            Ok(None) => (Pcie::zeroed(), false),
            Err(e) => {
                return Err(e);
            },
        };
        match CoreVm::from_tree(&mut t) {
            Ok(_) => {},
            Err(e) => {
                return Err(e);
            },
        }
        if t.properties.len() != 0 || t.children.len() != 0 {
            return Err(SurveyError::Uncovered(residual_report(&t)));
        }
        match plan.check_disjoint() {
            Ok(_) => {},
            Err(e) => {
                return Err(e);
            },
        }
        Ok(Machine { arch, pcie, has_pcie, plan, uart, virtio_mmio, poweroff, reboot })
    }

    /// Declared regions other than RAM, as base and size.
    pub fn placement_regions(&self) -> (r: Vec<(u64, u64)>)
        ensures
            r@ == placed_regions(self@.regions, self@.regions.len() as int),
    {
        let regions = self.plan.regions();
        let mut out: Vec<(u64, u64)> = Vec::new();
        let mut i: usize = 0;
        assert(regions@.len() == self@.regions.len());
        while i < regions.len()
            invariant
                i <= regions@.len(),
                regions@.len() == self@.regions.len(),
                regions@.map_values(|d: DeclaredRegion| d@) == self@.regions,
                out@ == placed_regions(self@.regions, i as int),
            decreases regions@.len() - i,
        {
            let region = &regions[i];
            assert(self@.regions[i as int] == region@);
            if region.kind != RegionKind::Ram {
                out.push((region.gpa, region.size));
            }
            i = i + 1;
        }
        out
    }

    /// The top of the address space that the guest needs, if it fits in 64 bits.
    fn space_end(&self) -> (r: Option<u64>)
        ensures
            match r {
                Some(top) => top == space_top(self@),
                None => space_top(self@) > u64::MAX,
            },
    {
        if self.has_pcie {
            match self.pcie.mmio_size.checked_mul(2) {
                Some(span) => self.pcie.mmio_base.checked_add(span),
                None => None,
            }
        } else {
            let regions = self.placement_regions();
            let mut top: Option<u64> = None;
            let mut i: usize = 0;
            while i < regions.len()
                invariant
                    i <= regions@.len(),
                    top == highest_end(regions@, i as int),
                decreases regions@.len() - i,
            {
                let end: u64 = regions[i].0.saturating_add(regions[i].1);
                top = match top {
                    Some(t) => if t >= end {
                        Some(t)
                    } else {
                        Some(end)
                    },
                    None => Some(end),
                };
                i = i + 1;
            }
            match top {
                Some(t) => Some(t),
                None => Some(0x10_0000),
            }
        }
    }

    /// Whether the address space that the guest needs ends at a power of two that
    /// an address can name.
    pub fn address_space_fits(&self) -> (r: bool)
        ensures
            r == (space_top(self@) <= 0x8000_0000_0000_0000),
    {
        match self.space_end() {
            Some(top) => top <= 0x8000_0000_0000_0000,
            None => false,
        }
    }

    /// How many address bits the guest needs: enough for the BAR window and as
    /// much again above it, or without a host bridge for the highest region.
    pub fn min_addr_space_bits(&self) -> (r: u32)
        requires
            space_top(self@) <= 0x8000_0000_0000_0000,
        ensures
            1 <= r <= 63,
            space_top(self@) <= pow2(r as nat),
            r > 1 ==> pow2((r - 1) as nat) < space_top(self@),
            !self.has_pcie ==> forall|i: int|
                0 <= i < self@.regions.len() && (#[trigger] self@.regions[i]).kind
                    != RegionKind::Ram ==> self@.regions[i].gpa + self@.regions[i].size <= pow2(
                    r as nat,
                ),
            self.has_pcie ==> self.pcie.mmio_base + self.pcie.mmio_size + self.pcie.mmio_size
                <= pow2(r as nat),
    {
        proof {
            if !self.has_pcie {
                law_space_holds_every_region(self@);
            }
        }
        let top: u64 = match self.space_end() {
            Some(top) => top,
            None => 0,
        };
        let mut bits: u32 = 1;
        let mut size: u64 = 2;
        proof {
            vstd::arithmetic::power2::lemma2_to64();
            vstd::arithmetic::power2::lemma2_to64_rest();
        }
        while size < top
            invariant
                top <= 0x8000_0000_0000_0000,
                1 <= bits <= 63,
                size == pow2(bits as nat),
                bits > 1 ==> pow2((bits - 1) as nat) < top,
                pow2(63) == 0x8000_0000_0000_0000,
            decreases 63 - bits,
        {
            proof {
                if bits == 63 {
                    assert(false);
                }
                vstd::arithmetic::power2::lemma_pow2_unfold((bits + 1) as nat);
            }
            size = size * 2;
            bits = bits + 1;
        }
        bits
    }
}

/// The regions among the first `n` that are not RAM, as base and size.
pub open spec fn placed_regions(regions: Seq<RegionView>, n: int) -> Seq<(u64, u64)>
    decreases n,
{
    if n <= 0 {
        Seq::empty()
    } else if regions[n - 1].kind != RegionKind::Ram {
        placed_regions(regions, n - 1).push((regions[n - 1].gpa, regions[n - 1].size))
    } else {
        placed_regions(regions, n - 1)
    }
}

/// The highest end among the first `n` ranges.
pub open spec fn highest_end(ranges: Seq<(u64, u64)>, n: int) -> Option<u64>
    decreases n,
{
    if n <= 0 {
        None
    } else {
        let end = range_end(ranges[n - 1].0, ranges[n - 1].1);
        match highest_end(ranges, n - 1) {
            Some(top) if top >= end => Some(top),
            _ => Some(end),
        }
    }
}

/// The top of the address space that a machine needs.
pub open spec fn space_top(m: MachineView) -> int {
    if m.has_pcie {
        m.pcie.mmio_base + 2 * m.pcie.mmio_size
    } else {
        let ranges = placed_regions(m.regions, m.regions.len() as int);
        match highest_end(ranges, ranges.len() as int) {
            Some(top) => top as int,
            None => 0x10_0000,
        }
    }
}

/// The placed regions are those that are not RAM, in the order of declaration.
pub proof fn law_placement_lists_what_is_not_ram(regions: Seq<RegionView>, x: (u64, u64))
    ensures
        placed_regions(regions, regions.len() as int).contains(x) <==> exists|i: int|
            0 <= i < regions.len() && (#[trigger] regions[i]).kind != RegionKind::Ram && x == (
                regions[i].gpa,
                regions[i].size,
            ),
        placed_regions(regions, regions.len() as int) == regions.filter(
            |r: RegionView| r.kind != RegionKind::Ram,
        ).map_values(|r: RegionView| (r.gpa, r.size)),
{
    lemma_placed(regions, regions.len() as int, x);
    assert(regions.take(regions.len() as int) =~= regions);
}

proof fn lemma_placed(regions: Seq<RegionView>, n: int, x: (u64, u64))
    requires
        0 <= n <= regions.len(),
    ensures
        placed_regions(regions, n).contains(x) <==> exists|i: int|
            0 <= i < n && (#[trigger] regions[i]).kind != RegionKind::Ram && x == (
                regions[i].gpa,
                regions[i].size,
            ),
        placed_regions(regions, n) == regions.take(n).filter(
            |r: RegionView| r.kind != RegionKind::Ram,
        ).map_values(|r: RegionView| (r.gpa, r.size)),
    decreases n,
{
    reveal(Seq::filter);
    if n > 0 {
        lemma_placed(regions, n - 1, x);
        let before = placed_regions(regions, n - 1);
        let now = placed_regions(regions, n);
        assert(regions.take(n).drop_last() =~= regions.take(n - 1));
        assert(placed_regions(regions, n) =~= regions.take(n).filter(
            |r: RegionView| r.kind != RegionKind::Ram,
        ).map_values(|r: RegionView| (r.gpa, r.size)));
        if before.contains(x) {
            let k = choose|k: int| 0 <= k < before.len() && before[k] == x;
            assert(now[k] == x);
        }
        if regions[n - 1].kind != RegionKind::Ram {
            assert(now[now.len() - 1] == (regions[n - 1].gpa, regions[n - 1].size));
        }
        if now.contains(x) {
            let k = choose|k: int| 0 <= k < now.len() && now[k] == x;
            if k < before.len() {
                assert(before[k] == x);
            } else {
                assert(regions[n - 1].kind != RegionKind::Ram);
            }
        }
    }
}

proof fn lemma_highest(ranges: Seq<(u64, u64)>, n: int)
    requires
        0 <= n <= ranges.len(),
    ensures
        match highest_end(ranges, n) {
            None => n == 0,
            Some(top) => {
                &&& forall|i: int|
                    0 <= i < n ==> (#[trigger] ranges[i]).0 + ranges[i].1 <= top || top == u64::MAX
                &&& exists|i: int|
                    0 <= i < n && (top == (#[trigger] ranges[i]).0 + ranges[i].1 || top
                        == u64::MAX)
            },
        },
    decreases n,
{
    if n > 0 {
        lemma_highest(ranges, n - 1);
        let end = range_end(ranges[n - 1].0, ranges[n - 1].1);
        assert(ranges[n - 1].0 + ranges[n - 1].1 <= end || end == u64::MAX);
        match highest_end(ranges, n - 1) {
            Some(top) => {
                let i = choose|i: int|
                    0 <= i < n - 1 && (top == (#[trigger] ranges[i]).0 + ranges[i].1 || top
                        == u64::MAX);
                assert(top == ranges[i].0 + ranges[i].1 || top == u64::MAX);
            },
            None => {},
        }
    }
}

/// Without a host bridge every region but RAM ends within the space that the guest
/// needs, and the space ends where one of them does; a machine without such a region
/// needs one megabyte.
pub proof fn law_space_holds_every_region(m: MachineView)
    requires
        !m.has_pcie,
        space_top(m) <= 0x8000_0000_0000_0000,
    ensures
        forall|i: int|
            0 <= i < m.regions.len() && (#[trigger] m.regions[i]).kind != RegionKind::Ram
                ==> m.regions[i].gpa + m.regions[i].size <= space_top(m),
        (exists|i: int|
            0 <= i < m.regions.len() && (#[trigger] m.regions[i]).kind != RegionKind::Ram
                && m.regions[i].gpa + m.regions[i].size == space_top(m)) || (space_top(m)
            == 0x10_0000 && forall|i: int|
            0 <= i < m.regions.len() ==> (#[trigger] m.regions[i]).kind == RegionKind::Ram),
{
    let ranges = placed_regions(m.regions, m.regions.len() as int);
    lemma_highest(ranges, ranges.len() as int);
    assert forall|i: int|
        0 <= i < m.regions.len() && (#[trigger] m.regions[i]).kind
            != RegionKind::Ram implies m.regions[i].gpa + m.regions[i].size <= space_top(m)
        && ranges.len() > 0 by {
        let x = (m.regions[i].gpa, m.regions[i].size);
        law_placement_lists_what_is_not_ram(m.regions, x);
        let k = choose|k: int| 0 <= k < ranges.len() && ranges[k] == x;
        assert(ranges[k].0 + ranges[k].1 <= space_top(m));
    }
    if ranges.len() > 0 {
        let top = highest_end(ranges, ranges.len() as int)->0;
        let k = choose|k: int|
            0 <= k < ranges.len() && (top == (#[trigger] ranges[k]).0 + ranges[k].1 || top
                == u64::MAX);
        law_placement_lists_what_is_not_ram(m.regions, ranges[k]);
        assert(ranges.contains(ranges[k]));
    }
}

/// With a host bridge the space takes the BAR window and as much again above it.
pub proof fn law_space_holds_the_window_twice(m: MachineView)
    requires
        m.has_pcie,
    ensures
        space_top(m) - (m.pcie.mmio_base + m.pcie.mmio_size) == m.pcie.mmio_size,
{
}

} // verus!
