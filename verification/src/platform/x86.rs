//! The x86-64 substrate: interrupt controllers and power control.
use vstd::prelude::*;

use crate::devtree::{find_prefixed, property_of, str_of, without_property, Node};
use crate::platform::arm::{state_of, substrate, SurveyState};
use crate::platform::claim::{drained, need_compatible, need_reg, need_u32};
use crate::platform::devices::registers;
use crate::platform::error::{ControllerKind, SurveyError, SurveyErrorView};
use crate::platform::plan::{RegionKind, ResourcePlan};
use crate::platform::topology::{ControllerView, InterruptControllerRef, Topology, TopologyView};
use crate::text;

verus! {

/// A register block.
#[derive(Debug, Clone, Copy, PartialEq, Eq, Structural)]
pub struct MmioRegion {
    pub base: u64,
    pub size: u64,
}

/// A power action: writing `value` under `mask` at `offset` of the block.
#[derive(Debug, Clone, Copy, PartialEq, Eq, Structural)]
pub struct Syscon {
    pub base: u64,
    pub offset: u64,
    pub value: u32,
    pub mask: u32,
}

/// Whether a node is an interrupt controller with the one `compatible` string.
pub open spec fn is_intc(n: Node, compat: Seq<char>) -> bool {
    text::has_prefix(n.name@, "interrupt-controller@"@) && match property_of(
        n.properties@,
        "compatible"@,
    ) {
        Some(p) => str_of(p.value@) == Some(compat),
        None => false,
    }
}

/// Where the first interrupt controller with a `compatible` string stands,
/// looking from `i` on.
pub open spec fn find_intc(children: Seq<Node>, compat: Seq<char>, i: int) -> Option<int>
    decreases children.len() - i,
{
    if i < 0 || i >= children.len() {
        None
    } else if is_intc(children[i], compat) {
        Some(i)
    } else {
        find_intc(children, compat, i + 1)
    }
}

/// What an interrupt-controller node declares.
pub struct IntcNode {
    pub region: MmioRegion,
    pub interrupt_cells: u32,
    pub phandle: u32,
}

/// What an interrupt-controller node declares: a register region, the cells of a
/// specifier and a phandle, and nothing else.
pub open spec fn intc_node(n: Node, path: Seq<char>) -> Result<IntcNode, SurveyErrorView> {
    match need_reg(without_property(n.properties@, "compatible"@), path, "missing reg pair"@) {
        Err(e) => Err(e),
        Ok((reg, rest)) => match need_u32(rest, "#interrupt-cells"@, path) {
            Err(e) => Err(e),
            Ok((interrupt_cells, rest)) => match need_u32(
                without_property(rest, "interrupt-controller"@),
                "phandle"@,
                path,
            ) {
                Err(e) => Err(e),
                Ok((phandle, rest)) => match drained(n.name@, rest, n.children@) {
                    Err(e) => Err(e),
                    Ok(_) => Ok(
                        IntcNode {
                            region: MmioRegion { base: reg.0, size: reg.1 },
                            interrupt_cells,
                            phandle,
                        },
                    ),
                },
            },
        },
    }
}

/// Claiming the interrupt controller with a `compatible` string.
pub open spec fn intc_one_step(
    s: SurveyState,
    compat: Seq<char>,
    path: Seq<char>,
    kind: ControllerKind,
) -> Result<(MmioRegion, SurveyState), SurveyErrorView> {
    match find_intc(s.children, compat, 0) {
        None => Err(SurveyErrorView::MissingNode(path)),
        Some(i) => match intc_node(s.children[i], path) {
            Err(e) => Err(e),
            Ok(n) => Ok(
                (
                    n.region,
                    SurveyState {
                        children: s.children.remove(i),
                        regions: s.regions.push(substrate(path, (n.region.base, n.region.size))),
                        topology: TopologyView {
                            interrupt: s.topology.interrupt.push(
                                ControllerView {
                                    node: path,
                                    phandle: n.phandle,
                                    kind,
                                    interrupt_cells: n.interrupt_cells,
                                },
                            ),
                            msi: s.topology.msi,
                        },
                    },
                ),
            ),
        },
    }
}

/// Claiming the local APIC and the IO-APIC.
pub open spec fn x86_intc_step(s: SurveyState) -> Result<
    (MmioRegion, MmioRegion, SurveyState),
    SurveyErrorView,
> {
    match intc_one_step(s, "intel,ce4100-lapic"@, "/lapic"@, ControllerKind::Lapic) {
        Err(e) => Err(e),
        Ok((lapic, s)) => match intc_one_step(
            s,
            "intel,ce4100-ioapic"@,
            "/ioapic"@,
            ControllerKind::IoApic,
        ) {
            Err(e) => Err(e),
            Ok((ioapic, s)) => Ok((lapic, ioapic, s)),
        },
    }
}

/// The local APIC and the IO-APIC: two nodes of one name prefix, told apart by
/// `compatible`.
pub struct X86Intc;

impl X86Intc {
    /// Where the first interrupt controller with a `compatible` string stands.
    fn index_of(root: &Node, compat: &str) -> (r: Option<usize>)
        ensures
            match r {
                Some(i) => find_intc(root.children@, compat@, 0) == Some(i as int) && i
                    < root.children@.len(),
                None => find_intc(root.children@, compat@, 0) is None,
            },
    {
        let mut i: usize = 0;
        while i < root.children.len()
            invariant
                i <= root.children@.len(),
                find_intc(root.children@, compat@, 0) == find_intc(
                    root.children@,
                    compat@,
                    i as int,
                ),
            decreases root.children@.len() - i,
        {
            let c = &root.children[i];
            if text::starts_with(c.name.as_str(), "interrupt-controller@") {
                match c.property_index("compatible") {
                    Some(p) => match c.properties[p].as_str() {
                        Some(s) => {
                            if text::same(s.as_str(), compat) {
                                return Some(i);
                            }
                        },
                        None => {},
                    },
                    None => {},
                }
            }
            i = i + 1;
        }
        None
    }

    /// Claims one interrupt controller.
    pub fn claim_one(
        root: &mut Node,
        compat: &'static str,
        path: &'static str,
        plan: &mut ResourcePlan,
        topology: &mut Topology,
        controller_kind: ControllerKind,
    ) -> (r: Result<MmioRegion, SurveyError>)
        ensures
            final(root).name == old(root).name,
            final(root).properties == old(root).properties,
            match r {
                Ok(region) => intc_one_step(
                    state_of(*old(root), *old(plan), *old(topology)),
                    compat@,
                    path@,
                    controller_kind,
                ) == Ok::<_, SurveyErrorView>(
                    (region, state_of(*final(root), *final(plan), *final(topology))),
                ),
                Err(e) => intc_one_step(
                    state_of(*old(root), *old(plan), *old(topology)),
                    compat@,
                    path@,
                    controller_kind,
                ) == Err::<(MmioRegion, SurveyState), _>(e@),
            },
    {
        let i: usize = match X86Intc::index_of(root, compat) {
            Some(i) => i,
            None => {
                return Err(SurveyError::MissingNode(path));
            },
        };
        let mut node = root.children.remove(i);
        node.ack("compatible");
        let (reg, window) = match node.require_reg(path, "missing reg pair") {
            Ok(x) => x,
            Err(e) => {
                return Err(e);
            },
        };
        plan.declare_from(&reg, path, window.0, window.1, RegionKind::SubstrateMmio);
        let interrupt_cells: u32 = match node.require_u32("#interrupt-cells", path) {
            Ok(v) => v,
            Err(e) => {
                return Err(e);
            },
        };
        node.ack("interrupt-controller");
        let phandle: u32 = match node.require_u32("phandle", path) {
            Ok(v) => v,
            Err(e) => {
                return Err(e);
            },
        };
        topology.register_interrupt_controller(
            InterruptControllerRef {
                node: path.to_owned(),
                phandle,
                kind: controller_kind,
                interrupt_cells,
            },
        );
        match node.ensure_drained() {
            Ok(_) => Ok(MmioRegion { base: window.0, size: window.1 }),
            Err(e) => Err(e),
        }
    }

    /// Claims the local APIC and the IO-APIC.
    pub fn from_tree(
        root: &mut Node,
        plan: &mut ResourcePlan,
        topology: &mut Topology,
    ) -> (r: Result<(MmioRegion, MmioRegion), SurveyError>)
        ensures
            final(root).name == old(root).name,
            final(root).properties == old(root).properties,
            match r {
                Ok((lapic, ioapic)) => x86_intc_step(
                    state_of(*old(root), *old(plan), *old(topology)),
                ) == Ok::<_, SurveyErrorView>(
                    (lapic, ioapic, state_of(*final(root), *final(plan), *final(topology))),
                ),
                Err(e) => x86_intc_step(state_of(*old(root), *old(plan), *old(topology))) == Err::<
                    (MmioRegion, MmioRegion, SurveyState),
                    _,
                >(e@),
            },
    {
        let lapic = match X86Intc::claim_one(
            root,
            "intel,ce4100-lapic",
            "/lapic",
            plan,
            topology,
            ControllerKind::Lapic,
        ) {
            Ok(r) => r,
            Err(e) => {
                return Err(e);
            },
        };
        match X86Intc::claim_one(
            root,
            "intel,ce4100-ioapic",
            "/ioapic",
            plan,
            topology,
            ControllerKind::IoApic,
        ) {
            Ok(ioapic) => Ok((lapic, ioapic)),
            Err(e) => Err(e),
        }
    }
}

/// What a power-action node declares: a register region and a trigger value, and
/// nothing else.
pub open spec fn syscon_node(n: Node, compat: Seq<char>, path: Seq<char>) -> Result<
    (MmioRegion, u32),
    SurveyErrorView,
> {
    match need_compatible(n.properties@, path, compat) {
        Err(e) => Err(e),
        Ok(rest) => match need_reg(rest, path, "missing reg pair"@) {
            Err(e) => Err(e),
            Ok((reg, rest)) => match need_u32(rest, "value"@, path) {
                Err(e) => Err(e),
                Ok((value, rest)) => match drained(n.name@, rest, n.children@) {
                    Err(e) => Err(e),
                    Ok(_) => Ok((MmioRegion { base: reg.0, size: reg.1 }, value)),
                },
            },
        },
    }
}

/// Claiming a power action, where there is one. It is triggered by writing the
/// value at the start of its own block; only the low byte counts.
pub open spec fn syscon_step(
    s: SurveyState,
    prefix: Seq<char>,
    compat: Seq<char>,
    path: Seq<char>,
) -> Result<(Option<Syscon>, SurveyState), SurveyErrorView> {
    match find_prefixed(s.children, prefix, 0) {
        None => Ok((None, s)),
        Some(i) => match syscon_node(s.children[i], compat, path) {
            Err(e) => Err(e),
            Ok((region, value)) => Ok(
                (
                    Some(Syscon { base: region.base, offset: 0, value, mask: 0xff }),
                    SurveyState {
                        children: s.children.remove(i),
                        regions: s.regions.push(registers(path, (region.base, region.size))),
                        topology: s.topology,
                    },
                ),
            ),
        },
    }
}

/// Claiming the power-off action, which must exist, and the reboot action, which
/// may.
pub open spec fn x86_syscon_step(s: SurveyState) -> Result<
    (Syscon, Option<Syscon>, SurveyState),
    SurveyErrorView,
> {
    match syscon_step(s, "poweroff@"@, "syscon-poweroff"@, "/poweroff"@) {
        Err(e) => Err(e),
        Ok((None, _)) => Err(SurveyErrorView::MissingNode("/poweroff@*"@)),
        Ok((Some(poweroff), s)) => match syscon_step(
            s,
            "reboot@"@,
            "syscon-reboot"@,
            "/reboot"@,
        ) {
            Err(e) => Err(e),
            Ok((reboot, s)) => Ok((poweroff, reboot, s)),
        },
    }
}

/// Claims a power action, where there is one.
pub fn syscon_action(
    root: &mut Node,
    prefix: &str,
    compat: &'static str,
    path: &'static str,
    plan: &mut ResourcePlan,
    topology: &Topology,
) -> (r: Result<Option<Syscon>, SurveyError>)
    ensures
        final(root).name == old(root).name,
        final(root).properties == old(root).properties,
        match r {
            Ok(x) => syscon_step(
                state_of(*old(root), *old(plan), *topology),
                prefix@,
                compat@,
                path@,
            ) == Ok::<_, SurveyErrorView>((x, state_of(*final(root), *final(plan), *topology))),
            Err(e) => syscon_step(
                state_of(*old(root), *old(plan), *topology),
                prefix@,
                compat@,
                path@,
            ) == Err::<(Option<Syscon>, SurveyState), _>(e@),
        },
{
    let i: usize = match root.prefixed_index(prefix) {
        Some(i) => i,
        None => {
            return Ok(None);
        },
    };
    let mut node = root.children.remove(i);
    match node.require_compatible(path, compat) {
        Ok(_) => {},
        Err(e) => {
            return Err(e);
        },
    }
    let (reg, window) = match node.require_reg(path, "missing reg pair") {
        Ok(x) => x,
        Err(e) => {
            return Err(e);
        },
    };
    plan.declare_from(&reg, path, window.0, window.1, RegionKind::Mmio);
    let value: u32 = match node.require_u32("value", path) {
        Ok(v) => v,
        Err(e) => {
            return Err(e);
        },
    };
    match node.ensure_drained() {
        Ok(_) => Ok(Some(Syscon { base: window.0, offset: 0, value, mask: 0xff })),
        Err(e) => Err(e),
    }
}

/// The power-off and reboot actions.
pub struct X86Syscon;

impl X86Syscon {
    /// Claims the power-off and reboot actions.
    pub fn from_tree(root: &mut Node, plan: &mut ResourcePlan, topology: &Topology) -> (r: Result<
        (Syscon, Option<Syscon>),
        SurveyError,
    >)
        ensures
            final(root).name == old(root).name,
            final(root).properties == old(root).properties,
            match r {
                Ok((poweroff, reboot)) => x86_syscon_step(
                    state_of(*old(root), *old(plan), *topology),
                ) == Ok::<_, SurveyErrorView>(
                    (poweroff, reboot, state_of(*final(root), *final(plan), *topology)),
                ),
                Err(e) => x86_syscon_step(state_of(*old(root), *old(plan), *topology)) == Err::<
                    (Syscon, Option<Syscon>, SurveyState),
                    _,
                >(e@),
            },
    {
        let poweroff = match syscon_action(
            root,
            "poweroff@",
            "syscon-poweroff",
            "/poweroff",
            plan,
            topology,
        ) {
            Ok(Some(p)) => p,
            Ok(None) => {
                return Err(SurveyError::MissingNode("/poweroff@*"));
            },
            Err(e) => {
                return Err(e);
            },
        };
        match syscon_action(root, "reboot@", "syscon-reboot", "/reboot", plan, topology) {
            Ok(reboot) => Ok((poweroff, reboot)),
            Err(e) => Err(e),
        }
    }
}

} // verus!
