//! The aarch64 substrate: interrupt controller, timer and firmware interface.
use vstd::prelude::*;

use crate::devtree::{
    find_child, find_prefixed, list_has_prefixed, reg_pair_of, str_of, without_property, Node,
};
use crate::platform::claim::{drained, need, need_compatible, need_reg, need_u32};
use crate::platform::error::{ControllerKind, SurveyError, SurveyErrorView};
use crate::platform::plan::{RegionKind, RegionView, ResourcePlan};
use crate::platform::topology::{
    need_valid_interrupts, ControllerView, InterruptControllerRef, MsiControllerRef,
    MsiControllerView, Topology, TopologyView,
};
use crate::text;

verus! {

/// What a survey has of a tree: the root children that nobody claimed yet, and
/// the regions and controllers found so far.
pub struct SurveyState {
    pub children: Seq<Node>,
    pub regions: Seq<RegionView>,
    pub topology: TopologyView,
}

/// The state that a root node, a plan and a topology stand for.
pub open spec fn state_of(root: Node, plan: ResourcePlan, topology: Topology) -> SurveyState {
    SurveyState { children: root.children@, regions: plan@, topology: topology@ }
}

/// The aarch64 interrupt-controller configuration.
#[derive(Debug, Clone, Copy, PartialEq, Eq, Structural)]
pub struct GicConfig {
    pub dist_base: u64,
    pub dist_size: u64,
    pub redist_base: u64,
    pub redist_size: u64,
    pub msi_frame_base: u64,
    pub msi_frame_size: u64,
    pub spi_base: u32,
    pub spi_count: u32,
}

/// What a GICv3 node declares.
pub struct GicNode {
    pub dist: (u64, u64),
    pub redist: (u64, u64),
    pub phandle: u32,
}

/// What a GICv2m frame node declares.
pub struct FrameNode {
    pub frame: (u64, u64),
    pub spi_base: u32,
    pub spi_count: u32,
    pub phandle: u32,
}

/// A malformed property.
pub open spec fn bad(node: Seq<char>, prop: Seq<char>, reason: Seq<char>) -> SurveyErrorView {
    SurveyErrorView::BadProperty { node, prop, reason }
}

/// What a GICv3 node declares: a distributor and a redistributor region, three
/// cells to an interrupt and a phandle, and nothing else.
pub open spec fn gic_node(n: Node) -> Result<GicNode, SurveyErrorView> {
    let node = "/interrupt-controller"@;
    match need_compatible(n.properties@, node, "arm,gic-v3"@) {
        Err(e) => Err(e),
        Ok(rest) => match need(rest, "reg"@, node) {
            Err(e) => Err(e),
            Ok((reg, rest)) => match reg_pair_of(reg.value@, 0) {
                None => Err(bad(node, "reg"@, "missing GICD pair"@)),
                Some(dist) => match reg_pair_of(reg.value@, 1) {
                    None => Err(bad(node, "reg"@, "missing GICR pair"@)),
                    Some(redist) => match need_u32(rest, "#interrupt-cells"@, node) {
                        Err(e) => Err(e),
                        Ok((cells, rest)) => if cells != 3 {
                            Err(
                                bad(
                                    node,
                                    "#interrupt-cells"@,
                                    "expected GICv3 3-cell interrupt specifier"@,
                                ),
                            )
                        } else {
                            match need_u32(
                                without_property(rest, "interrupt-controller"@),
                                "phandle"@,
                                node,
                            ) {
                                Err(e) => Err(e),
                                Ok((phandle, rest)) => match drained(
                                    n.name@,
                                    rest,
                                    n.children@,
                                ) {
                                    Err(e) => Err(e),
                                    Ok(_) => Ok(GicNode { dist, redist, phandle }),
                                },
                            }
                        },
                    },
                },
            },
        },
    }
}

/// What a GICv2m frame node declares: a frame region, its interrupt range and a
/// phandle, and nothing else.
pub open spec fn frame_node(n: Node) -> Result<FrameNode, SurveyErrorView> {
    let node = "/msi-controller"@;
    match need_compatible(n.properties@, node, "arm,gic-v2m-frame"@) {
        Err(e) => Err(e),
        Ok(rest) => match need_reg(rest, node, "missing MSI frame pair"@) {
            Err(e) => Err(e),
            Ok((frame, rest)) => match need_u32(rest, "arm,msi-base-spi"@, node) {
                Err(e) => Err(e),
                Ok((spi_base, rest)) => match need_u32(rest, "arm,msi-num-spis"@, node) {
                    Err(e) => Err(e),
                    Ok((spi_count, rest)) => match need_u32(
                        without_property(rest, "msi-controller"@),
                        "phandle"@,
                        node,
                    ) {
                        Err(e) => Err(e),
                        Ok((phandle, rest)) => match drained(n.name@, rest, n.children@) {
                            Err(e) => Err(e),
                            Ok(_) => Ok(FrameNode { frame, spi_base, spi_count, phandle }),
                        },
                    },
                },
            },
        },
    }
}

/// A region of the interrupt-controller substrate.
pub open spec fn substrate(node: Seq<char>, r: (u64, u64)) -> RegionView {
    RegionView { gpa: r.0, size: r.1, kind: RegionKind::SubstrateMmio, node, prop: "reg"@ }
}

/// Claiming the GICv3 node.
pub open spec fn gic_intc_step(s: SurveyState) -> Result<(GicNode, SurveyState), SurveyErrorView> {
    match find_prefixed(s.children, "interrupt-controller@"@, 0) {
        None => Err(SurveyErrorView::MissingNode("/interrupt-controller@*"@)),
        Some(i) => match gic_node(s.children[i]) {
            Err(e) => Err(e),
            Ok(g) => Ok(
                (
                    g,
                    SurveyState {
                        children: s.children.remove(i),
                        regions: s.regions.push(substrate("/interrupt-controller"@, g.dist)).push(
                            substrate("/interrupt-controller"@, g.redist),
                        ),
                        topology: TopologyView {
                            interrupt: s.topology.interrupt.push(
                                ControllerView {
                                    node: "/"@ + s.children[i].name@,
                                    phandle: g.phandle,
                                    kind: ControllerKind::GicV3,
                                    interrupt_cells: 3,
                                },
                            ),
                            msi: s.topology.msi,
                        },
                    },
                ),
            ),
        },
    }
}

/// Claiming the GICv2m frame node.
pub open spec fn gic_frame_step(s: SurveyState) -> Result<
    (FrameNode, SurveyState),
    SurveyErrorView,
> {
    match find_prefixed(s.children, "msi-controller@"@, 0) {
        None => Err(SurveyErrorView::MissingNode("/msi-controller@*"@)),
        Some(i) => match frame_node(s.children[i]) {
            Err(e) => Err(e),
            Ok(f) => Ok(
                (
                    f,
                    SurveyState {
                        children: s.children.remove(i),
                        regions: s.regions.push(substrate("/msi-controller"@, f.frame)),
                        topology: TopologyView {
                            interrupt: s.topology.interrupt,
                            msi: s.topology.msi.push(
                                MsiControllerView {
                                    node: "/"@ + s.children[i].name@,
                                    phandle: f.phandle,
                                    kind: ControllerKind::GicV2mFrame,
                                },
                            ),
                        },
                    },
                ),
            ),
        },
    }
}

/// Claiming the interrupt controller and its MSI frame.
pub open spec fn gic_step(s: SurveyState) -> Result<(GicConfig, SurveyState), SurveyErrorView> {
    match gic_intc_step(s) {
        Err(e) => Err(e),
        Ok((g, s)) => match gic_frame_step(s) {
            Err(e) => Err(e),
            Ok((f, s)) => Ok(
                (
                    GicConfig {
                        dist_base: g.dist.0,
                        dist_size: g.dist.1,
                        redist_base: g.redist.0,
                        redist_size: g.redist.1,
                        msi_frame_base: f.frame.0,
                        msi_frame_size: f.frame.1,
                        spi_base: f.spi_base,
                        spi_count: f.spi_count,
                    },
                    s,
                ),
            ),
        },
    }
}

/// `/` and a name.
fn root_path(name: &str) -> (r: String)
    ensures
        r@ == "/"@ + name@,
{
    let mut s: String = "/".to_owned();
    s.append(name);
    s
}

impl GicConfig {
    /// Claims the GICv3 node.
    fn claim_intc(root: &mut Node, plan: &mut ResourcePlan, topology: &mut Topology) -> (r: Result<
        ((u64, u64), (u64, u64)),
        SurveyError,
    >)
        ensures
            final(root).name == old(root).name,
            final(root).properties == old(root).properties,
            match r {
                Ok((dist, redist)) => gic_intc_step(
                    state_of(*old(root), *old(plan), *old(topology)),
                ) matches Ok((g, s)) && g.dist == dist && g.redist == redist && s == state_of(
                    *final(root),
                    *final(plan),
                    *final(topology),
                ),
                Err(e) => gic_intc_step(state_of(*old(root), *old(plan), *old(topology))) == Err::<
                    (GicNode, SurveyState),
                    _,
                >(e@),
            },
    {
        let i: usize = match root.prefixed_index("interrupt-controller@") {
            Some(i) => i,
            None => {
                return Err(SurveyError::MissingNode("/interrupt-controller@*"));
            },
        };
        let mut intc = root.children.remove(i);
        let path: String = root_path(intc.name.as_str());
        match intc.require_compatible("/interrupt-controller", "arm,gic-v3") {
            Ok(_) => {},
            Err(e) => {
                return Err(e);
            },
        }
        let reg = match intc.require("reg", "/interrupt-controller") {
            Ok(p) => p,
            Err(e) => {
                return Err(e);
            },
        };
        let dist: (u64, u64) = match reg.reg_pair(0) {
            Some(pair) => pair,
            None => {
                return Err(
                    SurveyError::BadProperty {
                        node: "/interrupt-controller",
                        prop: "reg",
                        reason: "missing GICD pair",
                    },
                );
            },
        };
        let redist: (u64, u64) = match reg.reg_pair(1) {
            Some(pair) => pair,
            None => {
                return Err(
                    SurveyError::BadProperty {
                        node: "/interrupt-controller",
                        prop: "reg",
                        reason: "missing GICR pair",
                    },
                );
            },
        };
        plan.declare_from(
            &reg,
            "/interrupt-controller",
            dist.0,
            dist.1,
            RegionKind::SubstrateMmio,
        );
        plan.declare_from(
            &reg,
            "/interrupt-controller",
            redist.0,
            redist.1,
            RegionKind::SubstrateMmio,
        );
        let interrupt_cells: u32 = match intc.require_u32(
            "#interrupt-cells",
            "/interrupt-controller",
        ) {
            Ok(v) => v,
            Err(e) => {
                return Err(e);
            },
        };
        if interrupt_cells != 3 {
            return Err(
                SurveyError::BadProperty {
                    node: "/interrupt-controller",
                    prop: "#interrupt-cells",
                    reason: "expected GICv3 3-cell interrupt specifier",
                },
            );
        }
        intc.ack("interrupt-controller");
        let phandle: u32 = match intc.require_u32("phandle", "/interrupt-controller") {
            Ok(v) => v,
            Err(e) => {
                return Err(e);
            },
        };
        topology.register_interrupt_controller(
            InterruptControllerRef {
                node: path,
                phandle,
                kind: ControllerKind::GicV3,
                interrupt_cells,
            },
        );
        match intc.ensure_drained() {
            Ok(_) => Ok((dist, redist)),
            Err(e) => Err(e),
        }
    }

    /// Claims the GICv2m frame node.
    fn claim_frame(
        root: &mut Node,
        plan: &mut ResourcePlan,
        topology: &mut Topology,
    ) -> (r: Result<((u64, u64), u32, u32), SurveyError>)
        ensures
            final(root).name == old(root).name,
            final(root).properties == old(root).properties,
            match r {
                Ok((frame, spi_base, spi_count)) => gic_frame_step(
                    state_of(*old(root), *old(plan), *old(topology)),
                ) matches Ok((f, s)) && f.frame == frame && f.spi_base == spi_base && f.spi_count
                    == spi_count && s == state_of(*final(root), *final(plan), *final(topology)),
                Err(e) => gic_frame_step(state_of(*old(root), *old(plan), *old(topology))) == Err::<
                    (FrameNode, SurveyState),
                    _,
                >(e@),
            },
    {
        let i: usize = match root.prefixed_index("msi-controller@") {
            Some(i) => i,
            None => {
                return Err(SurveyError::MissingNode("/msi-controller@*"));
            },
        };
        let mut v2m = root.children.remove(i);
        let path: String = root_path(v2m.name.as_str());
        match v2m.require_compatible("/msi-controller", "arm,gic-v2m-frame") {
            Ok(_) => {},
            Err(e) => {
                return Err(e);
            },
        }
        let (reg, frame) = match v2m.require_reg("/msi-controller", "missing MSI frame pair") {
            Ok(x) => x,
            Err(e) => {
                return Err(e);
            },
        };
        plan.declare_from(
            &reg,
            "/msi-controller",
            frame.0,
            frame.1,
            RegionKind::SubstrateMmio,
        );
        let spi_base: u32 = match v2m.require_u32("arm,msi-base-spi", "/msi-controller") {
            Ok(v) => v,
            Err(e) => {
                return Err(e);
            },
        };
        let spi_count: u32 = match v2m.require_u32("arm,msi-num-spis", "/msi-controller") {
            Ok(v) => v,
            Err(e) => {
                return Err(e);
            },
        };
        v2m.ack("msi-controller");
        let phandle: u32 = match v2m.require_u32("phandle", "/msi-controller") {
            Ok(v) => v,
            Err(e) => {
                return Err(e);
            },
        };
        topology.register_msi_controller(
            MsiControllerRef { node: path, phandle, kind: ControllerKind::GicV2mFrame },
        );
        match v2m.ensure_drained() {
            Ok(_) => Ok((frame, spi_base, spi_count)),
            Err(e) => Err(e),
        }
    }

    /// Claims the GICv3 node and its GICv2m frame node. Both carry a unit
    /// address; they are found by name prefix and checked by `compatible`.
    pub fn from_tree(
        root: &mut Node,
        plan: &mut ResourcePlan,
        topology: &mut Topology,
    ) -> (r: Result<GicConfig, SurveyError>)
        ensures
            final(root).name == old(root).name,
            final(root).properties == old(root).properties,
            match r {
                Ok(g) => gic_step(state_of(*old(root), *old(plan), *old(topology))) == Ok::<
                    _,
                    SurveyErrorView,
                >((g, state_of(*final(root), *final(plan), *final(topology)))),
                Err(e) => gic_step(state_of(*old(root), *old(plan), *old(topology))) == Err::<
                    (GicConfig, SurveyState),
                    _,
                >(e@),
            },
    {
        let (dist, redist) = match GicConfig::claim_intc(root, plan, topology) {
            Ok(x) => x,
            Err(e) => {
                return Err(e);
            },
        };
        let (frame, spi_base, spi_count) = match GicConfig::claim_frame(root, plan, topology) {
            Ok(x) => x,
            Err(e) => {
                return Err(e);
            },
        };
        Ok(
            GicConfig {
                dist_base: dist.0,
                dist_size: dist.1,
                redist_base: redist.0,
                redist_size: redist.1,
                msi_frame_base: frame.0,
                msi_frame_size: frame.1,
                spi_base,
                spi_count,
            },
        )
    }
}

/// The generic timer, which is driven by system registers alone.
pub struct Timer;

/// What claiming the timer node comes to: it must have interrupts of the GIC.
pub open spec fn timer_node(n: Node, topology: TopologyView) -> Result<(), SurveyErrorView> {
    match need_compatible(n.properties@, "/timer"@, "arm,armv8-timer"@) {
        Err(e) => Err(e),
        Ok(rest) => match need_valid_interrupts(
            rest,
            topology,
            "/timer"@,
            ControllerKind::GicV3,
        ) {
            Err(e) => Err(e),
            Ok(rest) => drained(n.name@, without_property(rest, "always-on"@), n.children@),
        },
    }
}

/// Claiming the timer.
pub open spec fn timer_step(s: SurveyState) -> Result<SurveyState, SurveyErrorView> {
    match find_child(s.children, "timer"@, 0) {
        None => Err(SurveyErrorView::MissingNode("/timer"@)),
        Some(i) => match timer_node(s.children[i], s.topology) {
            Err(e) => Err(e),
            Ok(_) => Ok(SurveyState { children: s.children.remove(i), ..s }),
        },
    }
}

impl Timer {
    /// Claims the `/timer` node.
    pub fn from_tree(root: &mut Node, plan: &ResourcePlan, topology: &Topology) -> (r: Result<
        (),
        SurveyError,
    >)
        ensures
            final(root).name == old(root).name,
            final(root).properties == old(root).properties,
            match r {
                Ok(_) => timer_step(state_of(*old(root), *plan, *topology)) == Ok::<
                    _,
                    SurveyErrorView,
                >(state_of(*final(root), *plan, *topology)),
                Err(e) => timer_step(state_of(*old(root), *plan, *topology)) == Err::<
                    SurveyState,
                    _,
                >(e@),
            },
    {
        let i: usize = match root.child_index("timer") {
            Some(i) => i,
            None => {
                return Err(SurveyError::MissingNode("/timer"));
            },
        };
        let mut timer = root.children.remove(i);
        match timer.require_compatible("/timer", "arm,armv8-timer") {
            Ok(_) => {},
            Err(e) => {
                return Err(e);
            },
        }
        match topology.validate_interrupts(&mut timer, "/timer", ControllerKind::GicV3) {
            Ok(_) => {},
            Err(e) => {
                return Err(e);
            },
        }
        timer.ack("always-on");
        timer.ensure_drained()
    }
}

/// How the guest calls the firmware.
#[derive(Debug, Clone, Copy, PartialEq, Eq, Structural)]
pub enum PsciMethod {
    Hvc,
    Smc,
}

/// The firmware interface.
#[derive(Debug, Clone, Copy, PartialEq, Eq, Structural)]
pub struct Psci {
    pub method: PsciMethod,
}

/// What a firmware node declares: a PSCI version among its `compatible` strings
/// and a known call method, and nothing else.
pub open spec fn psci_node(n: Node) -> Result<Psci, SurveyErrorView> {
    let node = "/psci"@;
    match need(n.properties@, "compatible"@, node) {
        Err(e) => Err(e),
        Ok((compat, rest)) => if !list_has_prefixed(
            compat.value@,
            vstd::utf8::encode_utf8("arm,psci-"@),
        ) {
            Err(
                SurveyErrorView::Unsupported {
                    node,
                    prop: "compatible"@,
                    value: match str_of(compat.value@) {
                        Some(s) => s,
                        None => "<list>"@,
                    },
                },
            )
        } else {
            match need(rest, "method"@, node) {
                Err(e) => Err(e),
                Ok((method, rest)) => match psci_method(str_of(method.value@)) {
                    None => Err(
                        SurveyErrorView::Unsupported {
                            node,
                            prop: "method"@,
                            value: match str_of(method.value@) {
                                Some(s) => s,
                                None => "<non-string>"@,
                            },
                        },
                    ),
                    Some(method) => match drained(n.name@, rest, n.children@) {
                        Err(e) => Err(e),
                        Ok(_) => Ok(Psci { method }),
                    },
                },
            }
        },
    }
}

/// The call method that a text names.
pub open spec fn psci_method(text: Option<Seq<char>>) -> Option<PsciMethod> {
    if text == Some("hvc"@) {
        Some(PsciMethod::Hvc)
    } else if text == Some("smc"@) {
        Some(PsciMethod::Smc)
    } else {
        None
    }
}

/// Claiming the firmware interface.
pub open spec fn psci_step(s: SurveyState) -> Result<(Psci, SurveyState), SurveyErrorView> {
    match find_child(s.children, "psci"@, 0) {
        None => Err(SurveyErrorView::MissingNode("/psci"@)),
        Some(i) => match psci_node(s.children[i]) {
            Err(e) => Err(e),
            Ok(p) => Ok((p, SurveyState { children: s.children.remove(i), ..s })),
        },
    }
}

impl Psci {
    /// Claims the `/psci` node.
    pub fn from_tree(root: &mut Node, plan: &ResourcePlan, topology: &Topology) -> (r: Result<
        Psci,
        SurveyError,
    >)
        ensures
            final(root).name == old(root).name,
            final(root).properties == old(root).properties,
            match r {
                Ok(p) => psci_step(state_of(*old(root), *plan, *topology)) == Ok::<
                    _,
                    SurveyErrorView,
                >((p, state_of(*final(root), *plan, *topology))),
                Err(e) => psci_step(state_of(*old(root), *plan, *topology)) == Err::<
                    (Psci, SurveyState),
                    _,
                >(e@),
            },
    {
        let i: usize = match root.child_index("psci") {
            Some(i) => i,
            None => {
                return Err(SurveyError::MissingNode("/psci"));
            },
        };
        let mut psci = root.children.remove(i);
        let compat = match psci.require("compatible", "/psci") {
            Ok(p) => p,
            Err(e) => {
                return Err(e);
            },
        };
        if !compat.has_string_prefixed("arm,psci-") {
            let value: String = match compat.as_str() {
                Some(s) => s,
                None => "<list>".to_owned(),
            };
            return Err(SurveyError::Unsupported { node: "/psci", prop: "compatible", value });
        }
        let method = match psci.require("method", "/psci") {
            Ok(p) => p,
            Err(e) => {
                return Err(e);
            },
        };
        let method = match method.as_str() {
            Some(s) => {
                if text::same(s.as_str(), "hvc") {
                    PsciMethod::Hvc
                } else if text::same(s.as_str(), "smc") {
                    PsciMethod::Smc
                } else {
                    return Err(
                        SurveyError::Unsupported { node: "/psci", prop: "method", value: s },
                    );
                }
            },
            None => {
                return Err(
                    SurveyError::Unsupported {
                        node: "/psci",
                        prop: "method",
                        value: "<non-string>".to_owned(),
                    },
                );
            },
        };
        match psci.ensure_drained() {
            Ok(_) => Ok(Psci { method }),
            Err(e) => Err(e),
        }
    }
}

} // verus!
