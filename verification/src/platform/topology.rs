//! Interrupt and MSI controllers, and how devices refer to them.
use vstd::prelude::*;

use crate::devtree::{cells_of, property_of, Node, Property};
use crate::platform::claim::{need, need_u32};
use crate::platform::error::{ControllerKind, SurveyError, SurveyErrorView};

verus! {

/// A guest architecture.
#[derive(Debug, Clone, Copy, PartialEq, Eq, Structural)]
pub enum Arch {
    X86_64,
    Aarch64,
}

impl Arch {
    /// How secondary CPUs are started, where that is by a firmware call.
    pub fn cpu_enable_method(self) -> (r: Option<&'static str>)
        ensures
            match self {
                Arch::Aarch64 => r matches Some(m) && m@ == "psci"@,
                Arch::X86_64 => r is None,
            },
    {
        match self {
            Arch::Aarch64 => Some("psci"),
            Arch::X86_64 => None,
        }
    }
}

/// The kind of controller that wired device interrupts go to.
pub open spec fn parent_kind(arch: Arch) -> ControllerKind {
    match arch {
        Arch::Aarch64 => ControllerKind::GicV3,
        Arch::X86_64 => ControllerKind::IoApic,
    }
}

/// The kind of controller that wired device interrupts go to.
pub fn interrupt_parent_kind(arch: Arch) -> (r: ControllerKind)
    ensures
        r == parent_kind(arch),
{
    match arch {
        Arch::Aarch64 => ControllerKind::GicV3,
        Arch::X86_64 => ControllerKind::IoApic,
    }
}

/// An interrupt controller as the tree declares it.
#[derive(Debug)]
pub struct InterruptControllerRef {
    pub node: String,
    pub phandle: u32,
    pub kind: ControllerKind,
    pub interrupt_cells: u32,
}

/// An [`InterruptControllerRef`] with its node as a character sequence.
pub struct ControllerView {
    pub node: Seq<char>,
    pub phandle: u32,
    pub kind: ControllerKind,
    pub interrupt_cells: u32,
}

impl View for InterruptControllerRef {
    type V = ControllerView;

    open spec fn view(&self) -> ControllerView {
        ControllerView {
            node: self.node@,
            phandle: self.phandle,
            kind: self.kind,
            interrupt_cells: self.interrupt_cells,
        }
    }
}

/// A wired interrupt source decoded through its `interrupt-parent`.
#[derive(Debug)]
pub struct WiredInterrupt {
    pub node: String,
    pub controller: InterruptControllerRef,
    pub cells: Vec<u32>,
    pub irq: u32,
}

/// A [`WiredInterrupt`] with its strings and cells as sequences.
pub struct WiredView {
    pub node: Seq<char>,
    pub controller: ControllerView,
    pub cells: Seq<u32>,
    pub irq: u32,
}

impl View for WiredInterrupt {
    type V = WiredView;

    open spec fn view(&self) -> WiredView {
        WiredView {
            node: self.node@,
            controller: self.controller@,
            cells: self.cells@,
            irq: self.irq,
        }
    }
}

/// An MSI controller as the tree declares it.
#[derive(Debug)]
pub struct MsiControllerRef {
    pub node: String,
    pub phandle: u32,
    pub kind: ControllerKind,
}

/// An [`MsiControllerRef`] with its node as a character sequence.
pub struct MsiControllerView {
    pub node: Seq<char>,
    pub phandle: u32,
    pub kind: ControllerKind,
}

impl View for MsiControllerRef {
    type V = MsiControllerView;

    open spec fn view(&self) -> MsiControllerView {
        MsiControllerView { node: self.node@, phandle: self.phandle, kind: self.kind }
    }
}

/// MSI parentage decoded from a device's `msi-parent`.
#[derive(Debug)]
pub struct MsiParentage {
    pub node: String,
    pub controller: MsiControllerRef,
}

/// An [`MsiParentage`] with its strings as character sequences.
pub struct MsiParentageView {
    pub node: Seq<char>,
    pub controller: MsiControllerView,
}

impl View for MsiParentage {
    type V = MsiParentageView;

    open spec fn view(&self) -> MsiParentageView {
        MsiParentageView { node: self.node@, controller: self.controller@ }
    }
}

/// The controllers that devices may refer to.
#[derive(Debug)]
pub struct Topology {
    pub interrupt_controllers: Vec<InterruptControllerRef>,
    pub msi_controllers: Vec<MsiControllerRef>,
}

/// A [`Topology`] as sequences.
pub struct TopologyView {
    pub interrupt: Seq<ControllerView>,
    pub msi: Seq<MsiControllerView>,
}

impl View for Topology {
    type V = TopologyView;

    open spec fn view(&self) -> TopologyView {
        TopologyView {
            interrupt: self.interrupt_controllers@.map_values(|c: InterruptControllerRef| c@),
            msi: self.msi_controllers@.map_values(|c: MsiControllerRef| c@),
        }
    }
}

/// The first interrupt controller with a phandle, from `i` on.
pub open spec fn find_controller(all: Seq<ControllerView>, phandle: u32, i: int) -> Option<
    ControllerView,
>
    decreases all.len() - i,
{
    if i < 0 || i >= all.len() {
        None
    } else if all[i].phandle == phandle {
        Some(all[i])
    } else {
        find_controller(all, phandle, i + 1)
    }
}

/// The first MSI controller with a phandle, from `i` on.
pub open spec fn find_msi_controller(all: Seq<MsiControllerView>, phandle: u32, i: int) -> Option<
    MsiControllerView,
>
    decreases all.len() - i,
{
    if i < 0 || i >= all.len() {
        None
    } else if all[i].phandle == phandle {
        Some(all[i])
    } else {
        find_msi_controller(all, phandle, i + 1)
    }
}

/// The interrupt controller that a property refers to, which must be of the
/// expected kind.
pub open spec fn controller_for(
    topology: TopologyView,
    phandle: u32,
    node: Seq<char>,
    prop: Seq<char>,
    expected: ControllerKind,
) -> Result<ControllerView, SurveyErrorView> {
    match find_controller(topology.interrupt, phandle, 0) {
        None => Err(SurveyErrorView::UnknownPhandle { node, prop, phandle }),
        Some(c) => if c.kind == expected {
            Ok(c)
        } else {
            Err(SurveyErrorView::UnexpectedController { node, prop, actual: c.kind, expected })
        },
    }
}

/// The MSI controller that a property refers to, which must be of the expected
/// kind.
pub open spec fn msi_controller_for(
    topology: TopologyView,
    phandle: u32,
    node: Seq<char>,
    prop: Seq<char>,
    expected: ControllerKind,
) -> Result<MsiControllerView, SurveyErrorView> {
    match find_msi_controller(topology.msi, phandle, 0) {
        None => Err(SurveyErrorView::UnknownPhandle { node, prop, phandle }),
        Some(c) => if c.kind == expected {
            Ok(c)
        } else {
            Err(SurveyErrorView::UnexpectedController { node, prop, actual: c.kind, expected })
        },
    }
}

/// Which cell of an interrupt specifier holds the interrupt number: the GIC form
/// is type, number, flags and the IO-APIC form is pin, sense.
pub open spec fn irq_cell(kind: ControllerKind) -> Option<int> {
    match kind {
        ControllerKind::GicV3 => Some(1),
        ControllerKind::IoApic => Some(0),
        ControllerKind::Lapic => None,
        ControllerKind::GicV2mFrame => None,
    }
}

/// The interrupt number in a specifier.
pub open spec fn irq_of(cells: Seq<u32>, kind: ControllerKind, node: Seq<char>) -> Result<
    u32,
    SurveyErrorView,
> {
    match irq_cell(kind) {
        None => Err(
            SurveyErrorView::BadProperty {
                node,
                prop: "interrupts"@,
                reason: "controller cannot decode wired device interrupts"@,
            },
        ),
        Some(i) => if i < cells.len() {
            Ok(cells[i])
        } else {
            Err(
                SurveyErrorView::BadProperty {
                    node,
                    prop: "interrupts"@,
                    reason: "too few interrupt cells"@,
                },
            )
        },
    }
}

/// Taking the `interrupt-parent` and `interrupts` of a node out: the controller,
/// the cells and what is left.
pub open spec fn need_interrupts(
    props: Seq<Property>,
    topology: TopologyView,
    node: Seq<char>,
    expected: ControllerKind,
) -> Result<(ControllerView, Seq<u32>, Seq<Property>), SurveyErrorView> {
    match need_u32(props, "interrupt-parent"@, node) {
        Err(e) => Err(e),
        Ok((parent, rest)) => match controller_for(
            topology,
            parent,
            node,
            "interrupt-parent"@,
            expected,
        ) {
            Err(e) => Err(e),
            Ok(controller) => match need(rest, "interrupts"@, node) {
                Err(e) => Err(e),
                Ok((interrupts, rest)) => match cells_of(interrupts.value@) {
                    None => Err(
                        SurveyErrorView::BadProperty {
                            node,
                            prop: "interrupts"@,
                            reason: "not u32 cells"@,
                        },
                    ),
                    Some(cells) => Ok((controller, cells, rest)),
                },
            },
        },
    }
}

/// The error for a specifier that does not fit its controller.
pub open spec fn cell_count_error(node: Seq<char>) -> SurveyErrorView {
    SurveyErrorView::BadProperty {
        node,
        prop: "interrupts"@,
        reason: "cell count does not match interrupt-parent #interrupt-cells"@,
    }
}

/// Taking the one wired interrupt of a node out.
pub open spec fn need_wired(
    props: Seq<Property>,
    topology: TopologyView,
    node: Seq<char>,
    expected: ControllerKind,
) -> Result<(WiredView, Seq<Property>), SurveyErrorView> {
    match need_interrupts(props, topology, node, expected) {
        Err(e) => Err(e),
        Ok((controller, cells, rest)) => if cells.len() != controller.interrupt_cells {
            Err(cell_count_error(node))
        } else {
            match irq_of(cells, controller.kind, node) {
                Err(e) => Err(e),
                Ok(irq) => Ok((WiredView { node, controller, cells, irq }, rest)),
            }
        },
    }
}

/// Taking the interrupts of a node out, which must be whole specifiers.
pub open spec fn need_valid_interrupts(
    props: Seq<Property>,
    topology: TopologyView,
    node: Seq<char>,
    expected: ControllerKind,
) -> Result<Seq<Property>, SurveyErrorView> {
    match need_interrupts(props, topology, node, expected) {
        Err(e) => Err(e),
        Ok((controller, cells, rest)) => if controller.interrupt_cells == 0 || cells.len() % (
        controller.interrupt_cells as nat) != 0 {
            Err(cell_count_error(node))
        } else {
            Ok(rest)
        },
    }
}

/// Taking the `msi-parent` of a node out. Without MSI controllers a node may
/// leave it out.
pub open spec fn need_msi_parent(
    props: Seq<Property>,
    topology: TopologyView,
    node: Seq<char>,
    expected: ControllerKind,
) -> Result<(Option<MsiParentageView>, Seq<Property>), SurveyErrorView> {
    if topology.msi.len() == 0 && property_of(props, "msi-parent"@) is None {
        Ok((None, props))
    } else {
        match need_u32(props, "msi-parent"@, node) {
            Err(e) => Err(e),
            Ok((parent, rest)) => match msi_controller_for(
                topology,
                parent,
                node,
                "msi-parent"@,
                expected,
            ) {
                Err(e) => Err(e),
                Ok(controller) => Ok((Some(MsiParentageView { node, controller }), rest)),
            },
        }
    }
}

/// The interrupt number in a specifier.
pub fn interrupt_irq(cells: &[u32], controller: ControllerKind, node: &'static str) -> (r: Result<
    u32,
    SurveyError,
>)
    ensures
        match r {
            Ok(irq) => irq_of(cells@, controller, node@) == Ok::<_, SurveyErrorView>(irq),
            Err(e) => irq_of(cells@, controller, node@) == Err::<u32, _>(e@),
        },
{
    let index: usize = match controller {
        ControllerKind::GicV3 => 1,
        ControllerKind::IoApic => 0,
        ControllerKind::Lapic => {
            return Err(
                SurveyError::BadProperty {
                    node,
                    prop: "interrupts",
                    reason: "controller cannot decode wired device interrupts",
                },
            );
        },
        ControllerKind::GicV2mFrame => {
            return Err(
                SurveyError::BadProperty {
                    node,
                    prop: "interrupts",
                    reason: "controller cannot decode wired device interrupts",
                },
            );
        },
    };
    if index < cells.len() {
        Ok(cells[index])
    } else {
        Err(
            SurveyError::BadProperty {
                node,
                prop: "interrupts",
                reason: "too few interrupt cells",
            },
        )
    }
}

impl Topology {
    /// A topology without controllers.
    pub fn new() -> (r: Topology)
        ensures
            r@.interrupt == Seq::<ControllerView>::empty(),
            r@.msi == Seq::<MsiControllerView>::empty(),
    {
        let r = Topology { interrupt_controllers: Vec::new(), msi_controllers: Vec::new() };
        assert(r@.interrupt =~= Seq::<ControllerView>::empty());
        assert(r@.msi =~= Seq::<MsiControllerView>::empty());
        r
    }

    /// Adds an interrupt controller.
    pub fn register_interrupt_controller(&mut self, controller: InterruptControllerRef)
        ensures
            final(self)@.interrupt == old(self)@.interrupt.push(controller@),
            final(self)@.msi == old(self)@.msi,
    {
        self.interrupt_controllers.push(controller);
        assert(self@.interrupt =~= old(self)@.interrupt.push(controller@));
    }

    /// Adds an MSI controller.
    pub fn register_msi_controller(&mut self, controller: MsiControllerRef)
        ensures
            final(self)@.msi == old(self)@.msi.push(controller@),
            final(self)@.interrupt == old(self)@.interrupt,
    {
        self.msi_controllers.push(controller);
        assert(self@.msi =~= old(self)@.msi.push(controller@));
    }

    /// Looks up the interrupt controller that a property refers to.
    pub fn resolve_interrupt_controller(
        &self,
        phandle: u32,
        node: &'static str,
        prop: &'static str,
        expected: ControllerKind,
    ) -> (r: Result<InterruptControllerRef, SurveyError>)
        ensures
            match r {
                Ok(c) => controller_for(self@, phandle, node@, prop@, expected) == Ok::<
                    _,
                    SurveyErrorView,
                >(c@),
                Err(e) => controller_for(self@, phandle, node@, prop@, expected) == Err::<
                    ControllerView,
                    _,
                >(e@),
            },
    {
        let mut i: usize = 0;
        while i < self.interrupt_controllers.len()
            invariant
                i <= self.interrupt_controllers@.len(),
                self@.interrupt.len() == self.interrupt_controllers@.len(),
                find_controller(self@.interrupt, phandle, 0) == find_controller(
                    self@.interrupt,
                    phandle,
                    i as int,
                ),
            decreases self.interrupt_controllers@.len() - i,
        {
            let c = &self.interrupt_controllers[i];
            assert(self@.interrupt[i as int] == c@);
            if c.phandle == phandle {
                if c.kind != expected {
                    return Err(
                        SurveyError::UnexpectedController { node, prop, actual: c.kind, expected },
                    );
                }
                return Ok(
                    InterruptControllerRef {
                        node: c.node.clone(),
                        phandle: c.phandle,
                        kind: c.kind,
                        interrupt_cells: c.interrupt_cells,
                    },
                );
            }
            i = i + 1;
        }
        Err(SurveyError::UnknownPhandle { node, prop, phandle })
    }

    /// Looks up the MSI controller that a property refers to.
    pub fn resolve_msi_controller(
        &self,
        phandle: u32,
        node: &'static str,
        prop: &'static str,
        expected: ControllerKind,
    ) -> (r: Result<MsiControllerRef, SurveyError>)
        ensures
            match r {
                Ok(c) => msi_controller_for(self@, phandle, node@, prop@, expected) == Ok::<
                    _,
                    SurveyErrorView,
                >(c@),
                Err(e) => msi_controller_for(self@, phandle, node@, prop@, expected) == Err::<
                    MsiControllerView,
                    _,
                >(e@),
            },
    {
        let mut i: usize = 0;
        while i < self.msi_controllers.len()
            invariant
                i <= self.msi_controllers@.len(),
                self@.msi.len() == self.msi_controllers@.len(),
                find_msi_controller(self@.msi, phandle, 0) == find_msi_controller(
                    self@.msi,
                    phandle,
                    i as int,
                ),
            decreases self.msi_controllers@.len() - i,
        {
            let c = &self.msi_controllers[i];
            assert(self@.msi[i as int] == c@);
            if c.phandle == phandle {
                if c.kind != expected {
                    return Err(
                        SurveyError::UnexpectedController { node, prop, actual: c.kind, expected },
                    );
                }
                return Ok(
                    MsiControllerRef { node: c.node.clone(), phandle: c.phandle, kind: c.kind },
                );
            }
            i = i + 1;
        }
        Err(SurveyError::UnknownPhandle { node, prop, phandle })
    }

    /// Takes the interrupt properties of a node out.
    fn take_interrupts(
        &self,
        node: &mut Node,
        node_path: &'static str,
        expected: ControllerKind,
    ) -> (r: Result<(InterruptControllerRef, Vec<u32>), SurveyError>)
        ensures
            final(node).name == old(node).name,
            final(node).children == old(node).children,
            match r {
                Ok((c, cells)) => need_interrupts(
                    old(node).properties@,
                    self@,
                    node_path@,
                    expected,
                ) == Ok::<_, SurveyErrorView>((c@, cells@, final(node).properties@)),
                Err(e) => need_interrupts(old(node).properties@, self@, node_path@, expected)
                    == Err::<(ControllerView, Seq<u32>, Seq<Property>), _>(e@),
            },
    {
        let parent: u32 = match node.require_u32("interrupt-parent", node_path) {
            Ok(v) => v,
            Err(e) => {
                return Err(e);
            },
        };
        let controller = match self.resolve_interrupt_controller(
            parent,
            node_path,
            "interrupt-parent",
            expected,
        ) {
            Ok(c) => c,
            Err(e) => {
                return Err(e);
            },
        };
        let interrupts = match node.require("interrupts", node_path) {
            Ok(p) => p,
            Err(e) => {
                return Err(e);
            },
        };
        match interrupts.as_u32s() {
            Some(cells) => Ok((controller, cells)),
            None => Err(
                SurveyError::BadProperty {
                    node: node_path,
                    prop: "interrupts",
                    reason: "not u32 cells",
                },
            ),
        }
    }

    /// Takes the one wired interrupt of a node out.
    pub fn claim_wired_interrupt(
        &self,
        node: &mut Node,
        node_path: &'static str,
        expected: ControllerKind,
    ) -> (r: Result<WiredInterrupt, SurveyError>)
        ensures
            final(node).name == old(node).name,
            final(node).children == old(node).children,
            match r {
                Ok(w) => need_wired(old(node).properties@, self@, node_path@, expected) == Ok::<
                    _,
                    SurveyErrorView,
                >((w@, final(node).properties@)),
                Err(e) => need_wired(old(node).properties@, self@, node_path@, expected) == Err::<
                    (WiredView, Seq<Property>),
                    _,
                >(e@),
            },
    {
        let (controller, cells) = match self.take_interrupts(node, node_path, expected) {
            Ok(x) => x,
            Err(e) => {
                return Err(e);
            },
        };
        if cells.len() as u64 != controller.interrupt_cells as u64 {
            return Err(
                SurveyError::BadProperty {
                    node: node_path,
                    prop: "interrupts",
                    reason: "cell count does not match interrupt-parent #interrupt-cells",
                },
            );
        }
        let irq: u32 = match interrupt_irq(cells.as_slice(), controller.kind, node_path) {
            Ok(irq) => irq,
            Err(e) => {
                return Err(e);
            },
        };
        Ok(WiredInterrupt { node: node_path.to_owned(), controller, cells, irq })
    }

    /// Takes the interrupts of a node out and checks that they are whole
    /// specifiers.
    pub fn validate_interrupts(
        &self,
        node: &mut Node,
        node_path: &'static str,
        expected: ControllerKind,
    ) -> (r: Result<(), SurveyError>)
        ensures
            final(node).name == old(node).name,
            final(node).children == old(node).children,
            match r {
                Ok(_) => need_valid_interrupts(
                    old(node).properties@,
                    self@,
                    node_path@,
                    expected,
                ) == Ok::<_, SurveyErrorView>(final(node).properties@),
                Err(e) => need_valid_interrupts(
                    old(node).properties@,
                    self@,
                    node_path@,
                    expected,
                ) == Err::<Seq<Property>, _>(e@),
            },
    {
        let (controller, cells) = match self.take_interrupts(node, node_path, expected) {
            Ok(x) => x,
            Err(e) => {
                return Err(e);
            },
        };
        if controller.interrupt_cells == 0 || cells.len() as u64
            % controller.interrupt_cells as u64 != 0 {
            return Err(
                SurveyError::BadProperty {
                    node: node_path,
                    prop: "interrupts",
                    reason: "cell count does not match interrupt-parent #interrupt-cells",
                },
            );
        }
        Ok(())
    }

    /// Takes the `msi-parent` of a node out.
    pub fn claim_msi_parent(
        &self,
        node: &mut Node,
        node_path: &'static str,
        expected: ControllerKind,
    ) -> (r: Result<Option<MsiParentage>, SurveyError>)
        ensures
            final(node).name == old(node).name,
            final(node).children == old(node).children,
            match r {
                Ok(Some(p)) => need_msi_parent(
                    old(node).properties@,
                    self@,
                    node_path@,
                    expected,
                ) == Ok::<_, SurveyErrorView>((Some(p@), final(node).properties@)),
                Ok(None) => need_msi_parent(old(node).properties@, self@, node_path@, expected)
                    == Ok::<_, SurveyErrorView>((None::<MsiParentageView>, final(node).properties@)),
                Err(e) => need_msi_parent(old(node).properties@, self@, node_path@, expected)
                    == Err::<(Option<MsiParentageView>, Seq<Property>), _>(e@),
            },
    {
        if self.msi_controllers.len() == 0 && node.property_index("msi-parent").is_none() {
            return Ok(None);
        }
        let parent: u32 = match node.require_u32("msi-parent", node_path) {
            Ok(v) => v,
            Err(e) => {
                return Err(e);
            },
        };
        match self.resolve_msi_controller(parent, node_path, "msi-parent", expected) {
            Ok(controller) => Ok(Some(MsiParentage { node: node_path.to_owned(), controller })),
            Err(e) => Err(e),
        }
    }
}

} // verus!
