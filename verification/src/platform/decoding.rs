//! What the nodes of a surveyed tree say: where each number of a machine stands
//! in the bytes of a property.
use vstd::prelude::*;

use crate::devtree::{
    cells_of, find_child, find_prefixed, law_cells_are_big_endian, law_other_properties_stay,
    law_pairs_are_big_endian, lemma_cells_join, lemma_find_child, lemma_find_prefixed,
    list_has_prefixed, property_of, str_of, without_property, Node, Property,
};
use crate::hexstr::big_endian;
use crate::platform::arm::{
    frame_node, gic_frame_step, gic_intc_step, gic_node, gic_step, psci_node, psci_step,
    timer_node, timer_step, PsciMethod, SurveyState,
};
use crate::platform::claim::{drained, need, need_reg, need_u32};
use crate::platform::devices::{
    aliases_step, chosen_step, law_slots_are_sorted, pcie_node, pcie_step, sorted_slots,
    uart_node, uart_step, virtio_claims, virtio_node, virtio_step, VirtioMmioView,
};
use crate::platform::error::{ControllerKind, SurveyErrorView};
use crate::platform::laws::{
    lemma_find_intc, lemma_one_slot, lemma_removed, lemma_substrate, lemma_uart, lemma_virtio,
    lemma_without_keeps, on_track,
};
use crate::platform::plan::{RegionKind, RegionView};
use crate::platform::survey::{fresh, residual, substrate_step, surveyed};
use crate::platform::topology::{
    controller_for, find_controller, find_msi_controller, need_wired, parent_kind, Arch,
    ControllerView, MsiControllerView, TopologyView, WiredView,
};
use crate::platform::x86::{
    find_intc, intc_node, intc_one_step, syscon_node, syscon_step, x86_intc_step, Syscon,
};
use crate::text::{has_prefix, law_prefix_is_how_a_text_starts};

verus! {

/// The bytes of the first property of this name.
pub open spec fn value_of(n: Node, name: Seq<char>) -> Seq<u8> {
    property_of(n.properties@, name)->0.value@
}

/// Whether a property is one cell that holds `x`.
pub open spec fn cell_says(n: Node, name: Seq<char>, x: u32) -> bool {
    &&& property_of(n.properties@, name) is Some
    &&& value_of(n, name).len() == 4
    &&& big_endian(value_of(n, name)) == x
}

/// Whether pair `i` of the `reg` property is this address and size, sixteen bytes
/// to a pair.
pub open spec fn reg_says(n: Node, i: int, base: u64, size: u64) -> bool {
    let bytes = value_of(n, "reg"@);
    &&& property_of(n.properties@, "reg"@) is Some
    &&& bytes.len() % 4 == 0
    &&& 16 * i + 16 <= bytes.len()
    &&& big_endian(bytes.subrange(16 * i, 16 * i + 8)) == base
    &&& big_endian(bytes.subrange(16 * i + 8, 16 * i + 16)) == size
}

/// Whether the interrupt of a node is this one: it goes to the controller that the
/// node names by its phandle, a GICv3 or an IO-APIC, and the number is in the
/// second cell for the one and in the first for the other.
pub open spec fn interrupt_says(
    n: Node,
    arch: Arch,
    topology: TopologyView,
    wired: WiredView,
) -> bool {
    let bytes = value_of(n, "interrupts"@);
    &&& cell_says(n, "interrupt-parent"@, wired.controller.phandle)
    &&& topology.interrupt.contains(wired.controller)
    &&& property_of(n.properties@, "interrupts"@) is Some
    &&& bytes.len() == 4 * wired.controller.interrupt_cells
    &&& wired.cells.len() == wired.controller.interrupt_cells
    &&& forall|i: int|
        0 <= i < wired.cells.len() ==> #[trigger] wired.cells[i] == big_endian(
            bytes.subrange(4 * i, 4 * i + 4),
        )
    &&& match arch {
        Arch::Aarch64 => {
            &&& wired.controller.kind == ControllerKind::GicV3
            &&& 8 <= bytes.len()
            &&& wired.irq == big_endian(bytes.subrange(4, 8))
        },
        Arch::X86_64 => {
            &&& wired.controller.kind == ControllerKind::IoApic
            &&& 4 <= bytes.len()
            &&& wired.irq == big_endian(bytes.subrange(0, 4))
        },
    }
}

/// The property names that nodes are read by are all different.
pub proof fn lemma_names()
    ensures
        "compatible"@ != "reg"@,
        "compatible"@ != "reg-shift"@,
        "compatible"@ != "interrupt-parent"@,
        "compatible"@ != "interrupts"@,
        "reg"@ != "reg-shift"@,
        "reg"@ != "interrupt-parent"@,
        "reg"@ != "interrupts"@,
        "reg-shift"@ != "interrupt-parent"@,
        "reg-shift"@ != "interrupts"@,
        "interrupt-parent"@ != "interrupts"@,
        "compatible"@ != "ranges"@,
        "compatible"@ != "bus-range"@,
        "compatible"@ != "device_type"@,
        "compatible"@ != "#address-cells"@,
        "compatible"@ != "#size-cells"@,
        "compatible"@ != "dma-coherent"@,
        "compatible"@ != "msi-parent"@,
        "reg"@ != "ranges"@,
        "reg"@ != "bus-range"@,
        "reg"@ != "device_type"@,
        "reg"@ != "#address-cells"@,
        "reg"@ != "#size-cells"@,
        "reg"@ != "dma-coherent"@,
        "reg"@ != "msi-parent"@,
        "ranges"@ != "bus-range"@,
        "ranges"@ != "device_type"@,
        "ranges"@ != "#address-cells"@,
        "ranges"@ != "#size-cells"@,
        "ranges"@ != "dma-coherent"@,
        "ranges"@ != "msi-parent"@,
        "bus-range"@ != "device_type"@,
        "bus-range"@ != "#address-cells"@,
        "bus-range"@ != "#size-cells"@,
        "bus-range"@ != "dma-coherent"@,
        "bus-range"@ != "msi-parent"@,
        "device_type"@ != "#address-cells"@,
        "device_type"@ != "#size-cells"@,
        "device_type"@ != "dma-coherent"@,
        "device_type"@ != "msi-parent"@,
        "#address-cells"@ != "#size-cells"@,
        "#address-cells"@ != "dma-coherent"@,
        "#address-cells"@ != "msi-parent"@,
        "#size-cells"@ != "dma-coherent"@,
        "#size-cells"@ != "msi-parent"@,
        "dma-coherent"@ != "msi-parent"@,
        "compatible"@ != "#interrupt-cells"@,
        "compatible"@ != "interrupt-controller"@,
        "compatible"@ != "phandle"@,
        "reg"@ != "#interrupt-cells"@,
        "reg"@ != "interrupt-controller"@,
        "reg"@ != "phandle"@,
        "#interrupt-cells"@ != "interrupt-controller"@,
        "#interrupt-cells"@ != "phandle"@,
        "interrupt-controller"@ != "phandle"@,
        "compatible"@ != "arm,msi-base-spi"@,
        "compatible"@ != "arm,msi-num-spis"@,
        "compatible"@ != "msi-controller"@,
        "reg"@ != "arm,msi-base-spi"@,
        "reg"@ != "arm,msi-num-spis"@,
        "reg"@ != "msi-controller"@,
        "arm,msi-base-spi"@ != "arm,msi-num-spis"@,
        "arm,msi-base-spi"@ != "msi-controller"@,
        "arm,msi-base-spi"@ != "phandle"@,
        "arm,msi-num-spis"@ != "msi-controller"@,
        "arm,msi-num-spis"@ != "phandle"@,
        "msi-controller"@ != "phandle"@,
        "compatible"@ != "value"@,
        "reg"@ != "value"@,
{
    reveal_strlit("compatible");
    reveal_strlit("reg");
    reveal_strlit("reg-shift");
    reveal_strlit("interrupt-parent");
    reveal_strlit("interrupts");
    reveal_strlit("ranges");
    reveal_strlit("bus-range");
    reveal_strlit("device_type");
    reveal_strlit("#address-cells");
    reveal_strlit("#size-cells");
    reveal_strlit("dma-coherent");
    reveal_strlit("msi-parent");
    reveal_strlit("#interrupt-cells");
    reveal_strlit("interrupt-controller");
    reveal_strlit("phandle");
    reveal_strlit("arm,msi-base-spi");
    reveal_strlit("arm,msi-num-spis");
    reveal_strlit("msi-controller");
    reveal_strlit("value");
    assert("compatible"@.len() == 10);
    assert("reg"@.len() == 3);
    assert("reg-shift"@.len() == 9);
    assert("interrupt-parent"@.len() == 16);
    assert("interrupts"@.len() == 10);
    assert("ranges"@.len() == 6);
    assert("bus-range"@.len() == 9);
    assert("device_type"@.len() == 11);
    assert("#address-cells"@.len() == 14);
    assert("#size-cells"@.len() == 11);
    assert("dma-coherent"@.len() == 12);
    assert("msi-parent"@.len() == 10);
    assert("#interrupt-cells"@.len() == 16);
    assert("interrupt-controller"@.len() == 20);
    assert("phandle"@.len() == 7);
    assert("arm,msi-base-spi"@.len() == 16);
    assert("arm,msi-num-spis"@.len() == 16);
    assert("msi-controller"@.len() == 14);
    assert("value"@.len() == 5);
    assert("compatible"@[0] != "interrupts"@[0]);
    assert("compatible"@[0] != "msi-parent"@[0]);
    assert("device_type"@[0] != "#size-cells"@[0]);
    assert("arm,msi-base-spi"@[8] != "arm,msi-num-spis"@[8]);
}

proof fn lemma_cell(n: Node, props: Seq<Property>, name: Seq<char>, node: Seq<char>)
    requires
        property_of(props, name) == property_of(n.properties@, name),
    ensures
        need_u32(props, name, node) matches Ok((x, rest)) ==> cell_says(n, name, x) && rest
            == without_property(props, name),
{
    if need_u32(props, name, node) is Ok {
        law_cells_are_big_endian(value_of(n, name), 0);
    }
}

proof fn lemma_reg(n: Node, props: Seq<Property>, node: Seq<char>, reason: Seq<char>)
    requires
        property_of(props, "reg"@) == property_of(n.properties@, "reg"@),
    ensures
        need_reg(props, node, reason) matches Ok((pair, rest)) ==> reg_says(n, 0, pair.0, pair.1)
            && rest == without_property(props, "reg"@),
{
    if need_reg(props, node, reason) is Ok {
        law_pairs_are_big_endian(value_of(n, "reg"@), 0);
    }
}

proof fn lemma_found_controller(all: Seq<ControllerView>, phandle: u32, i: int)
    requires
        0 <= i,
    ensures
        find_controller(all, phandle, i) matches Some(c) ==> c.phandle == phandle && all.contains(c),
    decreases all.len() - i,
{
    if i < all.len() {
        if all[i].phandle == phandle {
            assert(all.contains(all[i]));
        } else {
            lemma_found_controller(all, phandle, i + 1);
        }
    }
}

proof fn lemma_found_msi_controller(all: Seq<MsiControllerView>, phandle: u32, i: int)
    requires
        0 <= i,
    ensures
        find_msi_controller(all, phandle, i) matches Some(c) ==> c.phandle == phandle
            && all.contains(c),
    decreases all.len() - i,
{
    if i < all.len() {
        if all[i].phandle == phandle {
            assert(all.contains(all[i]));
        } else {
            lemma_found_msi_controller(all, phandle, i + 1);
        }
    }
}

proof fn lemma_wired(
    n: Node,
    props: Seq<Property>,
    topology: TopologyView,
    node: Seq<char>,
    arch: Arch,
)
    requires
        property_of(props, "interrupt-parent"@) == property_of(
            n.properties@,
            "interrupt-parent"@,
        ),
        property_of(props, "interrupts"@) == property_of(n.properties@, "interrupts"@),
    ensures
        need_wired(props, topology, node, parent_kind(arch)) matches Ok((w, _)) ==> interrupt_says(
            n,
            arch,
            topology,
            w,
        ) && w.node == node,
{
    if need_wired(props, topology, node, parent_kind(arch)) is Ok {
        lemma_names();
        lemma_cell(n, props, "interrupt-parent"@, node);
        let (parent, rest) = need_u32(props, "interrupt-parent"@, node)->Ok_0;
        law_other_properties_stay(props, "interrupt-parent"@, "interrupts"@);
        lemma_found_controller(topology.interrupt, parent, 0);
        let bytes = value_of(n, "interrupts"@);
        let (w, _) = need_wired(props, topology, node, parent_kind(arch))->Ok_0;
        let cells = cells_of(bytes)->0;
        assert(need(rest, "interrupts"@, node) is Ok);
        assert(w.cells == cells);
        law_cells_are_big_endian(bytes, 0);
        law_cells_are_big_endian(bytes, 1);
        assert forall|i: int| 0 <= i < w.cells.len() implies #[trigger] w.cells[i] == big_endian(
            bytes.subrange(4 * i, 4 * i + 4),
        ) by {
            law_cells_are_big_endian(bytes, i);
        }
    }
}

/// What a serial node says is what the port has: its window from `reg`, its
/// register spacing from `reg-shift` and its interrupt from `interrupts`.
pub proof fn law_serial_port_is_what_its_node_says(n: Node, arch: Arch, topology: TopologyView)
    ensures
        uart_node(n, arch, topology) matches Ok(u) ==> {
            &&& reg_says(n, 0, u.base, u.size)
            &&& cell_says(n, "reg-shift"@, u.reg_shift)
            &&& interrupt_says(n, arch, topology, u.interrupt)
            &&& u.irq == u.interrupt.irq
        },
{
    if uart_node(n, arch, topology) is Ok {
        lemma_names();
        let node = "/serial"@;
        let a = n.properties@;
        let b = without_property(a, "compatible"@);
        let c = without_property(b, "reg"@);
        let d = without_property(c, "reg-shift"@);
        law_other_properties_stay(a, "compatible"@, "reg"@);
        lemma_reg(n, b, node, "missing reg pair"@);
        law_other_properties_stay(a, "compatible"@, "reg-shift"@);
        law_other_properties_stay(b, "reg"@, "reg-shift"@);
        lemma_cell(n, c, "reg-shift"@, node);
        law_other_properties_stay(a, "compatible"@, "interrupt-parent"@);
        law_other_properties_stay(b, "reg"@, "interrupt-parent"@);
        law_other_properties_stay(c, "reg-shift"@, "interrupt-parent"@);
        law_other_properties_stay(a, "compatible"@, "interrupts"@);
        law_other_properties_stay(b, "reg"@, "interrupts"@);
        law_other_properties_stay(c, "reg-shift"@, "interrupts"@);
        lemma_wired(n, d, topology, node, arch);
    }
}

/// What a virtio-mmio node says is what the slot has: its window from `reg` and
/// its interrupt from `interrupts`.
pub proof fn law_slot_is_what_its_node_says(n: Node, arch: Arch, topology: TopologyView)
    ensures
        virtio_node(n, arch, topology) matches Ok(v) ==> {
            &&& reg_says(n, 0, v.base, v.size)
            &&& interrupt_says(n, arch, topology, v.interrupt)
            &&& v.irq == v.interrupt.irq
        },
{
    if virtio_node(n, arch, topology) is Ok {
        lemma_names();
        let node = "/virtio_mmio"@;
        let a = n.properties@;
        let b = without_property(a, "compatible"@);
        let c = without_property(b, "reg"@);
        law_other_properties_stay(a, "compatible"@, "reg"@);
        lemma_reg(n, b, node, "missing reg pair"@);
        law_other_properties_stay(a, "compatible"@, "interrupt-parent"@);
        law_other_properties_stay(b, "reg"@, "interrupt-parent"@);
        law_other_properties_stay(a, "compatible"@, "interrupts"@);
        law_other_properties_stay(b, "reg"@, "interrupts"@);
        lemma_wired(n, c, topology, node, arch);
    }
}

/// What a host bridge node says is what the bridge has: its configuration window
/// from `reg`, its BAR window from the first entry of `ranges`, behind a PCI address
/// of three cells, and the low bytes of the two cells of `bus-range`. Its messages
/// go to the frame that it names; it names none only where the tree has none.
pub proof fn law_bridge_is_what_its_node_says(n: Node, topology: TopologyView)
    ensures
        pcie_node(n, topology) matches Ok(p) ==> {
            let ranges = value_of(n, "ranges"@);
            let buses = value_of(n, "bus-range"@);
            &&& reg_says(n, 0, p.ecam_base, p.ecam_size)
            &&& 28 <= ranges.len() && ranges.len() % 4 == 0
            &&& p.mmio_base == big_endian(ranges.subrange(12, 20))
            &&& p.mmio_size == big_endian(ranges.subrange(20, 28))
            &&& buses.len() == 8
            &&& p.bus_min == big_endian(buses.subrange(0, 4)) % 256
            &&& p.bus_max == big_endian(buses.subrange(4, 8)) % 256
            &&& match p.msi {
                Some(m) => {
                    &&& cell_says(n, "msi-parent"@, m.controller.phandle)
                    &&& topology.msi.contains(m.controller)
                    &&& m.controller.kind == ControllerKind::GicV2mFrame
                },
                None => topology.msi.len() == 0 && property_of(n.properties@, "msi-parent"@) is None,
            }
        },
{
    if pcie_node(n, topology) is Ok {
        lemma_names();
        let node = "/pcie"@;
        let a = n.properties@;
        let b = without_property(a, "compatible"@);
        let c = without_property(b, "reg"@);
        let d = without_property(c, "ranges"@);
        let e = without_property(d, "bus-range"@);
        let f = without_property(e, "device_type"@);
        let g = without_property(f, "#address-cells"@);
        let h = without_property(g, "#size-cells"@);
        let k = without_property(h, "dma-coherent"@);
        law_other_properties_stay(a, "compatible"@, "reg"@);
        lemma_reg(n, b, node, "missing ECAM pair"@);
        law_other_properties_stay(a, "compatible"@, "ranges"@);
        law_other_properties_stay(b, "reg"@, "ranges"@);
        law_other_properties_stay(a, "compatible"@, "bus-range"@);
        law_other_properties_stay(b, "reg"@, "bus-range"@);
        law_other_properties_stay(c, "ranges"@, "bus-range"@);
        law_other_properties_stay(a, "compatible"@, "msi-parent"@);
        law_other_properties_stay(b, "reg"@, "msi-parent"@);
        law_other_properties_stay(c, "ranges"@, "msi-parent"@);
        law_other_properties_stay(d, "bus-range"@, "msi-parent"@);
        law_other_properties_stay(e, "device_type"@, "msi-parent"@);
        law_other_properties_stay(f, "#address-cells"@, "msi-parent"@);
        law_other_properties_stay(g, "#size-cells"@, "msi-parent"@);
        law_other_properties_stay(h, "dma-coherent"@, "msi-parent"@);
        lemma_cell(n, k, "msi-parent"@, node);
        let ranges = value_of(n, "ranges"@);
        let buses = value_of(n, "bus-range"@);
        assert(need(c, "ranges"@, node) is Ok && need(d, "bus-range"@, node) is Ok);
        law_cells_are_big_endian(ranges, 0);
        lemma_cells_join(ranges, 3);
        lemma_cells_join(ranges, 5);
        law_cells_are_big_endian(buses, 0);
        law_cells_are_big_endian(buses, 1);
        let lo: u32 = cells_of(buses)->0[0];
        let hi: u32 = cells_of(buses)->0[1];
        assert(lo as u8 == lo % 256 && hi as u8 == hi % 256) by (bit_vector);
        if need_u32(k, "msi-parent"@, node) is Ok {
            lemma_found_msi_controller(
                topology.msi,
                (need_u32(k, "msi-parent"@, node)->Ok_0).0,
                0,
            );
        }
    }
}

/// What a GICv3 node says: the distributor is the first pair of `reg` and the
/// redistributor the second, and a specifier has three cells.
pub proof fn law_gic_is_what_its_node_says(n: Node)
    ensures
        gic_node(n) matches Ok(g) ==> {
            &&& reg_says(n, 0, g.dist.0, g.dist.1)
            &&& reg_says(n, 1, g.redist.0, g.redist.1)
            &&& cell_says(n, "#interrupt-cells"@, 3)
            &&& cell_says(n, "phandle"@, g.phandle)
        },
{
    if gic_node(n) is Ok {
        lemma_names();
        let node = "/interrupt-controller"@;
        let a = n.properties@;
        let b = without_property(a, "compatible"@);
        let c = without_property(b, "reg"@);
        let d = without_property(c, "#interrupt-cells"@);
        let e = without_property(d, "interrupt-controller"@);
        law_other_properties_stay(a, "compatible"@, "reg"@);
        law_pairs_are_big_endian(value_of(n, "reg"@), 0);
        law_pairs_are_big_endian(value_of(n, "reg"@), 1);
        law_other_properties_stay(a, "compatible"@, "#interrupt-cells"@);
        law_other_properties_stay(b, "reg"@, "#interrupt-cells"@);
        lemma_cell(n, c, "#interrupt-cells"@, node);
        law_other_properties_stay(a, "compatible"@, "phandle"@);
        law_other_properties_stay(b, "reg"@, "phandle"@);
        law_other_properties_stay(c, "#interrupt-cells"@, "phandle"@);
        law_other_properties_stay(d, "interrupt-controller"@, "phandle"@);
        lemma_cell(n, e, "phandle"@, node);
    }
}

/// What a GICv2m frame node says: its window, its first interrupt and their
/// number.
pub proof fn law_frame_is_what_its_node_says(n: Node)
    ensures
        frame_node(n) matches Ok(f) ==> {
            &&& reg_says(n, 0, f.frame.0, f.frame.1)
            &&& cell_says(n, "arm,msi-base-spi"@, f.spi_base)
            &&& cell_says(n, "arm,msi-num-spis"@, f.spi_count)
            &&& cell_says(n, "phandle"@, f.phandle)
        },
{
    if frame_node(n) is Ok {
        lemma_names();
        let node = "/msi-controller"@;
        let a = n.properties@;
        let b = without_property(a, "compatible"@);
        let c = without_property(b, "reg"@);
        let d = without_property(c, "arm,msi-base-spi"@);
        let e = without_property(d, "arm,msi-num-spis"@);
        let f = without_property(e, "msi-controller"@);
        law_other_properties_stay(a, "compatible"@, "reg"@);
        lemma_reg(n, b, node, "missing MSI frame pair"@);
        law_other_properties_stay(a, "compatible"@, "arm,msi-base-spi"@);
        law_other_properties_stay(b, "reg"@, "arm,msi-base-spi"@);
        lemma_cell(n, c, "arm,msi-base-spi"@, node);
        law_other_properties_stay(a, "compatible"@, "arm,msi-num-spis"@);
        law_other_properties_stay(b, "reg"@, "arm,msi-num-spis"@);
        law_other_properties_stay(c, "arm,msi-base-spi"@, "arm,msi-num-spis"@);
        lemma_cell(n, d, "arm,msi-num-spis"@, node);
        law_other_properties_stay(a, "compatible"@, "phandle"@);
        law_other_properties_stay(b, "reg"@, "phandle"@);
        law_other_properties_stay(c, "arm,msi-base-spi"@, "phandle"@);
        law_other_properties_stay(d, "arm,msi-num-spis"@, "phandle"@);
        law_other_properties_stay(e, "msi-controller"@, "phandle"@);
        lemma_cell(n, f, "phandle"@, node);
    }
}

/// What an APIC node says: its window, the cells of a specifier and its phandle.
pub proof fn law_apic_is_what_its_node_says(n: Node, path: Seq<char>)
    ensures
        intc_node(n, path) matches Ok(x) ==> {
            &&& reg_says(n, 0, x.region.base, x.region.size)
            &&& cell_says(n, "#interrupt-cells"@, x.interrupt_cells)
            &&& cell_says(n, "phandle"@, x.phandle)
        },
{
    if intc_node(n, path) is Ok {
        lemma_names();
        let a = n.properties@;
        let b = without_property(a, "compatible"@);
        let c = without_property(b, "reg"@);
        let d = without_property(c, "#interrupt-cells"@);
        let e = without_property(d, "interrupt-controller"@);
        law_other_properties_stay(a, "compatible"@, "reg"@);
        lemma_reg(n, b, path, "missing reg pair"@);
        law_other_properties_stay(a, "compatible"@, "#interrupt-cells"@);
        law_other_properties_stay(b, "reg"@, "#interrupt-cells"@);
        lemma_cell(n, c, "#interrupt-cells"@, path);
        law_other_properties_stay(a, "compatible"@, "phandle"@);
        law_other_properties_stay(b, "reg"@, "phandle"@);
        law_other_properties_stay(c, "#interrupt-cells"@, "phandle"@);
        law_other_properties_stay(d, "interrupt-controller"@, "phandle"@);
        lemma_cell(n, e, "phandle"@, path);
    }
}

/// What a power node says: its window and the number that triggers it.
pub proof fn law_power_action_is_what_its_node_says(n: Node, compat: Seq<char>, path: Seq<char>)
    ensures
        syscon_node(n, compat, path) matches Ok((region, value)) ==> {
            &&& reg_says(n, 0, region.base, region.size)
            &&& cell_says(n, "value"@, value)
        },
{
    if syscon_node(n, compat, path) is Ok {
        lemma_names();
        let a = n.properties@;
        let b = without_property(a, "compatible"@);
        let c = without_property(b, "reg"@);
        law_other_properties_stay(a, "compatible"@, "reg"@);
        lemma_reg(n, b, path, "missing reg pair"@);
        law_other_properties_stay(a, "compatible"@, "value"@);
        law_other_properties_stay(b, "reg"@, "value"@);
        lemma_cell(n, c, "value"@, path);
    }
}

/// Whether `part` is how `whole` begins.
spec fn begins(whole: Seq<RegionView>, part: Seq<RegionView>) -> bool {
    part.len() <= whole.len() && whole.take(part.len() as int) == part
}

proof fn lemma_begins(whole: Seq<RegionView>, part: Seq<RegionView>, r: RegionView)
    requires
        begins(whole, part),
        part.contains(r),
    ensures
        whole.contains(r),
{
    let k = choose|k: int| 0 <= k < part.len() && part[k] == r;
    assert(whole.take(part.len() as int)[k] == whole[k]);
}

/// The window that a slot takes in the plan.
pub open spec fn slot_window(v: VirtioMmioView) -> RegionView {
    RegionView {
        gpa: v.base,
        size: v.size,
        kind: RegionKind::Mmio,
        node: "/virtio_mmio"@,
        prop: "reg"@,
    }
}

/// Whether a slot comes from a node of the list.
pub open spec fn slot_has_node(nodes: Seq<Node>, arch: Arch, v: VirtioMmioView) -> bool {
    exists|c: Node| #[trigger]
        nodes.contains(c) && has_prefix(c.name@, "virtio_mmio@"@) && reg_says(c, 0, v.base, v.size)
            && match arch {
            Arch::Aarch64 => 8 <= value_of(c, "interrupts"@).len() && v.irq == big_endian(
                value_of(c, "interrupts"@).subrange(4, 8),
            ),
            Arch::X86_64 => 4 <= value_of(c, "interrupts"@).len() && v.irq == big_endian(
                value_of(c, "interrupts"@).subrange(0, 4),
            ),
        }
}

proof fn lemma_slots(nodes: Seq<Node>, s: SurveyState, arch: Arch)
    requires
        on_track(nodes, s),
    ensures
        virtio_claims(s, arch) matches Ok((slots, next)) ==> {
            &&& begins(next.regions, s.regions)
            &&& next.regions.len() == s.regions.len() + slots.len()
            &&& next.topology == s.topology
            &&& forall|v: VirtioMmioView| #[trigger]
                slots.contains(v) ==> slot_has_node(nodes, arch, v) && next.regions.contains(
                    slot_window(v),
                )
        },
    decreases s.children.len(),
{
    if virtio_claims(s, arch) is Ok {
        match find_prefixed(s.children, "virtio_mmio@"@, 0) {
            None => {
                assert(s.regions.take(s.regions.len() as int) =~= s.regions);
            },
            Some(i) => {
                lemma_find_prefixed(s.children, "virtio_mmio@"@, 0);
                let n = s.children[i];
                let v = virtio_node(n, arch, s.topology)->Ok_0;
                let mid = SurveyState {
                    children: s.children.remove(i),
                    regions: s.regions.push(slot_window(v)),
                    topology: s.topology,
                };
                assert(s.children.contains(n));
                assert(nodes.contains(n));
                law_slot_is_what_its_node_says(n, arch, s.topology);
                assert(slot_has_node(nodes, arch, v));
                lemma_one_slot(nodes, s, arch, mid);
                lemma_slots(nodes, mid, arch);
                let (rest, next) = virtio_claims(mid, arch)->Ok_0;
                let slots = seq![v] + rest;
                assert(virtio_claims(s, arch)->Ok_0 == (slots, next));
                assert(next.regions.take(s.regions.len() as int) =~= next.regions.take(
                    mid.regions.len() as int,
                ).take(s.regions.len() as int));
                assert(mid.regions.take(s.regions.len() as int) =~= s.regions);
                assert(mid.regions[s.regions.len() as int] == slot_window(v));
                lemma_begins(next.regions, mid.regions, slot_window(v));
                assert forall|w: VirtioMmioView| #[trigger] slots.contains(w) implies slot_has_node(
                    nodes,
                    arch,
                    w,
                ) && next.regions.contains(slot_window(w)) by {
                    let k = choose|k: int| 0 <= k < slots.len() && slots[k] == w;
                    if k > 0 {
                        assert(rest[k - 1] == w);
                        assert(rest.contains(w));
                    }
                }
            },
        }
    }
}

/// A slot of a surveyed machine comes from a node of the tree, and its window is in
/// the plan.
pub proof fn law_slots_have_nodes_and_windows(root: Node, arch: Arch, i: int)
    requires
        surveyed(root, arch) is Ok,
        0 <= i < (surveyed(root, arch)->Ok_0).virtio_mmio.len(),
    ensures
        ({
            let m = surveyed(root, arch)->Ok_0;
            &&& slot_has_node(root.children@, arch, m.virtio_mmio[i])
            &&& m.regions.contains(slot_window(m.virtio_mmio[i]))
        }),
{
    let nodes = root.children@;
    let m = surveyed(root, arch)->Ok_0;
    lemma_substrate(nodes, fresh(root), arch);
    let (_, _, s1) = substrate_step(fresh(root), arch)->Ok_0;
    lemma_uart(nodes, s1, arch);
    let (_, s2) = uart_step(s1, arch)->Ok_0;
    lemma_slots(nodes, s2, arch);
    let (slots, s3) = virtio_claims(s2, arch)->Ok_0;
    let v = m.virtio_mmio[i];
    law_slots_are_sorted(slots);
    broadcast use vstd::seq_lib::group_to_multiset_ensures;

    assert(m.virtio_mmio == sorted_slots(slots));
    assert(sorted_slots(slots).to_multiset().count(v) > 0) by {
        assert(sorted_slots(slots).contains(v));
    }
    assert(slots.contains(v));
    lemma_bridge_regions(s3);
    lemma_begins(m.regions, s3.regions, slot_window(v));
}

proof fn lemma_bridge_regions(s: SurveyState)
    ensures
        pcie_step(s) matches Ok((p, next)) ==> {
            &&& begins(next.regions, s.regions)
            &&& next.regions.len() == s.regions.len() + if p is Some {
                2int
            } else {
                0int
            }
            &&& p matches Some(p) ==> next.regions[s.regions.len() as int] == (RegionView {
                gpa: p.ecam_base,
                size: p.ecam_size,
                kind: RegionKind::EcamWindow,
                node: "/pcie"@,
                prop: "reg"@,
            }) && next.regions[s.regions.len() as int + 1] == (RegionView {
                gpa: p.mmio_base,
                size: p.mmio_size,
                kind: RegionKind::BarWindow,
                node: "/pcie"@,
                prop: "ranges"@,
            })
        },
{
    if pcie_step(s) is Ok {
        let (_, next) = pcie_step(s)->Ok_0;
        assert(next.regions.take(s.regions.len() as int) =~= s.regions);
    }
}

/// The host bridge of a surveyed machine comes from a node of the tree, and both of
/// its windows are in the plan.
pub proof fn law_bridge_has_node_and_windows(root: Node, arch: Arch)
    requires
        surveyed(root, arch) is Ok,
        (surveyed(root, arch)->Ok_0).has_pcie,
    ensures
        ({
            let m = surveyed(root, arch)->Ok_0;
            let p = m.pcie;
            &&& exists|c: Node| #[trigger]
                root.children@.contains(c) && has_prefix(c.name@, "pcie@"@) && reg_says(
                    c,
                    0,
                    p.ecam_base,
                    p.ecam_size,
                ) && p.mmio_base == big_endian(value_of(c, "ranges"@).subrange(12, 20))
                    && p.mmio_size == big_endian(value_of(c, "ranges"@).subrange(20, 28))
            &&& m.regions.contains(
                RegionView {
                    gpa: p.ecam_base,
                    size: p.ecam_size,
                    kind: RegionKind::EcamWindow,
                    node: "/pcie"@,
                    prop: "reg"@,
                },
            )
            &&& m.regions.contains(
                RegionView {
                    gpa: p.mmio_base,
                    size: p.mmio_size,
                    kind: RegionKind::BarWindow,
                    node: "/pcie"@,
                    prop: "ranges"@,
                },
            )
        }),
{
    let nodes = root.children@;
    let m = surveyed(root, arch)->Ok_0;
    lemma_substrate(nodes, fresh(root), arch);
    let (_, _, s1) = substrate_step(fresh(root), arch)->Ok_0;
    lemma_uart(nodes, s1, arch);
    let (_, s2) = uart_step(s1, arch)->Ok_0;
    lemma_virtio(nodes, s2, arch);
    let (_, s3) = virtio_step(s2, arch)->Ok_0;
    lemma_bridge_regions(s3);
    lemma_find_prefixed(s3.children, "pcie@"@, 0);
    let c = s3.children[find_prefixed(s3.children, "pcie@"@, 0)->0];
    assert(s3.children.contains(c));
    assert(nodes.contains(c));
    law_bridge_is_what_its_node_says(c, s3.topology);
    let k = s3.regions.len() as int;
    assert(m.regions.contains(m.regions[k]) && m.regions.contains(m.regions[k + 1]));
}

/// The serial port of a surveyed machine comes from a node of the tree, and its
/// window is in the plan.
pub proof fn law_serial_port_has_node_and_window(root: Node, arch: Arch)
    requires
        surveyed(root, arch) is Ok,
        (surveyed(root, arch)->Ok_0).uart is Some,
    ensures
        ({
            let m = surveyed(root, arch)->Ok_0;
            let u = m.uart->0;
            &&& exists|c: Node| #[trigger]
                root.children@.contains(c) && has_prefix(c.name@, "serial@"@) && reg_says(
                    c,
                    0,
                    u.base,
                    u.size,
                ) && cell_says(c, "reg-shift"@, u.reg_shift) && match arch {
                    Arch::Aarch64 => 8 <= value_of(c, "interrupts"@).len() && u.irq == big_endian(
                        value_of(c, "interrupts"@).subrange(4, 8),
                    ),
                    Arch::X86_64 => 4 <= value_of(c, "interrupts"@).len() && u.irq == big_endian(
                        value_of(c, "interrupts"@).subrange(0, 4),
                    ),
                }
            &&& m.regions.contains(
                RegionView {
                    gpa: u.base,
                    size: u.size,
                    kind: RegionKind::Mmio,
                    node: "/serial"@,
                    prop: "reg"@,
                },
            )
        }),
{
    let nodes = root.children@;
    let m = surveyed(root, arch)->Ok_0;
    lemma_substrate(nodes, fresh(root), arch);
    let (_, _, s1) = substrate_step(fresh(root), arch)->Ok_0;
    lemma_find_prefixed(s1.children, "serial@"@, 0);
    let c = s1.children[find_prefixed(s1.children, "serial@"@, 0)->0];
    assert(s1.children.contains(c));
    assert(nodes.contains(c));
    law_serial_port_is_what_its_node_says(c, arch, s1.topology);
    lemma_uart(nodes, s1, arch);
    let (_, s2) = uart_step(s1, arch)->Ok_0;
    let u = m.uart->0;
    let window = s2.regions[s1.regions.len() as int];
    assert(s2.regions.contains(window));
    lemma_slots(nodes, s2, arch);
    let (_, s3) = virtio_claims(s2, arch)->Ok_0;
    lemma_begins(s3.regions, s2.regions, window);
    lemma_bridge_regions(s3);
    lemma_begins(m.regions, s3.regions, window);
}

/// How many regions the plan of a surveyed machine has: three for a GIC with its
/// message frame, two for the APICs, one for each power action, for the serial port
/// and for each slot, and two for a host bridge.
pub proof fn law_plan_has_one_region_to_a_window(root: Node, arch: Arch)
    requires
        surveyed(root, arch) is Ok,
    ensures
        ({
            let m = surveyed(root, arch)->Ok_0;
            let one = |yes: bool|
                if yes {
                    1int
                } else {
                    0int
                };
            &&& m.arch == arch
            &&& m.regions.len() == m.virtio_mmio.len() + one(m.uart is Some) + 2 * one(m.has_pcie)
                + match arch {
                Arch::Aarch64 => 3int,
                Arch::X86_64 => 3 + one(m.reboot is Some),
            }
            &&& arch is Aarch64 ==> m.poweroff is None && m.reboot is None
            &&& arch is X86_64 ==> m.poweroff is Some
        }),
{
    let nodes = root.children@;
    let m = surveyed(root, arch)->Ok_0;
    let s0 = fresh(root);
    lemma_substrate(nodes, s0, arch);
    let (_, _, s1) = substrate_step(s0, arch)->Ok_0;
    lemma_uart(nodes, s1, arch);
    let (_, s2) = uart_step(s1, arch)->Ok_0;
    lemma_slots(nodes, s2, arch);
    let (slots, s3) = virtio_claims(s2, arch)->Ok_0;
    law_slots_are_sorted(slots);
    broadcast use vstd::seq_lib::group_to_multiset_ensures;

    assert(sorted_slots(slots).to_multiset().len() == slots.to_multiset().len());
    lemma_bridge_regions(s3);
}

/// The first regions of a plan are those of the interrupt controllers: on one
/// architecture the distributor, the redistributor and the message frame, on the
/// other the local APIC and the IO-APIC.
pub proof fn law_plan_starts_with_the_controllers(root: Node, arch: Arch)
    requires
        surveyed(root, arch) is Ok,
    ensures
        ({
            let regions = (surveyed(root, arch)->Ok_0).regions;
            let nodes = root.children@;
            match arch {
                Arch::Aarch64 => {
                    &&& exists|c: Node| #[trigger]
                        nodes.contains(c) && has_prefix(c.name@, "interrupt-controller@"@)
                            && reg_says(c, 0, regions[0].gpa, regions[0].size) && reg_says(
                            c,
                            1,
                            regions[1].gpa,
                            regions[1].size,
                        )
                    &&& exists|c: Node| #[trigger]
                        nodes.contains(c) && has_prefix(c.name@, "msi-controller@"@) && reg_says(
                            c,
                            0,
                            regions[2].gpa,
                            regions[2].size,
                        )
                    &&& forall|i: int|
                        0 <= i < 3 ==> (#[trigger] regions[i]).kind == RegionKind::SubstrateMmio
                },
                Arch::X86_64 => forall|i: int|
                    0 <= i < 2 ==> (#[trigger] regions[i]).kind == RegionKind::SubstrateMmio
                        && apic_has_node(nodes, regions[i], i),
            }
        }),
{
    let nodes = root.children@;
    let m = surveyed(root, arch)->Ok_0;
    let s0 = fresh(root);
    assert(on_track(nodes, s0));
    lemma_substrate(nodes, s0, arch);
    let (_, _, s1) = substrate_step(s0, arch)->Ok_0;
    lemma_rest_of_plan(root, arch);
    match arch {
        Arch::Aarch64 => {
            lemma_find_prefixed(s0.children, "interrupt-controller@"@, 0);
            let c = s0.children[find_prefixed(s0.children, "interrupt-controller@"@, 0)->0];
            assert(nodes.contains(c));
            law_gic_is_what_its_node_says(c);
            let (g, t) = gic_intc_step(s0)->Ok_0;
            lemma_find_prefixed(t.children, "msi-controller@"@, 0);
            let k = find_prefixed(t.children, "msi-controller@"@, 0)->0;
            let d = t.children[k];
            let at = find_prefixed(s0.children, "interrupt-controller@"@, 0)->0;
            assert(d == s0.children[if k < at {
                k
            } else {
                k + 1
            }]);
            assert(nodes.contains(d));
            law_frame_is_what_its_node_says(d);
            assert(s1.regions.len() == 3);
            assert(m.regions.take(3) == s1.regions);
            assert(m.regions.take(3)[0] == m.regions[0] && m.regions.take(3)[1] == m.regions[1]
                && m.regions.take(3)[2] == m.regions[2]);
        },
        Arch::X86_64 => {
            lemma_apic(nodes, s0, "intel,ce4100-lapic"@, "/lapic"@, ControllerKind::Lapic);
            let (_, t) = intc_one_step(
                s0,
                "intel,ce4100-lapic"@,
                "/lapic"@,
                ControllerKind::Lapic,
            )->Ok_0;
            lemma_apic(nodes, t, "intel,ce4100-ioapic"@, "/ioapic"@, ControllerKind::IoApic);
            let n: int = s1.regions.len() as int;
            assert(m.regions.take(n) == s1.regions);
            assert(m.regions.take(n)[0] == m.regions[0] && m.regions.take(n)[1] == m.regions[1]);
        },
    }
}

/// Whether a region is the window of the local APIC, which comes first, or of the
/// IO-APIC, as a node with the right `compatible` string says.
pub open spec fn apic_has_node(nodes: Seq<Node>, r: RegionView, i: int) -> bool {
    exists|c: Node| #[trigger]
        nodes.contains(c) && has_prefix(c.name@, "interrupt-controller@"@) && reg_says(
            c,
            0,
            r.gpa,
            r.size,
        ) && property_of(c.properties@, "compatible"@) is Some && str_of(
            value_of(c, "compatible"@),
        ) == Some(
            if i == 0 {
                "intel,ce4100-lapic"@
            } else {
                "intel,ce4100-ioapic"@
            },
        )
}

proof fn lemma_apic(
    nodes: Seq<Node>,
    s: SurveyState,
    compat: Seq<char>,
    path: Seq<char>,
    kind: ControllerKind,
)
    requires
        forall|c: Node| #[trigger] s.children.contains(c) ==> nodes.contains(c),
        intc_one_step(s, compat, path, kind) is Ok,
        compat == "intel,ce4100-lapic"@ || compat == "intel,ce4100-ioapic"@,
    ensures
        ({
            let (region, next) = intc_one_step(s, compat, path, kind)->Ok_0;
            let i: int = if compat == "intel,ce4100-lapic"@ {
                0
            } else {
                1
            };
            &&& next.regions.len() == s.regions.len() + 1
            &&& next.regions.take(s.regions.len() as int) == s.regions
            &&& apic_has_node(nodes, next.regions.last(), i)
            &&& next.regions.last().kind == RegionKind::SubstrateMmio
            &&& forall|c: Node| #[trigger] next.children.contains(c) ==> nodes.contains(c)
        }),
{
    lemma_find_intc(s.children, compat, 0);
    let at = find_intc(s.children, compat, 0)->0;
    let c = s.children[at];
    assert(s.children.contains(c));
    assert(nodes.contains(c));
    law_apic_is_what_its_node_says(c, path);
    let (region, next) = intc_one_step(s, compat, path, kind)->Ok_0;
    assert(next.regions.take(s.regions.len() as int) =~= s.regions);
    reveal_strlit("intel,ce4100-lapic");
    reveal_strlit("intel,ce4100-ioapic");
    assert("intel,ce4100-lapic"@.len() != "intel,ce4100-ioapic"@.len());
    assert forall|c: Node| #[trigger] next.children.contains(c) implies nodes.contains(c) by {
        let k = choose|k: int| 0 <= k < next.children.len() && next.children[k] == c;
        assert(s.children[if k < at {
            k
        } else {
            k + 1
        }] == c);
        assert(s.children.contains(c));
    }
}

/// What the other devices add to a plan stands behind the substrate.
proof fn lemma_rest_of_plan(root: Node, arch: Arch)
    requires
        surveyed(root, arch) is Ok,
    ensures
        begins(
            (surveyed(root, arch)->Ok_0).regions,
            (substrate_step(fresh(root), arch)->Ok_0).2.regions,
        ),
{
    let nodes = root.children@;
    let m = surveyed(root, arch)->Ok_0;
    lemma_substrate(nodes, fresh(root), arch);
    let (_, _, s1) = substrate_step(fresh(root), arch)->Ok_0;
    lemma_uart(nodes, s1, arch);
    let (_, s2) = uart_step(s1, arch)->Ok_0;
    assert(s2.regions.take(s1.regions.len() as int) =~= s1.regions);
    lemma_slots(nodes, s2, arch);
    let (_, s3) = virtio_claims(s2, arch)->Ok_0;
    lemma_bridge_regions(s3);
    let n: int = s1.regions.len() as int;
    assert(m.regions.take(n) =~= m.regions.take(s3.regions.len() as int).take(n));
    assert(s3.regions.take(n) =~= s3.regions.take(s2.regions.len() as int).take(n));
}

/// Whether a power action comes from a node of the list: it is triggered by the
/// value of the node, in the low byte at the start of the window.
pub open spec fn action_has_node(
    nodes: Seq<Node>,
    regions: Seq<RegionView>,
    prefix: Seq<char>,
    a: Syscon,
) -> bool {
    &&& a.offset == 0
    &&& a.mask == 0xff
    &&& exists|c: Node, size: u64|
        nodes.contains(c) && has_prefix(c.name@, prefix) && #[trigger] reg_says(c, 0, a.base, size)
            && cell_says(c, "value"@, a.value) && planned(regions, a.base, size)
}

/// Whether a plan has a device window at this address and of this size.
pub open spec fn planned(regions: Seq<RegionView>, base: u64, size: u64) -> bool {
    exists|i: int|
        0 <= i < regions.len() && (#[trigger] regions[i]).gpa == base && regions[i].size == size
            && regions[i].kind == RegionKind::Mmio
}

proof fn lemma_action(
    nodes: Seq<Node>,
    s: SurveyState,
    prefix: Seq<char>,
    compat: Seq<char>,
    path: Seq<char>,
)
    requires
        forall|c: Node| #[trigger] s.children.contains(c) ==> nodes.contains(c),
        syscon_step(s, prefix, compat, path) is Ok,
    ensures
        ({
            let (a, next) = syscon_step(s, prefix, compat, path)->Ok_0;
            &&& a matches Some(a) ==> action_has_node(nodes, next.regions, prefix, a)
            &&& begins(next.regions, s.regions)
            &&& forall|c: Node| #[trigger] next.children.contains(c) ==> nodes.contains(c)
        }),
{
    let (a, next) = syscon_step(s, prefix, compat, path)->Ok_0;
    assert(next.regions.take(s.regions.len() as int) =~= s.regions);
    if find_prefixed(s.children, prefix, 0) is Some {
        lemma_find_prefixed(s.children, prefix, 0);
        let at = find_prefixed(s.children, prefix, 0)->0;
        let c = s.children[at];
        assert(s.children.contains(c));
        assert(nodes.contains(c));
        law_power_action_is_what_its_node_says(c, compat, path);
        let (region, value) = syscon_node(c, compat, path)->Ok_0;
        assert(next.regions[s.regions.len() as int].gpa == region.base);
        assert(planned(next.regions, region.base, region.size));
        assert(a->0 == Syscon { base: region.base, offset: 0, value, mask: 0xff });
        assert(reg_says(c, 0, a->0.base, region.size) && cell_says(c, "value"@, a->0.value));
        assert(has_prefix(c.name@, prefix));
        assert(action_has_node(nodes, next.regions, prefix, a->0));
        assert forall|c: Node| #[trigger] next.children.contains(c) implies nodes.contains(c) by {
            let k = choose|k: int| 0 <= k < next.children.len() && next.children[k] == c;
            assert(s.children[if k < at {
                k
            } else {
                k + 1
            }] == c);
            assert(s.children.contains(c));
        }
    }
}

proof fn lemma_action_stays(
    nodes: Seq<Node>,
    whole: Seq<RegionView>,
    part: Seq<RegionView>,
    prefix: Seq<char>,
    a: Syscon,
)
    requires
        begins(whole, part),
        action_has_node(nodes, part, prefix, a),
    ensures
        action_has_node(nodes, whole, prefix, a),
{
    let (c, size) = choose|c: Node, size: u64|
        nodes.contains(c) && has_prefix(c.name@, prefix) && #[trigger] reg_says(c, 0, a.base, size)
            && cell_says(c, "value"@, a.value) && planned(part, a.base, size);
    let i = choose|i: int|
        0 <= i < part.len() && (#[trigger] part[i]).gpa == a.base && part[i].size == size
            && part[i].kind == RegionKind::Mmio;
    assert(whole.take(part.len() as int)[i] == whole[i]);
    assert(whole[i].gpa == a.base);
    assert(reg_says(c, 0, a.base, size));
}

/// The power actions of a surveyed machine come from the nodes of the tree, and
/// their windows are in the plan.
pub proof fn law_power_actions_have_nodes_and_windows(root: Node, arch: Arch)
    requires
        surveyed(root, arch) is Ok,
    ensures
        ({
            let m = surveyed(root, arch)->Ok_0;
            &&& m.poweroff matches Some(a) ==> action_has_node(
                root.children@,
                m.regions,
                "poweroff@"@,
                a,
            )
            &&& m.reboot matches Some(a) ==> action_has_node(
                root.children@,
                m.regions,
                "reboot@"@,
                a,
            )
        }),
{
    let nodes = root.children@;
    let m = surveyed(root, arch)->Ok_0;
    let s0 = fresh(root);
    if arch is X86_64 {
        lemma_apic(nodes, s0, "intel,ce4100-lapic"@, "/lapic"@, ControllerKind::Lapic);
        let (_, t) = intc_one_step(
            s0,
            "intel,ce4100-lapic"@,
            "/lapic"@,
            ControllerKind::Lapic,
        )->Ok_0;
        lemma_apic(nodes, t, "intel,ce4100-ioapic"@, "/ioapic"@, ControllerKind::IoApic);
        let (_, _, u) = x86_intc_step(s0)->Ok_0;
        lemma_action(nodes, u, "poweroff@"@, "syscon-poweroff"@, "/poweroff"@);
        let (off, v) = syscon_step(u, "poweroff@"@, "syscon-poweroff"@, "/poweroff"@)->Ok_0;
        lemma_action(nodes, v, "reboot@"@, "syscon-reboot"@, "/reboot"@);
        let (re, w) = syscon_step(v, "reboot@"@, "syscon-reboot"@, "/reboot"@)->Ok_0;
        lemma_action_stays(nodes, w.regions, v.regions, "poweroff@"@, off->0);
        lemma_rest_of_plan(root, arch);
        lemma_action_stays(nodes, m.regions, w.regions, "poweroff@"@, off->0);
        if re is Some {
            lemma_action_stays(nodes, m.regions, w.regions, "reboot@"@, re->0);
        }
    }
}

/// Whether a controller comes from a node of the list, by its phandle and the cells
/// of a specifier.
pub open spec fn controller_has_node(nodes: Seq<Node>, x: ControllerView) -> bool {
    exists|c: Node| #[trigger]
        nodes.contains(c) && has_prefix(c.name@, "interrupt-controller@"@) && cell_says(
            c,
            "phandle"@,
            x.phandle,
        ) && cell_says(c, "#interrupt-cells"@, x.interrupt_cells)
}

/// Whether a message controller comes from a node of the list, by its phandle.
pub open spec fn msi_controller_has_node(nodes: Seq<Node>, x: MsiControllerView) -> bool {
    exists|c: Node| #[trigger]
        nodes.contains(c) && has_prefix(c.name@, "msi-controller@"@) && cell_says(
            c,
            "phandle"@,
            x.phandle,
        ) && x.node == seq!['/'] + c.name@
}

spec fn controllers_have_nodes(nodes: Seq<Node>, topology: TopologyView) -> bool {
    &&& forall|x: ControllerView| #[trigger]
        topology.interrupt.contains(x) ==> controller_has_node(nodes, x)
    &&& forall|x: MsiControllerView| #[trigger]
        topology.msi.contains(x) ==> msi_controller_has_node(nodes, x)
}

proof fn lemma_more_controllers(
    nodes: Seq<Node>,
    before: TopologyView,
    x: ControllerView,
    after: TopologyView,
)
    requires
        controllers_have_nodes(nodes, before),
        controller_has_node(nodes, x),
        after.interrupt == before.interrupt.push(x),
        after.msi == before.msi,
    ensures
        controllers_have_nodes(nodes, after),
{
    assert forall|y: ControllerView| #[trigger]
        after.interrupt.contains(y) implies controller_has_node(nodes, y) by {
        let k = choose|k: int| 0 <= k < after.interrupt.len() && after.interrupt[k] == y;
        if k < before.interrupt.len() {
            assert(before.interrupt[k] == y);
            assert(before.interrupt.contains(y));
        }
    }
}

proof fn lemma_apic_controller(
    nodes: Seq<Node>,
    s: SurveyState,
    compat: Seq<char>,
    path: Seq<char>,
    kind: ControllerKind,
)
    requires
        forall|c: Node| #[trigger] s.children.contains(c) ==> nodes.contains(c),
        controllers_have_nodes(nodes, s.topology),
        intc_one_step(s, compat, path, kind) is Ok,
    ensures
        controllers_have_nodes(nodes, (intc_one_step(s, compat, path, kind)->Ok_0).1.topology),
{
    lemma_find_intc(s.children, compat, 0);
    let c = s.children[find_intc(s.children, compat, 0)->0];
    assert(s.children.contains(c));
    assert(nodes.contains(c));
    law_apic_is_what_its_node_says(c, path);
    let (_, next) = intc_one_step(s, compat, path, kind)->Ok_0;
    let x = next.topology.interrupt.last();
    assert(controller_has_node(nodes, x));
    lemma_more_controllers(nodes, s.topology, x, next.topology);
}

proof fn lemma_controllers(root: Node, arch: Arch)
    requires
        surveyed(root, arch) is Ok,
    ensures
        controllers_have_nodes(
            root.children@,
            (substrate_step(fresh(root), arch)->Ok_0).2.topology,
        ),
{
    let nodes = root.children@;
    let s0 = fresh(root);
    assert(controllers_have_nodes(nodes, s0.topology));
    match arch {
        Arch::Aarch64 => {
            let at = find_prefixed(s0.children, "interrupt-controller@"@, 0)->0;
            lemma_find_prefixed(s0.children, "interrupt-controller@"@, 0);
            let c = s0.children[at];
            assert(nodes.contains(c));
            law_gic_is_what_its_node_says(c);
            let (g, t) = gic_intc_step(s0)->Ok_0;
            assert(controller_has_node(nodes, t.topology.interrupt.last()));
            lemma_more_controllers(
                nodes,
                s0.topology,
                t.topology.interrupt.last(),
                t.topology,
            );
            lemma_find_prefixed(t.children, "msi-controller@"@, 0);
            let k = find_prefixed(t.children, "msi-controller@"@, 0)->0;
            let d = t.children[k];
            assert(d == s0.children[if k < at {
                k
            } else {
                k + 1
            }]);
            assert(nodes.contains(d));
            law_frame_is_what_its_node_says(d);
            let (_, u) = gic_frame_step(t)->Ok_0;
            reveal_strlit("/");
            assert("/"@ =~= seq!['/']);
            assert(msi_controller_has_node(nodes, u.topology.msi[0]));
            assert(u.topology.msi.len() == 1);
            assert forall|x: MsiControllerView| #[trigger]
                u.topology.msi.contains(x) implies msi_controller_has_node(nodes, x) by {
                let k = choose|k: int| 0 <= k < u.topology.msi.len() && u.topology.msi[k] == x;
            }
        },
        Arch::X86_64 => {
            lemma_apic_controller(
                nodes,
                s0,
                "intel,ce4100-lapic"@,
                "/lapic"@,
                ControllerKind::Lapic,
            );
            lemma_apic(nodes, s0, "intel,ce4100-lapic"@, "/lapic"@, ControllerKind::Lapic);
            let (_, t) = intc_one_step(
                s0,
                "intel,ce4100-lapic"@,
                "/lapic"@,
                ControllerKind::Lapic,
            )->Ok_0;
            lemma_apic_controller(
                nodes,
                t,
                "intel,ce4100-ioapic"@,
                "/ioapic"@,
                ControllerKind::IoApic,
            );
        },
    }
}

proof fn lemma_slot_controllers(nodes: Seq<Node>, s: SurveyState, arch: Arch)
    requires
        controllers_have_nodes(nodes, s.topology),
    ensures
        virtio_claims(s, arch) matches Ok((slots, next)) ==> next.topology == s.topology
            && forall|v: VirtioMmioView| #[trigger]
            slots.contains(v) ==> controller_has_node(nodes, v.interrupt.controller),
    decreases s.children.len(),
{
    if virtio_claims(s, arch) is Ok && find_prefixed(s.children, "virtio_mmio@"@, 0) is Some {
        lemma_find_prefixed(s.children, "virtio_mmio@"@, 0);
        let i = find_prefixed(s.children, "virtio_mmio@"@, 0)->0;
        let n = s.children[i];
        let v = virtio_node(n, arch, s.topology)->Ok_0;
        let mid = SurveyState {
            children: s.children.remove(i),
            regions: s.regions.push(slot_window(v)),
            topology: s.topology,
        };
        law_slot_is_what_its_node_says(n, arch, s.topology);
        lemma_slot_controllers(nodes, mid, arch);
        let (rest, next) = virtio_claims(mid, arch)->Ok_0;
        let slots = seq![v] + rest;
        assert(virtio_claims(s, arch)->Ok_0 == (slots, next));
        assert forall|w: VirtioMmioView| #[trigger]
            slots.contains(w) implies controller_has_node(nodes, w.interrupt.controller) by {
            let k = choose|k: int| 0 <= k < slots.len() && slots[k] == w;
            if k > 0 {
                assert(rest[k - 1] == w);
                assert(rest.contains(w));
            }
        }
    }
}

/// The interrupts of a surveyed machine go to controllers of the tree: those of the
/// serial port and the slots to a node with the phandle that they name, the messages
/// of the host bridge to a frame with the phandle that it names.
pub proof fn law_interrupts_go_to_nodes_of_the_tree(root: Node, arch: Arch)
    requires
        surveyed(root, arch) is Ok,
    ensures
        ({
            let m = surveyed(root, arch)->Ok_0;
            let nodes = root.children@;
            &&& m.uart matches Some(u) ==> controller_has_node(nodes, u.interrupt.controller)
            &&& forall|i: int|
                0 <= i < m.virtio_mmio.len() ==> controller_has_node(
                    nodes,
                    (#[trigger] m.virtio_mmio[i]).interrupt.controller,
                )
            &&& m.has_pcie && m.pcie.msi is Some ==> msi_controller_has_node(
                nodes,
                m.pcie.msi->0.controller,
            )
            &&& m.has_pcie && arch is Aarch64 ==> m.pcie.msi is Some
        }),
{
    let nodes = root.children@;
    let m = surveyed(root, arch)->Ok_0;
    lemma_controllers(root, arch);
    lemma_substrate(nodes, fresh(root), arch);
    let (_, _, s1) = substrate_step(fresh(root), arch)->Ok_0;
    lemma_find_prefixed(s1.children, "serial@"@, 0);
    if m.uart is Some {
        let c = s1.children[find_prefixed(s1.children, "serial@"@, 0)->0];
        law_serial_port_is_what_its_node_says(c, arch, s1.topology);
    }
    let (_, s2) = uart_step(s1, arch)->Ok_0;
    lemma_slot_controllers(nodes, s2, arch);
    let (slots, s3) = virtio_claims(s2, arch)->Ok_0;
    law_slots_are_sorted(slots);
    assert forall|i: int| 0 <= i < m.virtio_mmio.len() implies controller_has_node(
        nodes,
        (#[trigger] m.virtio_mmio[i]).interrupt.controller,
    ) by {
        broadcast use vstd::seq_lib::group_to_multiset_ensures;

        let v = m.virtio_mmio[i];
        assert(sorted_slots(slots).contains(v));
        assert(sorted_slots(slots).to_multiset().count(v) > 0);
        assert(slots.contains(v));
    }
    if m.has_pcie {
        let c = s3.children[find_prefixed(s3.children, "pcie@"@, 0)->0];
        law_bridge_is_what_its_node_says(c, s3.topology);
    }
}

/// A serial node, of the right kind, has no children and no properties but those that are known of it.
pub proof fn law_serial_node_has_nothing_else(n: Node, arch: Arch, topology: TopologyView, p: Property)
    requires
        n.properties@.contains(p),
    ensures
        uart_node(n, arch, topology) is Ok ==> {
            &&& str_of(value_of(n, "compatible"@)) == Some("ns16550a"@)
            &&& n.children@.len() == 0
            &&& p.name@ == "compatible"@ || p.name@ == "reg"@ || p.name@ == "reg-shift"@
                || p.name@ == "interrupt-parent"@ || p.name@ == "interrupts"@
                || p.name@ == "reg-io-width"@ || p.name@ == "clock-frequency"@
                || p.name@ == "current-speed"@
        },
{
    if uart_node(n, arch, topology) is Ok && p.name@ != "compatible"@ && p.name@ != "reg"@
        && p.name@ != "reg-shift"@ && p.name@ != "interrupt-parent"@ && p.name@ != "interrupts"@
        && p.name@ != "reg-io-width"@ && p.name@ != "clock-frequency"@
        && p.name@ != "current-speed"@ {
        let a0 = n.properties@;
        lemma_without_keeps(a0, "compatible"@, p);
        let a1 = without_property(a0, "compatible"@);
        lemma_without_keeps(a1, "reg"@, p);
        let a2 = without_property(a1, "reg"@);
        lemma_without_keeps(a2, "reg-shift"@, p);
        let a3 = without_property(a2, "reg-shift"@);
        lemma_without_keeps(a3, "interrupt-parent"@, p);
        let a4 = without_property(a3, "interrupt-parent"@);
        lemma_without_keeps(a4, "interrupts"@, p);
        let a5 = without_property(a4, "interrupts"@);
        lemma_without_keeps(a5, "reg-io-width"@, p);
        let a6 = without_property(a5, "reg-io-width"@);
        lemma_without_keeps(a6, "clock-frequency"@, p);
        let a7 = without_property(a6, "clock-frequency"@);
        lemma_without_keeps(a7, "current-speed"@, p);
        let a8 = without_property(a7, "current-speed"@);
        assert(a8.contains(p));
        assert(a8.len() == 0);
    }
}

/// A virtio-mmio node, of the right kind, has no children and no properties but those that are known of it.
pub proof fn law_slot_node_has_nothing_else(n: Node, arch: Arch, topology: TopologyView, p: Property)
    requires
        n.properties@.contains(p),
    ensures
        virtio_node(n, arch, topology) is Ok ==> {
            &&& str_of(value_of(n, "compatible"@)) == Some("virtio,mmio"@)
            &&& n.children@.len() == 0
            &&& p.name@ == "compatible"@ || p.name@ == "reg"@ || p.name@ == "interrupt-parent"@
                || p.name@ == "interrupts"@
        },
{
    if virtio_node(n, arch, topology) is Ok && p.name@ != "compatible"@ && p.name@ != "reg"@
        && p.name@ != "interrupt-parent"@ && p.name@ != "interrupts"@ {
        let a0 = n.properties@;
        lemma_without_keeps(a0, "compatible"@, p);
        let a1 = without_property(a0, "compatible"@);
        lemma_without_keeps(a1, "reg"@, p);
        let a2 = without_property(a1, "reg"@);
        lemma_without_keeps(a2, "interrupt-parent"@, p);
        let a3 = without_property(a2, "interrupt-parent"@);
        lemma_without_keeps(a3, "interrupts"@, p);
        let a4 = without_property(a3, "interrupts"@);
        assert(a4.contains(p));
        assert(a4.len() == 0);
    }
}

/// A host bridge node, of the right kind, has no children and no properties but those that are known of it.
pub proof fn law_bridge_node_has_nothing_else(n: Node, topology: TopologyView, p: Property)
    requires
        n.properties@.contains(p),
    ensures
        pcie_node(n, topology) is Ok ==> {
            &&& str_of(value_of(n, "compatible"@)) == Some("pci-host-ecam-generic"@)
            &&& n.children@.len() == 0
            &&& p.name@ == "compatible"@ || p.name@ == "reg"@ || p.name@ == "ranges"@
                || p.name@ == "bus-range"@ || p.name@ == "device_type"@
                || p.name@ == "#address-cells"@ || p.name@ == "#size-cells"@
                || p.name@ == "dma-coherent"@ || p.name@ == "msi-parent"@
        },
{
    if pcie_node(n, topology) is Ok && p.name@ != "compatible"@ && p.name@ != "reg"@
        && p.name@ != "ranges"@ && p.name@ != "bus-range"@ && p.name@ != "device_type"@
        && p.name@ != "#address-cells"@ && p.name@ != "#size-cells"@ && p.name@ != "dma-coherent"@
        && p.name@ != "msi-parent"@ {
        let a0 = n.properties@;
        lemma_without_keeps(a0, "compatible"@, p);
        let a1 = without_property(a0, "compatible"@);
        lemma_without_keeps(a1, "reg"@, p);
        let a2 = without_property(a1, "reg"@);
        lemma_without_keeps(a2, "ranges"@, p);
        let a3 = without_property(a2, "ranges"@);
        lemma_without_keeps(a3, "bus-range"@, p);
        let a4 = without_property(a3, "bus-range"@);
        lemma_without_keeps(a4, "device_type"@, p);
        let a5 = without_property(a4, "device_type"@);
        lemma_without_keeps(a5, "#address-cells"@, p);
        let a6 = without_property(a5, "#address-cells"@);
        lemma_without_keeps(a6, "#size-cells"@, p);
        let a7 = without_property(a6, "#size-cells"@);
        lemma_without_keeps(a7, "dma-coherent"@, p);
        let a8 = without_property(a7, "dma-coherent"@);
        lemma_without_keeps(a8, "msi-parent"@, p);
        let a9 = without_property(a8, "msi-parent"@);
        assert(a9.contains(p));
        assert(a9.len() == 0);
    }
}

/// A GICv3 node, of the right kind, has no children and no properties but those that are known of it.
pub proof fn law_gic_node_has_nothing_else(n: Node, p: Property)
    requires
        n.properties@.contains(p),
    ensures
        gic_node(n) is Ok ==> {
            &&& str_of(value_of(n, "compatible"@)) == Some("arm,gic-v3"@)
            &&& n.children@.len() == 0
            &&& p.name@ == "compatible"@ || p.name@ == "reg"@ || p.name@ == "#interrupt-cells"@
                || p.name@ == "interrupt-controller"@ || p.name@ == "phandle"@
        },
{
    if gic_node(n) is Ok && p.name@ != "compatible"@ && p.name@ != "reg"@
        && p.name@ != "#interrupt-cells"@ && p.name@ != "interrupt-controller"@
        && p.name@ != "phandle"@ {
        let a0 = n.properties@;
        lemma_without_keeps(a0, "compatible"@, p);
        let a1 = without_property(a0, "compatible"@);
        lemma_without_keeps(a1, "reg"@, p);
        let a2 = without_property(a1, "reg"@);
        lemma_without_keeps(a2, "#interrupt-cells"@, p);
        let a3 = without_property(a2, "#interrupt-cells"@);
        lemma_without_keeps(a3, "interrupt-controller"@, p);
        let a4 = without_property(a3, "interrupt-controller"@);
        lemma_without_keeps(a4, "phandle"@, p);
        let a5 = without_property(a4, "phandle"@);
        assert(a5.contains(p));
        assert(a5.len() == 0);
    }
}

/// A GICv2m frame node, of the right kind, has no children and no properties but those that are known of it.
pub proof fn law_frame_node_has_nothing_else(n: Node, p: Property)
    requires
        n.properties@.contains(p),
    ensures
        frame_node(n) is Ok ==> {
            &&& str_of(value_of(n, "compatible"@)) == Some("arm,gic-v2m-frame"@)
            &&& n.children@.len() == 0
            &&& p.name@ == "compatible"@ || p.name@ == "reg"@ || p.name@ == "arm,msi-base-spi"@
                || p.name@ == "arm,msi-num-spis"@ || p.name@ == "msi-controller"@
                || p.name@ == "phandle"@
        },
{
    if frame_node(n) is Ok && p.name@ != "compatible"@ && p.name@ != "reg"@
        && p.name@ != "arm,msi-base-spi"@ && p.name@ != "arm,msi-num-spis"@
        && p.name@ != "msi-controller"@ && p.name@ != "phandle"@ {
        let a0 = n.properties@;
        lemma_without_keeps(a0, "compatible"@, p);
        let a1 = without_property(a0, "compatible"@);
        lemma_without_keeps(a1, "reg"@, p);
        let a2 = without_property(a1, "reg"@);
        lemma_without_keeps(a2, "arm,msi-base-spi"@, p);
        let a3 = without_property(a2, "arm,msi-base-spi"@);
        lemma_without_keeps(a3, "arm,msi-num-spis"@, p);
        let a4 = without_property(a3, "arm,msi-num-spis"@);
        lemma_without_keeps(a4, "msi-controller"@, p);
        let a5 = without_property(a4, "msi-controller"@);
        lemma_without_keeps(a5, "phandle"@, p);
        let a6 = without_property(a5, "phandle"@);
        assert(a6.contains(p));
        assert(a6.len() == 0);
    }
}

/// An APIC node has no children and no properties but those that are known of it.
pub proof fn law_apic_node_has_nothing_else(n: Node, path: Seq<char>, p: Property)
    requires
        n.properties@.contains(p),
    ensures
        intc_node(n, path) is Ok ==> {
            &&& n.children@.len() == 0
            &&& p.name@ == "compatible"@ || p.name@ == "reg"@ || p.name@ == "#interrupt-cells"@
                || p.name@ == "interrupt-controller"@ || p.name@ == "phandle"@
        },
{
    if intc_node(n, path) is Ok && p.name@ != "compatible"@ && p.name@ != "reg"@
        && p.name@ != "#interrupt-cells"@ && p.name@ != "interrupt-controller"@
        && p.name@ != "phandle"@ {
        let a0 = n.properties@;
        lemma_without_keeps(a0, "compatible"@, p);
        let a1 = without_property(a0, "compatible"@);
        lemma_without_keeps(a1, "reg"@, p);
        let a2 = without_property(a1, "reg"@);
        lemma_without_keeps(a2, "#interrupt-cells"@, p);
        let a3 = without_property(a2, "#interrupt-cells"@);
        lemma_without_keeps(a3, "interrupt-controller"@, p);
        let a4 = without_property(a3, "interrupt-controller"@);
        lemma_without_keeps(a4, "phandle"@, p);
        let a5 = without_property(a4, "phandle"@);
        assert(a5.contains(p));
        assert(a5.len() == 0);
    }
}

/// A power node, of the right kind, has no children and no properties but those that are known of it.
pub proof fn law_power_node_has_nothing_else(n: Node, compat: Seq<char>, path: Seq<char>, p: Property)
    requires
        n.properties@.contains(p),
    ensures
        syscon_node(n, compat, path) is Ok ==> {
            &&& str_of(value_of(n, "compatible"@)) == Some(compat)
            &&& n.children@.len() == 0
            &&& p.name@ == "compatible"@ || p.name@ == "reg"@ || p.name@ == "value"@
        },
{
    if syscon_node(n, compat, path) is Ok && p.name@ != "compatible"@ && p.name@ != "reg"@
        && p.name@ != "value"@ {
        let a0 = n.properties@;
        lemma_without_keeps(a0, "compatible"@, p);
        let a1 = without_property(a0, "compatible"@);
        lemma_without_keeps(a1, "reg"@, p);
        let a2 = without_property(a1, "reg"@);
        lemma_without_keeps(a2, "value"@, p);
        let a3 = without_property(a2, "value"@);
        assert(a3.contains(p));
        assert(a3.len() == 0);
    }
}

/// A timer node, of the right kind, has no children and no properties but those that are known of it.
pub proof fn law_timer_node_has_nothing_else(n: Node, topology: TopologyView, p: Property)
    requires
        n.properties@.contains(p),
    ensures
        timer_node(n, topology) is Ok ==> {
            &&& str_of(value_of(n, "compatible"@)) == Some("arm,armv8-timer"@)
            &&& n.children@.len() == 0
            &&& p.name@ == "compatible"@ || p.name@ == "interrupt-parent"@
                || p.name@ == "interrupts"@ || p.name@ == "always-on"@
        },
{
    if timer_node(n, topology) is Ok && p.name@ != "compatible"@ && p.name@ != "interrupt-parent"@
        && p.name@ != "interrupts"@ && p.name@ != "always-on"@ {
        let a0 = n.properties@;
        lemma_without_keeps(a0, "compatible"@, p);
        let a1 = without_property(a0, "compatible"@);
        lemma_without_keeps(a1, "interrupt-parent"@, p);
        let a2 = without_property(a1, "interrupt-parent"@);
        lemma_without_keeps(a2, "interrupts"@, p);
        let a3 = without_property(a2, "interrupts"@);
        lemma_without_keeps(a3, "always-on"@, p);
        let a4 = without_property(a3, "always-on"@);
        assert(a4.contains(p));
        assert(a4.len() == 0);
    }
}

/// A firmware node has no children and no properties but those that are known of it.
pub proof fn law_firmware_node_has_nothing_else(n: Node, p: Property)
    requires
        n.properties@.contains(p),
    ensures
        psci_node(n) is Ok ==> {
            &&& n.children@.len() == 0
            &&& p.name@ == "compatible"@ || p.name@ == "method"@
        },
{
    if psci_node(n) is Ok && p.name@ != "compatible"@ && p.name@ != "method"@ {
        let a0 = n.properties@;
        lemma_without_keeps(a0, "compatible"@, p);
        let a1 = without_property(a0, "compatible"@);
        lemma_without_keeps(a1, "method"@, p);
        let a2 = without_property(a1, "method"@);
        assert(a2.contains(p));
        assert(a2.len() == 0);
    }
}

/// `/chosen` has no children and no properties but those that it may have, and is gone
/// once it is claimed; a tree without it stays as it is.
pub proof fn law_chosen_has_nothing_else(children: Seq<Node>, i: int, p: Property)
    requires
        chosen_step(children) is Ok,
        0 <= i < children.len(),
        find_child(children, "chosen"@, 0) == Some(i),
        children[i].properties@.contains(p),
    ensures
        children[i].children@.len() == 0,
        p.name@ == "bootargs"@ || p.name@ == "linux,initrd-start"@
            || p.name@ == "linux,initrd-end"@ || p.name@ == "stdout-path"@
            || p.name@ == "kaslr-seed"@,
        chosen_step(children)->Ok_0 == children.remove(i),
{
    if p.name@ != "bootargs"@ && p.name@ != "linux,initrd-start"@
        && p.name@ != "linux,initrd-end"@ && p.name@ != "stdout-path"@
        && p.name@ != "kaslr-seed"@ {
        let a0 = children[i].properties@;
        lemma_without_keeps(a0, "bootargs"@, p);
        let a1 = without_property(a0, "bootargs"@);
        lemma_without_keeps(a1, "linux,initrd-start"@, p);
        let a2 = without_property(a1, "linux,initrd-start"@);
        lemma_without_keeps(a2, "linux,initrd-end"@, p);
        let a3 = without_property(a2, "linux,initrd-end"@);
        lemma_without_keeps(a3, "stdout-path"@, p);
        let a4 = without_property(a3, "stdout-path"@);
        lemma_without_keeps(a4, "kaslr-seed"@, p);
        let a5 = without_property(a4, "kaslr-seed"@);
        assert(a5.contains(p));
        assert(a5.len() == 0);
    }
}

/// `/aliases` has no children and no properties but those that it may have, and is gone
/// once it is claimed; a tree without it stays as it is.
pub proof fn law_aliases_has_nothing_else(children: Seq<Node>, i: int, p: Property)
    requires
        aliases_step(children) is Ok,
        0 <= i < children.len(),
        find_child(children, "aliases"@, 0) == Some(i),
        children[i].properties@.contains(p),
    ensures
        children[i].children@.len() == 0,
        p.name@ == "serial0"@,
        aliases_step(children)->Ok_0 == children.remove(i),
{
    if p.name@ != "serial0"@ {
        let a0 = children[i].properties@;
        lemma_without_keeps(a0, "serial0"@, p);
        let a1 = without_property(a0, "serial0"@);
        assert(a1.contains(p));
        assert(a1.len() == 0);
    }
}

/// What is wrong with a property is told by the node, the property and the reason: it is
/// missing exactly where no property has the name, and bad where its bytes do not have
/// the form.
pub proof fn law_wrong_properties_are_named(
    props: Seq<Property>,
    name: Seq<char>,
    node: Seq<char>,
    reason: Seq<char>,
)
    ensures
        need(props, name, node) is Err <==> property_of(props, name) is None,
        need_u32(props, name, node) matches Err(e) ==> e == (if property_of(props, name) is None {
            SurveyErrorView::MissingProperty { node, prop: name }
        } else {
            SurveyErrorView::BadProperty { node, prop: name, reason: "expected single u32"@ }
        }),
        need_u32(props, name, node) is Ok <==> property_of(props, name) is Some && property_of(
            props,
            name,
        )->0.value@.len() == 4,
        need_reg(props, node, reason) matches Err(e) ==> e == (if property_of(
            props,
            "reg"@,
        ) is None {
            SurveyErrorView::MissingProperty { node, prop: "reg"@ }
        } else {
            SurveyErrorView::BadProperty { node, prop: "reg"@, reason }
        }),
        need_reg(props, node, reason) is Ok <==> property_of(props, "reg"@) is Some && property_of(
            props,
            "reg"@,
        )->0.value@.len() % 4 == 0 && property_of(props, "reg"@)->0.value@.len() >= 16,
{
    if property_of(props, "reg"@) is Some {
        law_pairs_are_big_endian(property_of(props, "reg"@)->0.value@, 0);
    }
}

/// A device names its controller by the phandle: one that no controller has is unknown,
/// and the first controller that has it must be of the right kind.
pub proof fn law_phandles_name_controllers(
    topology: TopologyView,
    phandle: u32,
    node: Seq<char>,
    prop: Seq<char>,
    kind: ControllerKind,
    k: int,
)
    requires
        0 <= k <= topology.interrupt.len(),
        forall|j: int| 0 <= j < k ==> (#[trigger] topology.interrupt[j]).phandle != phandle,
        k < topology.interrupt.len() ==> topology.interrupt[k].phandle == phandle,
    ensures
        controller_for(topology, phandle, node, prop, kind) == (if k == topology.interrupt.len() {
            Err(SurveyErrorView::UnknownPhandle { node, prop, phandle })
        } else if topology.interrupt[k].kind == kind {
            Ok(topology.interrupt[k])
        } else {
            Err(
                SurveyErrorView::UnexpectedController {
                    node,
                    prop,
                    actual: topology.interrupt[k].kind,
                    expected: kind,
                },
            )
        }),
{
    lemma_first_controller(topology.interrupt, phandle, k, 0);
}

proof fn lemma_first_controller(all: Seq<ControllerView>, phandle: u32, k: int, i: int)
    requires
        0 <= i <= k <= all.len(),
        forall|j: int| 0 <= j < k ==> (#[trigger] all[j]).phandle != phandle,
        k < all.len() ==> all[k].phandle == phandle,
    ensures
        find_controller(all, phandle, i) == (if k < all.len() {
            Some(all[k])
        } else {
            None
        }),
    decreases k - i,
{
    if i < k {
        lemma_first_controller(all, phandle, k, i + 1);
    }
}

/// What is left over is told by name: of the root its properties and its children, with
/// the properties of these, and of a claimed node its properties and its children.
pub proof fn law_report_names_what_is_left(
    name: Seq<char>,
    props: Seq<Property>,
    children: Seq<Node>,
    i: int,
    j: int,
)
    ensures
        residual(props, children) matches SurveyErrorView::Uncovered { props: left, nodes } && {
            &&& left.len() == props.len() && nodes.len() == children.len()
            &&& 0 <= i < props.len() ==> left[i] == props[i].name@
            &&& 0 <= j < children.len() ==> nodes[j].0 == children[j].name@ && nodes[j].1.len()
                == children[j].properties@.len()
            &&& 0 <= j < children.len() && 0 <= i < children[j].properties@.len()
                ==> nodes[j].1[i] == children[j].properties@[i].name@
        },
        drained(name, props, children) is Ok <==> props.len() == 0 && children.len() == 0,
        drained(name, props, children) matches Err(e) ==> (e matches SurveyErrorView::Leftover {
            node,
            props: left,
            children: kids,
        } && node == name && left.len() == props.len() && kids.len() == children.len() && (0 <= i
            < props.len() ==> left[i] == props[i].name@) && (0 <= j < children.len() ==> kids[j]
            == children[j].name@)),
{
}

/// What a firmware node says: the guest calls by `hvc` or by `smc`, as the text of
/// `method` is, and one of the `compatible` strings names a PSCI version.
pub proof fn law_firmware_is_what_its_node_says(n: Node)
    ensures
        psci_node(n) matches Ok(p) ==> {
            &&& property_of(n.properties@, "method"@) is Some
            &&& str_of(value_of(n, "method"@)) == Some(
                match p.method {
                    PsciMethod::Hvc => seq!['h', 'v', 'c'],
                    PsciMethod::Smc => seq!['s', 'm', 'c'],
                },
            )
            &&& property_of(n.properties@, "compatible"@) is Some
            &&& list_has_prefixed(
                value_of(n, "compatible"@),
                vstd::utf8::encode_utf8("arm,psci-"@),
            )
        },
{
    reveal_strlit("method");
    reveal_strlit("compatible");
    reveal_strlit("hvc");
    reveal_strlit("smc");
    assert("method"@.len() != "compatible"@.len());
    assert("hvc"@ =~= seq!['h', 'v', 'c']);
    assert("smc"@ =~= seq!['s', 'm', 'c']);
    law_other_properties_stay(n.properties@, "compatible"@, "method"@);
}

/// What a timer node says: its interrupts go to the GIC that it names, and are whole
/// specifiers of it.
pub proof fn law_timer_interrupts_are_whole(n: Node, topology: TopologyView)
    ensures
        timer_node(n, topology) is Ok ==> {
            &&& property_of(n.properties@, "interrupts"@) is Some
            &&& exists|c: ControllerView| #[trigger]
                topology.interrupt.contains(c) && cell_says(n, "interrupt-parent"@, c.phandle)
                    && c.kind == ControllerKind::GicV3 && c.interrupt_cells > 0 && value_of(
                    n,
                    "interrupts"@,
                ).len() % (4 * c.interrupt_cells as nat) == 0
        },
{
    if timer_node(n, topology) is Ok {
        lemma_names();
        let node = "/timer"@;
        let a = n.properties@;
        let b = without_property(a, "compatible"@);
        law_other_properties_stay(a, "compatible"@, "interrupt-parent"@);
        law_other_properties_stay(a, "compatible"@, "interrupts"@);
        law_other_properties_stay(b, "interrupt-parent"@, "interrupts"@);
        lemma_cell(n, b, "interrupt-parent"@, node);
        let (parent, rest) = need_u32(b, "interrupt-parent"@, node)->Ok_0;
        lemma_found_controller(topology.interrupt, parent, 0);
        let c = find_controller(topology.interrupt, parent, 0)->0;
        let bytes = value_of(n, "interrupts"@);
        assert(need(rest, "interrupts"@, node) is Ok);
        law_cells_are_big_endian(bytes, 0);
        let cells = cells_of(bytes)->0;
        let k = c.interrupt_cells as nat;
        assert(cells.len() % k == 0);
        assert(bytes.len() % (4 * k) == 0) by (nonlinear_arith)
            requires
                bytes.len() == 4 * cells.len(),
                cells.len() % k == 0,
                k > 0,
        {
            let q = cells.len() / k;
            assert(cells.len() == k * q);
            assert(bytes.len() == (4 * k) * q);
            assert(((4 * k) * q) % (4 * k) == 0);
        }
    }
}

/// Whether a name is that of a device rather than of the substrate, by its first letters.
spec fn device_name(name: Seq<char>) -> bool {
    &&& name.len() >= 2
    &&& name[0] == 's' || name[0] == 'v' || (name[0] == 'p' && name[1] == 'c')
}

proof fn lemma_device_names(name: Seq<char>)
    ensures
        has_prefix(name, "serial@"@) || has_prefix(name, "virtio_mmio@"@) || has_prefix(
            name,
            "pcie@"@,
        ) ==> device_name(name),
        has_prefix(name, "interrupt-controller@"@) || has_prefix(name, "msi-controller@"@)
            || has_prefix(name, "poweroff@"@) || has_prefix(name, "reboot@"@) || name == "timer"@
            || name == "psci"@ ==> !device_name(name),
        has_prefix(name, "serial@"@) ==> !has_prefix(name, "virtio_mmio@"@) && !has_prefix(
            name,
            "pcie@"@,
        ),
        has_prefix(name, "virtio_mmio@"@) ==> !has_prefix(name, "pcie@"@),
{
    reveal_strlit("serial@");
    reveal_strlit("virtio_mmio@");
    reveal_strlit("pcie@");
    reveal_strlit("interrupt-controller@");
    reveal_strlit("msi-controller@");
    reveal_strlit("poweroff@");
    reveal_strlit("reboot@");
    reveal_strlit("timer");
    reveal_strlit("psci");
    law_prefix_is_how_a_text_starts("serial@"@, Seq::empty(), name);
    law_prefix_is_how_a_text_starts("virtio_mmio@"@, Seq::empty(), name);
    law_prefix_is_how_a_text_starts("pcie@"@, Seq::empty(), name);
    law_prefix_is_how_a_text_starts("interrupt-controller@"@, Seq::empty(), name);
    law_prefix_is_how_a_text_starts("msi-controller@"@, Seq::empty(), name);
    law_prefix_is_how_a_text_starts("poweroff@"@, Seq::empty(), name);
    law_prefix_is_how_a_text_starts("reboot@"@, Seq::empty(), name);
    assert("serial@"@[0] == 's' && "serial@"@[1] == 'e');
    assert("virtio_mmio@"@[0] == 'v' && "virtio_mmio@"@[1] == 'i');
    assert("pcie@"@[0] == 'p' && "pcie@"@[1] == 'c');
    assert("interrupt-controller@"@[0] == 'i' && "msi-controller@"@[0] == 'm');
    assert("poweroff@"@[0] == 'p' && "poweroff@"@[1] == 'o' && "reboot@"@[0] == 'r');
    assert("timer"@[0] == 't' && "psci"@[0] == 'p' && "psci"@[1] == 's');
}

/// The substrate leaves the nodes of the devices in the tree.
proof fn lemma_substrate_keeps(root: Node, arch: Arch, c: Node)
    requires
        substrate_step(fresh(root), arch) is Ok,
        root.children@.contains(c),
        device_name(c.name@),
    ensures
        (substrate_step(fresh(root), arch)->Ok_0).2.children.contains(c),
{
    let s0 = fresh(root);
    match arch {
        Arch::Aarch64 => {
            lemma_prefixed_keeps(s0.children, "interrupt-controller@"@, c);
            let (_, s1) = gic_intc_step(s0)->Ok_0;
            lemma_prefixed_keeps(s1.children, "msi-controller@"@, c);
            let (_, s2) = gic_step(s0)->Ok_0;
            lemma_called_keeps(s2.children, "timer"@, c);
            let s3 = timer_step(s2)->Ok_0;
            lemma_called_keeps(s3.children, "psci"@, c);
        },
        Arch::X86_64 => {
            lemma_intc_keeps(s0.children, "intel,ce4100-lapic"@, c);
            let (_, s1) = intc_one_step(
                s0,
                "intel,ce4100-lapic"@,
                "/lapic"@,
                ControllerKind::Lapic,
            )->Ok_0;
            lemma_intc_keeps(s1.children, "intel,ce4100-ioapic"@, c);
            let (_, _, s2) = x86_intc_step(s0)->Ok_0;
            lemma_prefixed_keeps(s2.children, "poweroff@"@, c);
            let (_, s3) = syscon_step(s2, "poweroff@"@, "syscon-poweroff"@, "/poweroff"@)->Ok_0;
            lemma_prefixed_keeps(s3.children, "reboot@"@, c);
        },
    }
}

proof fn lemma_prefixed_keeps(children: Seq<Node>, prefix: Seq<char>, c: Node)
    requires
        children.contains(c),
        !has_prefix(c.name@, prefix) || (device_name(c.name@) && (prefix
            == "interrupt-controller@"@ || prefix == "msi-controller@"@ || prefix == "poweroff@"@
            || prefix == "reboot@"@)),
    ensures
        find_prefixed(children, prefix, 0) matches Some(i) ==> children.remove(i).contains(c),
{
    lemma_device_names(c.name@);
    lemma_find_prefixed(children, prefix, 0);
    if let Some(i) = find_prefixed(children, prefix, 0) {
        lemma_removed(children, i);
    }
}

proof fn lemma_called_keeps(children: Seq<Node>, name: Seq<char>, c: Node)
    requires
        children.contains(c),
        device_name(c.name@),
        name == "timer"@ || name == "psci"@,
    ensures
        find_child(children, name, 0) matches Some(i) ==> children.remove(i).contains(c),
{
    lemma_device_names(c.name@);
    lemma_find_child(children, name, 0);
    if let Some(i) = find_child(children, name, 0) {
        lemma_removed(children, i);
    }
}

proof fn lemma_intc_keeps(children: Seq<Node>, compat: Seq<char>, c: Node)
    requires
        children.contains(c),
        device_name(c.name@),
    ensures
        find_intc(children, compat, 0) matches Some(i) ==> children.remove(i).contains(c),
{
    lemma_device_names(c.name@);
    lemma_find_intc(children, compat, 0);
    if let Some(i) = find_intc(children, compat, 0) {
        lemma_removed(children, i);
    }
}

proof fn lemma_none_prefixed(children: Seq<Node>, prefix: Seq<char>, i: int)
    requires
        0 <= i,
        find_prefixed(children, prefix, i) is None,
    ensures
        forall|k: int| i <= k < children.len() ==> !has_prefix((#[trigger] children[k]).name@, prefix),
    decreases children.len() - i,
{
    if i < children.len() {
        lemma_none_prefixed(children, prefix, i + 1);
    }
}

/// A slot list has a slot for every node, and claiming slots takes no other node.
proof fn lemma_slots_of_nodes(s: SurveyState, arch: Arch, c: Node)
    requires
        virtio_claims(s, arch) is Ok,
        s.children.contains(c),
    ensures
        ({
            let (slots, next) = virtio_claims(s, arch)->Ok_0;
            &&& has_prefix(c.name@, "virtio_mmio@"@) ==> exists|v: VirtioMmioView| #[trigger]
                slots.contains(v) && reg_says(c, 0, v.base, v.size)
            &&& !has_prefix(c.name@, "virtio_mmio@"@) ==> next.children.contains(c)
        }),
    decreases s.children.len(),
{
    match find_prefixed(s.children, "virtio_mmio@"@, 0) {
        None => {
            lemma_none_prefixed(s.children, "virtio_mmio@"@, 0);
            let k = choose|k: int| 0 <= k < s.children.len() && s.children[k] == c;
            assert(!has_prefix(s.children[k].name@, "virtio_mmio@"@));
            assert(virtio_claims(s, arch)->Ok_0 == (Seq::<VirtioMmioView>::empty(), s));
        },
        Some(i) => {
            lemma_find_prefixed(s.children, "virtio_mmio@"@, 0);
            let n = s.children[i];
            let v = virtio_node(n, arch, s.topology)->Ok_0;
            let mid = SurveyState {
                children: s.children.remove(i),
                regions: s.regions.push(slot_window(v)),
                topology: s.topology,
            };
            law_slot_is_what_its_node_says(n, arch, s.topology);
            let (rest, next) = virtio_claims(mid, arch)->Ok_0;
            let slots = seq![v] + rest;
            assert(virtio_claims(s, arch)->Ok_0 == (slots, next));
            lemma_removed(s.children, i);
            assert(has_prefix(n.name@, "virtio_mmio@"@));
            if c == n {
                assert(slots[0] == v);
                assert(slots.contains(v));
                assert(reg_says(c, 0, v.base, v.size));
                assert((virtio_claims(s, arch)->Ok_0).0.contains(v));
            } else {
                assert(mid.children.contains(c));
                lemma_slots_of_nodes(mid, arch, c);
                if has_prefix(c.name@, "virtio_mmio@"@) {
                    let w = choose|w: VirtioMmioView| #[trigger]
                        rest.contains(w) && reg_says(c, 0, w.base, w.size);
                    let k = choose|k: int| 0 <= k < rest.len() && rest[k] == w;
                    assert(slots[k + 1] == w);
                    assert(slots.contains(w));
                    assert(reg_says(c, 0, w.base, w.size));
                    assert((virtio_claims(s, arch)->Ok_0).0.contains(w));
                } else {
                    assert(next.children.contains(c));
                }
            }
        },
    }
}

/// What a survey leaves in the tree after the substrate and after the serial port.
proof fn lemma_device_is_left(root: Node, arch: Arch, c: Node)
    requires
        surveyed(root, arch) is Ok,
        root.children@.contains(c),
        device_name(c.name@),
    ensures
        ({
            let s1 = (substrate_step(fresh(root), arch)->Ok_0).2;
            let s2 = (uart_step(s1, arch)->Ok_0).1;
            &&& s1.children.contains(c)
            &&& !has_prefix(c.name@, "serial@"@) ==> s2.children.contains(c)
        }),
{
    lemma_substrate_keeps(root, arch, c);
    if !has_prefix(c.name@, "serial@"@) {
        let s1 = (substrate_step(fresh(root), arch)->Ok_0).2;
        lemma_prefixed_keeps(s1.children, "serial@"@, c);
    }
}

/// A machine whose tree has a serial node has a serial port.
pub proof fn law_serial_node_gives_a_port(root: Node, arch: Arch, c: Node)
    requires
        surveyed(root, arch) is Ok,
        root.children@.contains(c),
        has_prefix(c.name@, "serial@"@),
    ensures
        (surveyed(root, arch)->Ok_0).uart is Some,
{
    lemma_device_names(c.name@);
    lemma_device_is_left(root, arch, c);
    let s1 = (substrate_step(fresh(root), arch)->Ok_0).2;
    if find_prefixed(s1.children, "serial@"@, 0) is None {
        lemma_none_prefixed(s1.children, "serial@"@, 0);
        let k = choose|k: int| 0 <= k < s1.children.len() && s1.children[k] == c;
        assert(!has_prefix(s1.children[k].name@, "serial@"@));
    }
}

/// A machine whose tree has a host bridge node has a host bridge.
pub proof fn law_bridge_node_gives_a_bridge(root: Node, arch: Arch, c: Node)
    requires
        surveyed(root, arch) is Ok,
        root.children@.contains(c),
        has_prefix(c.name@, "pcie@"@),
    ensures
        (surveyed(root, arch)->Ok_0).has_pcie,
{
    lemma_device_names(c.name@);
    lemma_device_is_left(root, arch, c);
    let s1 = (substrate_step(fresh(root), arch)->Ok_0).2;
    let s2 = (uart_step(s1, arch)->Ok_0).1;
    lemma_slots_of_nodes(s2, arch, c);
    let s3 = (virtio_claims(s2, arch)->Ok_0).1;
    if find_prefixed(s3.children, "pcie@"@, 0) is None {
        lemma_none_prefixed(s3.children, "pcie@"@, 0);
        let k = choose|k: int| 0 <= k < s3.children.len() && s3.children[k] == c;
        assert(!has_prefix(s3.children[k].name@, "pcie@"@));
    }
}

proof fn lemma_sorted_has(slots: Seq<VirtioMmioView>, v: VirtioMmioView)
    requires
        slots.contains(v),
    ensures
        sorted_slots(slots).contains(v),
{
    law_slots_are_sorted(slots);
    broadcast use vstd::seq_lib::group_to_multiset_ensures;

    assert(slots.to_multiset().count(v) > 0);
}

/// A machine has a slot for every virtio-mmio node of its tree.
pub proof fn law_every_slot_node_gives_a_slot(root: Node, arch: Arch, c: Node)
    requires
        surveyed(root, arch) is Ok,
        root.children@.contains(c),
        has_prefix(c.name@, "virtio_mmio@"@),
    ensures
        exists|v: VirtioMmioView| #[trigger]
            (surveyed(root, arch)->Ok_0).virtio_mmio.contains(v) && reg_says(
                c,
                0,
                v.base,
                v.size,
            ),
{
    lemma_device_names(c.name@);
    lemma_device_is_left(root, arch, c);
    let s1 = (substrate_step(fresh(root), arch)->Ok_0).2;
    let s2 = (uart_step(s1, arch)->Ok_0).1;
    lemma_slots_of_nodes(s2, arch, c);
    let slots = (virtio_claims(s2, arch)->Ok_0).0;
    let v = choose|v: VirtioMmioView| #[trigger]
        slots.contains(v) && reg_says(c, 0, v.base, v.size);
    lemma_sorted_has(slots, v);
    assert((surveyed(root, arch)->Ok_0).virtio_mmio.contains(v));
}

} // verus!
