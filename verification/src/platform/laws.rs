//! What a successful survey says of the tree: every node is one that a device
//! models, and every region is written in a property of the tree.
use vstd::prelude::*;

use crate::devtree::{
    find_child, find_prefixed, find_property, lemma_find_child, lemma_find_prefixed, lemma_find_property,
    reg_pair_of, without_property, Node, Property,
};
use crate::platform::arm::{
    frame_node, gic_frame_step, gic_intc_step, gic_node, gic_step, psci_step, substrate,
    timer_step, SurveyState,
};
use crate::platform::claim::{need, need_compatible, need_reg};
use crate::platform::devices::{
    aliases_step, chosen_step, core_step, empty_names, is_empty_node, pcie_node, pcie_step,
    registers, root_acked, uart_node, uart_step, virtio_claims, virtio_node, virtio_step, window_of,
    without_children,
};
use crate::platform::error::ControllerKind;
use crate::platform::plan::RegionView;
use crate::platform::survey::{fresh, substrate_step, surveyed};
use crate::platform::topology::Arch;
use crate::platform::x86::{
    find_intc, intc_one_step, is_intc, syscon_node, syscon_step, x86_intc_step,
};
use crate::text::has_prefix;

verus! {

/// Whether a property holds the address and size of a region.
pub open spec fn yields(p: Property, r: RegionView) -> bool {
    p.name@ == r.prop && {
        ||| reg_pair_of(p.value@, 0) == Some((r.gpa, r.size))
        ||| reg_pair_of(p.value@, 1) == Some((r.gpa, r.size))
        ||| window_of(p.value@) == Some((r.gpa, r.size))
    }
}

/// Whether a property of a node holds the address and size of a region.
pub open spec fn declares(n: Node, r: RegionView) -> bool {
    exists|p: Property| n.properties@.contains(p) && #[trigger] yields(p, r)
}

/// Whether a property of one of the nodes holds the address and size of a
/// region.
pub open spec fn traced(nodes: Seq<Node>, r: RegionView) -> bool {
    exists|c: Node| nodes.contains(c) && #[trigger] declares(c, r)
}

/// Whether a root child is one that a device models: by its name, or because it
/// is called like an empty container.
pub open spec fn modelled(nodes: Seq<Node>, c: Node) -> bool {
    ||| has_prefix(c.name@, "interrupt-controller@"@)
    ||| has_prefix(c.name@, "msi-controller@"@)
    ||| has_prefix(c.name@, "serial@"@)
    ||| has_prefix(c.name@, "virtio_mmio@"@)
    ||| has_prefix(c.name@, "pcie@"@)
    ||| has_prefix(c.name@, "poweroff@"@)
    ||| has_prefix(c.name@, "reboot@"@)
    ||| c.name@ == "timer"@
    ||| c.name@ == "psci"@
    ||| c.name@ == "chosen"@
    ||| c.name@ == "aliases"@
    ||| empty_called(nodes, c.name@)
}

/// Whether one of the nodes is empty and has this name.
pub open spec fn empty_called(nodes: Seq<Node>, name: Seq<char>) -> bool {
    exists|e: Node| #[trigger] nodes.contains(e) && is_empty_node(e) && e.name@ == name
}

/// What holds between a tree and a survey of it in progress.
pub open spec fn on_track(nodes: Seq<Node>, s: SurveyState) -> bool {
    &&& forall|c: Node| #[trigger] s.children.contains(c) ==> nodes.contains(c)
    &&& forall|c: Node| #[trigger]
        nodes.contains(c) ==> modelled(nodes, c) || s.children.contains(c)
    &&& forall|r: RegionView| #[trigger] s.regions.contains(r) ==> traced(nodes, r)
}

spec fn within(part: Seq<Property>, whole: Seq<Property>) -> bool {
    forall|p: Property| #[trigger] part.contains(p) ==> whole.contains(p)
}

proof fn lemma_without(props: Seq<Property>, name: Seq<char>)
    ensures
        within(without_property(props, name), props),
{
    lemma_find_property(props, name, 0);
    let rest = without_property(props, name);
    assert forall|p: Property| #[trigger] rest.contains(p) implies props.contains(p) by {
        let k = choose|k: int| 0 <= k < rest.len() && rest[k] == p;
        match find_property(props, name, 0) {
            Some(i) => {
                if k < i {
                    assert(props[k] == p);
                } else {
                    assert(props[k + 1] == p);
                }
            },
            None => {},
        }
    }
}

proof fn lemma_need(props: Seq<Property>, prop: Seq<char>, node: Seq<char>)
    ensures
        need(props, prop, node) matches Ok((p, rest)) ==> props.contains(p) && p.name@ == prop
            && within(rest, props),
{
    lemma_find_property(props, prop, 0);
    lemma_without(props, prop);
}

proof fn lemma_need_reg(n: Node, props: Seq<Property>, node: Seq<char>, reason: Seq<char>)
    requires
        within(props, n.properties@),
    ensures
        need_reg(props, node, reason) matches Ok((pair, rest)) ==> within(rest, n.properties@) && (
        forall|r: RegionView|
            r.gpa == pair.0 && r.size == pair.1 && r.prop == "reg"@ ==> #[trigger] declares(n, r)),
{
    lemma_need(props, "reg"@, node);
    if need_reg(props, node, reason) is Ok {
        let pair = (need_reg(props, node, reason)->Ok_0).0;
        let p = (need(props, "reg"@, node)->Ok_0).0;
        assert forall|r: RegionView|
            r.gpa == pair.0 && r.size == pair.1 && r.prop == "reg"@ implies #[trigger] declares(
            n,
            r,
        ) by {
            assert(yields(p, r));
        }
    }
}

proof fn lemma_need_compatible(props: Seq<Property>, node: Seq<char>, expected: Seq<char>)
    ensures
        need_compatible(props, node, expected) matches Ok(rest) ==> within(rest, props),
{
    lemma_need(props, "compatible"@, node);
}

/// Taking child `i` out keeps a survey on track when the child is modelled and
/// declares the regions that are added.
proof fn lemma_take(
    nodes: Seq<Node>,
    s: SurveyState,
    i: int,
    regions: Seq<RegionView>,
    next: SurveyState,
)
    requires
        on_track(nodes, s),
        0 <= i < s.children.len(),
        modelled(nodes, s.children[i]),
        next.children == s.children.remove(i),
        next.regions == s.regions + regions,
        forall|r: RegionView| #[trigger] regions.contains(r) ==> declares(s.children[i], r),
    ensures
        on_track(nodes, next),
{
    lemma_removed(s.children, i);
    assert(s.children.contains(s.children[i]));
    assert forall|r: RegionView| #[trigger] next.regions.contains(r) implies traced(nodes, r) by {
        let k = choose|k: int| 0 <= k < next.regions.len() && next.regions[k] == r;
        if k < s.regions.len() {
            assert(s.regions[k] == r);
            assert(s.regions.contains(r));
        } else {
            assert(regions[k - s.regions.len()] == r);
            assert(regions.contains(r));
            assert(declares(s.children[i], r));
        }
    }
}

pub proof fn lemma_removed(children: Seq<Node>, i: int)
    requires
        0 <= i < children.len(),
    ensures
        forall|c: Node| #[trigger] children.remove(i).contains(c) ==> children.contains(c),
        forall|c: Node| #[trigger]
            children.contains(c) ==> c == children[i] || children.remove(i).contains(c),
{
    let rest = children.remove(i);
    assert forall|c: Node| #[trigger] rest.contains(c) implies children.contains(c) by {
        let k = choose|k: int| 0 <= k < rest.len() && rest[k] == c;
        if k < i {
            assert(children[k] == c);
        } else {
            assert(children[k + 1] == c);
        }
    }
    assert forall|c: Node| #[trigger] children.contains(c) implies c == children[i]
        || rest.contains(c) by {
        let k = choose|k: int| 0 <= k < children.len() && children[k] == c;
        if k < i {
            assert(rest[k] == c);
        } else if k > i {
            assert(rest[k - 1] == c);
        }
    }
}

proof fn lemma_gic(nodes: Seq<Node>, s: SurveyState)
    requires
        on_track(nodes, s),
    ensures
        gic_step(s) matches Ok((_, next)) ==> on_track(nodes, next),
{
    if gic_step(s) is Ok {
        lemma_find_prefixed(s.children, "interrupt-controller@"@, 0);
        let i = find_prefixed(s.children, "interrupt-controller@"@, 0)->0;
        let n = s.children[i];
        let g = gic_node(n)->Ok_0;
        let (_, s1) = gic_intc_step(s)->Ok_0;
        let node = "/interrupt-controller"@;
        lemma_need_compatible(n.properties@, node, "arm,gic-v3"@);
        let rest = need_compatible(n.properties@, node, "arm,gic-v3"@)->Ok_0;
        lemma_need(rest, "reg"@, node);
        let p = (need(rest, "reg"@, node)->Ok_0).0;
        let a = substrate(node, g.dist);
        let b = substrate(node, g.redist);
        assert(yields(p, a) && yields(p, b));
        let added = seq![a, b];
        assert forall|r: RegionView| #[trigger] added.contains(r) implies declares(n, r) by {
            let k = choose|k: int| 0 <= k < added.len() && added[k] == r;
        }
        assert(s1.regions =~= s.regions + added);
        lemma_take(nodes, s, i, added, s1);
        lemma_find_prefixed(s1.children, "msi-controller@"@, 0);
        let j = find_prefixed(s1.children, "msi-controller@"@, 0)->0;
        let m = s1.children[j];
        let f = frame_node(m)->Ok_0;
        let (_, s2) = gic_frame_step(s1)->Ok_0;
        let node = "/msi-controller"@;
        lemma_need_compatible(m.properties@, node, "arm,gic-v2m-frame"@);
        let rest = need_compatible(m.properties@, node, "arm,gic-v2m-frame"@)->Ok_0;
        lemma_need_reg(m, rest, node, "missing MSI frame pair"@);
        let c = substrate(node, f.frame);
        assert(declares(m, c));
        let added = seq![c];
        assert forall|r: RegionView| #[trigger] added.contains(r) implies declares(m, r) by {
            let k = choose|k: int| 0 <= k < added.len() && added[k] == r;
        }
        assert(s2.regions =~= s1.regions + added);
        lemma_take(nodes, s1, j, added, s2);
    }
}

proof fn lemma_named(nodes: Seq<Node>, s: SurveyState, name: Seq<char>, next: SurveyState)
    requires
        on_track(nodes, s),
        find_child(s.children, name, 0) is Some,
        name == "timer"@ || name == "psci"@ || name == "chosen"@ || name == "aliases"@,
        next.children == s.children.remove(find_child(s.children, name, 0)->0),
        next.regions == s.regions,
    ensures
        on_track(nodes, next),
{
    lemma_find_child(s.children, name, 0);
    assert(next.regions =~= s.regions + Seq::<RegionView>::empty());
    lemma_take(nodes, s, find_child(s.children, name, 0)->0, Seq::empty(), next);
}

proof fn lemma_intc_one(
    nodes: Seq<Node>,
    s: SurveyState,
    compat: Seq<char>,
    path: Seq<char>,
    kind: ControllerKind,
)
    requires
        on_track(nodes, s),
    ensures
        intc_one_step(s, compat, path, kind) matches Ok((_, next)) ==> on_track(nodes, next),
{
    if intc_one_step(s, compat, path, kind) is Ok {
        lemma_find_intc(s.children, compat, 0);
        let i = find_intc(s.children, compat, 0)->0;
        let n = s.children[i];
        let (region, next) = intc_one_step(s, compat, path, kind)->Ok_0;
        lemma_without(n.properties@, "compatible"@);
        lemma_need_reg(
            n,
            without_property(n.properties@, "compatible"@),
            path,
            "missing reg pair"@,
        );
        let c = substrate(path, (region.base, region.size));
        assert(declares(n, c));
        let added = seq![c];
        assert forall|r: RegionView| #[trigger] added.contains(r) implies declares(n, r) by {
            let k = choose|k: int| 0 <= k < added.len() && added[k] == r;
        }
        assert(next.regions =~= s.regions + added);
        lemma_take(nodes, s, i, added, next);
    }
}

pub proof fn lemma_find_intc(children: Seq<Node>, compat: Seq<char>, i: int)
    requires
        0 <= i,
    ensures
        find_intc(children, compat, i) matches Some(k) ==> i <= k < children.len() && is_intc(
            children[k],
            compat,
        ),
    decreases children.len() - i,
{
    if i < children.len() && !is_intc(children[i], compat) {
        lemma_find_intc(children, compat, i + 1);
    }
}

proof fn lemma_syscon(
    nodes: Seq<Node>,
    s: SurveyState,
    prefix: Seq<char>,
    compat: Seq<char>,
    path: Seq<char>,
)
    requires
        on_track(nodes, s),
        prefix == "poweroff@"@ || prefix == "reboot@"@,
    ensures
        syscon_step(s, prefix, compat, path) matches Ok((_, next)) ==> on_track(nodes, next),
{
    if syscon_step(s, prefix, compat, path) is Ok && find_prefixed(s.children, prefix, 0) is Some {
        lemma_find_prefixed(s.children, prefix, 0);
        let i = find_prefixed(s.children, prefix, 0)->0;
        let n = s.children[i];
        let (region, value) = syscon_node(n, compat, path)->Ok_0;
        let (_, next) = syscon_step(s, prefix, compat, path)->Ok_0;
        lemma_need_compatible(n.properties@, path, compat);
        let rest = need_compatible(n.properties@, path, compat)->Ok_0;
        lemma_need_reg(n, rest, path, "missing reg pair"@);
        let c = registers(path, (region.base, region.size));
        assert(declares(n, c));
        let added = seq![c];
        assert forall|r: RegionView| #[trigger] added.contains(r) implies declares(n, r) by {
            let k = choose|k: int| 0 <= k < added.len() && added[k] == r;
        }
        assert(next.regions =~= s.regions + added);
        lemma_take(nodes, s, i, added, next);
    }
}

pub proof fn lemma_substrate(nodes: Seq<Node>, s: SurveyState, arch: Arch)
    requires
        on_track(nodes, s),
    ensures
        substrate_step(s, arch) matches Ok((_, _, next)) ==> on_track(nodes, next),
{
    if substrate_step(s, arch) is Ok {
        match arch {
            Arch::Aarch64 => {
                lemma_gic(nodes, s);
                let (_, s1) = gic_step(s)->Ok_0;
                let s2 = timer_step(s1)->Ok_0;
                lemma_named(nodes, s1, "timer"@, s2);
                let (_, s3) = psci_step(s2)->Ok_0;
                lemma_named(nodes, s2, "psci"@, s3);
            },
            Arch::X86_64 => {
                lemma_intc_one(
                    nodes,
                    s,
                    "intel,ce4100-lapic"@,
                    "/lapic"@,
                    ControllerKind::Lapic,
                );
                let (_, s1) = intc_one_step(
                    s,
                    "intel,ce4100-lapic"@,
                    "/lapic"@,
                    ControllerKind::Lapic,
                )->Ok_0;
                lemma_intc_one(
                    nodes,
                    s1,
                    "intel,ce4100-ioapic"@,
                    "/ioapic"@,
                    ControllerKind::IoApic,
                );
                let (_, _, s2) = x86_intc_step(s)->Ok_0;
                lemma_syscon(nodes, s2, "poweroff@"@, "syscon-poweroff"@, "/poweroff"@);
                let (_, s3) = syscon_step(
                    s2,
                    "poweroff@"@,
                    "syscon-poweroff"@,
                    "/poweroff"@,
                )->Ok_0;
                lemma_syscon(nodes, s3, "reboot@"@, "syscon-reboot"@, "/reboot"@);
            },
        }
    }
}

pub proof fn lemma_uart(nodes: Seq<Node>, s: SurveyState, arch: Arch)
    requires
        on_track(nodes, s),
    ensures
        uart_step(s, arch) matches Ok((_, next)) ==> on_track(nodes, next),
{
    if uart_step(s, arch) is Ok && find_prefixed(s.children, "serial@"@, 0) is Some {
        lemma_find_prefixed(s.children, "serial@"@, 0);
        let i = find_prefixed(s.children, "serial@"@, 0)->0;
        let n = s.children[i];
        let u = uart_node(n, arch, s.topology)->Ok_0;
        let (_, next) = uart_step(s, arch)->Ok_0;
        lemma_need_compatible(n.properties@, "/serial"@, "ns16550a"@);
        let rest = need_compatible(n.properties@, "/serial"@, "ns16550a"@)->Ok_0;
        lemma_need_reg(n, rest, "/serial"@, "missing reg pair"@);
        lemma_take_one(nodes, s, i, registers("/serial"@, (u.base, u.size)), next);
    }
}

/// Taking child `i` out for the one region that it declares.
proof fn lemma_take_one(
    nodes: Seq<Node>,
    s: SurveyState,
    i: int,
    region: RegionView,
    next: SurveyState,
)
    requires
        on_track(nodes, s),
        0 <= i < s.children.len(),
        modelled(nodes, s.children[i]),
        next.children == s.children.remove(i),
        next.regions == s.regions.push(region),
        declares(s.children[i], region),
    ensures
        on_track(nodes, next),
{
    let added = seq![region];
    assert forall|r: RegionView| #[trigger] added.contains(r) implies declares(
        s.children[i],
        r,
    ) by {
        let k = choose|k: int| 0 <= k < added.len() && added[k] == r;
    }
    assert(next.regions =~= s.regions + added);
    lemma_take(nodes, s, i, added, next);
}

/// Taking the first slot out keeps a survey on track.
pub proof fn lemma_one_slot(nodes: Seq<Node>, s: SurveyState, arch: Arch, next: SurveyState)
    requires
        on_track(nodes, s),
        find_prefixed(s.children, "virtio_mmio@"@, 0) is Some,
        ({
            let i = find_prefixed(s.children, "virtio_mmio@"@, 0)->0;
            let v = virtio_node(s.children[i], arch, s.topology);
            &&& v is Ok
            &&& next.children == s.children.remove(i)
            &&& next.regions == s.regions.push(
                registers("/virtio_mmio"@, (v->Ok_0.base, v->Ok_0.size)),
            )
        }),
    ensures
        on_track(nodes, next),
{
    lemma_find_prefixed(s.children, "virtio_mmio@"@, 0);
    let i = find_prefixed(s.children, "virtio_mmio@"@, 0)->0;
    let n = s.children[i];
    let v = virtio_node(n, arch, s.topology)->Ok_0;
    lemma_need_compatible(n.properties@, "/virtio_mmio"@, "virtio,mmio"@);
    let rest = need_compatible(n.properties@, "/virtio_mmio"@, "virtio,mmio"@)->Ok_0;
    lemma_need_reg(n, rest, "/virtio_mmio"@, "missing reg pair"@);
    lemma_take_one(nodes, s, i, registers("/virtio_mmio"@, (v.base, v.size)), next);
}

pub proof fn lemma_virtio(nodes: Seq<Node>, s: SurveyState, arch: Arch)
    requires
        on_track(nodes, s),
    ensures
        virtio_claims(s, arch) matches Ok((_, next)) ==> on_track(nodes, next),
    decreases s.children.len(),
{
    if virtio_claims(s, arch) is Ok && find_prefixed(s.children, "virtio_mmio@"@, 0) is Some {
        lemma_find_prefixed(s.children, "virtio_mmio@"@, 0);
        let i = find_prefixed(s.children, "virtio_mmio@"@, 0)->0;
        let v = virtio_node(s.children[i], arch, s.topology)->Ok_0;
        let next = SurveyState {
            children: s.children.remove(i),
            regions: s.regions.push(registers("/virtio_mmio"@, (v.base, v.size))),
            topology: s.topology,
        };
        lemma_one_slot(nodes, s, arch, next);
        lemma_virtio(nodes, next, arch);
    }
}

pub proof fn lemma_pcie(nodes: Seq<Node>, s: SurveyState)
    requires
        on_track(nodes, s),
    ensures
        pcie_step(s) matches Ok((_, next)) ==> on_track(nodes, next),
{
    if pcie_step(s) is Ok && find_prefixed(s.children, "pcie@"@, 0) is Some {
        lemma_find_prefixed(s.children, "pcie@"@, 0);
        let i = find_prefixed(s.children, "pcie@"@, 0)->0;
        let n = s.children[i];
        let b = pcie_node(n, s.topology)->Ok_0;
        let (_, next) = pcie_step(s)->Ok_0;
        let node = "/pcie"@;
        lemma_need_compatible(n.properties@, node, "pci-host-ecam-generic"@);
        let rest = need_compatible(n.properties@, node, "pci-host-ecam-generic"@)->Ok_0;
        lemma_need_reg(n, rest, node, "missing ECAM pair"@);
        let (ecam, rest2) = need_reg(rest, node, "missing ECAM pair"@)->Ok_0;
        lemma_need(rest2, "ranges"@, node);
        let p = (need(rest2, "ranges"@, node)->Ok_0).0;
        let x = next.regions[s.regions.len() as int];
        let y = next.regions[s.regions.len() as int + 1];
        assert(declares(n, x));
        assert(yields(p, y));
        let added = seq![x, y];
        assert forall|r: RegionView| #[trigger] added.contains(r) implies declares(n, r) by {
            let k = choose|k: int| 0 <= k < added.len() && added[k] == r;
        }
        assert(next.regions =~= s.regions + added);
        lemma_take(nodes, s, i, added, next);
    }
}

proof fn lemma_empty_names(children: Seq<Node>, n: int)
    requires
        0 <= n <= children.len(),
    ensures
        forall|k: int|
            0 <= k < empty_names(children, n).len() ==> empty_called(
                children,
                #[trigger] empty_names(children, n)[k],
            ),
    decreases n,
{
    if n > 0 {
        lemma_empty_names(children, n - 1);
        let names = empty_names(children, n);
        assert forall|k: int| 0 <= k < names.len() implies empty_called(
            children,
            #[trigger] names[k],
        ) by {
            if is_empty_node(children[n - 1]) && k == names.len() - 1 {
                assert(children.contains(children[n - 1]));
            } else {
                assert(names[k] == empty_names(children, n - 1)[k]);
            }
        }
    }
}

proof fn lemma_swept(nodes: Seq<Node>, s: SurveyState, names: Seq<Seq<char>>, n: int)
    requires
        on_track(nodes, s),
        0 <= n <= names.len(),
        forall|k: int|
            0 <= k < names.len() ==> empty_called(nodes, #[trigger] names[k]),
    ensures
        on_track(
            nodes,
            SurveyState { children: without_children(s.children, names, n), ..s },
        ),
    decreases n,
{
    if n > 0 {
        lemma_swept(nodes, s, names, n - 1);
        let before = without_children(s.children, names, n - 1);
        let now = SurveyState { children: before, ..s };
        lemma_find_child(before, names[n - 1], 0);
        match find_child(before, names[n - 1], 0) {
            Some(i) => {
                let next = SurveyState { children: before.remove(i), ..s };
                assert(modelled(nodes, before[i]));
                assert(next.regions =~= now.regions + Seq::<RegionView>::empty());
                lemma_take(nodes, now, i, Seq::empty(), next);
            },
            None => {},
        }
    }
}

proof fn lemma_core(nodes: Seq<Node>, s: SurveyState, props: Seq<Property>)
    requires
        on_track(nodes, s),
    ensures
        core_step(props, s.children) matches Ok((_, children)) ==> on_track(
            nodes,
            SurveyState { children, ..s },
        ),
{
    if core_step(props, s.children) is Ok {
        let c1 = chosen_step(s.children)->Ok_0;
        let s1 = SurveyState { children: c1, ..s };
        if find_child(s.children, "chosen"@, 0) is Some {
            lemma_named(nodes, s, "chosen"@, s1);
        }
        let c2 = aliases_step(c1)->Ok_0;
        let s2 = SurveyState { children: c2, ..s };
        if find_child(c1, "aliases"@, 0) is Some {
            lemma_named(nodes, s1, "aliases"@, s2);
        }
        let names = empty_names(c2, c2.len() as int);
        lemma_empty_names(c2, c2.len() as int);
        assert forall|k: int| 0 <= k < names.len() implies empty_called(
            nodes,
            #[trigger] names[k],
        ) by {
            assert(empty_called(c2, names[k]));
            let e = choose|e: Node| #[trigger]
                c2.contains(e) && is_empty_node(e) && e.name@ == names[k];
            assert(s2.children.contains(e));
            assert(nodes.contains(e));
        }
        lemma_swept(nodes, s2, names, names.len() as int);
    }
}

proof fn lemma_survey(root: Node, arch: Arch)
    requires
        surveyed(root, arch) is Ok,
    ensures
        forall|c: Node| #[trigger]
            root.children@.contains(c) ==> modelled(root.children@, c) && c.name@ != "cpus"@,
        forall|r: RegionView| #[trigger]
            (surveyed(root, arch)->Ok_0).regions.contains(r) ==> traced(root.children@, r),
{
    let nodes = root.children@;
    let s0 = fresh(root);
    lemma_substrate(nodes, s0, arch);
    let (_, _, s1) = substrate_step(s0, arch)->Ok_0;
    lemma_uart(nodes, s1, arch);
    let (_, s2) = uart_step(s1, arch)->Ok_0;
    lemma_virtio(nodes, s2, arch);
    let (_, s3) = virtio_step(s2, arch)->Ok_0;
    lemma_pcie(nodes, s3);
    let (_, s4) = pcie_step(s3)->Ok_0;
    lemma_core(nodes, s4, root.properties@);
    let (_, children) = core_step(root.properties@, s4.children)->Ok_0;
    assert(children.len() == 0);
    lemma_find_child(root.children@, "cpus"@, 0);
}

/// A tree that is surveyed without fault is covered: every root child is one
/// that a device models.
pub proof fn law_survey_covers_every_node(root: Node, arch: Arch, c: Node)
    requires
        surveyed(root, arch) is Ok,
        root.children@.contains(c),
    ensures
        modelled(root.children@, c),
        c.name@ != "cpus"@,
{
    lemma_survey(root, arch);
}

/// No constant reaches the resource plan: every region of a surveyed machine is
/// written in a property of a root child, and the region names that property.
pub proof fn law_regions_come_from_properties(root: Node, arch: Arch, r: RegionView)
    requires
        surveyed(root, arch) is Ok,
        (surveyed(root, arch)->Ok_0).regions.contains(r),
    ensures
        traced(root.children@, r),
{
    lemma_survey(root, arch);
}

pub proof fn lemma_without_keeps(props: Seq<Property>, name: Seq<char>, p: Property)
    requires
        props.contains(p),
        p.name@ != name,
    ensures
        without_property(props, name).contains(p),
{
    lemma_find_property(props, name, 0);
    let k = choose|k: int| 0 <= k < props.len() && props[k] == p;
    match find_property(props, name, 0) {
        Some(i) => {
            let rest = props.remove(i);
            if k < i {
                assert(rest[k] == p);
            } else {
                assert(rest[k - 1] == p);
            }
        },
        None => {},
    }
}

/// The root of a surveyed tree has no properties but those that every tree may
/// have.
pub proof fn law_survey_covers_root_properties(root: Node, arch: Arch, p: Property)
    requires
        surveyed(root, arch) is Ok,
        root.properties@.contains(p),
    ensures
        p.name@ == "#address-cells"@ || p.name@ == "#size-cells"@ || p.name@ == "model"@
            || p.name@ == "compatible"@,
{
    if p.name@ != "#address-cells"@ && p.name@ != "#size-cells"@ && p.name@ != "model"@
        && p.name@ != "compatible"@ {
        let props = root.properties@;
        let a = without_property(props, "#address-cells"@);
        let b = without_property(a, "#size-cells"@);
        let c = without_property(b, "model"@);
        lemma_without_keeps(props, "#address-cells"@, p);
        lemma_without_keeps(a, "#size-cells"@, p);
        lemma_without_keeps(b, "model"@, p);
        lemma_without_keeps(c, "compatible"@, p);
        assert(root_acked(props).contains(p));
        assert(root_acked(props).len() == 0);
    }
}

} // verus!
