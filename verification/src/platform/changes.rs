//! What one node more or less in a tree does to its survey.
use vstd::prelude::*;

use crate::devtree::{
    find_child, find_prefixed, lemma_find_child, lemma_find_prefixed, Node, Property,
};
use crate::platform::arm::{
    gic_frame_step, gic_intc_step, gic_step, psci_step, timer_step, SurveyState,
};
use crate::platform::devices::{
    aliases_step, chosen_step, core_step, empty_names, is_empty_node, no_pcie, pcie_step, registers,
    uart_step, virtio_claims, virtio_node, virtio_step, without_children, PcieView, UartView,
    VirtioMmioView,
};
use crate::platform::error::{ControllerKind, SurveyErrorView};
use crate::platform::laws;
use crate::platform::plan::{disjoint, regions_clash, RegionView};
use crate::platform::survey::{fresh, residual, substrate_step, surveyed, MachineView};
use crate::platform::topology::Arch;
use crate::platform::x86::{
    find_intc, intc_one_step, is_intc, syscon_step, x86_intc_step, x86_syscon_step, Syscon,
};
use crate::text::has_prefix;

verus! {

/// Where the first child of some kind stands, looking from `i` on.
spec fn find_where(children: Seq<Node>, kind: spec_fn(Node) -> bool, i: int) -> Option<int>
    decreases children.len() - i,
{
    if i < 0 || i >= children.len() {
        None
    } else if kind(children[i]) {
        Some(i)
    } else {
        find_where(children, kind, i + 1)
    }
}

spec fn prefixed(prefix: Seq<char>) -> spec_fn(Node) -> bool {
    |n: Node| has_prefix(n.name@, prefix)
}

spec fn called(name: Seq<char>) -> spec_fn(Node) -> bool {
    |n: Node| n.name@ == name
}

spec fn intc(compat: Seq<char>) -> spec_fn(Node) -> bool {
    |n: Node| is_intc(n, compat)
}

proof fn lemma_prefixed(children: Seq<Node>, prefix: Seq<char>, i: int)
    ensures
        find_prefixed(children, prefix, i) == find_where(children, prefixed(prefix), i),
    decreases children.len() - i,
{
    if 0 <= i < children.len() {
        lemma_prefixed(children, prefix, i + 1);
    }
}

proof fn lemma_called(children: Seq<Node>, name: Seq<char>, i: int)
    ensures
        find_child(children, name, i) == find_where(children, called(name), i),
    decreases children.len() - i,
{
    if 0 <= i < children.len() {
        lemma_called(children, name, i + 1);
    }
}

proof fn lemma_intc(children: Seq<Node>, compat: Seq<char>, i: int)
    ensures
        find_intc(children, compat, i) == find_where(children, intc(compat), i),
    decreases children.len() - i,
{
    if 0 <= i < children.len() {
        lemma_intc(children, compat, i + 1);
    }
}

/// A place in a list once something is inserted at `k`.
spec fn moved(place: Option<int>, k: int) -> Option<int> {
    match place {
        Some(i) => Some(
            if i < k {
                i
            } else {
                i + 1
            },
        ),
        None => None,
    }
}

proof fn lemma_find_behind(
    children: Seq<Node>,
    kind: spec_fn(Node) -> bool,
    k: int,
    c: Node,
    i: int,
)
    requires
        0 <= k <= i,
        k <= children.len(),
    ensures
        find_where(children.insert(k, c), kind, i + 1) == moved(find_where(children, kind, i), k),
        find_where(children, kind, i) matches Some(at) ==> i <= at < children.len(),
    decreases children.len() - i,
{
    if i < children.len() {
        assert(children.insert(k, c)[i + 1] == children[i]);
        lemma_find_behind(children, kind, k, c, i + 1);
    }
}

/// A node that is not of some kind does not change which child of that kind comes
/// first.
proof fn lemma_find_inserted(
    children: Seq<Node>,
    kind: spec_fn(Node) -> bool,
    k: int,
    c: Node,
    i: int,
)
    requires
        0 <= i <= k <= children.len(),
        !kind(c),
    ensures
        find_where(children.insert(k, c), kind, i) == moved(find_where(children, kind, i), k),
        find_where(children, kind, i) matches Some(at) ==> i <= at < children.len(),
    decreases k - i,
{
    if i == k {
        assert(children.insert(k, c)[k] == c);
        lemma_find_behind(children, kind, k, c, k);
    } else {
        assert(children.insert(k, c)[i] == children[i]);
        lemma_find_inserted(children, kind, k, c, i + 1);
    }
}

/// Where no other child is of some kind, a node of that kind is found where it was
/// inserted.
proof fn lemma_find_only(
    children: Seq<Node>,
    kind: spec_fn(Node) -> bool,
    k: int,
    c: Node,
    i: int,
)
    requires
        0 <= i <= k <= children.len(),
        kind(c),
        find_where(children, kind, i) is None,
    ensures
        find_where(children.insert(k, c), kind, i) == Some(k),
    decreases k - i,
{
    if i < k {
        assert(children.insert(k, c)[i] == children[i]);
        lemma_find_only(children, kind, k, c, i + 1);
    }
}

/// Whether `b` is `a` with one more node.
spec fn kids(a: Seq<Node>, b: Seq<Node>, extra: Option<Node>) -> bool {
    match extra {
        Some(c) => exists|k: int| 0 <= k <= a.len() && b == #[trigger] a.insert(k, c),
        None => b == a,
    }
}

/// Whether `b` is `a` with one more region.
spec fn more(a: Seq<RegionView>, b: Seq<RegionView>, added: Option<RegionView>) -> bool {
    match added {
        Some(r) => exists|m: int| 0 <= m <= a.len() && b == #[trigger] a.insert(m, r),
        None => b == a,
    }
}

/// Whether two surveys in progress differ by one node that is still to be claimed
/// and one region that was declared.
spec fn wider(
    a: SurveyState,
    b: SurveyState,
    extra: Option<Node>,
    added: Option<RegionView>,
) -> bool {
    &&& kids(a.children, b.children, extra)
    &&& more(a.regions, b.regions, added)
    &&& b.topology == a.topology
}

/// Inserting a node gives a list with one more.
proof fn lemma_kids(a: Seq<Node>, b: Seq<Node>, k: int, c: Node)
    requires
        0 <= k <= a.len(),
        b == a.insert(k, c),
    ensures
        kids(a, b, Some(c)),
{
    let extra = Some(c);
    match extra {
        Some(d) => {
            assert(b == a.insert(k, d));
        },
        None => {},
    }
}

proof fn lemma_push(
    a: Seq<RegionView>,
    b: Seq<RegionView>,
    added: Option<RegionView>,
    x: RegionView,
)
    requires
        more(a, b, added),
    ensures
        more(a.push(x), b.push(x), added),
{
    if let Some(r) = added {
        let m = choose|m: int| 0 <= m <= a.len() && b == #[trigger] a.insert(m, r);
        assert(b.push(x) =~= a.push(x).insert(m, r));
    }
}

spec fn outside(extra: Option<Node>, kind: spec_fn(Node) -> bool) -> bool {
    extra matches Some(c) ==> !kind(c)
}

/// With one more node of another kind the same child is found, and taking it out
/// leaves lists that differ by that node.
proof fn lemma_found(
    a: Seq<Node>,
    b: Seq<Node>,
    extra: Option<Node>,
    kind: spec_fn(Node) -> bool,
)
    requires
        kids(a, b, extra),
        outside(extra, kind),
    ensures
        match (find_where(a, kind, 0), find_where(b, kind, 0)) {
            (Some(i), Some(j)) => {
                &&& 0 <= i < a.len()
                &&& 0 <= j < b.len()
                &&& a[i] == b[j]
                &&& kids(a.remove(i), b.remove(j), extra)
            },
            (None, None) => true,
            _ => false,
        },
{
    match extra {
        Some(c) => {
            let k = choose|k: int| 0 <= k <= a.len() && b == #[trigger] a.insert(k, c);
            lemma_find_inserted(a, kind, k, c, 0);
            if let Some(i) = find_where(a, kind, 0) {
                let j = find_where(b, kind, 0)->0;
                let at = if i < k {
                    k - 1
                } else {
                    k
                };
                assert(b.remove(j) =~= a.remove(i).insert(at, c));
            }
        },
        None => {
            lemma_bounds(a, kind, 0);
        },
    }
}

proof fn lemma_bounds(children: Seq<Node>, kind: spec_fn(Node) -> bool, i: int)
    requires
        0 <= i,
    ensures
        match find_where(children, kind, i) {
            Some(at) => i <= at < children.len(),
            None => forall|k: int| i <= k < children.len() ==> !kind(#[trigger] children[k]),
        },
    decreases children.len() - i,
{
    if i < children.len() {
        lemma_bounds(children, kind, i + 1);
    }
}

proof fn lemma_gic(a: SurveyState, b: SurveyState, extra: Option<Node>, added: Option<RegionView>)
    requires
        wider(a, b, extra, added),
        outside(extra, prefixed("interrupt-controller@"@)),
        outside(extra, prefixed("msi-controller@"@)),
    ensures
        match (gic_step(a), gic_step(b)) {
            (Ok((x, s)), Ok((y, t))) => x == y && wider(s, t, extra, added),
            (Err(e), Err(f)) => e == f,
            _ => false,
        },
{
    lemma_prefixed(a.children, "interrupt-controller@"@, 0);
    lemma_prefixed(b.children, "interrupt-controller@"@, 0);
    lemma_found(a.children, b.children, extra, prefixed("interrupt-controller@"@));
    if let Ok((g, s)) = gic_intc_step(a) {
        let t = (gic_intc_step(b)->Ok_0).1;
        let (x, y) = (s.regions[a.regions.len() as int], s.regions[a.regions.len() as int + 1]);
        lemma_push(a.regions, b.regions, added, x);
        lemma_push(a.regions.push(x), b.regions.push(x), added, y);
        assert(wider(s, t, extra, added));
        lemma_prefixed(s.children, "msi-controller@"@, 0);
        lemma_prefixed(t.children, "msi-controller@"@, 0);
        lemma_found(s.children, t.children, extra, prefixed("msi-controller@"@));
        if let Ok((_, u)) = gic_frame_step(s) {
            lemma_push(s.regions, t.regions, added, u.regions[s.regions.len() as int]);
        }
    }
}

proof fn lemma_arm(a: SurveyState, b: SurveyState, extra: Option<Node>, added: Option<RegionView>)
    requires
        wider(a, b, extra, added),
        outside(extra, prefixed("interrupt-controller@"@)),
        outside(extra, prefixed("msi-controller@"@)),
        outside(extra, called("timer"@)),
        outside(extra, called("psci"@)),
    ensures
        match (substrate_step(a, Arch::Aarch64), substrate_step(b, Arch::Aarch64)) {
            (Ok((x, y, s)), Ok((v, w, t))) => x == v && y == w && wider(s, t, extra, added),
            (Err(e), Err(f)) => e == f,
            _ => false,
        },
{
    lemma_gic(a, b, extra, added);
    if let Ok((_, s)) = gic_step(a) {
        let t = (gic_step(b)->Ok_0).1;
        lemma_called(s.children, "timer"@, 0);
        lemma_called(t.children, "timer"@, 0);
        lemma_found(s.children, t.children, extra, called("timer"@));
        if let Ok(u) = timer_step(s) {
            let v = timer_step(t)->Ok_0;
            lemma_called(u.children, "psci"@, 0);
            lemma_called(v.children, "psci"@, 0);
            lemma_found(u.children, v.children, extra, called("psci"@));
            assert(psci_step(u) is Ok <==> psci_step(v) is Ok);
        }
    }
}

proof fn lemma_intc_one(
    a: SurveyState,
    b: SurveyState,
    extra: Option<Node>,
    added: Option<RegionView>,
    compat: Seq<char>,
    path: Seq<char>,
    kind: ControllerKind,
)
    requires
        wider(a, b, extra, added),
        outside(extra, prefixed("interrupt-controller@"@)),
    ensures
        match (intc_one_step(a, compat, path, kind), intc_one_step(b, compat, path, kind)) {
            (Ok((x, s)), Ok((y, t))) => x == y && wider(s, t, extra, added),
            (Err(e), Err(f)) => e == f,
            _ => false,
        },
{
    lemma_intc(a.children, compat, 0);
    lemma_intc(b.children, compat, 0);
    if let Some(c) = extra {
        assert(!prefixed("interrupt-controller@"@)(c));
    }
    assert(outside(extra, intc(compat)));
    lemma_found(a.children, b.children, extra, intc(compat));
    if let Ok((_, s)) = intc_one_step(a, compat, path, kind) {
        lemma_push(a.regions, b.regions, added, s.regions[a.regions.len() as int]);
    }
}

proof fn lemma_syscon(
    a: SurveyState,
    b: SurveyState,
    extra: Option<Node>,
    added: Option<RegionView>,
    prefix: Seq<char>,
    compat: Seq<char>,
    path: Seq<char>,
)
    requires
        wider(a, b, extra, added),
        outside(extra, prefixed(prefix)),
    ensures
        match (syscon_step(a, prefix, compat, path), syscon_step(b, prefix, compat, path)) {
            (Ok((x, s)), Ok((y, t))) => x == y && wider(s, t, extra, added),
            (Err(e), Err(f)) => e == f,
            _ => false,
        },
{
    lemma_prefixed(a.children, prefix, 0);
    lemma_prefixed(b.children, prefix, 0);
    lemma_found(a.children, b.children, extra, prefixed(prefix));
    if let Ok((Some(_), s)) = syscon_step(a, prefix, compat, path) {
        lemma_push(a.regions, b.regions, added, s.regions[a.regions.len() as int]);
    }
}

proof fn lemma_x86(a: SurveyState, b: SurveyState, extra: Option<Node>, added: Option<RegionView>)
    requires
        wider(a, b, extra, added),
        outside(extra, prefixed("interrupt-controller@"@)),
        outside(extra, prefixed("poweroff@"@)),
        outside(extra, prefixed("reboot@"@)),
    ensures
        match (substrate_step(a, Arch::X86_64), substrate_step(b, Arch::X86_64)) {
            (Ok((x, y, s)), Ok((v, w, t))) => x == v && y == w && wider(s, t, extra, added),
            (Err(e), Err(f)) => e == f,
            _ => false,
        },
{
    let (lapic, lapic_path) = ("intel,ce4100-lapic"@, "/lapic"@);
    let (ioapic, ioapic_path) = ("intel,ce4100-ioapic"@, "/ioapic"@);
    lemma_intc_one(a, b, extra, added, lapic, lapic_path, ControllerKind::Lapic);
    if let Ok((_, s)) = intc_one_step(a, lapic, lapic_path, ControllerKind::Lapic) {
        let t = (intc_one_step(b, lapic, lapic_path, ControllerKind::Lapic)->Ok_0).1;
        lemma_intc_one(s, t, extra, added, ioapic, ioapic_path, ControllerKind::IoApic);
    }
    assert(x86_intc_step(a) is Ok <==> x86_intc_step(b) is Ok);
    if let Ok((_, _, s)) = x86_intc_step(a) {
        let t = (x86_intc_step(b)->Ok_0).2;
        lemma_syscon(s, t, extra, added, "poweroff@"@, "syscon-poweroff"@, "/poweroff"@);
        if let Ok((Some(_), u)) = syscon_step(
            s,
            "poweroff@"@,
            "syscon-poweroff"@,
            "/poweroff"@,
        ) {
            let v = (syscon_step(t, "poweroff@"@, "syscon-poweroff"@, "/poweroff"@)->Ok_0).1;
            lemma_syscon(u, v, extra, added, "reboot@"@, "syscon-reboot"@, "/reboot"@);
        }
        assert(x86_syscon_step(s) is Ok <==> x86_syscon_step(t) is Ok);
    }
}

/// Whether no substrate of either architecture claims a node.
pub open spec fn no_substrate(c: Node) -> bool {
    &&& !has_prefix(c.name@, "interrupt-controller@"@)
    &&& !has_prefix(c.name@, "msi-controller@"@)
    &&& !has_prefix(c.name@, "poweroff@"@)
    &&& !has_prefix(c.name@, "reboot@"@)
    &&& c.name@ != "timer"@
    &&& c.name@ != "psci"@
}

proof fn lemma_substrate(
    a: SurveyState,
    b: SurveyState,
    extra: Option<Node>,
    added: Option<RegionView>,
    arch: Arch,
)
    requires
        wider(a, b, extra, added),
        extra matches Some(c) ==> no_substrate(c),
    ensures
        match (substrate_step(a, arch), substrate_step(b, arch)) {
            (Ok((x, y, s)), Ok((v, w, t))) => x == v && y == w && wider(s, t, extra, added),
            (Err(e), Err(f)) => e == f,
            _ => false,
        },
{
    match arch {
        Arch::Aarch64 => {
            lemma_arm(a, b, extra, added);
        },
        Arch::X86_64 => {
            lemma_x86(a, b, extra, added);
        },
    }
}

proof fn lemma_uart(
    a: SurveyState,
    b: SurveyState,
    extra: Option<Node>,
    added: Option<RegionView>,
    arch: Arch,
)
    requires
        wider(a, b, extra, added),
        outside(extra, prefixed("serial@"@)),
    ensures
        match (uart_step(a, arch), uart_step(b, arch)) {
            (Ok((x, s)), Ok((y, t))) => x == y && wider(s, t, extra, added),
            (Err(e), Err(f)) => e == f,
            _ => false,
        },
{
    lemma_prefixed(a.children, "serial@"@, 0);
    lemma_prefixed(b.children, "serial@"@, 0);
    lemma_found(a.children, b.children, extra, prefixed("serial@"@));
    if let Ok((Some(_), s)) = uart_step(a, arch) {
        lemma_push(a.regions, b.regions, added, s.regions[a.regions.len() as int]);
    }
}

proof fn lemma_virtio(
    a: SurveyState,
    b: SurveyState,
    extra: Option<Node>,
    added: Option<RegionView>,
    arch: Arch,
)
    requires
        wider(a, b, extra, added),
        outside(extra, prefixed("virtio_mmio@"@)),
    ensures
        match (virtio_claims(a, arch), virtio_claims(b, arch)) {
            (Ok((x, s)), Ok((y, t))) => x == y && wider(s, t, extra, added),
            (Err(e), Err(f)) => e == f,
            _ => false,
        },
    decreases a.children.len(),
{
    let prefix = "virtio_mmio@"@;
    lemma_prefixed(a.children, prefix, 0);
    lemma_prefixed(b.children, prefix, 0);
    lemma_found(a.children, b.children, extra, prefixed(prefix));
    if let Some(i) = find_prefixed(a.children, prefix, 0) {
        let j = find_prefixed(b.children, prefix, 0)->0;
        let node = virtio_node(a.children[i], arch, a.topology);
        if let Ok(v) = node {
            let region = registers("/virtio_mmio"@, (v.base, v.size));
            lemma_push(a.regions, b.regions, added, region);
            let s = SurveyState {
                children: a.children.remove(i),
                regions: a.regions.push(region),
                topology: a.topology,
            };
            let t = SurveyState {
                children: b.children.remove(j),
                regions: b.regions.push(region),
                topology: b.topology,
            };
            lemma_virtio(s, t, extra, added, arch);
        }
    }
}

proof fn lemma_pcie(a: SurveyState, b: SurveyState, extra: Option<Node>, added: Option<RegionView>)
    requires
        wider(a, b, extra, added),
        outside(extra, prefixed("pcie@"@)),
    ensures
        match (pcie_step(a), pcie_step(b)) {
            (Ok((x, s)), Ok((y, t))) => x == y && wider(s, t, extra, added),
            (Err(e), Err(f)) => e == f,
            _ => false,
        },
{
    lemma_prefixed(a.children, "pcie@"@, 0);
    lemma_prefixed(b.children, "pcie@"@, 0);
    lemma_found(a.children, b.children, extra, prefixed("pcie@"@));
    if let Ok((Some(_), s)) = pcie_step(a) {
        let (x, y) = (s.regions[a.regions.len() as int], s.regions[a.regions.len() as int + 1]);
        lemma_push(a.regions, b.regions, added, x);
        lemma_push(a.regions.push(x), b.regions.push(x), added, y);
    }
}

/// There are no more empty nodes than nodes.
proof fn lemma_fewer_names(children: Seq<Node>, n: int)
    requires
        0 <= n <= children.len(),
    ensures
        empty_names(children, n).len() <= n,
    decreases n,
{
    if n > 0 {
        lemma_fewer_names(children, n - 1);
    }
}

/// A node that is not empty adds no name to those of the empty nodes.
proof fn lemma_same_names(children: Seq<Node>, k: int, c: Node, n: int)
    requires
        0 <= k <= children.len(),
        0 <= n <= children.len() + 1,
        !is_empty_node(c),
    ensures
        empty_names(children.insert(k, c), n) == empty_names(
            children,
            if n <= k {
                n
            } else {
                n - 1
            },
        ),
    decreases n,
{
    if n > 0 {
        lemma_same_names(children, k, c, n - 1);
        let big = children.insert(k, c);
        if n - 1 < k {
            assert(big[n - 1] == children[n - 1]);
        } else if n - 1 > k {
            assert(big[n - 1] == children[n - 2]);
        }
    }
}

/// One child goes for each name, at most.
proof fn lemma_one_each(children: Seq<Node>, names: Seq<Seq<char>>, n: int)
    requires
        0 <= n <= names.len(),
    ensures
        without_children(children, names, n).len() >= children.len() - n,
    decreases n,
{
    if n > 0 {
        lemma_one_each(children, names, n - 1);
        let before = without_children(children, names, n - 1);
        lemma_find_child(before, names[n - 1], 0);
    }
}

/// The parts of a survey, each kept closed while two surveys are compared.
#[verifier::opaque]
spec fn front(s: SurveyState, arch: Arch) -> Result<
    (Option<Syscon>, Option<Syscon>, SurveyState),
    SurveyErrorView,
> {
    substrate_step(s, arch)
}

#[verifier::opaque]
spec fn port(s: SurveyState, arch: Arch) -> Result<
    (Option<UartView>, SurveyState),
    SurveyErrorView,
> {
    uart_step(s, arch)
}

#[verifier::opaque]
spec fn slots(s: SurveyState, arch: Arch) -> Result<
    (Seq<VirtioMmioView>, SurveyState),
    SurveyErrorView,
> {
    virtio_step(s, arch)
}

#[verifier::opaque]
spec fn bridge(s: SurveyState) -> Result<(Option<PcieView>, SurveyState), SurveyErrorView> {
    pcie_step(s)
}

#[verifier::opaque]
spec fn end(props: Seq<Property>, children: Seq<Node>) -> Result<
    (Seq<Property>, Seq<Node>),
    SurveyErrorView,
> {
    core_step(props, children)
}

/// A survey of a tree without a `cpus` node by its parts.
spec fn by_parts(root: Node, arch: Arch) -> Result<MachineView, SurveyErrorView> {
    match front(fresh(root), arch) {
        Err(e) => Err(e),
        Ok((poweroff, reboot, s)) => match port(s, arch) {
            Err(e) => Err(e),
            Ok((uart, s)) => match slots(s, arch) {
                Err(e) => Err(e),
                Ok((virtio_mmio, s)) => match bridge(s) {
                    Err(e) => Err(e),
                    Ok((pcie, s)) => match end(root.properties@, s.children) {
                        Err(e) => Err(e),
                        Ok((props, children)) => if props.len() != 0 || children.len() != 0 {
                            Err(residual(props, children))
                        } else {
                            Ok(
                                MachineView {
                                    arch,
                                    pcie: match pcie {
                                        Some(p) => p,
                                        None => no_pcie(),
                                    },
                                    has_pcie: pcie is Some,
                                    regions: s.regions,
                                    uart,
                                    virtio_mmio,
                                    poweroff,
                                    reboot,
                                },
                            )
                        },
                    },
                },
            },
        },
    }
}

proof fn lemma_by_parts(root: Node, arch: Arch)
    ensures
        find_child(root.children@, "cpus"@, 0) is None ==> surveyed(root, arch) == by_parts(
            root,
            arch,
        ),
        find_child(root.children@, "cpus"@, 0) is Some ==> surveyed(root, arch) == Err::<
            MachineView,
            SurveyErrorView,
        >(SurveyErrorView::BaseHasCpus),
{
    reveal(front);
    reveal(port);
    reveal(slots);
    reveal(bridge);
    reveal(end);
}

/// One more node, of another name, does not decide whether there is one of a name.
proof fn lemma_same_find(children: Seq<Node>, k: int, c: Node, name: Seq<char>)
    requires
        0 <= k <= children.len(),
        c.name@ != name,
    ensures
        find_child(children, name, 0) is None <==> find_child(children.insert(k, c), name, 0) is None,
{
    let wide = children.insert(k, c);
    lemma_called(children, name, 0);
    lemma_called(wide, name, 0);
    lemma_kids(children, wide, k, c);
    lemma_found(children, wide, Some(c), called(name));
}

proof fn lemma_front(
    root: Node,
    wide: Node,
    k: int,
    c: Node,
    arch: Arch,
)
    requires
        0 <= k <= root.children@.len(),
        wide.children@ == root.children@.insert(k, c),
        no_substrate(c),
    ensures
        match (front(fresh(root), arch), front(fresh(wide), arch)) {
            (Ok((x, y, s)), Ok((v, w, t))) => x == v && y == w && wider(s, t, Some(c), None),
            (Err(e), Err(f)) => e == f,
            _ => false,
        },
{
    reveal(front);
    let (a, b) = (fresh(root), fresh(wide));
    lemma_kids(a.children, b.children, k, c);
    lemma_substrate(a, b, Some(c), None, arch);
}

/// From the virtio slots to the host bridge.
proof fn lemma_middle(
    a: SurveyState,
    b: SurveyState,
    extra: Option<Node>,
    added: Option<RegionView>,
    arch: Arch,
)
    requires
        wider(a, b, extra, added),
        outside(extra, prefixed("virtio_mmio@"@)),
        outside(extra, prefixed("pcie@"@)),
    ensures
        match (slots(a, arch), slots(b, arch)) {
            (Ok((x, s)), Ok((y, t))) => {
                &&& x == y
                &&& match (bridge(s), bridge(t)) {
                    (Ok((v, u)), Ok((w, z))) => v == w && wider(u, z, extra, added),
                    (Err(e), Err(f)) => e == f,
                    _ => false,
                }
            },
            (Err(e), Err(f)) => e == f,
            _ => false,
        },
{
    lemma_slots(a, b, extra, added, arch);
    if let Ok((_, s)) = slots(a, arch) {
        let t = (slots(b, arch)->Ok_0).1;
        lemma_bridge(s, t, extra, added);
    }
}

proof fn lemma_slots(
    a: SurveyState,
    b: SurveyState,
    extra: Option<Node>,
    added: Option<RegionView>,
    arch: Arch,
)
    requires
        wider(a, b, extra, added),
        outside(extra, prefixed("virtio_mmio@"@)),
    ensures
        match (slots(a, arch), slots(b, arch)) {
            (Ok((x, s)), Ok((y, t))) => x == y && wider(s, t, extra, added),
            (Err(e), Err(f)) => e == f,
            _ => false,
        },
{
    reveal(slots);
    lemma_virtio(a, b, extra, added, arch);
}

proof fn lemma_bridge(
    a: SurveyState,
    b: SurveyState,
    extra: Option<Node>,
    added: Option<RegionView>,
)
    requires
        wider(a, b, extra, added),
        outside(extra, prefixed("pcie@"@)),
    ensures
        match (bridge(a), bridge(b)) {
            (Ok((x, s)), Ok((y, t))) => x == y && wider(s, t, extra, added),
            (Err(e), Err(f)) => e == f,
            _ => false,
        },
{
    reveal(bridge);
    lemma_pcie(a, b, extra, added);
}

proof fn lemma_port(a: SurveyState, b: SurveyState, c: Node, arch: Arch)
    requires
        wider(a, b, Some(c), None),
        !has_prefix(c.name@, "serial@"@),
    ensures
        match (port(a, arch), port(b, arch)) {
            (Ok((x, s)), Ok((y, t))) => x == y && wider(s, t, Some(c), None),
            (Err(e), Err(f)) => e == f,
            _ => false,
        },
{
    reveal(port);
    lemma_uart(a, b, Some(c), None, arch);
}

/// A node that is not empty, and is none of the root's own, is left over.
proof fn lemma_left_over(
    props: Seq<Property>,
    a: Seq<Node>,
    b: Seq<Node>,
    c: Node,
)
    requires
        kids(a, b, Some(c)),
        !is_empty_node(c),
        c.name@ != "cpus"@,
        c.name@ != "chosen"@,
        c.name@ != "aliases"@,
        end(props, a) is Ok,
        (end(props, a)->Ok_0).1.len() == 0,
    ensures
        end(props, b) matches Ok((_, children)) && children.len() > 0,
{
    reveal(end);
    let extra = Some(c);
    lemma_called(a, "cpus"@, 0);
    lemma_called(b, "cpus"@, 0);
    lemma_found(a, b, extra, called("cpus"@));
    lemma_called(a, "chosen"@, 0);
    lemma_called(b, "chosen"@, 0);
    lemma_found(a, b, extra, called("chosen"@));
    let (a1, b1) = (chosen_step(a)->Ok_0, chosen_step(b)->Ok_0);
    assert(kids(a1, b1, extra));
    lemma_called(a1, "aliases"@, 0);
    lemma_called(b1, "aliases"@, 0);
    lemma_found(a1, b1, extra, called("aliases"@));
    let (a2, b2) = (aliases_step(a1)->Ok_0, aliases_step(b1)->Ok_0);
    assert(kids(a2, b2, extra));
    let k = choose|k: int| 0 <= k <= a2.len() && b2 == #[trigger] a2.insert(k, c);
    lemma_same_names(a2, k, c, b2.len() as int);
    lemma_fewer_names(a2, a2.len() as int);
    let names = empty_names(b2, b2.len() as int);
    lemma_one_each(b2, names, names.len() as int);
}

/// Whether no device models a node of this name.
pub open spec fn foreign(c: Node) -> bool {
    &&& no_substrate(c)
    &&& !has_prefix(c.name@, "serial@"@)
    &&& !has_prefix(c.name@, "virtio_mmio@"@)
    &&& !has_prefix(c.name@, "pcie@"@)
    &&& c.name@ != "cpus"@
    &&& c.name@ != "chosen"@
    &&& c.name@ != "aliases"@
}

proof fn lemma_foreign_by_parts(root: Node, wide: Node, k: int, c: Node, arch: Arch)
    requires
        by_parts(root, arch) is Ok,
        0 <= k <= root.children@.len(),
        wide.children@ == root.children@.insert(k, c),
        wide.properties@ == root.properties@,
        foreign(c),
        !is_empty_node(c),
    ensures
        by_parts(wide, arch) matches Err(e) && e is Uncovered,
{
    lemma_front(root, wide, k, c, arch);
    let (a1, b1) = ((front(fresh(root), arch)->Ok_0).2, (front(fresh(wide), arch)->Ok_0).2);
    lemma_port(a1, b1, c, arch);
    let (a2, b2) = ((port(a1, arch)->Ok_0).1, (port(b1, arch)->Ok_0).1);
    lemma_middle(a2, b2, Some(c), None, arch);
    let (a3, b3) = ((slots(a2, arch)->Ok_0).1, (slots(b2, arch)->Ok_0).1);
    let (a4, b4) = ((bridge(a3)->Ok_0).1, (bridge(b3)->Ok_0).1);
    lemma_left_over(root.properties@, a4.children, b4.children, c);
}

/// A tree that is surveyed without fault is not covered any more with one more root
/// child that no device models, wherever it stands.
pub proof fn law_foreign_node_is_uncovered(root: Node, wide: Node, k: int, c: Node, arch: Arch)
    requires
        surveyed(root, arch) is Ok,
        0 <= k <= root.children@.len(),
        wide.children@ == root.children@.insert(k, c),
        wide.properties@ == root.properties@,
        foreign(c),
        !is_empty_node(c),
    ensures
        surveyed(wide, arch) matches Err(e) && e is Uncovered,
{
    lemma_by_parts(root, arch);
    lemma_by_parts(wide, arch);
    lemma_same_find(root.children@, k, c, "cpus"@);
    lemma_foreign_by_parts(root, wide, k, c, arch);
}

/// A tree with a `cpus` node is refused for it.
pub proof fn law_cpus_node_is_refused(root: Node, c: Node, arch: Arch)
    requires
        root.children@.contains(c),
        c.name@ == "cpus"@,
    ensures
        surveyed(root, arch) matches Err(e) && e is BaseHasCpus,
{
    lemma_find_child(root.children@, "cpus"@, 0);
}

proof fn lemma_serial_is_no_other(c: Node)
    requires
        has_prefix(c.name@, "serial@"@),
    ensures
        no_substrate(c),
        c.name@ != "cpus"@,
{
    reveal_strlit("serial@");
    reveal_strlit("interrupt-controller@");
    reveal_strlit("msi-controller@");
    reveal_strlit("poweroff@");
    reveal_strlit("reboot@");
    reveal_strlit("timer");
    reveal_strlit("psci");
    reveal_strlit("cpus");
    let name = c.name@;
    assert(name.take("serial@"@.len() as int)[0] == name[0]);
    assert(name[0] == 's');
    if has_prefix(name, "interrupt-controller@"@) {
        assert(name.take("interrupt-controller@"@.len() as int)[0] == name[0]);
    }
    if has_prefix(name, "msi-controller@"@) {
        assert(name.take("msi-controller@"@.len() as int)[0] == name[0]);
    }
    if has_prefix(name, "poweroff@"@) {
        assert(name.take("poweroff@"@.len() as int)[0] == name[0]);
    }
    if has_prefix(name, "reboot@"@) {
        assert(name.take("reboot@"@.len() as int)[0] == name[0]);
    }
}

/// Claiming the substrate brings no serial port.
proof fn lemma_still_none(root: Node, arch: Arch)
    requires
        find_prefixed(root.children@, "serial@"@, 0) is None,
        front(fresh(root), arch) is Ok,
    ensures
        find_prefixed((front(fresh(root), arch)->Ok_0).2.children, "serial@"@, 0) is None,
{
    reveal(front);
    let serial = "serial@"@;
    let nodes = root.children@;
    let left = (front(fresh(root), arch)->Ok_0).2.children;
    laws::lemma_substrate(nodes, fresh(root), arch);
    lemma_prefixed(nodes, serial, 0);
    lemma_bounds(nodes, prefixed(serial), 0);
    lemma_find_prefixed(left, serial, 0);
    if let Some(i) = find_prefixed(left, serial, 0) {
        assert(left.contains(left[i]));
        let j = choose|j: int| 0 <= j < nodes.len() && nodes[j] == left[i];
        assert(!prefixed(serial)(nodes[j]));
    }
}

/// The only serial port is claimed, and what is left is what is left without it,
/// with one more region.
proof fn lemma_only_port(a: SurveyState, b: SurveyState, c: Node, arch: Arch) -> (region:
    RegionView)
    requires
        wider(a, b, Some(c), None),
        has_prefix(c.name@, "serial@"@),
        find_prefixed(a.children, "serial@"@, 0) is None,
        port(b, arch) is Ok,
    ensures
        port(a, arch) == Ok::<_, SurveyErrorView>((None::<UartView>, a)),
        (port(b, arch)->Ok_0).0 is Some,
        wider(a, (port(b, arch)->Ok_0).1, None, Some(region)),
{
    reveal(port);
    let serial = "serial@"@;
    lemma_prefixed(a.children, serial, 0);
    lemma_prefixed(b.children, serial, 0);
    let at = choose|at: int|
        0 <= at <= a.children.len() && b.children == #[trigger] a.children.insert(at, c);
    lemma_find_only(a.children, prefixed(serial), at, c, 0);
    assert(b.children.remove(at) =~= a.children);
    let next = (uart_step(b, arch)->Ok_0).1;
    let region = next.regions[b.regions.len() as int];
    assert(next.regions =~= a.regions.insert(a.regions.len() as int, region));
    region
}

proof fn lemma_fewer_regions(a: Seq<RegionView>, b: Seq<RegionView>, r: RegionView)
    requires
        more(a, b, Some(r)),
    ensures
        b.len() == a.len() + 1,
        exists|at: int| 0 <= at < b.len() && a == #[trigger] b.remove(at),
        disjoint(b) ==> disjoint(a),
{
    let p = choose|p: int| 0 <= p <= a.len() && b == #[trigger] a.insert(p, r);
    assert(a == b.remove(p));
    if disjoint(b) {
        assert forall|i: int, j: int| 0 <= i < j < a.len() implies !#[trigger] regions_clash(
            a,
            i,
            j,
        ) by {
            let x = if i < p {
                i
            } else {
                i + 1
            };
            let y = if j < p {
                j
            } else {
                j + 1
            };
            assert(!regions_clash(b, x, y));
        }
    }
}

/// Whether `n` is `m` without its serial port and the region of it.
pub open spec fn without_port(m: MachineView, n: MachineView) -> bool {
    &&& m.uart is Some
    &&& n.uart is None
    &&& n.arch == m.arch
    &&& n.pcie == m.pcie
    &&& n.has_pcie == m.has_pcie
    &&& n.virtio_mmio == m.virtio_mmio
    &&& n.poweroff == m.poweroff
    &&& n.reboot == m.reboot
    &&& m.regions.len() == n.regions.len() + 1
    &&& exists|at: int| 0 <= at < m.regions.len() && n.regions == #[trigger] m.regions.remove(at)
}

proof fn lemma_port_by_parts(root: Node, less: Node, k: int, c: Node, arch: Arch)
    requires
        by_parts(root, arch) is Ok,
        0 <= k <= less.children@.len(),
        root.children@ == less.children@.insert(k, c),
        root.properties@ == less.properties@,
        has_prefix(c.name@, "serial@"@),
        no_substrate(c),
        find_prefixed(less.children@, "serial@"@, 0) is None,
    ensures
        by_parts(less, arch) matches Ok(n) && without_port(by_parts(root, arch)->Ok_0, n) && (
        disjoint((by_parts(root, arch)->Ok_0).regions) ==> disjoint(n.regions)),
{
    lemma_front(less, root, k, c, arch);
    let (a1, b1) = ((front(fresh(less), arch)->Ok_0).2, (front(fresh(root), arch)->Ok_0).2);
    lemma_still_none(less, arch);
    let region = lemma_only_port(a1, b1, c, arch);
    let (a2, b2) = ((port(a1, arch)->Ok_0).1, (port(b1, arch)->Ok_0).1);
    lemma_middle(a2, b2, None, Some(region), arch);
    let (a3, b3) = ((slots(a2, arch)->Ok_0).1, (slots(b2, arch)->Ok_0).1);
    let (a4, b4) = ((bridge(a3)->Ok_0).1, (bridge(b3)->Ok_0).1);
    lemma_fewer_regions(a4.regions, b4.regions, region);
    assert(a4.children == b4.children);
    let (m, n) = (by_parts(root, arch)->Ok_0, by_parts(less, arch)->Ok_0);
    assert(n.regions == a4.regions && m.regions == b4.regions);
}

/// Leaving the only serial port out of a tree that is surveyed without fault gives
/// the same machine without a serial port and with one region less: all else stays,
/// and regions that were disjoint still are.
pub proof fn law_serial_port_can_be_left_out(root: Node, less: Node, k: int, c: Node, arch: Arch)
    requires
        surveyed(root, arch) is Ok,
        0 <= k <= less.children@.len(),
        root.children@ == less.children@.insert(k, c),
        root.properties@ == less.properties@,
        has_prefix(c.name@, "serial@"@),
        find_prefixed(less.children@, "serial@"@, 0) is None,
    ensures
        surveyed(less, arch) matches Ok(n) && without_port(surveyed(root, arch)->Ok_0, n) && (
        disjoint((surveyed(root, arch)->Ok_0).regions) ==> disjoint(n.regions)),
{
    lemma_serial_is_no_other(c);
    lemma_by_parts(less, arch);
    lemma_by_parts(root, arch);
    lemma_same_find(less.children@, k, c, "cpus"@);
    lemma_port_by_parts(root, less, k, c, arch);
}

} // verus!
