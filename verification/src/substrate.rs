//! The part of the device tree that a machine needs before it exists: the
//! interrupt controllers.
use vstd::prelude::*;
use vstd::slice::slice_subrange;
use vstd::utf8::encode_utf8;

use crate::devtree::{
    bytes_at, find_child, law_cells_are_big_endian, law_other_properties_stay,
    law_pairs_are_big_endian, lemma_find_child, property_of, reg_pair_of, string_starts, u32_of,
    without_property, Node, Property,
};
use crate::hexstr::big_endian;
use crate::platform::decoding::{cell_says, lemma_names, reg_says, value_of};
use crate::text;

verus! {

/// Why a machine cannot be made from a device tree.
#[derive(Debug, Clone, Copy)]
pub enum SubstrateError {
    /// A node is missing.
    Missing(&'static str),
    /// A property of a node is missing or malformed.
    BadProperty { node: &'static str, prop: &'static str, reason: &'static str },
}

pub open spec fn bad(
    node: &'static str,
    prop: &'static str,
    reason: &'static str,
) -> SubstrateError {
    SubstrateError::BadProperty { node, prop, reason }
}

/// Whether `bytes` holds `item` at byte `i`, up to a zero or the end.
pub open spec fn item_at(bytes: Seq<u8>, i: int, item: Seq<u8>) -> bool {
    &&& item.len() > 0
    &&& bytes_at(bytes, i, item)
    &&& i + item.len() == bytes.len() || bytes[i + item.len()] == 0
}

/// Whether one of the zero-separated items of `bytes` is `item`.
pub open spec fn list_has(bytes: Seq<u8>, item: Seq<u8>) -> bool {
    &&& forall|k: int| 0 <= k < item.len() ==> #[trigger] item[k] != 0
    &&& exists|i: int| #[trigger] string_starts(bytes, i) && item_at(bytes, i, item)
}

/// Whether one of the zero-separated items of `bytes` is `value`.
pub fn stringlist_contains(bytes: &[u8], value: &str) -> (r: bool)
    ensures
        r == list_has(bytes@, encode_utf8(value@)),
{
    let item: &[u8] = value.as_bytes();
    let n: usize = bytes.len();
    let m: usize = item.len();
    let mut k: usize = 0;
    while k < m
        invariant
            m == item@.len(),
            item@ == encode_utf8(value@),
            k <= m,
            forall|j: int| 0 <= j < k ==> #[trigger] item@[j] != 0,
        decreases m - k,
    {
        if item[k] == 0 {
            return false;
        }
        k = k + 1;
    }
    if m == 0 {
        return false;
    }
    let mut i: usize = 0;
    while i < n
        invariant
            n == bytes@.len(),
            m == item@.len(),
            item@ == encode_utf8(value@),
            forall|j: int| 0 <= j < m ==> #[trigger] item@[j] != 0,
            0 < m,
            i <= n,
            forall|k: int|
                0 <= k < i && #[trigger] string_starts(bytes@, k) ==> !item_at(bytes@, k, item@),
        decreases n - i,
    {
        if (i == 0 || bytes[i - 1] == 0) && m <= n - i {
            let here: &[u8] = slice_subrange(bytes, i, i + m);
            if text::same_bytes(here, item) && (i + m == n || bytes[i + m] == 0) {
                assert(string_starts(bytes@, i as int));
                assert(item_at(bytes@, i as int, item@));
                return true;
            }
        }
        i = i + 1;
    }
    false
}

/// Whether a node says that it is compatible with `value`.
pub open spec fn compatible(node: Node, value: Seq<char>) -> bool {
    property_of(node.properties@, "compatible"@) matches Some(p) && list_has(
        p.value@,
        encode_utf8(value),
    )
}

/// Whether a node says that it is compatible with `value`.
fn compatible_contains(node: &Node, value: &str) -> (r: bool)
    ensures
        r == compatible(*node, value@),
{
    match node.property_index("compatible") {
        Some(i) => stringlist_contains(node.properties[i].value.as_slice(), value),
        None => false,
    }
}

/// Where the first child stands, from `i` on, whose name starts with `prefix` and
/// that is compatible with `value`.
pub open spec fn find_compatible(
    children: Seq<Node>,
    prefix: Seq<char>,
    value: Seq<char>,
    i: int,
) -> Option<int>
    decreases children.len() - i,
{
    if i < 0 || i >= children.len() {
        None
    } else if text::has_prefix(children[i].name@, prefix) && compatible(children[i], value) {
        Some(i)
    } else {
        find_compatible(children, prefix, value, i + 1)
    }
}

/// Taking a compatible child out by its name: the child and the others.
pub open spec fn take_node(
    children: Seq<Node>,
    prefix: Seq<char>,
    value: Seq<char>,
) -> Option<(Node, Seq<Node>)> {
    match find_compatible(children, prefix, value, 0) {
        Some(k) => match find_child(children, children[k].name@, 0) {
            Some(j) => Some((children[j], children.remove(j))),
            None => None,
        },
        None => None,
    }
}

/// Takes the first compatible child out.
fn take_compatible(root: &mut Node, prefix: &str, value: &str) -> (r: Option<Node>)
    ensures
        final(root).name == old(root).name,
        final(root).properties == old(root).properties,
        match r {
            Some(node) => take_node(old(root).children@, prefix@, value@) == Some(
                (node, final(root).children@),
            ),
            None => take_node(old(root).children@, prefix@, value@) is None
                && final(root).children == old(root).children,
        },
{
    let mut i: usize = 0;
    while i < root.children.len()
        invariant
            i <= root.children@.len(),
            *root == *old(root),
            find_compatible(root.children@, prefix@, value@, 0) == find_compatible(
                root.children@,
                prefix@,
                value@,
                i as int,
            ),
        decreases root.children@.len() - i,
    {
        if text::starts_with(root.children[i].name.as_str(), prefix) && compatible_contains(
            &root.children[i],
            value,
        ) {
            let name: String = root.children[i].name.clone();
            proof {
                lemma_find_child(root.children@, name@, 0);
            }
            return match root.child_index(name.as_str()) {
                Some(j) => Some(root.children.remove(j)),
                None => None,
            };
        }
        i = i + 1;
    }
    None
}

/// Taking the `compatible` property out: what is left.
pub open spec fn consumed(
    props: Seq<Property>,
    node: &'static str,
    value: Seq<char>,
    reason: &'static str,
) -> Result<Seq<Property>, SubstrateError> {
    match property_of(props, "compatible"@) {
        Some(p) => if list_has(p.value@, encode_utf8(value)) {
            Ok(without_property(props, "compatible"@))
        } else {
            Err(bad(node, "compatible", reason))
        },
        None => Err(bad(node, "compatible", "missing")),
    }
}

fn consume_compatible(
    node: &mut Node,
    path: &'static str,
    value: &str,
    reason: &'static str,
) -> (r: Result<(), SubstrateError>)
    ensures
        final(node).children == old(node).children,
        match consumed(old(node).properties@, path, value@, reason) {
            Ok(rest) => r is Ok && final(node).properties@ == rest,
            Err(e) => r == Err::<(), _>(e),
        },
{
    match node.remove_property("compatible") {
        Some(prop) => {
            if stringlist_contains(prop.value.as_slice(), value) {
                Ok(())
            } else {
                Err(SubstrateError::BadProperty { node: path, prop: "compatible", reason })
            }
        },
        None => Err(
            SubstrateError::BadProperty { node: path, prop: "compatible", reason: "missing" },
        ),
    }
}

/// A property of one cell.
pub open spec fn cell_of(
    props: Seq<Property>,
    node: &'static str,
    prop: &'static str,
) -> Result<u32, SubstrateError> {
    match property_of(props, prop@) {
        Some(p) => match u32_of(p.value@) {
            Some(v) => Ok(v),
            None => Err(bad(node, prop, "missing or not a u32")),
        },
        None => Err(bad(node, prop, "missing or not a u32")),
    }
}

fn take_cell(node: &mut Node, path: &'static str, prop: &'static str) -> (r: Result<
    u32,
    SubstrateError,
>)
    ensures
        r == cell_of(old(node).properties@, path, prop),
        final(node).properties@ == without_property(old(node).properties@, prop@),
{
    match node.remove_property(prop) {
        Some(p) => match p.as_u32() {
            Some(v) => Ok(v),
            None => Err(
                SubstrateError::BadProperty { node: path, prop, reason: "missing or not a u32" },
            ),
        },
        None => Err(
            SubstrateError::BadProperty { node: path, prop, reason: "missing or not a u32" },
        ),
    }
}

/// Where the distributor and the redistributors are.
pub open spec fn gic_bases(intc: Node) -> Result<(u64, u64), SubstrateError> {
    match consumed(
        intc.properties@,
        "/interrupt-controller",
        "arm,gic-v3"@,
        "unsupported compatible",
    ) {
        Ok(props) => match property_of(props, "reg"@) {
            Some(reg) => match reg_pair_of(reg.value@, 0) {
                Some(dist) => match reg_pair_of(reg.value@, 1) {
                    Some(redist) => Ok((dist.0, redist.0)),
                    None => Err(bad("/interrupt-controller", "reg", "missing GICR pair")),
                },
                None => Err(bad("/interrupt-controller", "reg", "missing GICD pair")),
            },
            None => Err(bad("/interrupt-controller", "reg", "missing")),
        },
        Err(e) => Err(e),
    }
}

fn read_gic_bases(intc: Node) -> (r: Result<(u64, u64), SubstrateError>)
    ensures
        r == gic_bases(intc),
{
    let mut intc = intc;
    match consume_compatible(
        &mut intc,
        "/interrupt-controller",
        "arm,gic-v3",
        "unsupported compatible",
    ) {
        Ok(()) => {},
        Err(e) => {
            return Err(e);
        },
    }
    let reg = match intc.remove_property("reg") {
        Some(p) => p,
        None => {
            return Err(
                SubstrateError::BadProperty {
                    node: "/interrupt-controller",
                    prop: "reg",
                    reason: "missing",
                },
            );
        },
    };
    let (dist_base, _) = match reg.reg_pair(0) {
        Some(pair) => pair,
        None => {
            return Err(
                SubstrateError::BadProperty {
                    node: "/interrupt-controller",
                    prop: "reg",
                    reason: "missing GICD pair",
                },
            );
        },
    };
    let (redist_base, _) = match reg.reg_pair(1) {
        Some(pair) => pair,
        None => {
            return Err(
                SubstrateError::BadProperty {
                    node: "/interrupt-controller",
                    prop: "reg",
                    reason: "missing GICR pair",
                },
            );
        },
    };
    Ok((dist_base, redist_base))
}

/// The interrupt controller of an aarch64 KVM machine.
#[derive(Debug, Clone, Copy, PartialEq, Eq, Structural)]
pub struct Aarch64Substrate {
    pub dist_base: u64,
    pub redist_base: u64,
    pub spi_count: u32,
}

/// How many shared interrupts a message frame has.
pub open spec fn frame_spis(v2m: Node) -> Result<u32, SubstrateError> {
    match consumed(
        v2m.properties@,
        "/msi-controller",
        "arm,gic-v2m-frame"@,
        "unsupported compatible",
    ) {
        Ok(props) => cell_of(props, "/msi-controller", "arm,msi-num-spis"),
        Err(e) => Err(e),
    }
}

/// The substrate of an aarch64 KVM machine, and the nodes that are left.
pub open spec fn kvm_substrate(children: Seq<Node>) -> (
    Seq<Node>,
    Result<Aarch64Substrate, SubstrateError>,
) {
    match take_node(children, "interrupt-controller@"@, "arm,gic-v3"@) {
        None => (children, Err(SubstrateError::Missing("/interrupt-controller@*"))),
        Some((intc, rest)) => match gic_bases(intc) {
            Err(e) => (rest, Err(e)),
            Ok((dist_base, redist_base)) => match take_node(
                rest,
                "msi-controller@"@,
                "arm,gic-v2m-frame"@,
            ) {
                None => (rest, Err(SubstrateError::Missing("/msi-controller@*"))),
                Some((v2m, left)) => match frame_spis(v2m) {
                    Err(e) => (left, Err(e)),
                    Ok(spi_count) => (
                        left,
                        Ok(Aarch64Substrate { dist_base, redist_base, spi_count }),
                    ),
                },
            },
        },
    }
}

impl Aarch64Substrate {
    /// Takes the interrupt controllers out of a device tree.
    pub fn from_devtree(tree: &mut Node) -> (r: Result<Option<Aarch64Substrate>, SubstrateError>)
        ensures
            final(tree).name == old(tree).name,
            final(tree).properties == old(tree).properties,
            final(tree).children@ == kvm_substrate(old(tree).children@).0,
            r == match kvm_substrate(old(tree).children@).1 {
                Ok(s) => Ok(Some(s)),
                Err(e) => Err(e),
            },
    {
        let intc = match take_compatible(tree, "interrupt-controller@", "arm,gic-v3") {
            Some(node) => node,
            None => {
                return Err(SubstrateError::Missing("/interrupt-controller@*"));
            },
        };
        let (dist_base, redist_base) = match read_gic_bases(intc) {
            Ok(bases) => bases,
            Err(e) => {
                return Err(e);
            },
        };
        let mut v2m = match take_compatible(tree, "msi-controller@", "arm,gic-v2m-frame") {
            Some(node) => node,
            None => {
                return Err(SubstrateError::Missing("/msi-controller@*"));
            },
        };
        match consume_compatible(
            &mut v2m,
            "/msi-controller",
            "arm,gic-v2m-frame",
            "unsupported compatible",
        ) {
            Ok(()) => {},
            Err(e) => {
                return Err(e);
            },
        }
        match take_cell(&mut v2m, "/msi-controller", "arm,msi-num-spis") {
            Ok(spi_count) => Ok(Some(Aarch64Substrate { dist_base, redist_base, spi_count })),
            Err(e) => Err(e),
        }
    }

    /// How many interrupts the controller is given: the private ones, and at least
    /// 96 shared ones.
    pub fn nr_irqs(&self) -> (r: u32)
        requires
            self.spi_count <= u32::MAX - 32,
        ensures
            r == 32 + if self.spi_count > 96 {
                self.spi_count as int
            } else {
                96
            },
    {
        if self.spi_count > 96 {
            32 + self.spi_count
        } else {
            32 + 96
        }
    }
}

/// The interrupt controller of a machine with message frames.
#[derive(Debug, Clone, Copy, PartialEq, Eq, Structural)]
pub struct GicParams {
    pub dist_base: u64,
    pub redist_base: u64,
    pub msi_base: u64,
    pub msi_intid_base: u32,
    pub msi_intid_count: u32,
}

/// Where a message frame is, and its first interrupt and the number of them.
pub open spec fn frame_range(v2m: Node) -> Result<(u64, u32, u32), SubstrateError> {
    match consumed(
        v2m.properties@,
        "/msi-controller",
        "arm,gic-v2m-frame"@,
        "unsupported compatible",
    ) {
        Ok(props) => match property_of(props, "reg"@) {
            Some(reg) => match reg_pair_of(reg.value@, 0) {
                Some(frame) => {
                    let rest = without_property(props, "reg"@);
                    match cell_of(rest, "/msi-controller", "arm,msi-base-spi") {
                        Ok(base) => {
                            let left = without_property(rest, "arm,msi-base-spi"@);
                            match cell_of(left, "/msi-controller", "arm,msi-num-spis") {
                                Ok(count) => Ok((frame.0, base, count)),
                                Err(e) => Err(e),
                            }
                        },
                        Err(e) => Err(e),
                    }
                },
                None => Err(bad("/msi-controller", "reg", "missing MSI frame pair")),
            },
            None => Err(bad("/msi-controller", "reg", "missing")),
        },
        Err(e) => Err(e),
    }
}

/// The interrupt controller of a machine with message frames, and the nodes that
/// are left.
pub open spec fn gic_params(children: Seq<Node>) -> (Seq<Node>, Result<GicParams, SubstrateError>) {
    match take_node(children, "interrupt-controller@"@, "arm,gic-v3"@) {
        None => (children, Err(SubstrateError::Missing("/interrupt-controller@*"))),
        Some((intc, rest)) => match gic_bases(intc) {
            Err(e) => (rest, Err(e)),
            Ok((dist_base, redist_base)) => match take_node(
                rest,
                "msi-controller@"@,
                "arm,gic-v2m-frame"@,
            ) {
                None => (rest, Err(SubstrateError::Missing("/msi-controller@*"))),
                Some((v2m, left)) => match frame_range(v2m) {
                    Err(e) => (left, Err(e)),
                    Ok((msi_base, msi_intid_base, msi_intid_count)) => (
                        left,
                        Ok(
                            GicParams {
                                dist_base,
                                redist_base,
                                msi_base,
                                msi_intid_base,
                                msi_intid_count,
                            },
                        ),
                    ),
                },
            },
        },
    }
}

fn read_frame_range(v2m: Node) -> (r: Result<(u64, u32, u32), SubstrateError>)
    ensures
        r == frame_range(v2m),
{
    let mut v2m = v2m;
    match consume_compatible(
        &mut v2m,
        "/msi-controller",
        "arm,gic-v2m-frame",
        "unsupported compatible",
    ) {
        Ok(()) => {},
        Err(e) => {
            return Err(e);
        },
    }
    let reg = match v2m.remove_property("reg") {
        Some(p) => p,
        None => {
            return Err(
                SubstrateError::BadProperty {
                    node: "/msi-controller",
                    prop: "reg",
                    reason: "missing",
                },
            );
        },
    };
    let (msi_base, _) = match reg.reg_pair(0) {
        Some(pair) => pair,
        None => {
            return Err(
                SubstrateError::BadProperty {
                    node: "/msi-controller",
                    prop: "reg",
                    reason: "missing MSI frame pair",
                },
            );
        },
    };
    let base: u32 = match take_cell(&mut v2m, "/msi-controller", "arm,msi-base-spi") {
        Ok(v) => v,
        Err(e) => {
            return Err(e);
        },
    };
    match take_cell(&mut v2m, "/msi-controller", "arm,msi-num-spis") {
        Ok(count) => Ok((msi_base, base, count)),
        Err(e) => Err(e),
    }
}

impl GicParams {
    /// Takes the interrupt controllers out of a device tree.
    pub fn from_devtree(tree: &mut Node) -> (r: Result<Option<GicParams>, SubstrateError>)
        ensures
            final(tree).name == old(tree).name,
            final(tree).properties == old(tree).properties,
            final(tree).children@ == gic_params(old(tree).children@).0,
            r == match gic_params(old(tree).children@).1 {
                Ok(s) => Ok(Some(s)),
                Err(e) => Err(e),
            },
    {
        let intc = match take_compatible(tree, "interrupt-controller@", "arm,gic-v3") {
            Some(node) => node,
            None => {
                return Err(SubstrateError::Missing("/interrupt-controller@*"));
            },
        };
        let (dist_base, redist_base) = match read_gic_bases(intc) {
            Ok(bases) => bases,
            Err(e) => {
                return Err(e);
            },
        };
        let v2m = match take_compatible(tree, "msi-controller@", "arm,gic-v2m-frame") {
            Some(node) => node,
            None => {
                return Err(SubstrateError::Missing("/msi-controller@*"));
            },
        };
        match read_frame_range(v2m) {
            Ok((msi_base, msi_intid_base, msi_intid_count)) => Ok(
                Some(
                    GicParams {
                        dist_base,
                        redist_base,
                        msi_base,
                        msi_intid_base,
                        msi_intid_count,
                    },
                ),
            ),
            Err(e) => Err(e),
        }
    }
}

/// The IOAPIC of an x86 machine that emulates its own: the window of its
/// registers.
#[derive(Debug, Clone, Copy, PartialEq, Eq, Structural)]
pub struct WhpX86Substrate {
    pub base: u64,
    pub size: u64,
}

/// What is left of a node without a property that it must have.
pub open spec fn acked(props: Seq<Property>, prop: &'static str) -> Result<
    Seq<Property>,
    SubstrateError,
> {
    match property_of(props, prop@) {
        Some(_) => Ok(without_property(props, prop@)),
        None => Err(bad("/ioapic", prop, "missing")),
    }
}

/// The window of an IOAPIC. The node must have nothing else than what is known of
/// it.
pub open spec fn ioapic_window(node: Node) -> Result<WhpX86Substrate, SubstrateError> {
    match consumed(
        node.properties@,
        "/ioapic",
        "intel,ce4100-ioapic"@,
        "missing expected compatible",
    ) {
        Ok(props) => match property_of(props, "reg"@) {
            Some(reg) => match reg_pair_of(reg.value@, 0) {
                Some((base, size)) => match acked(
                    without_property(props, "reg"@),
                    "#interrupt-cells",
                ) {
                    Ok(a) => match acked(a, "interrupt-controller") {
                        Ok(b) => match acked(b, "phandle") {
                            Ok(c) => if c.len() == 0 && node.children@.len() == 0 {
                                Ok(WhpX86Substrate { base, size })
                            } else {
                                Err(bad("/ioapic", "*", "unconsumed property or child"))
                            },
                            Err(e) => Err(e),
                        },
                        Err(e) => Err(e),
                    },
                    Err(e) => Err(e),
                },
                None => Err(bad("/ioapic", "reg", "missing reg pair")),
            },
            None => Err(bad("/ioapic", "reg", "missing")),
        },
        Err(e) => Err(e),
    }
}

fn ack(node: &mut Node, prop: &'static str) -> (r: Result<(), SubstrateError>)
    ensures
        final(node).children == old(node).children,
        match acked(old(node).properties@, prop) {
            Ok(rest) => r is Ok && final(node).properties@ == rest,
            Err(e) => r == Err::<(), _>(e),
        },
{
    match node.remove_property(prop) {
        Some(_) => Ok(()),
        None => Err(SubstrateError::BadProperty { node: "/ioapic", prop, reason: "missing" }),
    }
}

fn read_ioapic_window(node: Node) -> (r: Result<WhpX86Substrate, SubstrateError>)
    ensures
        r == ioapic_window(node),
{
    let mut node = node;
    match consume_compatible(
        &mut node,
        "/ioapic",
        "intel,ce4100-ioapic",
        "missing expected compatible",
    ) {
        Ok(()) => {},
        Err(e) => {
            return Err(e);
        },
    }
    let reg = match node.remove_property("reg") {
        Some(p) => p,
        None => {
            return Err(
                SubstrateError::BadProperty { node: "/ioapic", prop: "reg", reason: "missing" },
            );
        },
    };
    let (base, size) = match reg.reg_pair(0) {
        Some(pair) => pair,
        None => {
            return Err(
                SubstrateError::BadProperty {
                    node: "/ioapic",
                    prop: "reg",
                    reason: "missing reg pair",
                },
            );
        },
    };
    match ack(&mut node, "#interrupt-cells") {
        Ok(()) => {},
        Err(e) => {
            return Err(e);
        },
    }
    match ack(&mut node, "interrupt-controller") {
        Ok(()) => {},
        Err(e) => {
            return Err(e);
        },
    }
    match ack(&mut node, "phandle") {
        Ok(()) => {},
        Err(e) => {
            return Err(e);
        },
    }
    if node.properties.len() != 0 || node.children.len() != 0 {
        return Err(
            SubstrateError::BadProperty {
                node: "/ioapic",
                prop: "*",
                reason: "unconsumed property or child",
            },
        );
    }
    Ok(WhpX86Substrate { base, size })
}

impl WhpX86Substrate {
    /// Takes the IOAPIC out of a device tree that has one.
    pub fn from_devtree(tree: &mut Node) -> (r: Result<Option<WhpX86Substrate>, SubstrateError>)
        ensures
            final(tree).name == old(tree).name,
            final(tree).properties == old(tree).properties,
            match take_node(
                old(tree).children@,
                "interrupt-controller@"@,
                "intel,ce4100-ioapic"@,
            ) {
                None => {
                    &&& r == Ok::<_, SubstrateError>(None::<WhpX86Substrate>)
                    &&& final(tree).children == old(tree).children
                },
                Some((node, rest)) => {
                    &&& r == match ioapic_window(node) {
                        Ok(s) => Ok(Some(s)),
                        Err(e) => Err(e),
                    }
                    &&& final(tree).children@ == rest
                },
            },
    {
        let node = match take_compatible(tree, "interrupt-controller@", "intel,ce4100-ioapic") {
            Some(node) => node,
            None => {
                return Ok(None);
            },
        };
        match read_ioapic_window(node) {
            Ok(s) => Ok(Some(s)),
            Err(e) => Err(e),
        }
    }
}

/// A string is in a list exactly where the list falls into a part that is empty or
/// ends with a zero byte, the string, and a part that is empty or starts with one.
pub proof fn law_list_has_its_strings(front: Seq<u8>, item: Seq<u8>, back: Seq<u8>, bytes: Seq<u8>)
    requires
        item.len() > 0,
        !item.contains(0),
    ensures
        (front.len() == 0 || front.last() == 0) && (back.len() == 0 || back[0] == 0) ==> list_has(
            front + item + back,
            item,
        ),
        list_has(bytes, item) ==> exists|f: Seq<u8>, b: Seq<u8>|
            bytes == #[trigger] (f + item + b) && (f.len() == 0 || f.last() == 0) && (b.len() == 0
                || b[0] == 0),
{
    let all = front + item + back;
    assert forall|k: int| 0 <= k < item.len() implies #[trigger] item[k] != 0 by {
        assert(item.contains(item[k]));
    }
    if (front.len() == 0 || front.last() == 0) && (back.len() == 0 || back[0] == 0) {
        let i = front.len() as int;
        assert(all.subrange(i, i + item.len()) =~= item);
        assert(string_starts(all, i));
        assert(item_at(all, i, item));
    }
    if list_has(bytes, item) {
        let i = choose|i: int| #[trigger] string_starts(bytes, i) && item_at(bytes, i, item);
        let f = bytes.take(i);
        let b = bytes.skip(i + item.len());
        assert(bytes =~= f + item + b);
    }
}

proof fn lemma_find_compatible(children: Seq<Node>, prefix: Seq<char>, value: Seq<char>, i: int)
    requires
        0 <= i,
    ensures
        find_compatible(children, prefix, value, i) matches Some(k) ==> i <= k < children.len()
            && text::has_prefix(children[k].name@, prefix) && compatible(children[k], value),
    decreases children.len() - i,
{
    if i < children.len() && !(text::has_prefix(children[i].name@, prefix) && compatible(
        children[i],
        value,
    )) {
        lemma_find_compatible(children, prefix, value, i + 1);
    }
}

proof fn lemma_taken(children: Seq<Node>, prefix: Seq<char>, value: Seq<char>)
    ensures
        take_node(children, prefix, value) matches Some((node, rest)) ==> {
            &&& children.contains(node)
            &&& text::has_prefix(node.name@, prefix)
            &&& rest.len() == children.len() - 1
            &&& forall|c: Node| #[trigger] rest.contains(c) ==> children.contains(c)
        },
{
    lemma_find_compatible(children, prefix, value, 0);
    match find_compatible(children, prefix, value, 0) {
        Some(k) => {
            lemma_find_child(children, children[k].name@, 0);
            match find_child(children, children[k].name@, 0) {
                Some(j) => {
                    let rest = children.remove(j);
                    assert forall|c: Node| #[trigger] rest.contains(c) implies children.contains(
                        c,
                    ) by {
                        let n = choose|n: int| 0 <= n < rest.len() && rest[n] == c;
                        assert(children[if n < j {
                            n
                        } else {
                            n + 1
                        }] == c);
                    }
                },
                None => {},
            }
        },
        None => {},
    }
}

/// Whether a node says where the distributor and the redistributor are: in the
/// addresses of the first and the second pair of `reg`.
pub open spec fn bases_say(n: Node, dist: u64, redist: u64) -> bool {
    let bytes = value_of(n, "reg"@);
    &&& property_of(n.properties@, "reg"@) is Some
    &&& 32 <= bytes.len()
    &&& dist == big_endian(bytes.subrange(0, 8))
    &&& redist == big_endian(bytes.subrange(16, 24))
}

proof fn lemma_bases(n: Node)
    ensures
        gic_bases(n) matches Ok((dist, redist)) ==> bases_say(n, dist, redist),
{
    lemma_names();
    law_other_properties_stay(n.properties@, "compatible"@, "reg"@);
    if gic_bases(n) is Ok {
        law_pairs_are_big_endian(value_of(n, "reg"@), 0);
        law_pairs_are_big_endian(value_of(n, "reg"@), 1);
    }
}

/// The substrate of a machine with a GIC is what two nodes of the tree say, which
/// are then gone: the bases are in `reg` of the one, and the number of message
/// interrupts in the other.
pub proof fn law_gic_substrate_is_what_the_nodes_say(children: Seq<Node>)
    ensures
        kvm_substrate(children).1 matches Ok(s) ==> {
            &&& kvm_substrate(children).0.len() == children.len() - 2
            &&& exists|c: Node, d: Node| #[trigger]
                children.contains(c) && #[trigger] children.contains(d) && text::has_prefix(
                    c.name@,
                    "interrupt-controller@"@,
                ) && text::has_prefix(d.name@, "msi-controller@"@) && bases_say(
                    c,
                    s.dist_base,
                    s.redist_base,
                ) && cell_says(d, "arm,msi-num-spis"@, s.spi_count)
        },
{
    if kvm_substrate(children).1 is Ok {
        lemma_names();
        lemma_taken(children, "interrupt-controller@"@, "arm,gic-v3"@);
        let (c, rest) = take_node(children, "interrupt-controller@"@, "arm,gic-v3"@)->0;
        lemma_bases(c);
        lemma_taken(rest, "msi-controller@"@, "arm,gic-v2m-frame"@);
        let (d, left) = take_node(rest, "msi-controller@"@, "arm,gic-v2m-frame"@)->0;
        law_other_properties_stay(d.properties@, "compatible"@, "arm,msi-num-spis"@);
        law_cells_are_big_endian(value_of(d, "arm,msi-num-spis"@), 0);
        assert(children.contains(c) && children.contains(d));
    }
}

/// The interrupt controller parameters are what two nodes of the tree say, which are
/// then gone: the bases are in `reg` of the one, the message frame in `reg` of the
/// other, together with its first interrupt and the number of them.
pub proof fn law_gic_params_are_what_the_nodes_say(children: Seq<Node>)
    ensures
        gic_params(children).1 matches Ok(g) ==> {
            &&& gic_params(children).0.len() == children.len() - 2
            &&& exists|c: Node, d: Node| #[trigger]
                children.contains(c) && #[trigger] children.contains(d) && text::has_prefix(
                    c.name@,
                    "interrupt-controller@"@,
                ) && text::has_prefix(d.name@, "msi-controller@"@) && bases_say(
                    c,
                    g.dist_base,
                    g.redist_base,
                ) && property_of(d.properties@, "reg"@) is Some && g.msi_base == big_endian(
                    value_of(d, "reg"@).subrange(0, 8),
                ) && cell_says(d, "arm,msi-base-spi"@, g.msi_intid_base) && cell_says(
                    d,
                    "arm,msi-num-spis"@,
                    g.msi_intid_count,
                )
        },
{
    if gic_params(children).1 is Ok {
        lemma_names();
        lemma_taken(children, "interrupt-controller@"@, "arm,gic-v3"@);
        let (c, rest) = take_node(children, "interrupt-controller@"@, "arm,gic-v3"@)->0;
        lemma_bases(c);
        lemma_taken(rest, "msi-controller@"@, "arm,gic-v2m-frame"@);
        let (d, left) = take_node(rest, "msi-controller@"@, "arm,gic-v2m-frame"@)->0;
        let x = d.properties@;
        let y = without_property(x, "compatible"@);
        let z = without_property(y, "reg"@);
        law_other_properties_stay(x, "compatible"@, "reg"@);
        law_other_properties_stay(x, "compatible"@, "arm,msi-base-spi"@);
        law_other_properties_stay(y, "reg"@, "arm,msi-base-spi"@);
        law_other_properties_stay(x, "compatible"@, "arm,msi-num-spis"@);
        law_other_properties_stay(y, "reg"@, "arm,msi-num-spis"@);
        law_other_properties_stay(z, "arm,msi-base-spi"@, "arm,msi-num-spis"@);
        law_pairs_are_big_endian(value_of(d, "reg"@), 0);
        law_cells_are_big_endian(value_of(d, "arm,msi-base-spi"@), 0);
        law_cells_are_big_endian(value_of(d, "arm,msi-num-spis"@), 0);
        assert(children.contains(c) && children.contains(d));
    }
}

/// The IOAPIC window is the first pair of `reg` of its node.
pub proof fn law_ioapic_window_is_what_its_node_says(n: Node)
    ensures
        ioapic_window(n) matches Ok(w) ==> reg_says(n, 0, w.base, w.size),
{
    if ioapic_window(n) is Ok {
        lemma_names();
        law_other_properties_stay(n.properties@, "compatible"@, "reg"@);
        law_pairs_are_big_endian(value_of(n, "reg"@), 0);
    }
}

/// The interrupts of a machine are the 32 of each vCPU and those of its devices, of
/// which there are at least 96.
pub proof fn law_interrupts_of_a_machine(s: &Aarch64Substrate, r: u32)
    requires
        s.spi_count <= u32::MAX - 32,
        call_ensures(Aarch64Substrate::nr_irqs, (s,), r),
    ensures
        r >= 128,
        r - 32 >= s.spi_count,
        r == 128 || r - 32 == s.spi_count,
{
}

} // verus!
