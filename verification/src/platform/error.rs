//! What can be wrong with a base device tree.
use vstd::prelude::*;

use crate::devtree::{Node, Property};

verus! {

/// Interrupt controller kinds that interrupt specifiers may target.
#[derive(Debug, Clone, Copy, PartialEq, Eq, Structural)]
pub enum ControllerKind {
    GicV3,
    Lapic,
    IoApic,
    GicV2mFrame,
}

/// A root child that no device claimed, with the properties it still has.
#[derive(Debug)]
pub struct ResidualNode {
    pub name: String,
    pub props: Vec<String>,
}

/// What is left of a tree after every device took its part.
#[derive(Debug)]
pub struct Residual {
    pub props: Vec<String>,
    pub nodes: Vec<ResidualNode>,
}

/// Failures surveying the base device tree.
#[derive(Debug)]
pub enum SurveyError {
    /// The base declares a `/cpus` node, which the host authors.
    BaseHasCpus,
    /// A required node is missing.
    MissingNode(&'static str),
    /// A required property is missing.
    MissingProperty { node: String, prop: &'static str },
    /// A property is malformed.
    BadProperty { node: &'static str, prop: &'static str, reason: &'static str },
    /// A property has a value that is not supported.
    Unsupported { node: &'static str, prop: &'static str, value: String },
    /// A claimed node has properties or children that its device does not model.
    Leftover { node: String, props: Vec<String>, children: Vec<String> },
    /// Nodes or properties are left that no device claimed.
    Uncovered(Residual),
    /// Two declared regions overlap.
    Overlap { a: String, b: String },
    /// A loaded section leaves the guest address space.
    LoadAddressOverflow { section: String, start: u64, end: u64 },
    /// A loaded section overlaps a declared region.
    LoadOverlapsRegion {
        section: String,
        start: u64,
        end: u64,
        region: String,
        region_start: u64,
        region_end: u64,
    },
    /// A property refers to a phandle that no controller has.
    UnknownPhandle { node: &'static str, prop: &'static str, phandle: u32 },
    /// A property refers to a controller of the wrong kind.
    UnexpectedController {
        node: &'static str,
        prop: &'static str,
        actual: ControllerKind,
        expected: ControllerKind,
    },
}

/// A [`SurveyError`] with its strings as character sequences.
pub enum SurveyErrorView {
    BaseHasCpus,
    MissingNode(Seq<char>),
    MissingProperty { node: Seq<char>, prop: Seq<char> },
    BadProperty { node: Seq<char>, prop: Seq<char>, reason: Seq<char> },
    Unsupported { node: Seq<char>, prop: Seq<char>, value: Seq<char> },
    Leftover { node: Seq<char>, props: Seq<Seq<char>>, children: Seq<Seq<char>> },
    Uncovered { props: Seq<Seq<char>>, nodes: Seq<(Seq<char>, Seq<Seq<char>>)> },
    Overlap { a: Seq<char>, b: Seq<char> },
    LoadAddressOverflow { section: Seq<char>, start: u64, end: u64 },
    LoadOverlapsRegion {
        section: Seq<char>,
        start: u64,
        end: u64,
        region: Seq<char>,
        region_start: u64,
        region_end: u64,
    },
    UnknownPhandle { node: Seq<char>, prop: Seq<char>, phandle: u32 },
    UnexpectedController {
        node: Seq<char>,
        prop: Seq<char>,
        actual: ControllerKind,
        expected: ControllerKind,
    },
}

/// The texts of a list of strings.
pub open spec fn texts(v: Seq<String>) -> Seq<Seq<char>> {
    v.map_values(|s: String| s@)
}

impl View for ResidualNode {
    type V = (Seq<char>, Seq<Seq<char>>);

    open spec fn view(&self) -> (Seq<char>, Seq<Seq<char>>) {
        (self.name@, texts(self.props@))
    }
}

impl View for SurveyError {
    type V = SurveyErrorView;

    open spec fn view(&self) -> SurveyErrorView {
        match *self {
            SurveyError::BaseHasCpus => SurveyErrorView::BaseHasCpus,
            SurveyError::MissingNode(node) => SurveyErrorView::MissingNode(node@),
            SurveyError::MissingProperty { node, prop } => SurveyErrorView::MissingProperty {
                node: node@,
                prop: prop@,
            },
            SurveyError::BadProperty { node, prop, reason } => SurveyErrorView::BadProperty {
                node: node@,
                prop: prop@,
                reason: reason@,
            },
            SurveyError::Unsupported { node, prop, value } => SurveyErrorView::Unsupported {
                node: node@,
                prop: prop@,
                value: value@,
            },
            SurveyError::Leftover { node, props, children } => SurveyErrorView::Leftover {
                node: node@,
                props: texts(props@),
                children: texts(children@),
            },
            SurveyError::Uncovered(residual) => SurveyErrorView::Uncovered {
                props: texts(residual.props@),
                nodes: residual.nodes@.map_values(|n: ResidualNode| n@),
            },
            SurveyError::Overlap { a, b } => SurveyErrorView::Overlap { a: a@, b: b@ },
            SurveyError::LoadAddressOverflow { section, start, end } =>
                SurveyErrorView::LoadAddressOverflow { section: section@, start, end },
            SurveyError::LoadOverlapsRegion {
                section,
                start,
                end,
                region,
                region_start,
                region_end,
            } => SurveyErrorView::LoadOverlapsRegion {
                section: section@,
                start,
                end,
                region: region@,
                region_start,
                region_end,
            },
            SurveyError::UnknownPhandle { node, prop, phandle } =>
                SurveyErrorView::UnknownPhandle { node: node@, prop: prop@, phandle },
            SurveyError::UnexpectedController { node, prop, actual, expected } =>
                SurveyErrorView::UnexpectedController {
                    node: node@,
                    prop: prop@,
                    actual,
                    expected,
                },
        }
    }
}

/// The names of a list of properties.
pub open spec fn property_names(props: Seq<Property>) -> Seq<Seq<char>> {
    props.map_values(|p: Property| p.name@)
}

/// The names of a list of nodes.
pub open spec fn node_names(nodes: Seq<Node>) -> Seq<Seq<char>> {
    nodes.map_values(|n: Node| n.name@)
}

/// Copies the names of a list of properties.
pub(crate) fn collect_property_names(props: &Vec<Property>) -> (r: Vec<String>)
    ensures
        texts(r@) == property_names(props@),
{
    let mut names: Vec<String> = Vec::new();
    let mut i: usize = 0;
    while i < props.len()
        invariant
            i <= props@.len(),
            names@.len() == i,
            forall|k: int| 0 <= k < i ==> (#[trigger] names@[k])@ == props@[k].name@,
        decreases props@.len() - i,
    {
        names.push(props[i].name.clone());
        i = i + 1;
    }
    assert(texts(names@) =~= property_names(props@));
    names
}

/// Copies the names of a list of nodes.
pub(crate) fn collect_node_names(nodes: &Vec<Node>) -> (r: Vec<String>)
    ensures
        texts(r@) == node_names(nodes@),
{
    let mut names: Vec<String> = Vec::new();
    let mut i: usize = 0;
    while i < nodes.len()
        invariant
            i <= nodes@.len(),
            names@.len() == i,
            forall|k: int| 0 <= k < i ==> (#[trigger] names@[k])@ == nodes@[k].name@,
        decreases nodes@.len() - i,
    {
        names.push(nodes[i].name.clone());
        i = i + 1;
    }
    assert(texts(names@) =~= node_names(nodes@));
    names
}

} // verus!
