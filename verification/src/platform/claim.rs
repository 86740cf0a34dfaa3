//! Taking properties out of a node.
use vstd::prelude::*;

use crate::devtree::{
    lemma_find_property, property_of, reg_pair_of, str_of, u32_of, without_property, Node, Property,
};
use crate::platform::error::{
    collect_node_names, collect_property_names, node_names, property_names, SurveyError,
    SurveyErrorView,
};
use crate::text;

verus! {

/// Taking a required property out: the property and what is left.
pub open spec fn need(props: Seq<Property>, prop: Seq<char>, node: Seq<char>) -> Result<
    (Property, Seq<Property>),
    SurveyErrorView,
> {
    match property_of(props, prop) {
        Some(p) => Ok((p, without_property(props, prop))),
        None => Err(SurveyErrorView::MissingProperty { node, prop }),
    }
}

/// Taking a required property of one cell out: the cell and what is left.
pub open spec fn need_u32(props: Seq<Property>, prop: Seq<char>, node: Seq<char>) -> Result<
    (u32, Seq<Property>),
    SurveyErrorView,
> {
    match need(props, prop, node) {
        Ok((p, rest)) => match u32_of(p.value@) {
            Some(v) => Ok((v, rest)),
            None => Err(
                SurveyErrorView::BadProperty { node, prop, reason: "expected single u32"@ },
            ),
        },
        Err(e) => Err(e),
    }
}

/// Taking a `compatible` property out that must be the one string `expected`.
pub open spec fn need_compatible(
    props: Seq<Property>,
    node: Seq<char>,
    expected: Seq<char>,
) -> Result<Seq<Property>, SurveyErrorView> {
    match need(props, "compatible"@, node) {
        Ok((p, rest)) => if str_of(p.value@) == Some(expected) {
            Ok(rest)
        } else {
            Err(
                SurveyErrorView::Unsupported {
                    node,
                    prop: "compatible"@,
                    value: match str_of(p.value@) {
                        Some(s) => s,
                        None => "<non-string>"@,
                    },
                },
            )
        },
        Err(e) => Err(e),
    }
}

/// Taking a `reg` property out: its first address and size pair and what is left.
pub open spec fn need_reg(props: Seq<Property>, node: Seq<char>, reason: Seq<char>) -> Result<
    ((u64, u64), Seq<Property>),
    SurveyErrorView,
> {
    match need(props, "reg"@, node) {
        Ok((p, rest)) => match reg_pair_of(p.value@, 0) {
            Some(pair) => Ok((pair, rest)),
            None => Err(SurveyErrorView::BadProperty { node, prop: "reg"@, reason }),
        },
        Err(e) => Err(e),
    }
}

/// A claimed node must have nothing left.
pub open spec fn drained(name: Seq<char>, props: Seq<Property>, children: Seq<Node>) -> Result<
    (),
    SurveyErrorView,
> {
    if props.len() == 0 && children.len() == 0 {
        Ok(())
    } else {
        Err(
            SurveyErrorView::Leftover {
                node: name,
                props: property_names(props),
                children: node_names(children),
            },
        )
    }
}

impl Node {
    /// Takes a required property out.
    pub fn require(&mut self, prop: &'static str, node: &'static str) -> (r: Result<
        Property,
        SurveyError,
    >)
        ensures
            final(self).name == old(self).name,
            final(self).children == old(self).children,
            match r {
                Ok(p) => p.name@ == prop@ && need(old(self).properties@, prop@, node@) == Ok::<
                    _,
                    SurveyErrorView,
                >((p, final(self).properties@)),
                Err(e) => need(old(self).properties@, prop@, node@) == Err::<
                    (Property, Seq<Property>),
                    _,
                >(e@),
            },
    {
        proof {
            lemma_find_property(self.properties@, prop@, 0);
        }
        match self.remove_property(prop) {
            Some(p) => Ok(p),
            None => Err(SurveyError::MissingProperty { node: node.to_owned(), prop }),
        }
    }

    /// Takes a required property of one cell out.
    pub fn require_u32(&mut self, prop: &'static str, node: &'static str) -> (r: Result<
        u32,
        SurveyError,
    >)
        ensures
            final(self).name == old(self).name,
            final(self).children == old(self).children,
            match r {
                Ok(v) => need_u32(old(self).properties@, prop@, node@) == Ok::<_, SurveyErrorView>(
                    (v, final(self).properties@),
                ),
                Err(e) => need_u32(old(self).properties@, prop@, node@) == Err::<
                    (u32, Seq<Property>),
                    _,
                >(e@),
            },
    {
        match self.require(prop, node) {
            Ok(p) => match p.as_u32() {
                Some(v) => Ok(v),
                None => Err(SurveyError::BadProperty { node, prop, reason: "expected single u32" }),
            },
            Err(e) => Err(e),
        }
    }

    /// Takes a property out whose value is not modelled.
    pub fn ack(&mut self, prop: &'static str)
        ensures
            final(self).name == old(self).name,
            final(self).children == old(self).children,
            final(self).properties@ == without_property(old(self).properties@, prop@),
    {
        let _ = self.remove_property(prop);
    }

    /// Refuses a known property whose meaning is not modelled.
    pub fn reject(&self, prop: &'static str, node: &'static str) -> (r: Result<(), SurveyError>)
        ensures
            match r {
                Ok(_) => property_of(self.properties@, prop@) is None,
                Err(e) => property_of(self.properties@, prop@) is Some && e@
                    == (SurveyErrorView::Unsupported { node: node@, prop: prop@, value: "present"@ }),
            },
    {
        match self.property_index(prop) {
            Some(_) => Err(SurveyError::Unsupported { node, prop, value: "present".to_owned() }),
            None => Ok(()),
        }
    }

    /// Fails unless the node has no properties and no children left.
    pub fn ensure_drained(&self) -> (r: Result<(), SurveyError>)
        ensures
            match r {
                Ok(_) => drained(self.name@, self.properties@, self.children@) is Ok,
                Err(e) => drained(self.name@, self.properties@, self.children@) == Err::<(), _>(e@),
            },
    {
        if self.properties.len() == 0 && self.children.len() == 0 {
            Ok(())
        } else {
            Err(
                SurveyError::Leftover {
                    node: self.name.clone(),
                    props: collect_property_names(&self.properties),
                    children: collect_node_names(&self.children),
                },
            )
        }
    }

    /// Takes the `compatible` property out, which must be `expected`.
    pub fn require_compatible(&mut self, node: &'static str, expected: &'static str) -> (r: Result<
        (),
        SurveyError,
    >)
        ensures
            final(self).name == old(self).name,
            final(self).children == old(self).children,
            match r {
                Ok(_) => need_compatible(old(self).properties@, node@, expected@) == Ok::<
                    _,
                    SurveyErrorView,
                >(final(self).properties@),
                Err(e) => need_compatible(old(self).properties@, node@, expected@) == Err::<
                    Seq<Property>,
                    _,
                >(e@),
            },
    {
        let compat = match self.require("compatible", node) {
            Ok(p) => p,
            Err(e) => {
                return Err(e);
            },
        };
        match compat.as_str() {
            Some(s) => {
                if text::same(s.as_str(), expected) {
                    Ok(())
                } else {
                    Err(SurveyError::Unsupported { node, prop: "compatible", value: s })
                }
            },
            None => Err(
                SurveyError::Unsupported {
                    node,
                    prop: "compatible",
                    value: "<non-string>".to_owned(),
                },
            ),
        }
    }

    /// Takes the `reg` property out and reads its first pair.
    pub fn require_reg(&mut self, node: &'static str, reason: &'static str) -> (r: Result<
        (Property, (u64, u64)),
        SurveyError,
    >)
        ensures
            final(self).name == old(self).name,
            final(self).children == old(self).children,
            match r {
                Ok((p, pair)) => p.name@ == "reg"@ && need_reg(
                    old(self).properties@,
                    node@,
                    reason@,
                ) == Ok::<_, SurveyErrorView>((pair, final(self).properties@)),
                Err(e) => need_reg(old(self).properties@, node@, reason@) == Err::<
                    ((u64, u64), Seq<Property>),
                    _,
                >(e@),
            },
    {
        let reg = match self.require("reg", node) {
            Ok(p) => p,
            Err(e) => {
                return Err(e);
            },
        };
        match reg.reg_pair(0) {
            Some(pair) => Ok((reg, pair)),
            None => Err(SurveyError::BadProperty { node, prop: "reg", reason }),
        }
    }
}

} // verus!
