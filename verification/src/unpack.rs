//! Unpacks class and property expressions into trees that can be shown.

use vstd::prelude::*;
use crate::ontology::{supported, unpack_literal, ClassExpression, Individual, ObjectPropertyExpression};
use crate::render_html::{
    node_of, nodes_of, DPDisplay, DisplayComp, DisplayNode, GroupDisplay, Names, OntologyRender,
    RelDisplay, RenderError, RenderErrorKind,
};

verus! {

/// The tree of a property expression: the named property it is built on.
/// An inverse is shown as the property itself.
pub open spec fn property_node(names: Names, ope: ObjectPropertyExpression) -> DisplayNode {
    DisplayNode::Simple(names.entity(ope.named()))
}

/// The trees of the members of `v`, in order.
pub open spec fn class_nodes(names: Names, v: Seq<ClassExpression>) -> Seq<DisplayNode>
    decreases v,
{
    Seq::new(
        v.len(),
        |i: int|
            if 0 <= i < v.len() {
                class_node(names, v[i])
            } else {
                arbitrary()
            },
    )
}

/// The tree of a supported class expression. Of an expression that is not
/// supported nothing is said.
pub open spec fn class_node(names: Names, ce: ClassExpression) -> DisplayNode
    decreases ce,
{
    match ce {
        ClassExpression::Class(c) => DisplayNode::Simple(names.entity(c@)),
        ClassExpression::ObjectIntersectionOf(v) => DisplayNode::And(class_nodes(names, v@)),
        ClassExpression::ObjectUnionOf(v) => DisplayNode::Or(class_nodes(names, v@)),
        ClassExpression::ObjectComplementOf(b) => DisplayNode::Not(Box::new(class_node(names, *b))),
        ClassExpression::ObjectSomeValuesFrom { ope, bce } => DisplayNode::SomeValuesFrom {
            relation: Box::new(property_node(names, ope)),
            filler: Box::new(class_node(names, *bce)),
        },
        ClassExpression::ObjectAllValuesFrom { ope, bce } => DisplayNode::AllValuesFrom {
            relation: Box::new(property_node(names, ope)),
            filler: Box::new(class_node(names, *bce)),
        },
        ClassExpression::ObjectHasValue { ope, i: Individual::Named(x) } => DisplayNode::HasValue {
            relation: Box::new(property_node(names, ope)),
            filler: Box::new(DisplayNode::Simple(names.entity(x@))),
        },
        ClassExpression::DataHasValue { dp, l } => DisplayNode::DataHasValue {
            property: Box::new(DisplayNode::Simple(names.entity(dp@))),
            literal: l.text(),
        },
        _ => arbitrary(),
    }
}

impl OntologyRender {
    /// Unpacks a property expression into the tree to show.
    pub fn unpack_object_property_expression(&self, ope: &ObjectPropertyExpression) -> (r:
        DisplayComp)
        ensures
            r@ == property_node(self.names(), *ope),
    {
        match ope {
            ObjectPropertyExpression::ObjectProperty(object_property) => {
                DisplayComp::Simple(self.build_entity_display(object_property.as_str()))
            },
            ObjectPropertyExpression::InverseObjectProperty(object_property) => {
                DisplayComp::Simple(self.build_entity_display(object_property.as_str()))
            },
        }
    }

    /// Unpacks each member of `v`, or fails when one of them is not
    /// supported.
    fn unpack_members(&self, v: &Vec<ClassExpression>) -> (r: Result<Vec<DisplayComp>, RenderError>)
        ensures
            match r {
                Ok(out) => {
                    &&& forall|i: int| 0 <= i < v.len() ==> supported(#[trigger] v[i])
                    &&& nodes_of(out@) == class_nodes(self.names(), v@)
                },
                Err(e) => {
                    &&& e.0 == RenderErrorKind::UnsupportedConstruct
                    &&& exists|i: int| 0 <= i < v.len() && !supported(#[trigger] v[i])
                },
            },
        decreases v,
    {
        let mut out: Vec<DisplayComp> = Vec::new();
        let mut i: usize = 0;
        while i < v.len()
            invariant
                i <= v.len(),
                out.len() == i,
                forall|j: int| 0 <= j < i ==> supported(#[trigger] v[j]),
                forall|j: int| 0 <= j < i ==> node_of(#[trigger] out[j]) == class_node(self.names(), v[j]),
            decreases v.len() - i,
        {
            match self.unpack_class_expression(&v[i]) {
                Ok(c) => out.push(c),
                Err(e) => {
                    return Err(e);
                },
            }
            i += 1;
        }
        assert(nodes_of(out@) =~= class_nodes(self.names(), v@));
        Ok(out)
    }

    /// Unpacks a class expression into the tree to show. Fails exactly when
    /// the expression holds a construct that is not supported.
    pub fn unpack_class_expression(&self, ce: &ClassExpression) -> (r: Result<DisplayComp, RenderError>)
        ensures
            match r {
                Ok(c) => supported(*ce) && c@ == class_node(self.names(), *ce),
                Err(e) => !supported(*ce) && e.0 == RenderErrorKind::UnsupportedConstruct,
            },
        decreases ce,
    {
        match ce {
            ClassExpression::Class(class) => {
                Ok(DisplayComp::Simple(self.build_entity_display(class.as_str())))
            },
            ClassExpression::ObjectIntersectionOf(class_expressions) => {
                match self.unpack_members(class_expressions) {
                    Ok(v) => {
                        let r = DisplayComp::And(GroupDisplay(v));
                        assert(r@ == class_node(self.names(), *ce)) by {
                            assert(r@->And_0 =~= nodes_of(v@));
                        }
                        Ok(r)
                    },
                    Err(e) => Err(e),
                }
            },
            ClassExpression::ObjectUnionOf(class_expressions) => {
                match self.unpack_members(class_expressions) {
                    Ok(v) => {
                        let r = DisplayComp::Or(GroupDisplay(v));
                        assert(r@ == class_node(self.names(), *ce)) by {
                            assert(r@->Or_0 =~= nodes_of(v@));
                        }
                        Ok(r)
                    },
                    Err(e) => Err(e),
                }
            },
            ClassExpression::ObjectComplementOf(class_expression) => {
                match self.unpack_class_expression(class_expression) {
                    Ok(c) => Ok(DisplayComp::Not(Box::new(c))),
                    Err(e) => Err(e),
                }
            },
            ClassExpression::ObjectSomeValuesFrom { ope, bce } => {
                let rel = self.unpack_object_property_expression(ope);
                match self.unpack_class_expression(bce) {
                    Ok(c) => Ok(
                        DisplayComp::SomeValuesFrom(RelDisplay { rel: Box::new(rel), ce: Box::new(c) }),
                    ),
                    Err(e) => Err(e),
                }
            },
            ClassExpression::ObjectAllValuesFrom { ope, bce } => {
                let rel = self.unpack_object_property_expression(ope);
                match self.unpack_class_expression(bce) {
                    Ok(c) => Ok(DisplayComp::All(RelDisplay { rel: Box::new(rel), ce: Box::new(c) })),
                    Err(e) => Err(e),
                }
            },
            ClassExpression::ObjectHasValue { ope, i: Individual::Named(ind) } => {
                let rel = self.unpack_object_property_expression(ope);
                let filler = DisplayComp::Simple(self.build_entity_display(ind.as_str()));
                assert(filler@ == DisplayNode::Simple(self.names().entity(ind@)));
                Ok(DisplayComp::Value(RelDisplay { rel: Box::new(rel), ce: Box::new(filler) }))
            },
            ClassExpression::DataHasValue { dp, l } => {
                let dpd = DisplayComp::Simple(self.build_entity_display(dp.as_str()));
                assert(dpd@ == DisplayNode::Simple(self.names().entity(dp@)));
                Ok(DisplayComp::Data(DPDisplay { dp: Box::new(dpd), value: unpack_literal(l) }))
            },
            _ => Err(RenderError(RenderErrorKind::UnsupportedConstruct)),
        }
    }
}

} // verus!
