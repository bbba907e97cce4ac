//! Collects what the axioms say of one entity.

use vstd::prelude::*;
use crate::ontology::{
    supported, Axiom, ClassExpression, Individual, ObjectPropertyExpression,
    SubObjectPropertyExpression,
};
use crate::render_html::{
    node_of, nodes_of, DisplayComp, DisplayNode, EntityDisplay, Names, OntologyRender, RenderError,
    RenderErrorKind,
};
use crate::unpack::class_node;
use crate::text::same_text;

verus! {

/// What the axioms say of one entity, each entry ready to be shown.
#[derive(Debug, PartialEq, Eq)]
pub struct RelationshipSet {
    pub superclasses: Vec<DisplayComp>,
    pub subclasses: Vec<DisplayComp>,
    pub equivalent_classes: Vec<DisplayComp>,
    pub inverse_properties: Vec<DisplayComp>,
    pub property_domain: Option<DisplayComp>,
    pub property_range: Option<DisplayComp>,
    pub class_assertions: Vec<DisplayComp>,
}

/// The mathematical value of a [`RelationshipSet`].
pub struct RelationshipsView {
    pub superclasses: Seq<DisplayNode>,
    pub subclasses: Seq<DisplayNode>,
    pub equivalent_classes: Seq<DisplayNode>,
    pub inverse_properties: Seq<DisplayNode>,
    pub property_domain: Option<DisplayNode>,
    pub property_range: Option<DisplayNode>,
    pub class_assertions: Seq<DisplayNode>,
}

/// The tree of an optional entry.
pub open spec fn optional_node(c: Option<DisplayComp>) -> Option<DisplayNode> {
    match c {
        Some(d) => Some(node_of(d)),
        None => None,
    }
}

impl View for RelationshipSet {
    type V = RelationshipsView;

    open spec fn view(&self) -> RelationshipsView {
        RelationshipsView {
            superclasses: nodes_of(self.superclasses@),
            subclasses: nodes_of(self.subclasses@),
            equivalent_classes: nodes_of(self.equivalent_classes@),
            inverse_properties: nodes_of(self.inverse_properties@),
            property_domain: optional_node(self.property_domain),
            property_range: optional_node(self.property_range),
            class_assertions: nodes_of(self.class_assertions@),
        }
    }
}

/// No relationship at all.
pub open spec fn no_relationships() -> RelationshipsView {
    RelationshipsView {
        superclasses: Seq::empty(),
        subclasses: Seq::empty(),
        equivalent_classes: Seq::empty(),
        inverse_properties: Seq::empty(),
        property_domain: None,
        property_range: None,
        class_assertions: Seq::empty(),
    }
}

/// `ce` is the named class `iri`.
pub open spec fn is_class(ce: ClassExpression, iri: Seq<char>) -> bool {
    ce matches ClassExpression::Class(c) && c@ == iri
}

/// The named class `iri` is one of `members`.
pub open spec fn has_member(members: Seq<ClassExpression>, iri: Seq<char>) -> bool {
    exists|i: int| 0 <= i < members.len() && is_class(#[trigger] members[i], iri)
}

/// The trees of the members other than the named class `iri`, in the order
/// of `members`.
pub open spec fn others(names: Names, members: Seq<ClassExpression>, iri: Seq<char>) -> Seq<
    DisplayNode,
>
    decreases members.len(),
{
    if members.len() == 0 {
        Seq::empty()
    } else if is_class(members.last(), iri) {
        others(names, members.drop_last(), iri)
    } else {
        others(names, members.drop_last(), iri).push(class_node(names, members.last()))
    }
}

/// True unless `ax` gives `target` an entry whose class expression is not
/// supported.
pub open spec fn relation_supported(ax: Axiom, target: Seq<char>) -> bool {
    match ax {
        Axiom::SubClassOf { sup, sub } => if is_class(sup, target) {
            supported(sub)
        } else if is_class(sub, target) {
            supported(sup)
        } else {
            true
        },
        Axiom::EquivalentClasses(v) => has_member(v@, target) ==> forall|i: int|
            0 <= i < v.len() ==> supported(#[trigger] v[i]),
        Axiom::ObjectPropertyDomain { ope: ObjectPropertyExpression::ObjectProperty(p), ce } => p@
            == target ==> supported(ce),
        Axiom::ObjectPropertyRange { ope: ObjectPropertyExpression::ObjectProperty(p), ce } => p@
            == target ==> supported(ce),
        Axiom::ClassAssertion { ce, i: Individual::Named(x) } => x@ == target ==> supported(ce),
        _ => true,
    }
}

/// The relationships of `target` after `ax` was read, `acc` being those
/// before it.
pub open spec fn relate(names: Names, acc: RelationshipsView, ax: Axiom, target: Seq<char>) -> RelationshipsView {
    match ax {
        Axiom::SubClassOf { sup, sub } => if is_class(sup, target) {
            RelationshipsView { subclasses: acc.subclasses.push(class_node(names, sub)), ..acc }
        } else if is_class(sub, target) {
            RelationshipsView { superclasses: acc.superclasses.push(class_node(names, sup)), ..acc }
        } else {
            acc
        },
        Axiom::SubObjectPropertyOf {
            sup: ObjectPropertyExpression::ObjectProperty(p),
            sub: SubObjectPropertyExpression::ObjectPropertyExpression(
                ObjectPropertyExpression::ObjectProperty(q),
            ),
        } => if p@ == target {
            RelationshipsView {
                subclasses: acc.subclasses.push(DisplayNode::Simple(names.entity(q@))),
                ..acc
            }
        } else if q@ == target {
            RelationshipsView {
                superclasses: acc.superclasses.push(DisplayNode::Simple(names.entity(p@))),
                ..acc
            }
        } else {
            acc
        },
        Axiom::EquivalentClasses(v) => if has_member(v@, target) {
            RelationshipsView {
                equivalent_classes: acc.equivalent_classes + others(names, v@, target),
                ..acc
            }
        } else {
            acc
        },
        Axiom::InverseObjectProperties(p, q) => if p@ == target {
            RelationshipsView {
                inverse_properties: acc.inverse_properties.push(DisplayNode::Simple(names.entity(q@))),
                ..acc
            }
        } else if q@ == target {
            RelationshipsView {
                inverse_properties: acc.inverse_properties.push(DisplayNode::Simple(names.entity(p@))),
                ..acc
            }
        } else {
            acc
        },
        Axiom::ObjectPropertyDomain { ope: ObjectPropertyExpression::ObjectProperty(p), ce } => if p@
            == target {
            RelationshipsView { property_domain: Some(class_node(names, ce)), ..acc }
        } else {
            acc
        },
        Axiom::ObjectPropertyRange { ope: ObjectPropertyExpression::ObjectProperty(p), ce } => if p@
            == target {
            RelationshipsView { property_range: Some(class_node(names, ce)), ..acc }
        } else {
            acc
        },
        Axiom::ClassAssertion { ce, i: Individual::Named(x) } => if x@ == target {
            RelationshipsView { class_assertions: acc.class_assertions.push(class_node(names, ce)), ..acc }
        } else {
            acc
        },
        _ => acc,
    }
}

/// The relationships that `axioms`, read in order, give `target`.
pub open spec fn relationships_of(names: Names, axioms: Seq<Axiom>, target: Seq<char>) -> RelationshipsView
    decreases axioms.len(),
{
    if axioms.len() == 0 {
        no_relationships()
    } else {
        relate(names, relationships_of(names, axioms.drop_last(), target), axioms.last(), target)
    }
}

/// No axiom gives `target` an entry that is not supported.
pub open spec fn relations_supported(axioms: Seq<Axiom>, target: Seq<char>) -> bool {
    forall|i: int| 0 <= i < axioms.len() ==> relation_supported(#[trigger] axioms[i], target)
}

/// Tells whether `ce` is the named class `iri`.
pub fn is_named_class(ce: &ClassExpression, iri: &str) -> (r: bool)
    ensures
        r == is_class(*ce, iri@),
{
    match ce {
        ClassExpression::Class(c) => same_text(c.as_str(), iri),
        _ => false,
    }
}

/// Tells whether the named class `iri` is one of `members`.
pub fn contains_class(members: &Vec<ClassExpression>, iri: &str) -> (r: bool)
    ensures
        r == has_member(members@, iri@),
{
    let mut i: usize = 0;
    while i < members.len()
        invariant
            i <= members.len(),
            forall|j: int| 0 <= j < i ==> !is_class(#[trigger] members@[j], iri@),
        decreases members.len() - i,
    {
        if is_named_class(&members[i], iri) {
            return true;
        }
        i += 1;
    }
    false
}

/// Adding an entry adds its tree.
proof fn pushed(v: Seq<DisplayComp>, c: DisplayComp)
    ensures
        nodes_of(v.push(c)) == nodes_of(v).push(node_of(c)),
{
    assert(nodes_of(v.push(c)) =~= nodes_of(v).push(node_of(c)));
}

/// The entry that shows one entity.
fn simple(e: EntityDisplay) -> (r: DisplayComp)
    ensures
        r@ == DisplayNode::Simple(e@),
{
    DisplayComp::Simple(e)
}

impl RelationshipSet {
    /// The set without entries.
    pub fn new() -> (r: Self)
        ensures
            r@ == no_relationships(),
    {
        let r = RelationshipSet {
            superclasses: Vec::new(),
            subclasses: Vec::new(),
            equivalent_classes: Vec::new(),
            inverse_properties: Vec::new(),
            property_domain: None,
            property_range: None,
            class_assertions: Vec::new(),
        };
        assert(r@.superclasses =~= Seq::empty());
        assert(r@.subclasses =~= Seq::empty());
        assert(r@.equivalent_classes =~= Seq::empty());
        assert(r@.inverse_properties =~= Seq::empty());
        assert(r@.class_assertions =~= Seq::empty());
        r
    }
}

impl OntologyRender {
    /// Adds to `out` the tree of each member other than the named class
    /// `target`.
    fn push_others(&self, members: &Vec<ClassExpression>, target: &str, out: &mut Vec<DisplayComp>) -> (r:
        Result<(), RenderError>)
        ensures
            match r {
                Ok(_) => {
                    &&& forall|i: int| 0 <= i < members.len() ==> supported(#[trigger] members[i])
                    &&& nodes_of(final(out)@) == nodes_of(old(out)@) + others(
                        self.names(),
                        members@,
                        target@,
                    )
                },
                Err(e) => {
                    &&& e.0 == RenderErrorKind::UnsupportedConstruct
                    &&& exists|i: int| 0 <= i < members.len() && !supported(#[trigger] members[i])
                },
            },
    {
        let mut i: usize = 0;
        assert(nodes_of(out@) =~= nodes_of(old(out)@) + others(
            self.names(),
            members@.take(0),
            target@,
        ));
        while i < members.len()
            invariant
                i <= members.len(),
                forall|j: int| 0 <= j < i ==> supported(#[trigger] members[j]),
                nodes_of(out@) == nodes_of(old(out)@) + others(
                    self.names(),
                    members@.take(i as int),
                    target@,
                ),
            decreases members.len() - i,
        {
            assert(members@.take(i + 1).drop_last() == members@.take(i as int));
            assert(members@.take(i + 1).last() == members@[i as int]);
            match self.unpack_class_expression(&members[i]) {
                Ok(c) => {
                    if !is_named_class(&members[i], target) {
                        proof {
                            pushed(out@, c);
                        }
                        out.push(c);
                        assert(nodes_of(out@) =~= nodes_of(old(out)@) + others(
                            self.names(),
                            members@.take(i + 1),
                            target@,
                        ));
                    }
                },
                Err(e) => {
                    return Err(e);
                },
            }
            i += 1;
        }
        assert(members@.take(members.len() as int) == members@);
        Ok(())
    }

    /// Reads one axiom for the relationships of `target`.
    fn relate_one(&self, acc: &mut RelationshipSet, ax: &Axiom, target: &str) -> (r: Result<
        (),
        RenderError,
    >)
        ensures
            match r {
                Ok(_) => relation_supported(*ax, target@) && final(acc)@ == relate(
                    self.names(),
                    old(acc)@,
                    *ax,
                    target@,
                ),
                Err(e) => !relation_supported(*ax, target@) && e.0
                    == RenderErrorKind::UnsupportedConstruct,
            },
    {
        match ax {
            Axiom::SubClassOf { sup, sub } => {
                if is_named_class(sup, target) {
                    match self.unpack_class_expression(sub) {
                        Ok(c) => {
                            proof {
                                pushed(acc.subclasses@, c);
                            }
                            acc.subclasses.push(c);
                        },
                        Err(e) => {
                            return Err(e);
                        },
                    }
                } else if is_named_class(sub, target) {
                    match self.unpack_class_expression(sup) {
                        Ok(c) => {
                            proof {
                                pushed(acc.superclasses@, c);
                            }
                            acc.superclasses.push(c);
                        },
                        Err(e) => {
                            return Err(e);
                        },
                    }
                }
            },
            Axiom::SubObjectPropertyOf {
                sup: ObjectPropertyExpression::ObjectProperty(p),
                sub:
                    SubObjectPropertyExpression::ObjectPropertyExpression(
                        ObjectPropertyExpression::ObjectProperty(q),
                    ),
            } => {
                if same_text(p.as_str(), target) {
                    let c = simple(self.build_entity_display(q.as_str()));
                    proof {
                        pushed(acc.subclasses@, c);
                    }
                    acc.subclasses.push(c);
                } else if same_text(q.as_str(), target) {
                    let c = simple(self.build_entity_display(p.as_str()));
                    proof {
                        pushed(acc.superclasses@, c);
                    }
                    acc.superclasses.push(c);
                }
            },
            Axiom::EquivalentClasses(members) => {
                if contains_class(members, target) {
                    match self.push_others(members, target, &mut acc.equivalent_classes) {
                        Ok(_) => (),
                        Err(e) => {
                            return Err(e);
                        },
                    }
                }
            },
            Axiom::InverseObjectProperties(p, q) => {
                if same_text(p.as_str(), target) {
                    let c = simple(self.build_entity_display(q.as_str()));
                    proof {
                        pushed(acc.inverse_properties@, c);
                    }
                    acc.inverse_properties.push(c);
                } else if same_text(q.as_str(), target) {
                    let c = simple(self.build_entity_display(p.as_str()));
                    proof {
                        pushed(acc.inverse_properties@, c);
                    }
                    acc.inverse_properties.push(c);
                }
            },
            Axiom::ObjectPropertyDomain { ope: ObjectPropertyExpression::ObjectProperty(p), ce } => {
                if same_text(p.as_str(), target) {
                    match self.unpack_class_expression(ce) {
                        Ok(c) => {
                            acc.property_domain = Some(c);
                        },
                        Err(e) => {
                            return Err(e);
                        },
                    }
                }
            },
            Axiom::ObjectPropertyRange { ope: ObjectPropertyExpression::ObjectProperty(p), ce } => {
                if same_text(p.as_str(), target) {
                    match self.unpack_class_expression(ce) {
                        Ok(c) => {
                            acc.property_range = Some(c);
                        },
                        Err(e) => {
                            return Err(e);
                        },
                    }
                }
            },
            Axiom::ClassAssertion { ce, i: Individual::Named(x) } => {
                if same_text(x.as_str(), target) {
                    match self.unpack_class_expression(ce) {
                        Ok(c) => {
                            proof {
                                pushed(acc.class_assertions@, c);
                            }
                            acc.class_assertions.push(c);
                        },
                        Err(e) => {
                            return Err(e);
                        },
                    }
                }
            },
            _ => (),
        }
        Ok(())
    }

    /// Collects what the axioms say of the entity `target`, in one pass.
    /// Fails exactly when an axiom gives the entity an entry whose class
    /// expression is not supported.
    pub fn collect_relationships(&self, target: &str) -> (r: Result<RelationshipSet, RenderError>)
        ensures
            match r {
                Ok(set) => {
                    &&& relations_supported(self.ontology@, target@)
                    &&& set@ == relationships_of(self.names(), self.ontology@, target@)
                },
                Err(e) => {
                    &&& !relations_supported(self.ontology@, target@)
                    &&& e.0 == RenderErrorKind::UnsupportedConstruct
                },
            },
    {
        let mut acc = RelationshipSet::new();
        let mut i: usize = 0;
        while i < self.ontology.len()
            invariant
                i <= self.ontology.len(),
                relations_supported(self.ontology@.take(i as int), target@),
                acc@ == relationships_of(self.names(), self.ontology@.take(i as int), target@),
            decreases self.ontology.len() - i,
        {
            assert(self.ontology@.take(i + 1).drop_last() == self.ontology@.take(i as int));
            assert(self.ontology@.take(i + 1).last() == self.ontology@[i as int]);
            match self.relate_one(&mut acc, &self.ontology[i], target) {
                Ok(_) => (),
                Err(e) => {
                    return Err(e);
                },
            }
            i += 1;
        }
        assert(self.ontology@.take(self.ontology.len() as int) == self.ontology@);
        Ok(acc)
    }
}

} // verus!
