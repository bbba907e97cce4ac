//! What holds of the library as a whole, each statement proved from the
//! definitions that the contracts of the functions use.

use vstd::prelude::*;
use crate::catalog::{data_property_entity, declared_iris, declares};
use crate::labels::{label_assertion, labels_of};
use crate::models::Kind;
use crate::ontology::{supported, Axiom, ClassExpression};
use crate::page::{declared, declared_kind, page_error};
use crate::prefix::{first_match, starts_with};
use crate::relations::{is_class, no_relationships, others, relationships_of, relations_supported};
use crate::render_html::{DisplayNode, Names, RenderErrorKind};
use crate::site::{declarations, dedup_is_distinct, failures_of, pages_of, site_order};
use crate::unpack::{class_node, class_nodes};

verus! {

/// The default namespace or a registered one starts `iri`.
pub open spec fn some_namespace_starts(names: Names, iri: Seq<char>) -> bool {
    ||| names.default matches Some(d) && starts_with(iri, d)
    ||| exists|i: int| 0 <= i < names.prefixes.len() && starts_with(iri, (#[trigger] names.prefixes[i]).1)
}

/// A first match is found exactly when some pair's namespace starts the IRI.
pub proof fn first_match_exists(entries: Seq<(Seq<char>, Seq<char>)>, iri: Seq<char>)
    ensures
        first_match(entries, iri).is_some() <==> exists|i: int|
            0 <= i < entries.len() && starts_with(iri, (#[trigger] entries[i]).1),
    decreases entries.len(),
{
    if entries.len() > 0 {
        let rest = entries.drop_first();
        first_match_exists(rest, iri);
        if !starts_with(iri, entries[0].1) {
            if first_match(rest, iri).is_some() {
                let i = choose|i: int| 0 <= i < rest.len() && starts_with(iri, (#[trigger] rest[i]).1);
                assert(entries[i + 1] == rest[i]);
            }
            if exists|i: int| 0 <= i < entries.len() && starts_with(iri, (#[trigger] entries[i]).1) {
                let i = choose|i: int|
                    0 <= i < entries.len() && starts_with(iri, (#[trigger] entries[i]).1);
                assert(rest[i - 1] == entries[i]);
            }
        }
    }
}

/// An IRI has a compact form exactly when the default namespace or a
/// registered one starts it.
pub proof fn matches_iff_namespace_starts(names: Names, iri: Seq<char>)
    ensures
        names.matches(iri) <==> some_namespace_starts(names, iri),
{
    first_match_exists(names.prefixes, iri);
}

/// Shrinking gives back, unchanged, an IRI that no namespace starts.
pub proof fn shrink_keeps_unmatched(names: Names, iri: Seq<char>)
    requires
        !some_namespace_starts(names, iri),
    ensures
        names.shrink(iri) == iri,
{
    matches_iff_namespace_starts(names, iri);
}

/// Shrinking twice is shrinking once, where no namespace starts the short
/// form.
pub proof fn shrink_idempotent(names: Names, iri: Seq<char>)
    requires
        !some_namespace_starts(names, names.shrink(iri)),
    ensures
        names.shrink(names.shrink(iri)) == names.shrink(iri),
{
    shrink_keeps_unmatched(names, names.shrink(iri));
}

/// The short form of an IRI that is not empty is not empty, unless the
/// default namespace starts the IRI.
pub proof fn shrink_not_empty(names: Names, iri: Seq<char>)
    requires
        iri.len() > 0,
        !(names.default matches Some(d) && starts_with(iri, d)),
    ensures
        names.shrink(iri).len() > 0,
{
}

/// The identifier of an IRI is its short form wherever that is not empty.
pub proof fn identifier_is_short_form(names: Names, iri: Seq<char>)
    requires
        names.shrink(iri).len() > 0,
    ensures
        names.identifier(iri) == names.shrink(iri),
{
}

/// An entity whose IRI is not empty is shown with an identifier and a
/// display text that are not empty, whatever the prefix mapping and the
/// labels are.
pub proof fn entity_is_well_formed(names: Names, iri: Seq<char>)
    requires
        iri.len() > 0,
    ensures
        names.entity(iri).iri == iri,
        names.entity(iri).identifier.len() > 0,
        names.entity(iri).display.len() > 0,
{
}

/// A data property whose IRI is not empty is listed with an identifier and
/// a display text that are not empty.
pub proof fn data_property_is_well_formed(names: Names, iri: Seq<char>)
    requires
        iri.len() > 0,
    ensures
        data_property_entity(names, iri).iri == iri,
        data_property_entity(names, iri).identifier.len() > 0,
        data_property_entity(names, iri).display.len() > 0,
{
}

/// The axiom at `i` labels `iri`.
pub open spec fn labels_at(axioms: Seq<Axiom>, i: int, iri: Seq<char>) -> bool {
    &&& 0 <= i < axioms.len()
    &&& label_assertion(axioms[i]) matches Some(p) && p.0 == iri
}

/// An entity with a label is shown by the text of its last label, where
/// that text is not empty.
pub proof fn label_is_last_asserted(names: Names, axioms: Seq<Axiom>, i: int, iri: Seq<char>)
    requires
        names.labels == labels_of(axioms),
        labels_at(axioms, i, iri),
        forall|j: int| i < j < axioms.len() ==> !labels_at(axioms, j, iri),
        label_assertion(axioms[i]).unwrap().1.len() > 0,
    ensures
        names.label(iri) == label_assertion(axioms[i]).unwrap().1,
{
    last_label_wins(axioms, i, iri);
}

/// An entity whose last label is empty is shown by its identifier.
pub proof fn empty_label_shows_identifier(names: Names, axioms: Seq<Axiom>, i: int, iri: Seq<char>)
    requires
        names.labels == labels_of(axioms),
        labels_at(axioms, i, iri),
        forall|j: int| i < j < axioms.len() ==> !labels_at(axioms, j, iri),
        label_assertion(axioms[i]).unwrap().1.len() == 0,
    ensures
        names.label(iri) == names.identifier(iri),
{
    last_label_wins(axioms, i, iri);
}

/// The label index holds for `iri` the text of its last label.
pub proof fn last_label_wins(axioms: Seq<Axiom>, i: int, iri: Seq<char>)
    requires
        labels_at(axioms, i, iri),
        forall|j: int| i < j < axioms.len() ==> !labels_at(axioms, j, iri),
    ensures
        labels_of(axioms).contains_key(iri),
        labels_of(axioms)[iri] == label_assertion(axioms[i]).unwrap().1,
    decreases axioms.len(),
{
    let rest = axioms.drop_last();
    if i < axioms.len() - 1 {
        assert(!labels_at(axioms, axioms.len() - 1, iri));
        assert(rest[i] == axioms[i]);
        assert forall|j: int| i < j < rest.len() implies !labels_at(rest, j, iri) by {
            assert(rest[j] == axioms[j]);
            assert(!labels_at(axioms, j, iri));
        }
        last_label_wins(rest, i, iri);
    }
}

/// An entity without a label is shown by its identifier, which is its
/// short form wherever that is not empty.
pub proof fn unlabelled_shows_short_form(names: Names, axioms: Seq<Axiom>, iri: Seq<char>)
    requires
        names.labels == labels_of(axioms),
        forall|j: int| 0 <= j < axioms.len() ==> !labels_at(axioms, j, iri),
    ensures
        names.label(iri) == names.identifier(iri),
        names.shrink(iri).len() > 0 ==> names.label(iri) == names.shrink(iri),
{
    never_labelled(axioms, iri);
}

/// The label index holds nothing for an IRI that no axiom labels.
pub proof fn never_labelled(axioms: Seq<Axiom>, iri: Seq<char>)
    requires
        forall|j: int| 0 <= j < axioms.len() ==> !labels_at(axioms, j, iri),
    ensures
        !labels_of(axioms).contains_key(iri),
    decreases axioms.len(),
{
    if axioms.len() > 0 {
        let rest = axioms.drop_last();
        assert(!labels_at(axioms, axioms.len() - 1, iri));
        assert forall|j: int| 0 <= j < rest.len() implies !labels_at(rest, j, iri) by {
            assert(rest[j] == axioms[j]);
            assert(!labels_at(axioms, j, iri));
        }
        never_labelled(rest, iri);
    }
}

/// The intersection of two named classes unpacks to the conjunction of the
/// two classes, in their order.
pub proof fn intersection_of_two_classes(names: Names, ce: ClassExpression, c1: String, c2: String)
    requires
        ce matches ClassExpression::ObjectIntersectionOf(v) && v@ == seq![
            ClassExpression::Class(c1),
            ClassExpression::Class(c2),
        ],
    ensures
        supported(ce),
        class_node(names, ce) == DisplayNode::And(
            seq![DisplayNode::Simple(names.entity(c1@)), DisplayNode::Simple(names.entity(c2@))],
        ),
{
    let v = ce->ObjectIntersectionOf_0;
    assert(class_nodes(names, v@) =~= seq![
        DisplayNode::Simple(names.entity(c1@)),
        DisplayNode::Simple(names.entity(c2@)),
    ]) by {
        assert(class_node(names, v@[0]) == DisplayNode::Simple(names.entity(c1@)));
        assert(class_node(names, v@[1]) == DisplayNode::Simple(names.entity(c2@)));
    }
    assert forall|i: int| 0 <= i < v.len() implies supported(#[trigger] v[i]) by {
        assert(v[i] == v@[i]);
    }
}

/// `SubClassOf(sup, sub)` between two named classes makes `sub` a subclass
/// of `sup`, and `sup` a superclass of `sub`.
pub proof fn subclass_relates_both_ways(names: Names, ax: Axiom, sup: String, sub: String)
    requires
        ax == (Axiom::SubClassOf {
            sup: ClassExpression::Class(sup),
            sub: ClassExpression::Class(sub),
        }),
    ensures
        relations_supported(seq![ax], sup@),
        relations_supported(seq![ax], sub@),
        relationships_of(names, seq![ax], sup@).subclasses == seq![
            DisplayNode::Simple(names.entity(sub@)),
        ],
        sup@ != sub@ ==> relationships_of(names, seq![ax], sub@).superclasses == seq![
            DisplayNode::Simple(names.entity(sup@)),
        ],
{
    let s = seq![ax];
    assert(s.drop_last() =~= Seq::<Axiom>::empty());
    assert(s.last() == ax);
    assert(relationships_of(names, s.drop_last(), sup@) == no_relationships());
    assert(relationships_of(names, s.drop_last(), sub@) == no_relationships());
    assert(relationships_of(names, s, sup@).subclasses =~= seq![
        DisplayNode::Simple(names.entity(sub@)),
    ]);
    if sup@ != sub@ {
        assert(relationships_of(names, s, sub@).superclasses =~= seq![
            DisplayNode::Simple(names.entity(sup@)),
        ]);
    }
}

/// Of three equivalent named classes, the middle one has the two others as
/// its equivalents, in their order, and not itself.
pub proof fn equivalents_leave_self_out(names: Names, ax: Axiom, x: String, y: String, z: String)
    requires
        ax matches Axiom::EquivalentClasses(v) && v@ == seq![
            ClassExpression::Class(x),
            ClassExpression::Class(y),
            ClassExpression::Class(z),
        ],
        x@ != y@,
        z@ != y@,
    ensures
        relations_supported(seq![ax], y@),
        relationships_of(names, seq![ax], y@).equivalent_classes == seq![
            DisplayNode::Simple(names.entity(x@)),
            DisplayNode::Simple(names.entity(z@)),
        ],
{
    let s = seq![ax];
    let v = ax->EquivalentClasses_0;
    let m = v@;
    assert(s.drop_last() =~= Seq::<Axiom>::empty());
    assert(s.last() == ax);
    assert(relationships_of(names, s.drop_last(), y@) == no_relationships());
    assert(is_class(m[1], y@));
    let m2 = m.drop_last();
    let m1 = m2.drop_last();
    let m0 = m1.drop_last();
    assert(m2.last() == m[1]);
    assert(m1.last() == m[0]);
    assert(m0.len() == 0);
    assert(others(names, m0, y@) =~= Seq::<DisplayNode>::empty());
    assert(others(names, m1, y@) =~= seq![DisplayNode::Simple(names.entity(x@))]);
    assert(others(names, m2, y@) == others(names, m1, y@));
    assert(others(names, m, y@) =~= seq![
        DisplayNode::Simple(names.entity(x@)),
        DisplayNode::Simple(names.entity(z@)),
    ]);
    assert(relationships_of(names, s, y@).equivalent_classes =~= others(names, m, y@));
    assert forall|i: int| 0 <= i < v.len() implies supported(#[trigger] v[i]) by {
        assert(v[i] == m[i]);
    }
}

/// The test that keeps every member but the named class `target`.
pub open spec fn other_than(target: Seq<char>) -> spec_fn(ClassExpression) -> bool {
    |m: ClassExpression| !is_class(m, target)
}

/// The unpacking of one member.
pub open spec fn unpacked(names: Names) -> spec_fn(ClassExpression) -> DisplayNode {
    |m: ClassExpression| class_node(names, m)
}

/// The equivalents that a set of classes gives a target are the members
/// other than the target, unpacked, in the order of the members.
pub proof fn others_are_the_rest(names: Names, members: Seq<ClassExpression>, target: Seq<char>)
    ensures
        others(names, members, target) == members.filter(other_than(target)).map_values(
            unpacked(names),
        ),
    decreases members.len(),
{
    reveal(Seq::filter);
    if members.len() > 0 {
        let rest = members.drop_last();
        others_are_the_rest(names, rest, target);
        let kept = rest.filter(other_than(target));
        if !is_class(members.last(), target) {
            assert(members.filter(other_than(target)) == kept.push(members.last()));
            assert(kept.push(members.last()).map_values(unpacked(names)) =~= kept.map_values(
                unpacked(names),
            ).push(class_node(names, members.last())));
        } else {
            assert(members.filter(other_than(target)) == kept);
        }
    } else {
        assert(members.filter(other_than(target)).map_values(unpacked(names)) =~= Seq::<
            DisplayNode,
        >::empty());
    }
}

/// `InverseObjectProperties(p, q)` makes each of the two the inverse of the
/// other.
pub proof fn inverse_relates_both_ways(names: Names, ax: Axiom, p: String, q: String)
    requires
        ax == Axiom::InverseObjectProperties(p, q),
    ensures
        relationships_of(names, seq![ax], p@).inverse_properties == seq![
            DisplayNode::Simple(names.entity(q@)),
        ],
        p@ != q@ ==> relationships_of(names, seq![ax], q@).inverse_properties == seq![
            DisplayNode::Simple(names.entity(p@)),
        ],
{
    let s = seq![ax];
    assert(s.drop_last() =~= Seq::<Axiom>::empty());
    assert(s.last() == ax);
    assert(relationships_of(names, s.drop_last(), p@) == no_relationships());
    assert(relationships_of(names, s.drop_last(), q@) == no_relationships());
    assert(relationships_of(names, s, p@).inverse_properties =~= seq![
        DisplayNode::Simple(names.entity(q@)),
    ]);
    if p@ != q@ {
        assert(relationships_of(names, s, q@).inverse_properties =~= seq![
            DisplayNode::Simple(names.entity(p@)),
        ]);
    }
}

/// An entity that no axiom declares has no page, and the reason is
/// `UnknownEntityKind`, whatever else the axioms say of it.
pub proof fn undeclared_has_no_page(axioms: Seq<Axiom>, target: Seq<char>)
    requires
        !declared(axioms, target),
    ensures
        page_error(axioms, target) == Some(RenderErrorKind::UnknownEntityKind),
{
}

/// A declared entity has no page exactly when an entry of it is not
/// supported, and the reason is then `UnsupportedConstruct`.
pub proof fn declared_fails_only_on_unsupported(axioms: Seq<Axiom>, target: Seq<char>)
    requires
        declared(axioms, target),
    ensures
        page_error(axioms, target) == if relations_supported(axioms, target) {
            None
        } else {
            Some(RenderErrorKind::UnsupportedConstruct)
        },
{
}

/// `inner` is `outer` or one of the class expressions that `outer` is
/// built from.
pub open spec fn part_of(inner: ClassExpression, outer: ClassExpression) -> bool
    decreases outer,
{
    ||| inner == outer
    ||| match outer {
        ClassExpression::ObjectIntersectionOf(v) => exists|i: int|
            0 <= i < v.len() && part_of(inner, #[trigger] v[i]),
        ClassExpression::ObjectUnionOf(v) => exists|i: int|
            0 <= i < v.len() && part_of(inner, #[trigger] v[i]),
        ClassExpression::ObjectComplementOf(b) => part_of(inner, *b),
        ClassExpression::ObjectSomeValuesFrom { ope, bce } => part_of(inner, *bce),
        ClassExpression::ObjectAllValuesFrom { ope, bce } => part_of(inner, *bce),
        ClassExpression::ObjectMinCardinality { n, ope, bce } => part_of(inner, *bce),
        ClassExpression::ObjectMaxCardinality { n, ope, bce } => part_of(inner, *bce),
        ClassExpression::ObjectExactCardinality { n, ope, bce } => part_of(inner, *bce),
        _ => false,
    }
}

/// A class expression with a part that is not supported is not supported.
pub proof fn unsupported_part_spoils_whole(inner: ClassExpression, outer: ClassExpression)
    requires
        part_of(inner, outer),
        !supported(inner),
    ensures
        !supported(outer),
    decreases outer,
{
    if inner != outer {
        match outer {
            ClassExpression::ObjectIntersectionOf(v) => {
                let i = choose|i: int| 0 <= i < v.len() && part_of(inner, #[trigger] v[i]);
                unsupported_part_spoils_whole(inner, v[i]);
            },
            ClassExpression::ObjectUnionOf(v) => {
                let i = choose|i: int| 0 <= i < v.len() && part_of(inner, #[trigger] v[i]);
                unsupported_part_spoils_whole(inner, v[i]);
            },
            ClassExpression::ObjectComplementOf(b) => {
                unsupported_part_spoils_whole(inner, *b);
            },
            ClassExpression::ObjectSomeValuesFrom { ope, bce } => {
                unsupported_part_spoils_whole(inner, *bce);
            },
            ClassExpression::ObjectAllValuesFrom { ope, bce } => {
                unsupported_part_spoils_whole(inner, *bce);
            },
            _ => {},
        }
    }
}

/// A class expression that holds an exact cardinality restriction anywhere
/// is not supported.
pub proof fn exact_cardinality_is_unsupported(inner: ClassExpression, outer: ClassExpression)
    requires
        inner is ObjectExactCardinality,
        part_of(inner, outer),
    ensures
        !supported(outer),
{
    unsupported_part_spoils_whole(inner, outer);
}

/// Every IRI among the declarations of a kind is declared.
pub proof fn listed_is_declared(axioms: Seq<Axiom>, kind: Kind, x: Seq<char>)
    requires
        declared_iris(axioms, kind).contains(x),
    ensures
        declared(axioms, x),
    decreases axioms.len(),
{
    if axioms.len() > 0 {
        let rest = axioms.drop_last();
        let r = declared_iris(rest, kind);
        let i = choose|i: int| 0 <= i < declared_iris(axioms, kind).len() && declared_iris(axioms, kind)[i] == x;
        if i < r.len() {
            assert(r[i] == x);
            listed_is_declared(rest, kind, x);
            let j = choose|j: int| 0 <= j < rest.len() && declared_kind(#[trigger] rest[j], x).is_some();
            assert(axioms[j] == rest[j]);
        } else {
            assert(declares(axioms.last(), kind) == Some(x));
            assert(declared_kind(axioms[axioms.len() - 1], x).is_some());
        }
    }
}

/// Every entity of the site is declared, and none is there twice.
pub proof fn site_entities_are_declared(axioms: Seq<Axiom>)
    ensures
        site_order(axioms).no_duplicates(),
        forall|i: int| 0 <= i < site_order(axioms).len() ==> declared(axioms, #[trigger] site_order(axioms)[i]),
{
    dedup_is_distinct(declarations(axioms));
    assert forall|i: int| 0 <= i < site_order(axioms).len() implies declared(
        axioms,
        #[trigger] site_order(axioms)[i],
    ) by {
        let x = site_order(axioms)[i];
        assert(site_order(axioms).contains(x));
        assert(declarations(axioms).contains(x));
        let a = declared_iris(axioms, Kind::Class);
        let b = declared_iris(axioms, Kind::NamedIndividual);
        let c = declared_iris(axioms, Kind::DataProperty);
        let d = declared_iris(axioms, Kind::ObjectProperty);
        let e = declared_iris(axioms, Kind::AnnotationProperty);
        let j = choose|j: int| 0 <= j < declarations(axioms).len() && declarations(axioms)[j] == x;
        if j < a.len() {
            assert(a[j] == x);
            listed_is_declared(axioms, Kind::Class, x);
        } else if j < a.len() + b.len() {
            assert(b[j - a.len()] == x);
            listed_is_declared(axioms, Kind::NamedIndividual, x);
        } else if j < a.len() + b.len() + c.len() {
            assert(c[j - a.len() - b.len()] == x);
            listed_is_declared(axioms, Kind::DataProperty, x);
        } else if j < a.len() + b.len() + c.len() + d.len() {
            assert(d[j - a.len() - b.len() - c.len()] == x);
            listed_is_declared(axioms, Kind::ObjectProperty, x);
        } else {
            assert(e[j - a.len() - b.len() - c.len() - d.len()] == x);
            listed_is_declared(axioms, Kind::AnnotationProperty, x);
        }
    }
}

/// Among declared entities a page fails only for a construct that is not
/// supported, and each entity has a page or a failure, never both.
pub proof fn failures_are_unsupported(names: Names, axioms: Seq<Axiom>, order: Seq<Seq<char>>)
    requires
        forall|i: int| 0 <= i < order.len() ==> declared(axioms, #[trigger] order[i]),
    ensures
        forall|i: int|
            0 <= i < failures_of(axioms, order).len() ==> (#[trigger] failures_of(axioms, order)[i]).error
                == RenderErrorKind::UnsupportedConstruct,
        pages_of(names, axioms, order).len() + failures_of(axioms, order).len() == order.len(),
    decreases order.len(),
{
    if order.len() > 0 {
        let rest = order.drop_last();
        assert forall|i: int| 0 <= i < rest.len() implies declared(axioms, #[trigger] rest[i]) by {
            assert(rest[i] == order[i]);
        }
        failures_are_unsupported(names, axioms, rest);
        assert(declared(axioms, order[order.len() - 1]));
    }
}

/// In a whole site no page fails for want of a declaration.
pub proof fn site_failures_are_unsupported(names: Names, axioms: Seq<Axiom>)
    ensures
        forall|i: int|
            0 <= i < failures_of(axioms, site_order(axioms)).len() ==> (#[trigger] failures_of(
                axioms,
                site_order(axioms),
            )[i]).error == RenderErrorKind::UnsupportedConstruct,
        pages_of(names, axioms, site_order(axioms)).len() + failures_of(
            axioms,
            site_order(axioms),
        ).len() == site_order(axioms).len(),
{
    site_entities_are_declared(axioms);
    failures_are_unsupported(names, axioms, site_order(axioms));
}

} // verus!
